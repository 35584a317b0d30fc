//! The settings of the recorder and the client.

use vstd::prelude::*;
use crate::text::{chars_of, owned, push_char, push_str};

verus! {

broadcast use vstd::string::group_string_axioms;

/// The settings shared by the daemon and the client.
#[derive(Clone, Debug)]
pub struct Config {
    /// Folder where clips are saved.
    pub save_path: String,
    /// Program that records the screen.
    pub recorder_path: String,
    /// Length of the replay buffer.
    pub replay_seconds: u32,
    /// Key code name of the hotkey that saves the replay.
    pub hotkey_replay: String,
    /// Key code name of the hotkey that toggles recording.
    pub hotkey_record: String,
    /// Modifier bits of the replay hotkey.
    pub hotkey_replay_mod: u32,
    /// Modifier bits of the record hotkey.
    pub hotkey_record_mod: u32,
    pub audio_output: String,
    pub audio_input: String,
    pub quality: String,
    pub fps: u32,
    pub resolution: String,
    /// Monitor to capture, `screen` for all of them.
    pub monitor: String,
    /// PCI identifier of the encoding card, `Auto` to let the recorder pick.
    pub gpu: String,
}

/// `rel` joined onto `base` as `PathBuf::join` does: an absolute `rel`
/// replaces `base`; otherwise a `/` is put between them unless `base` is
/// empty or already ends with one.
pub open spec fn join_path(base: Seq<char>, rel: Seq<char>) -> Seq<char> {
    if rel.len() > 0 && rel[0] == '/' {
        rel
    } else if base.len() > 0 && base.last() != '/' {
        base + seq!['/'] + rel
    } else {
        base + rel
    }
}

/// `rel` joined onto `base` as a path.
pub fn join(base: &str, rel: &str) -> (r: String)
    ensures
        r@ == join_path(base@, rel@),
{
    let b = chars_of(base);
    let rv = chars_of(rel);
    if rv.len() > 0 && rv[0] == '/' {
        let mut r = String::new();
        push_str(&mut r, rel);
        assert(r@ =~= rel@);
        return r;
    }
    let mut r = String::new();
    push_str(&mut r, base);
    if b.len() > 0 && b[b.len() - 1] != '/' {
        push_char(&mut r, '/');
    }
    push_str(&mut r, rel);
    assert(r@ =~= join_path(base@, rel@));
    r
}

/// The default save folder under a home folder: `Videos/Lapse` in it.
pub open spec fn default_save_path(home: Seq<char>) -> Seq<char> {
    join_path(home, "Videos/Lapse"@)
}

/// Whether `c` holds the default settings for the home folder `home`.
pub open spec fn is_default_for(c: Config, home: Seq<char>) -> bool {
    &&& c.save_path@ == default_save_path(home)
    &&& c.recorder_path@ == "gpu-screen-recorder"@
    &&& c.replay_seconds == 60
    &&& c.hotkey_replay@ == "F10"@
    &&& c.hotkey_record@ == "F9"@
    &&& c.hotkey_replay_mod == 0
    &&& c.hotkey_record_mod == 0
    &&& c.audio_output@ == "default_output"@
    &&& c.audio_input@ == "default_input"@
    &&& c.quality@ == "high"@
    &&& c.fps == 60
    &&& c.resolution@ == "1920x1080"@
    &&& c.monitor@ == "screen"@
    &&& c.gpu@ == "Auto"@
}

impl Config {
    /// The default settings, saving clips under the home folder `home`.
    pub fn for_home(home: &str) -> (c: Config)
        ensures
            is_default_for(c, home@),
    {
        Config {
            save_path: join(home, "Videos/Lapse"),
            recorder_path: owned("gpu-screen-recorder"),
            replay_seconds: 60,
            hotkey_replay: owned("F10"),
            hotkey_record: owned("F9"),
            hotkey_replay_mod: 0,
            hotkey_record_mod: 0,
            audio_output: owned("default_output"),
            audio_input: owned("default_input"),
            quality: owned("high"),
            fps: 60,
            resolution: owned("1920x1080"),
            monitor: owned("screen"),
            gpu: owned("Auto"),
        }
    }

    /// A copy of these settings.
    pub fn duplicate(&self) -> (c: Config)
        ensures
            c == *self,
    {
        Config {
            save_path: self.save_path.clone(),
            recorder_path: self.recorder_path.clone(),
            replay_seconds: self.replay_seconds,
            hotkey_replay: self.hotkey_replay.clone(),
            hotkey_record: self.hotkey_record.clone(),
            hotkey_replay_mod: self.hotkey_replay_mod,
            hotkey_record_mod: self.hotkey_record_mod,
            audio_output: self.audio_output.clone(),
            audio_input: self.audio_input.clone(),
            quality: self.quality.clone(),
            fps: self.fps,
            resolution: self.resolution.clone(),
            monitor: self.monitor.clone(),
            gpu: self.gpu.clone(),
        }
    }
}

} // verus!
