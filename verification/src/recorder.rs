//! The recorder process: when to launch, stop and signal the screen
//! recorder, and with which arguments and environment.

use vstd::prelude::*;
use crate::config::{join, join_path, Config};
use crate::text::{
    chars_of, dec_digits, decimal_string, owned, push_decimal, push_str, same_chars, strings_are,
};

verus! {

broadcast use vstd::string::group_string_axioms;

/// What the recorder is doing.
#[derive(Clone, Copy, PartialEq, Eq, Structural, Debug)]
pub enum RecordingMode {
    /// No recorder process runs.
    Idle,
    /// The recorder keeps a replay buffer.
    Replay,
    /// The recorder writes a manual recording to a file.
    Recording,
}

/// What the caller has to do for the recorder.
pub enum RecorderAction {
    /// Nothing.
    Nothing,
    /// Kill and wait for the process `replacing`, if there is one; make sure
    /// `save_dir` exists; then start `program` with `args` and the
    /// environment entries `env` added, and report the process with
    /// `Recorder::launched` and `mode`.
    Launch {
        program: String,
        args: Vec<String>,
        env: Vec<(String, String)>,
        save_dir: String,
        mode: RecordingMode,
        replacing: Option<u32>,
    },
    /// Kill the process `pid` and wait for it.
    Terminate { pid: u32 },
    /// Run `kill` with `kill_args` so that the process saves its replay
    /// buffer, then tell the user that it went to `save_dir`.
    SaveClip { pid: u32, kill_args: Vec<String>, save_dir: String },
}

/// Whether an audio device setting names a device to record.
pub open spec fn audio_usable(s: Seq<char>) -> bool {
    s.len() > 0 && s != "None"@
}

/// The recorder arguments that add an audio track from `device`, if it
/// names one.
pub open spec fn audio_args(device: Seq<char>) -> Seq<Seq<char>> {
    if audio_usable(device) {
        seq!["-a"@, device]
    } else {
        seq![]
    }
}

/// What the recorder captures: the chosen monitor, or every screen where
/// none is chosen.
pub open spec fn capture_target(c: Config) -> Seq<char> {
    if c.monitor@.len() > 0 {
        c.monitor@
    } else {
        "screen"@
    }
}

/// The environment entries that select the encoding card: `DRI_PRIME` set
/// to the chosen card's PCI identifier, none where the card is left to the
/// recorder (`Auto` or empty).
pub open spec fn gpu_env(c: Config) -> Seq<(Seq<char>, Seq<char>)> {
    if c.gpu@.len() > 0 && c.gpu@ != "Auto"@ {
        seq![("DRI_PRIME"@, c.gpu@)]
    } else {
        seq![]
    }
}

/// The arguments that start the screen recorder in replay mode: the capture
/// target, the frame rate, the replay length, mp4 output into the save
/// folder, then a track for the speaker and one for the microphone where
/// they name a device.
pub open spec fn replay_args(c: Config) -> Seq<Seq<char>> {
    seq![
        "-w"@,
        capture_target(c),
        "-f"@,
        dec_digits(c.fps as nat),
        "-r"@,
        dec_digits(c.replay_seconds as nat),
        "-c"@,
        "mp4"@,
        "-o"@,
        c.save_path@,
    ] + audio_args(c.audio_output@) + audio_args(c.audio_input@)
}

/// The file of a manual recording named `file_name` in the save folder.
pub open spec fn recording_output(c: Config, file_name: Seq<char>) -> Seq<char> {
    join_path(c.save_path@, file_name)
}

/// The arguments that start a manual recording into the file `output`: as
/// for the replay buffer, without a replay length.
pub open spec fn recording_args(c: Config, output: Seq<char>) -> Seq<Seq<char>> {
    seq!["-w"@, capture_target(c), "-f"@, dec_digits(c.fps as nat), "-c"@, "mp4"@, "-o"@, output]
        + audio_args(c.audio_output@) + audio_args(c.audio_input@)
}

/// A manual recording gets the same audio tracks as the replay buffer for
/// the same settings: its arguments are those of the replay buffer without
/// the replay length, and from the output file on both end alike.
pub proof fn lemma_recording_audio_as_replay(c: Config, output: Seq<char>)
    ensures
        recording_args(c, output).len() + 2 == replay_args(c).len(),
        recording_args(c, output).skip(8) == replay_args(c).skip(10),
        recording_args(c, output)[7] == output,
        replay_args(c)[9] == c.save_path@,
{
    let tail = audio_args(c.audio_output@) + audio_args(c.audio_input@);
    assert(recording_args(c, output).skip(8) =~= tail);
    assert(replay_args(c).skip(10) =~= tail);
}

/// The audio part of a manual recording's arguments: a pair `-a`, device
/// for the speaker setting and then one for the microphone setting, each
/// only where the setting is non-empty and not `None`; so no `-a` is ever
/// followed by an empty name or by `None`.
pub proof fn lemma_recording_audio_tracks(c: Config, output: Seq<char>)
    ensures
        recording_args(c, output).len() == 8 + (if c.audio_output@.len() > 0
            && c.audio_output@ != "None"@ {
            2int
        } else {
            0int
        }) + (if c.audio_input@.len() > 0 && c.audio_input@ != "None"@ {
            2int
        } else {
            0int
        }),
        forall|i: int|
            8 <= i < recording_args(c, output).len() && (i - 8) % 2 == 0 ==> {
                &&& #[trigger] recording_args(c, output)[i] == "-a"@
                &&& recording_args(c, output)[i + 1].len() > 0
                &&& recording_args(c, output)[i + 1] != "None"@
                &&& (recording_args(c, output)[i + 1] == c.audio_output@
                    || recording_args(c, output)[i + 1] == c.audio_input@)
            },
        c.audio_output@.len() > 0 && c.audio_output@ != "None"@ ==> recording_args(c, output)[8]
            == "-a"@ && recording_args(c, output)[9] == c.audio_output@,
        c.audio_input@.len() > 0 && c.audio_input@ != "None"@ ==> recording_args(
            c,
            output,
        )[recording_args(c, output).len() - 2] == "-a"@ && recording_args(c, output).last()
            == c.audio_input@,
{
    let a = recording_args(c, output);
    assert forall|i: int| 8 <= i < a.len() && (i - 8) % 2 == 0 implies {
        &&& #[trigger] a[i] == "-a"@
        &&& a[i + 1].len() > 0
        &&& a[i + 1] != "None"@
        &&& (a[i + 1] == c.audio_output@ || a[i + 1] == c.audio_input@)
    } by {
        if audio_usable(c.audio_output@) && i == 10 {
            assert(a[i + 1] == c.audio_input@);
        }
    }
}

/// The name of a manual recording started at `unix_secs`.
pub open spec fn recording_name(unix_secs: u64) -> Seq<char> {
    "Recording_"@ + dec_digits(unix_secs as nat) + ".mp4"@
}

/// The arguments of `kill` that make the recorder `pid` save its replay.
pub open spec fn save_signal_args(pid: u32) -> Seq<Seq<char>> {
    seq!["-SIGUSR1"@, dec_digits(pid as nat)]
}

/// Whether the strings of `v` hold exactly the pairs of `q`.
pub open spec fn pairs_are(v: Seq<(String, String)>, q: Seq<(Seq<char>, Seq<char>)>) -> bool {
    v.len() == q.len() && forall|i: int|
        0 <= i < v.len() ==> (#[trigger] v[i]).0@ == q[i].0 && v[i].1@ == q[i].1
}

/// Whether `a` launches the recorder for the settings `c` with the
/// arguments `args`, in `mode`, after killing `replacing`.
pub open spec fn launches(
    a: RecorderAction,
    c: Config,
    expected: Seq<Seq<char>>,
    mode: RecordingMode,
    replacing: Option<u32>,
) -> bool {
    match a {
        RecorderAction::Launch { program, args, env, save_dir, mode: m, replacing: r } => {
            &&& program@ == c.recorder_path@
            &&& strings_are(args@, expected)
            &&& pairs_are(env@, gpu_env(c))
            &&& save_dir@ == c.save_path@
            &&& m == mode
            &&& r == replacing
        },
        _ => false,
    }
}

/// Whether `a` launches the replay recorder for the settings `c`.
pub open spec fn launches_replay(a: RecorderAction, c: Config) -> bool {
    launches(a, c, replay_args(c), RecordingMode::Replay, None)
}

/// Whether `a` makes the recorder `pid` save its replay into the save
/// folder of `c`.
pub open spec fn saves_clip(a: RecorderAction, pid: u32, c: Config) -> bool {
    match a {
        RecorderAction::SaveClip { pid: p, kill_args, save_dir } => {
            &&& p == pid
            &&& strings_are(kill_args@, save_signal_args(pid))
            &&& save_dir@ == c.save_path@
        },
        _ => false,
    }
}

fn push_audio_args(args: &mut Vec<String>, device: &String, Ghost(prefix): Ghost<Seq<Seq<char>>>)
    requires
        strings_are(old(args)@, prefix),
    ensures
        strings_are(final(args)@, prefix + audio_args(device@)),
{
    let d = chars_of(device.as_str());
    let none = chars_of("None");
    if d.len() > 0 && !same_chars(&d, &none) {
        args.push(owned("-a"));
        args.push(device.clone());
    }
    assert(strings_are(args@, prefix + audio_args(device@)));
}

/// What the recorder captures for the settings `c`.
pub fn capture_target_of(c: &Config) -> (s: String)
    ensures
        s@ == capture_target(*c),
{
    if chars_of(c.monitor.as_str()).len() > 0 {
        c.monitor.clone()
    } else {
        owned("screen")
    }
}

/// The environment entries that select the encoding card.
pub fn gpu_environment(c: &Config) -> (env: Vec<(String, String)>)
    ensures
        pairs_are(env@, gpu_env(*c)),
{
    let g = chars_of(c.gpu.as_str());
    let auto = chars_of("Auto");
    let mut env: Vec<(String, String)> = Vec::new();
    if g.len() > 0 && !same_chars(&g, &auto) {
        env.push((owned("DRI_PRIME"), c.gpu.clone()));
    }
    env
}

/// The arguments that start the replay recorder for the settings `c`.
pub fn replay_arguments(c: &Config) -> (args: Vec<String>)
    ensures
        strings_are(args@, replay_args(*c)),
{
    let mut args: Vec<String> = Vec::new();
    args.push(owned("-w"));
    args.push(capture_target_of(c));
    args.push(owned("-f"));
    args.push(decimal_string(c.fps as u64));
    args.push(owned("-r"));
    args.push(decimal_string(c.replay_seconds as u64));
    args.push(owned("-c"));
    args.push(owned("mp4"));
    args.push(owned("-o"));
    args.push(c.save_path.clone());
    let ghost base = seq![
        "-w"@,
        capture_target(*c),
        "-f"@,
        dec_digits(c.fps as nat),
        "-r"@,
        dec_digits(c.replay_seconds as nat),
        "-c"@,
        "mp4"@,
        "-o"@,
        c.save_path@,
    ];
    assert(strings_are(args@, base));
    push_audio_args(&mut args, &c.audio_output, Ghost(base));
    push_audio_args(&mut args, &c.audio_input, Ghost(base + audio_args(c.audio_output@)));
    args
}

/// The arguments that start a manual recording into `output`.
pub fn recording_arguments(c: &Config, output: &str) -> (args: Vec<String>)
    ensures
        strings_are(args@, recording_args(*c, output@)),
{
    let mut args: Vec<String> = Vec::new();
    args.push(owned("-w"));
    args.push(capture_target_of(c));
    args.push(owned("-f"));
    args.push(decimal_string(c.fps as u64));
    args.push(owned("-c"));
    args.push(owned("mp4"));
    args.push(owned("-o"));
    args.push(owned(output));
    let ghost base = seq![
        "-w"@,
        capture_target(*c),
        "-f"@,
        dec_digits(c.fps as nat),
        "-c"@,
        "mp4"@,
        "-o"@,
        output@,
    ];
    assert(strings_are(args@, base));
    push_audio_args(&mut args, &c.audio_output, Ghost(base));
    push_audio_args(&mut args, &c.audio_input, Ghost(base + audio_args(c.audio_output@)));
    args
}

/// The file name of a manual recording started at `unix_secs`:
/// `Recording_<seconds>.mp4`.
pub fn recording_file_name(unix_secs: u64) -> (s: String)
    ensures
        s@ == recording_name(unix_secs),
{
    let mut s = String::new();
    push_str(&mut s, "Recording_");
    push_decimal(&mut s, unix_secs);
    push_str(&mut s, ".mp4");
    assert(s@ =~= recording_name(unix_secs));
    s
}

/// The state of the screen recorder process.
pub struct Recorder {
    process: Option<u32>,
    mode: RecordingMode,
    config: Config,
}

impl Recorder {
    /// A running process is always in a recording mode.
    #[verifier::type_invariant]
    closed spec fn mode_matches_process(self) -> bool {
        self.process is Some ==> self.mode != RecordingMode::Idle
    }

    /// The process id of the running recorder, if one runs.
    pub closed spec fn process(&self) -> Option<u32> {
        self.process
    }

    /// What the recorder is doing: idle while no process runs.
    pub closed spec fn mode(&self) -> RecordingMode {
        if self.process is None {
            RecordingMode::Idle
        } else {
            self.mode
        }
    }

    /// The settings the recorder runs with.
    pub closed spec fn settings(&self) -> Config {
        self.config
    }

    /// A recorder with no process, for the settings `config`.
    pub fn new(config: Config) -> (r: Recorder)
        ensures
            r.process() is None,
            r.mode() == RecordingMode::Idle,
            r.settings() == config,
    {
        Recorder { process: None, mode: RecordingMode::Idle, config }
    }

    /// The settings the recorder runs with.
    pub fn config(&self) -> (c: &Config)
        ensures
            *c == self.settings(),
    {
        &self.config
    }

    /// Whether a recorder process runs.
    pub fn is_running(&self) -> (b: bool)
        ensures
            b == self.process() is Some,
            b == (self.mode() != RecordingMode::Idle),
    {
        proof {
            use_type_invariant(self);
        }
        self.process.is_some()
    }

    /// What the recorder is doing.
    pub fn current_mode(&self) -> (m: RecordingMode)
        ensures
            m == self.mode(),
    {
        if self.process.is_some() {
            self.mode
        } else {
            RecordingMode::Idle
        }
    }

    fn launch(&self, args: Vec<String>, mode: RecordingMode, replacing: Option<u32>) -> (a:
        RecorderAction)
        ensures
            a matches RecorderAction::Launch { program, args: ar, env, save_dir, mode: m, replacing: r }
                && ar == args && m == mode && r == replacing && program@
                == self.settings().recorder_path@ && pairs_are(env@, gpu_env(self.settings()))
                && save_dir@ == self.settings().save_path@,
    {
        RecorderAction::Launch {
            program: self.config.recorder_path.clone(),
            args,
            env: gpu_environment(&self.config),
            save_dir: self.config.save_path.clone(),
            mode,
            replacing,
        }
    }

    /// Starts the replay buffer: nothing to do while a process runs,
    /// otherwise launch the recorder for the current settings.
    pub fn start_replay(&self) -> (a: RecorderAction)
        ensures
            self.process() is Some ==> a is Nothing,
            self.process() is None ==> launches_replay(a, self.settings()),
    {
        if self.process.is_some() {
            return RecorderAction::Nothing;
        }
        let args = replay_arguments(&self.config);
        self.launch(args, RecordingMode::Replay, None)
    }

    /// Starts a manual recording into `file_name` in the save folder:
    /// nothing to do while one runs; a running replay buffer is replaced
    /// by it.
    pub fn start_recording(&mut self, file_name: &str) -> (a: RecorderAction)
        ensures
            final(self).settings() == old(self).settings(),
            old(self).mode() == RecordingMode::Recording ==> a is Nothing && *final(self) == *old(
                self,
            ),
            old(self).mode() != RecordingMode::Recording ==> {
                &&& final(self).process() is None
                &&& launches(
                    a,
                    old(self).settings(),
                    recording_args(
                        old(self).settings(),
                        recording_output(old(self).settings(), file_name@),
                    ),
                    RecordingMode::Recording,
                    old(self).process(),
                )
            },
    {
        if self.process.is_some() && self.mode == RecordingMode::Recording {
            return RecorderAction::Nothing;
        }
        let replacing = self.process;
        self.process = None;
        let output = join(self.config.save_path.as_str(), file_name);
        let args = recording_arguments(&self.config, output.as_str());
        self.launch(args, RecordingMode::Recording, replacing)
    }

    /// The record hotkey: ends a manual recording and brings the replay
    /// buffer back, or starts a manual recording into `file_name`.
    pub fn toggle_recording(&mut self, file_name: &str) -> (a: RecorderAction)
        ensures
            final(self).settings() == old(self).settings(),
            final(self).process() is None,
            old(self).mode() == RecordingMode::Recording ==> launches(
                a,
                old(self).settings(),
                replay_args(old(self).settings()),
                RecordingMode::Replay,
                old(self).process(),
            ),
            old(self).mode() != RecordingMode::Recording ==> launches(
                a,
                old(self).settings(),
                recording_args(
                    old(self).settings(),
                    recording_output(old(self).settings(), file_name@),
                ),
                RecordingMode::Recording,
                old(self).process(),
            ),
    {
        if self.process.is_some() && self.mode == RecordingMode::Recording {
            let replacing = self.process;
            self.process = None;
            let args = replay_arguments(&self.config);
            return self.launch(args, RecordingMode::Replay, replacing);
        }
        self.start_recording(file_name)
    }

    /// Records that the recorder process `pid` was started in `mode`.
    pub fn launched(&mut self, pid: u32, mode: RecordingMode)
        requires
            mode != RecordingMode::Idle,
        ensures
            final(self).process() == Some(pid),
            final(self).mode() == mode,
            final(self).settings() == old(self).settings(),
    {
        self.mode = mode;
        self.process = Some(pid);
    }

    /// Stops the recorder: the process, if one runs, is forgotten and has
    /// to be terminated.
    pub fn stop(&mut self) -> (a: RecorderAction)
        ensures
            final(self).process() is None,
            final(self).mode() == RecordingMode::Idle,
            final(self).settings() == old(self).settings(),
            match old(self).process() {
                Some(pid) => a == (RecorderAction::Terminate { pid }),
                None => a is Nothing,
            },
    {
        let old_process = self.process;
        self.process = None;
        match old_process {
            Some(pid) => RecorderAction::Terminate { pid },
            None => RecorderAction::Nothing,
        }
    }

    /// Saves the replay buffer: the recorder is signalled while it keeps a
    /// replay buffer; nothing happens otherwise.
    pub fn save_replay(&self) -> (a: RecorderAction)
        ensures
            match self.process() {
                Some(pid) => if self.mode() == RecordingMode::Replay {
                    saves_clip(a, pid, self.settings())
                } else {
                    a is Nothing
                },
                None => a is Nothing,
            },
    {
        match self.process {
            Some(pid) => {
                if self.mode != RecordingMode::Replay {
                    return RecorderAction::Nothing;
                }
                let mut kill_args: Vec<String> = Vec::new();
                kill_args.push(owned("-SIGUSR1"));
                kill_args.push(decimal_string(pid as u64));
                RecorderAction::SaveClip { pid, kill_args, save_dir: self.config.save_path.clone() }
            },
            None => RecorderAction::Nothing,
        }
    }

    /// Replaces the settings; a running process keeps running.
    pub fn update_config(&mut self, config: Config)
        ensures
            final(self).settings() == config,
            final(self).process() == old(self).process(),
            final(self).mode() == old(self).mode(),
    {
        proof {
            use_type_invariant(&*self);
        }
        self.config = config;
    }
}

} // verus!
