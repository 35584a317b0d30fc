//! The requests that the client sends to the daemon, its answers, and how
//! the daemon decides them.

use vstd::prelude::*;
use crate::config::Config;
use crate::recorder::{Recorder, RecorderAction, RecordingMode};
use crate::text::owned;

verus! {

broadcast use vstd::string::group_string_axioms;

/// A request to the daemon.
#[derive(Clone, Copy, PartialEq, Eq, Structural, Debug)]
pub enum Command {
    GetStatus,
    StartReplay,
    SaveReplay,
    StartRecording,
    Stop,
    ReloadConfig,
}

/// What the daemon reports of the recorder.
#[derive(Clone, PartialEq, Debug)]
pub struct StatusResponse {
    /// Whether a recorder process runs.
    pub recording: bool,
    /// The name of what the recorder is doing.
    pub mode: String,
    /// Whether the screen recorder program is installed.
    pub is_installed: bool,
}

/// The daemon's answer to a request.
#[derive(Clone, PartialEq, Debug)]
pub enum Response {
    Status(StatusResponse),
    /// The request was carried out.
    Success,
    Error(String),
}

/// The name under which a recording mode is reported.
pub open spec fn mode_name(m: RecordingMode) -> Seq<char> {
    match m {
        RecordingMode::Idle => "None"@,
        RecordingMode::Replay => "Replay"@,
        RecordingMode::Recording => "Recording"@,
    }
}

/// The name under which a recording mode is reported.
pub fn mode_label(m: RecordingMode) -> (s: String)
    ensures
        s@ == mode_name(m),
{
    match m {
        RecordingMode::Idle => owned("None"),
        RecordingMode::Replay => owned("Replay"),
        RecordingMode::Recording => owned("Recording"),
    }
}

/// Whether `r` is the error answer with the message `msg`.
pub open spec fn is_error(r: Response, msg: Seq<char>) -> bool {
    r matches Response::Error(m) && m@ == msg
}

/// What the daemon does with a request.
pub struct Handled {
    /// The answer to send back.
    pub response: Response,
    /// What has to be done for the recorder.
    pub action: RecorderAction,
    /// Whether the hotkeys have to be registered again from the reloaded
    /// settings.
    pub reload_hotkeys: bool,
}

/// Decides a request. `lock_acquired` tells whether the recorder could be
/// locked, `installed` whether the screen recorder program is installed,
/// and `reloaded` the settings read again from disk for `ReloadConfig`
/// (`None` where they could not be read); `recording_file` names the file
/// of a manual recording that `StartRecording` starts. The recorder is only
/// read or changed when it could be locked.
pub fn handle_command(
    cmd: Command,
    recorder: &mut Recorder,
    lock_acquired: bool,
    installed: bool,
    reloaded: Option<Config>,
    recording_file: &str,
) -> (h: Handled)
    ensures
        !lock_acquired ==> *final(recorder) == *old(recorder),
        cmd != Command::ReloadConfig && !lock_acquired ==> is_error(h.response, "Lock failed"@)
            && h.action is Nothing && !h.reload_hotkeys,
        cmd == Command::GetStatus && lock_acquired ==> {
            &&& *final(recorder) == *old(recorder)
            &&& h.action is Nothing
            &&& !h.reload_hotkeys
            &&& h.response matches Response::Status(s) && s.recording == old(recorder).process() is Some
                && s.is_installed == installed && s.mode@ == mode_name(old(recorder).mode())
        },
        cmd == Command::StartReplay && lock_acquired ==> {
            &&& *final(recorder) == *old(recorder)
            &&& h.response is Success
            &&& !h.reload_hotkeys
            &&& old(recorder).process() is Some ==> h.action is Nothing
            &&& old(recorder).process() is None ==> crate::recorder::launches_replay(
                h.action,
                old(recorder).settings(),
            )
        },
        cmd == Command::SaveReplay && lock_acquired ==> {
            &&& *final(recorder) == *old(recorder)
            &&& h.response is Success
            &&& !h.reload_hotkeys
            &&& match old(recorder).process() {
                Some(pid) => if old(recorder).mode() == RecordingMode::Replay {
                    crate::recorder::saves_clip(h.action, pid, old(recorder).settings())
                } else {
                    h.action is Nothing
                },
                None => h.action is Nothing,
            }
        },
        cmd == Command::StartRecording && lock_acquired ==> {
            &&& h.response is Success
            &&& !h.reload_hotkeys
            &&& final(recorder).settings() == old(recorder).settings()
            &&& old(recorder).mode() == RecordingMode::Recording ==> h.action is Nothing
                && *final(recorder) == *old(recorder)
            &&& old(recorder).mode() != RecordingMode::Recording ==> {
                &&& final(recorder).process() is None
                &&& crate::recorder::launches(
                    h.action,
                    old(recorder).settings(),
                    crate::recorder::recording_args(
                        old(recorder).settings(),
                        crate::recorder::recording_output(old(recorder).settings(), recording_file@),
                    ),
                    RecordingMode::Recording,
                    old(recorder).process(),
                )
            }
        },
        cmd == Command::Stop && lock_acquired ==> {
            &&& final(recorder).process() is None
            &&& final(recorder).settings() == old(recorder).settings()
            &&& h.response is Success
            &&& !h.reload_hotkeys
            &&& match old(recorder).process() {
                Some(pid) => h.action == (RecorderAction::Terminate { pid }),
                None => h.action is Nothing,
            }
        },
        cmd == Command::ReloadConfig ==> {
            &&& h.action is Nothing
            &&& match reloaded {
                Some(c) => {
                    &&& h.response is Success
                    &&& h.reload_hotkeys
                    &&& final(recorder).process() == old(recorder).process()
                    &&& final(recorder).mode() == old(recorder).mode()
                    &&& lock_acquired ==> final(recorder).settings() == c
                    &&& !lock_acquired ==> *final(recorder) == *old(recorder)
                },
                None => {
                    &&& is_error(h.response, "Failed to load config"@)
                    &&& !h.reload_hotkeys
                    &&& *final(recorder) == *old(recorder)
                },
            }
        },
{
    if cmd == Command::ReloadConfig {
        return match reloaded {
            Some(c) => {
                if lock_acquired {
                    recorder.update_config(c);
                }
                Handled { response: Response::Success, action: RecorderAction::Nothing, reload_hotkeys: true }
            },
            None => Handled {
                response: Response::Error(owned("Failed to load config")),
                action: RecorderAction::Nothing,
                reload_hotkeys: false,
            },
        };
    }
    if !lock_acquired {
        return Handled {
            response: Response::Error(owned("Lock failed")),
            action: RecorderAction::Nothing,
            reload_hotkeys: false,
        };
    }
    match cmd {
        Command::GetStatus => {
            let mode = recorder.current_mode();
            Handled {
                response: Response::Status(
                    StatusResponse {
                        recording: recorder.is_running(),
                        mode: mode_label(mode),
                        is_installed: installed,
                    },
                ),
                action: RecorderAction::Nothing,
                reload_hotkeys: false,
            }
        },
        Command::StartReplay => Handled {
            response: Response::Success,
            action: recorder.start_replay(),
            reload_hotkeys: false,
        },
        Command::SaveReplay => Handled {
            response: Response::Success,
            action: recorder.save_replay(),
            reload_hotkeys: false,
        },
        Command::StartRecording => Handled {
            response: Response::Success,
            action: recorder.start_recording(recording_file),
            reload_hotkeys: false,
        },
        Command::Stop => {
            let action = recorder.stop();
            Handled { response: Response::Success, action, reload_hotkeys: false }
        },
        Command::ReloadConfig => Handled {
            response: Response::Success,
            action: RecorderAction::Nothing,
            reload_hotkeys: true,
        },
    }
}

} // verus!
