//! Decisions of the client window: the tabs, the engine buttons, the
//! status it shows, and the requests it sends.

use vstd::prelude::*;
use crate::devices::MonitorDevice;
use crate::ipc::{Command, Response, StatusResponse};
use crate::text::push_str;

verus! {

broadcast use vstd::string::group_string_axioms;

/// The page that the window shows.
#[derive(PartialEq, Eq, Structural, Clone, Copy, Debug)]
pub enum ActiveTab {
    Library,
    Settings,
}

/// A button of the engine panel.
#[derive(PartialEq, Eq, Structural, Clone, Copy, Debug)]
pub enum EngineButton {
    StartEngine,
    SaveClip,
    StopEngine,
}

/// Whether the last status says that the recorder program is installed;
/// it is taken to be until a status says otherwise.
pub open spec fn shows_installed(last: Option<StatusResponse>) -> bool {
    match last {
        Some(s) => s.is_installed,
        None => true,
    }
}

/// Whether the last status says that the recorder runs; it is taken not to
/// until a status says so.
pub open spec fn shows_recording(last: Option<StatusResponse>) -> bool {
    match last {
        Some(s) => s.recording,
        None => false,
    }
}

/// The buttons of the engine panel: none while the recorder program is
/// missing, a start button while the recorder is stopped, and the save and
/// stop buttons while it runs.
pub open spec fn engine_buttons_for(last: Option<StatusResponse>) -> Seq<EngineButton> {
    if !shows_installed(last) {
        seq![]
    } else if !shows_recording(last) {
        seq![EngineButton::StartEngine]
    } else {
        seq![EngineButton::SaveClip, EngineButton::StopEngine]
    }
}

/// The buttons of the engine panel for the last status.
pub fn engine_buttons(last: &Option<StatusResponse>) -> (r: Vec<EngineButton>)
    ensures
        r@ == engine_buttons_for(*last),
{
    let installed = match last {
        Some(s) => s.is_installed,
        None => true,
    };
    let recording = match last {
        Some(s) => s.recording,
        None => false,
    };
    let mut r: Vec<EngineButton> = Vec::new();
    if !installed {
    } else if !recording {
        r.push(EngineButton::StartEngine);
    } else {
        r.push(EngineButton::SaveClip);
        r.push(EngineButton::StopEngine);
    }
    assert(r@ =~= engine_buttons_for(*last));
    r
}

/// The request that an engine button sends.
pub fn button_command(b: EngineButton) -> (c: Command)
    ensures
        c == match b {
            EngineButton::StartEngine => Command::StartReplay,
            EngineButton::SaveClip => Command::SaveReplay,
            EngineButton::StopEngine => Command::Stop,
        },
{
    match b {
        EngineButton::StartEngine => Command::StartReplay,
        EngineButton::SaveClip => Command::SaveReplay,
        EngineButton::StopEngine => Command::Stop,
    }
}

/// The status to show after a poll: the status that the daemon sent, or
/// the last one where the daemon sent no status.
pub fn absorb_status(last: Option<StatusResponse>, reply: Option<Response>) -> (r: Option<
    StatusResponse,
>)
    ensures
        r == match reply {
            Some(Response::Status(s)) => Some(s),
            _ => last,
        },
{
    match reply {
        Some(Response::Status(s)) => Some(s),
        _ => last,
    }
}

/// How long, in milliseconds, the window waits between status polls.
pub const STATUS_POLL_MILLIS: u128 = 500;

/// How long, in seconds, the window keeps its clip list before reading the
/// save folder again.
pub const CLIP_RESCAN_SECS: u64 = 2;

/// Whether the window asks the daemon for its status again, `elapsed_millis`
/// after the last poll: once more than half a second has passed.
pub fn status_poll_due(elapsed_millis: u128) -> (b: bool)
    ensures
        b == (elapsed_millis > STATUS_POLL_MILLIS),
{
    elapsed_millis > STATUS_POLL_MILLIS
}

/// Whether the clip list is read again, `elapsed_secs` whole seconds after
/// the last reading: once two seconds have passed.
pub fn clip_rescan_due(elapsed_secs: u64) -> (b: bool)
    ensures
        b == (elapsed_secs >= CLIP_RESCAN_SECS),
{
    elapsed_secs >= CLIP_RESCAN_SECS
}

/// The requests that saving the settings sends, in order: reload the
/// settings, stop the recorder, start the replay buffer again.
pub fn restart_commands() -> (r: Vec<Command>)
    ensures
        r@ == seq![Command::ReloadConfig, Command::Stop, Command::StartReplay],
{
    let mut r: Vec<Command> = Vec::new();
    r.push(Command::ReloadConfig);
    r.push(Command::Stop);
    r.push(Command::StartReplay);
    assert(r@ =~= seq![Command::ReloadConfig, Command::Stop, Command::StartReplay]);
    r
}

/// How a monitor is listed in the settings: its name, then its resolution
/// in brackets.
pub open spec fn monitor_label_of(name: Seq<char>, resolution: Seq<char>) -> Seq<char> {
    name + " ("@ + resolution + ")"@
}

/// How a monitor is listed in the settings.
pub fn monitor_label(m: &MonitorDevice) -> (s: String)
    ensures
        s@ == monitor_label_of(m.name@, m.resolution@),
{
    let mut s = String::new();
    push_str(&mut s, m.name.as_str());
    push_str(&mut s, " (");
    push_str(&mut s, m.resolution.as_str());
    push_str(&mut s, ")");
    assert(s@ =~= monitor_label_of(m.name@, m.resolution@));
    s
}

/// What a tray menu entry asks for.
#[derive(PartialEq, Eq, Structural, Clone, Copy, Debug)]
pub enum TrayAction {
    /// Stop the recorder and quit.
    Quit,
    /// Open the window.
    ShowWindow,
    /// Nothing.
    Ignore,
}

/// What the tray menu entry with the id `id` asks for.
pub fn tray_action(id: &str) -> (a: TrayAction)
    ensures
        a == if id@ == "quit"@ {
            TrayAction::Quit
        } else if id@ == "show"@ {
            TrayAction::ShowWindow
        } else {
            TrayAction::Ignore
        },
{
    let v = crate::text::chars_of(id);
    let quit = crate::text::chars_of("quit");
    let show = crate::text::chars_of("show");
    if crate::text::same_chars(&v, &quit) {
        TrayAction::Quit
    } else if crate::text::same_chars(&v, &show) {
        TrayAction::ShowWindow
    } else {
        TrayAction::Ignore
    }
}

/// Whether the program was asked for the window: one of its arguments is
/// `--gui`.
pub fn wants_gui(args: &Vec<String>) -> (b: bool)
    ensures
        b == exists|i: int| 0 <= i < args@.len() && (#[trigger] args@[i])@ == "--gui"@,
{
    let flag = crate::text::chars_of("--gui");
    let mut i: usize = 0;
    while i < args.len()
        invariant
            i <= args.len(),
            flag@ == "--gui"@,
            forall|j: int| 0 <= j < i ==> (#[trigger] args@[j])@ != "--gui"@,
        decreases args.len() - i,
    {
        let a = crate::text::chars_of(args[i].as_str());
        if crate::text::same_chars(&a, &flag) {
            return true;
        }
        i = i + 1;
    }
    false
}

} // verus!
