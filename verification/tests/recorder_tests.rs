use lapse::config::{join, Config};
use lapse::ipc::{handle_command, mode_label, Command, Response};
use lapse::recorder::{
    gpu_environment, recording_arguments, recording_file_name, replay_arguments, Recorder, RecorderAction,
    RecordingMode,
};

fn strings(v: &[&str]) -> Vec<String> {
    v.iter().map(|s| s.to_string()).collect()
}

#[test]
fn default_settings_for_a_home_folder() {
    let c = Config::for_home("/home/ana");
    assert_eq!(c.save_path, "/home/ana/Videos/Lapse");
    assert_eq!(c.recorder_path, "gpu-screen-recorder");
    assert_eq!(c.replay_seconds, 60);
    assert_eq!(c.hotkey_replay, "F10");
    assert_eq!(c.hotkey_record, "F9");
    assert_eq!(c.audio_output, "default_output");
    assert_eq!(c.audio_input, "default_input");
    assert_eq!(c.quality, "high");
    assert_eq!(c.fps, 60);
    assert_eq!(c.resolution, "1920x1080");
    assert_eq!(c.hotkey_replay_mod, 0);
    assert_eq!(c.monitor, "screen");
    assert_eq!(c.gpu, "Auto");
    assert_eq!(Config::for_home("/tmp/").save_path, "/tmp/Videos/Lapse");
    assert_eq!(Config::for_home("").save_path, "Videos/Lapse");
}

#[test]
fn joining_paths() {
    assert_eq!(join("/a", "b"), "/a/b");
    assert_eq!(join("/a/", "b"), "/a/b");
    assert_eq!(join("/a", "/b"), "/b");
    assert_eq!(join("", "b"), "b");
}

#[test]
fn replay_arguments_with_both_audio_devices() {
    let c = Config::for_home("/home/ana");
    assert_eq!(
        replay_arguments(&c),
        strings(&[
            "-w", "screen", "-f", "60", "-r", "60", "-c", "mp4", "-o", "/home/ana/Videos/Lapse", "-a",
            "default_output", "-a", "default_input"
        ])
    );
}

#[test]
fn replay_arguments_skip_unset_audio() {
    let mut c = Config::for_home("/h");
    c.audio_output = "None".into();
    c.audio_input = String::new();
    c.fps = 144;
    c.replay_seconds = 305;
    assert_eq!(
        replay_arguments(&c),
        strings(&["-w", "screen", "-f", "144", "-r", "305", "-c", "mp4", "-o", "/h/Videos/Lapse"])
    );
}

#[test]
fn recorder_lifecycle() {
    let mut r = Recorder::new(Config::for_home("/h"));
    assert!(!r.is_running());
    assert_eq!(r.current_mode(), RecordingMode::Idle);
    assert!(matches!(r.save_replay(), RecorderAction::Nothing));
    assert!(matches!(r.stop(), RecorderAction::Nothing));
    match r.start_replay() {
        RecorderAction::Launch { program, args, env, save_dir, mode, replacing } => {
            assert_eq!(program, "gpu-screen-recorder");
            assert!(env.is_empty());
            assert_eq!(mode, RecordingMode::Replay);
            assert_eq!(replacing, None);
            assert_eq!(args[3], "60");
            assert_eq!(save_dir, "/h/Videos/Lapse");
        }
        _ => panic!("expected a launch"),
    }
    r.launched(4242, RecordingMode::Replay);
    assert!(r.is_running());
    assert_eq!(r.current_mode(), RecordingMode::Replay);
    assert!(matches!(r.start_replay(), RecorderAction::Nothing));
    match r.save_replay() {
        RecorderAction::SaveClip { pid, kill_args, save_dir } => {
            assert_eq!(pid, 4242);
            assert_eq!(kill_args, strings(&["-SIGUSR1", "4242"]));
            assert_eq!(save_dir, "/h/Videos/Lapse");
        }
        _ => panic!("expected a save"),
    }
    assert!(matches!(r.stop(), RecorderAction::Terminate { pid: 4242 }));
    assert!(!r.is_running());
    assert!(matches!(r.stop(), RecorderAction::Nothing));
}

#[test]
fn status_request() {
    let mut r = Recorder::new(Config::for_home("/h"));
    let h = handle_command(Command::GetStatus, &mut r, true, false, None, "rec.mp4");
    match h.response {
        Response::Status(s) => {
            assert!(!s.recording);
            assert_eq!(s.mode, "None");
            assert!(!s.is_installed);
        }
        _ => panic!("expected a status"),
    }
    r.launched(7, RecordingMode::Replay);
    let h = handle_command(Command::GetStatus, &mut r, true, true, None, "rec.mp4");
    match h.response {
        Response::Status(s) => {
            assert!(s.recording);
            assert_eq!(s.mode, "Replay");
            assert!(s.is_installed);
        }
        _ => panic!("expected a status"),
    }
    assert_eq!(mode_label(RecordingMode::Idle), "None");
}

#[test]
fn requests_without_the_lock_fail() {
    let mut r = Recorder::new(Config::for_home("/h"));
    for cmd in [Command::GetStatus, Command::StartReplay, Command::SaveReplay, Command::StartRecording, Command::Stop] {
        let h = handle_command(cmd, &mut r, false, true, None, "rec.mp4");
        assert_eq!(h.response, Response::Error("Lock failed".into()));
        assert!(matches!(h.action, RecorderAction::Nothing));
        assert!(!h.reload_hotkeys);
    }
}

#[test]
fn start_save_stop_requests() {
    let mut r = Recorder::new(Config::for_home("/h"));
    let h = handle_command(Command::StartReplay, &mut r, true, true, None, "rec.mp4");
    assert_eq!(h.response, Response::Success);
    assert!(matches!(h.action, RecorderAction::Launch { .. }));
    r.launched(11, RecordingMode::Replay);
    let h = handle_command(Command::SaveReplay, &mut r, true, true, None, "rec.mp4");
    assert!(matches!(h.action, RecorderAction::SaveClip { pid: 11, .. }));
    let h = handle_command(Command::StartRecording, &mut r, true, true, None, "rec.mp4");
    assert_eq!(h.response, Response::Success);
    match h.action {
        RecorderAction::Launch { args, mode, replacing, .. } => {
            assert_eq!(mode, RecordingMode::Recording);
            assert_eq!(replacing, Some(11));
            assert_eq!(args[7], "/h/Videos/Lapse/rec.mp4");
        }
        _ => panic!("expected a launch"),
    }
    assert!(!r.is_running());
    r.launched(12, RecordingMode::Recording);
    let h = handle_command(Command::GetStatus, &mut r, true, true, None, "rec.mp4");
    match h.response {
        Response::Status(s) => assert_eq!(s.mode, "Recording"),
        _ => panic!("expected a status"),
    }
    let h = handle_command(Command::StartRecording, &mut r, true, true, None, "rec.mp4");
    assert!(matches!(h.action, RecorderAction::Nothing));
    let h = handle_command(Command::SaveReplay, &mut r, true, true, None, "rec.mp4");
    assert!(matches!(h.action, RecorderAction::Nothing));
    let h = handle_command(Command::Stop, &mut r, true, true, None, "rec.mp4");
    assert!(matches!(h.action, RecorderAction::Terminate { pid: 12 }));
    assert!(!r.is_running());
}

#[test]
fn reloading_settings() {
    let mut r = Recorder::new(Config::for_home("/h"));
    let h = handle_command(Command::ReloadConfig, &mut r, true, true, None, "rec.mp4");
    assert_eq!(h.response, Response::Error("Failed to load config".into()));
    assert!(!h.reload_hotkeys);
    let mut c = Config::for_home("/other");
    c.fps = 30;
    let h = handle_command(Command::ReloadConfig, &mut r, true, true, Some(c), "rec.mp4");
    assert_eq!(h.response, Response::Success);
    assert!(h.reload_hotkeys);
    match r.start_replay() {
        RecorderAction::Launch { args, .. } => {
            assert_eq!(args[3], "30");
            assert_eq!(args[9], "/other/Videos/Lapse");
        }
        _ => panic!("expected a launch"),
    }
}

#[test]
fn chosen_monitor_and_card_reach_the_recorder() {
    let mut c = Config::for_home("/h");
    c.monitor = "DP-1".into();
    c.gpu = "pci-0000_01_00_0".into();
    assert_eq!(&replay_arguments(&c)[..2], &strings(&["-w", "DP-1"])[..]);
    assert_eq!(gpu_environment(&c), vec![("DRI_PRIME".to_string(), "pci-0000_01_00_0".to_string())]);
    let r = Recorder::new(c);
    match r.start_replay() {
        RecorderAction::Launch { args, env, .. } => {
            assert_eq!(args[1], "DP-1");
            assert_eq!(env, vec![("DRI_PRIME".to_string(), "pci-0000_01_00_0".to_string())]);
        }
        _ => panic!("expected a launch"),
    }
}

#[test]
fn unchosen_monitor_and_card() {
    let mut c = Config::for_home("/h");
    c.monitor = String::new();
    assert_eq!(replay_arguments(&c)[1], "screen");
    assert!(gpu_environment(&c).is_empty());
    c.gpu = String::new();
    assert!(gpu_environment(&c).is_empty());
}

#[test]
fn manual_recording_arguments() {
    let c = Config::for_home("/h");
    assert_eq!(recording_file_name(1700000000), "Recording_1700000000.mp4");
    assert_eq!(
        recording_arguments(&c, "/h/Videos/Lapse/x.mp4"),
        strings(&[
            "-w", "screen", "-f", "60", "-c", "mp4", "-o", "/h/Videos/Lapse/x.mp4", "-a", "default_output", "-a",
            "default_input"
        ])
    );
}

#[test]
fn recording_toggles_with_the_replay_buffer() {
    let mut r = Recorder::new(Config::for_home("/h"));
    match r.toggle_recording("a.mp4") {
        RecorderAction::Launch { mode, replacing, args, .. } => {
            assert_eq!(mode, RecordingMode::Recording);
            assert_eq!(replacing, None);
            assert_eq!(args[7], "/h/Videos/Lapse/a.mp4");
        }
        _ => panic!("expected a launch"),
    }
    r.launched(5, RecordingMode::Recording);
    match r.toggle_recording("b.mp4") {
        RecorderAction::Launch { mode, replacing, args, .. } => {
            assert_eq!(mode, RecordingMode::Replay);
            assert_eq!(replacing, Some(5));
            assert_eq!(args[4], "-r");
        }
        _ => panic!("expected a launch"),
    }
    assert!(!r.is_running());
    r.launched(6, RecordingMode::Replay);
    assert!(matches!(r.start_recording("c.mp4"), RecorderAction::Launch { replacing: Some(6), .. }));
}
