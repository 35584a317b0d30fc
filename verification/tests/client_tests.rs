use lapse::client::{
    clip_rescan_due, status_poll_due,
    absorb_status, button_command, engine_buttons, monitor_label, restart_commands, tray_action,
    wants_gui, ActiveTab, EngineButton, TrayAction,
};
use lapse::devices::MonitorDevice;
use lapse::ipc::{Command, Response, StatusResponse};
use lapse::library::{clip_names, is_clip_file, thumbnail_args, thumbnail_dir, thumbnail_path};

fn status(recording: bool, installed: bool) -> StatusResponse {
    StatusResponse { recording, mode: "None".into(), is_installed: installed }
}

#[test]
fn engine_panel() {
    assert_eq!(engine_buttons(&None), vec![EngineButton::StartEngine]);
    assert_eq!(engine_buttons(&Some(status(false, false))), vec![]);
    assert_eq!(engine_buttons(&Some(status(true, false))), vec![]);
    assert_eq!(engine_buttons(&Some(status(false, true))), vec![EngineButton::StartEngine]);
    assert_eq!(
        engine_buttons(&Some(status(true, true))),
        vec![EngineButton::SaveClip, EngineButton::StopEngine]
    );
    assert_eq!(button_command(EngineButton::StartEngine), Command::StartReplay);
    assert_eq!(button_command(EngineButton::SaveClip), Command::SaveReplay);
    assert_eq!(button_command(EngineButton::StopEngine), Command::Stop);
    assert_ne!(ActiveTab::Library, ActiveTab::Settings);
}

#[test]
fn status_polling() {
    let last = Some(status(false, true));
    assert_eq!(absorb_status(last.clone(), None), last);
    assert_eq!(absorb_status(last.clone(), Some(Response::Success)), last);
    assert_eq!(absorb_status(last.clone(), Some(Response::Error("x".into()))), last);
    assert_eq!(absorb_status(last, Some(Response::Status(status(true, true)))), Some(status(true, true)));
}

#[test]
fn saving_settings_restarts_the_recorder() {
    assert_eq!(restart_commands(), vec![Command::ReloadConfig, Command::Stop, Command::StartReplay]);
}

#[test]
fn monitor_labels() {
    let m = MonitorDevice { name: "DP-1".into(), resolution: "2560x1440".into() };
    assert_eq!(monitor_label(&m), "DP-1 (2560x1440)");
}

#[test]
fn tray_menu() {
    assert_eq!(tray_action("quit"), TrayAction::Quit);
    assert_eq!(tray_action("show"), TrayAction::ShowWindow);
    assert_eq!(tray_action("Show"), TrayAction::Ignore);
}

#[test]
fn window_flag() {
    assert!(wants_gui(&vec!["lapse".into(), "--gui".into()]));
    assert!(!wants_gui(&vec!["lapse".into(), "--daemon".into()]));
    assert!(!wants_gui(&vec![]));
}

#[test]
fn clip_files() {
    assert!(is_clip_file("a.mp4"));
    assert!(is_clip_file("Replay_2024-05-01.mp4"));
    assert!(!is_clip_file(".mp4"));
    assert!(!is_clip_file("a.MP4"));
    assert!(!is_clip_file("a.mp4.part"));
    assert!(!is_clip_file("mp4"));
}

#[test]
fn clips_latest_name_first() {
    let files: Vec<String> = vec![
        "Replay_2024-01-02.mp4".into(),
        ".thumbnails".into(),
        "Replay_2024-03-01.mp4".into(),
        "notes.txt".into(),
        "Replay_2024-01-10.mp4".into(),
        "b.mp4".into(),
        "Z.mp4".into(),
    ];
    assert_eq!(
        clip_names(&files),
        vec![
            "b.mp4".to_string(),
            "Z.mp4".to_string(),
            "Replay_2024-03-01.mp4".to_string(),
            "Replay_2024-01-10.mp4".to_string(),
            "Replay_2024-01-02.mp4".to_string(),
        ]
    );
}

#[test]
fn clip_order_does_not_depend_on_listing_order() {
    let a: Vec<String> = vec!["c.mp4".into(), "a.mp4".into(), "ab.mp4".into(), "a.mp4".into()];
    let b: Vec<String> = vec!["a.mp4".into(), "ab.mp4".into(), "a.mp4".into(), "c.mp4".into()];
    assert_eq!(clip_names(&a), clip_names(&b));
    assert_eq!(clip_names(&a), vec!["c.mp4", "ab.mp4", "a.mp4", "a.mp4"]);
    assert!(clip_names(&vec![]).is_empty());
}

#[test]
fn thumbnails() {
    assert_eq!(thumbnail_dir("/v"), "/v/.thumbnails");
    assert_eq!(thumbnail_path("/v/", "x.mp4"), "/v/.thumbnails/x.mp4.jpg");
    assert_eq!(
        thumbnail_args("/v/x.mp4", "/v/.thumbnails/x.mp4.jpg"),
        vec!["-i", "/v/x.mp4", "-vframes", "1", "-s", "320x180", "-y", "/v/.thumbnails/x.mp4.jpg"]
    );
}

#[test]
fn polling_and_rescanning_pace() {
    assert!(!status_poll_due(0));
    assert!(!status_poll_due(500));
    assert!(status_poll_due(501));
    assert!(!clip_rescan_due(1));
    assert!(clip_rescan_due(2));
    assert!(clip_rescan_due(10));
}
