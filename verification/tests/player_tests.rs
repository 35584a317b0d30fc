use lapse::player::{
    audio_decode_args, format_time, frame_bytes, parse_dimensions, probe_length_args, probe_size_args,
    video_decode_args, Playback, NANOS_PER_SEC,
};

#[test]
fn time_labels() {
    assert_eq!(format_time(0), "00:00");
    assert_eq!(format_time(9), "00:09");
    assert_eq!(format_time(65), "01:05");
    assert_eq!(format_time(3599), "59:59");
    assert_eq!(format_time(6000), "100:00");
    assert_eq!(format_time(u64::MAX), "307445734561825860:15");
}

#[test]
fn probe_dimensions() {
    assert_eq!(parse_dimensions("1920x1080\n"), Some((1920, 1080)));
    assert_eq!(parse_dimensions("  +640x+480 "), Some((640, 480)));
    assert_eq!(parse_dimensions("0x0"), Some((0, 0)));
    assert_eq!(parse_dimensions("1920x1080x3"), None);
    assert_eq!(parse_dimensions("1920"), None);
    assert_eq!(parse_dimensions("x1080"), None);
    assert_eq!(parse_dimensions("1920x"), None);
    assert_eq!(parse_dimensions("-1x2"), None);
    assert_eq!(parse_dimensions("1 9x2"), None);
    assert_eq!(parse_dimensions("99999999999999999999999x2"), None);
    assert_eq!(parse_dimensions(""), None);
}

#[test]
fn dimensions_written_and_read_back() {
    let (w, h) = (3840usize, 2160usize);
    assert_eq!(parse_dimensions(&format!("{}x{}", w, h)), Some((w, h)));
}

#[test]
fn frame_sizes() {
    assert_eq!(frame_bytes(1920, 1080), Some(1920 * 1080 * 3));
    assert_eq!(frame_bytes(usize::MAX, 2), None);
    assert_eq!(frame_bytes(usize::MAX / 2, 1), None);
}

#[test]
fn playback_clock() {
    let mut p = Playback::new(12 * NANOS_PER_SEC);
    assert!(p.is_playing && !p.muted && p.current == 0);
    assert_eq!(p.back_target(), 0);
    assert_eq!(p.forward_target(), 5 * NANOS_PER_SEC);
    p.advance(3 * NANOS_PER_SEC);
    assert_eq!(p.current, 3 * NANOS_PER_SEC);
    p.toggle_play();
    p.advance(3 * NANOS_PER_SEC);
    assert_eq!(p.current, 3 * NANOS_PER_SEC);
    p.toggle_play();
    p.advance(30 * NANOS_PER_SEC);
    assert_eq!(p.current, 12 * NANOS_PER_SEC);
    assert_eq!(p.forward_target(), 12 * NANOS_PER_SEC);
    assert_eq!(p.back_target(), 7 * NANOS_PER_SEC);
    p.seek_to(2 * NANOS_PER_SEC + 5);
    assert_eq!(p.current_secs(), 2);
    assert_eq!(p.duration_secs(), 12);
    p.toggle_mute();
    assert!(p.muted);
}

#[test]
fn labels_read_back_and_differ() {
    for s in [0u64, 59, 60, 61, 3599, 3600, 5999, 6000, 123456] {
        let l = format_time(s);
        let i = l.rfind(':').unwrap();
        assert_eq!(l[i + 1..].len(), 2);
        let m: u64 = l[..i].parse().unwrap();
        let r: u64 = l[i + 1..].parse().unwrap();
        assert!(r < 60);
        assert_eq!(m * 60 + r, s);
    }
    assert_ne!(format_time(60), format_time(61));
}

#[test]
fn ffmpeg_and_ffprobe_arguments() {
    assert_eq!(
        audio_decode_args(&None, "/v/a.mp4"),
        vec!["-i", "/v/a.mp4", "-f", "s16le", "-acodec", "pcm_s16le", "-ar", "44100", "-ac", "2", "-"]
    );
    assert_eq!(
        video_decode_args(&Some("1.500".to_string()), "/v/a.mp4"),
        vec!["-ss", "1.500", "-re", "-i", "/v/a.mp4", "-f", "image2pipe", "-pix_fmt", "rgb24", "-vcodec", "rawvideo", "-"]
    );
    assert_eq!(audio_decode_args(&Some("2.000".to_string()), "x")[..2], ["-ss", "2.000"]);
    assert_eq!(
        probe_size_args("x"),
        vec!["-v", "error", "-select_streams", "v:0", "-show_entries", "stream=width,height", "-of", "csv=s=x:p=0", "x"]
    );
    assert_eq!(
        probe_length_args("x"),
        vec!["-v", "error", "-show_entries", "format=duration", "-of", "default=noprint_wrappers=1:nokey=1", "x"]
    );
}
