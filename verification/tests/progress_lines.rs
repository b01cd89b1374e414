use alpha_tube::progress::{parse_progress_line, strip_ansi, ProgressUpdate};

#[test]
fn test_ytdlp_progress() {
    let line = "[download]  45.2% of 150.32MiB at 2.50MiB/s ETA 00:35";
    let result = parse_progress_line(line);
    assert!(result.is_some());
    if let Some(ProgressUpdate::Progress { percent, .. }) = result {
        let percent: f64 = percent.parse().unwrap();
        assert!((percent - 45.2).abs() < 0.1);
    }
}

#[test]
fn test_muxing_detection() {
    let line = "[Merger] Merging formats into \"output.mp4\"";
    let result = parse_progress_line(line);
    assert!(matches!(result, Some(ProgressUpdate::Muxing)));

    let line2 = "[ffmpeg] Merging formats";
    let result2 = parse_progress_line(line2);
    assert!(matches!(result2, Some(ProgressUpdate::Muxing)));
}

#[test]
fn test_destination_detection() {
    let line = "[download] Destination: /path/to/video.mp4";
    let result = parse_progress_line(line);
    if let Some(ProgressUpdate::Destination(filename)) = result {
        assert_eq!(filename, "/path/to/video.mp4");
    } else {
        panic!("Expected Destination variant");
    }
}

#[test]
fn test_ansi_stripping() {
    let line = "\x1B[32m[download]\x1B[0m  45.2% of 150.32MiB at 2.50MiB/s ETA 00:35";
    let result = parse_progress_line(line);
    assert!(matches!(result, Some(ProgressUpdate::Progress { .. })));
}

#[test]
fn test_completed_detection() {
    let line = "[download] 100% of 150.32MiB";
    let result = parse_progress_line(line);
    assert!(matches!(result, Some(ProgressUpdate::Completed)));
}

// ---------------------------------------------------------------------------

#[test]
fn progress_fields_exact() {
    match parse_progress_line("[download]  45.2% of 150.32MiB at 2.50MiB/s ETA 00:35") {
        Some(ProgressUpdate::Progress { percent, speed_value, speed_unit, eta }) => {
            assert_eq!(percent, "45.2");
            assert_eq!(speed_value, "2.50");
            assert_eq!(speed_unit, "MiB");
            assert_eq!(eta, "00:35");
        }
        other => panic!("unexpected {:?}", other),
    }
}

#[test]
fn progress_without_eta() {
    match parse_progress_line("[download]   3.0% of ~10.00MiB at 1.00KiB/s") {
        Some(ProgressUpdate::Progress { percent, eta, .. }) => {
            assert_eq!(percent, "3.0");
            assert_eq!(eta, "");
        }
        other => panic!("unexpected {:?}", other),
    }
}

#[test]
fn already_downloaded_is_completed() {
    let r = parse_progress_line("[download] video.mp4 has already been downloaded");
    assert!(matches!(r, Some(ProgressUpdate::Completed)));
}

#[test]
fn unrelated_line_is_none() {
    assert!(parse_progress_line("[youtube] abc: Downloading webpage").is_none());
}

#[test]
fn strip_ansi_removes_codes() {
    assert_eq!(strip_ansi("\x1B[1;31mred\x1B[0m text"), "red text");
    assert_eq!(strip_ansi("plain text"), "plain text");
    assert_eq!(strip_ansi("\x1B[12"), "\x1B[12");
}
