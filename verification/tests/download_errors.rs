use alpha_tube::download::{parse_aria2_progress, DownloadError, IoErrorKind, IoFailure};

#[test]
fn test_parse_aria2_full_progress() {
    let line = "[#2089b0 400.0KiB/34.0MiB(1%) CN:1 DL:115.0KiB ETA:4m59s]";
    let result = parse_aria2_progress(line);
    assert!(result.is_some());
    let p = result.unwrap();
    let percent: f64 = p.percent.parse().unwrap();
    assert!((percent - 1.0).abs() < 0.1);
    assert!(p.speed.contains("KiB"));
    assert!(p.eta.contains("4m"));
}

#[test]
fn test_parse_aria2_mib_speed() {
    let line = "[#abc123 1.2GiB/2.4GiB(50%) CN:16 DL:25.3MiB ETA:1m30s]";
    let result = parse_aria2_progress(line);
    assert!(result.is_some());
    let p = result.unwrap();
    let percent: f64 = p.percent.parse().unwrap();
    assert!((percent - 50.0).abs() < 0.1);
    assert!(p.speed.contains("25.3"));
    assert!(p.speed.contains("MiB"));
    assert_eq!(p.eta, "1m30s");
}

#[test]
fn test_parse_aria2_no_eta() {
    let line = "[#123456 500KiB/1MiB(50%) DL:100KiB]";
    let result = parse_aria2_progress(line);
    assert!(result.is_some());
    let p = result.unwrap();
    let percent: f64 = p.percent.parse().unwrap();
    assert!((percent - 50.0).abs() < 0.1);
    assert!(p.speed.contains("100"));
}

#[test]
fn test_parse_aria2_no_match() {
    let line = "Some random log message";
    let result = parse_aria2_progress(line);
    assert!(result.is_none());
}

#[test]
fn test_user_message_private_video() {
    let err = DownloadError::YtDlpError("ERROR: Video is private".to_string());
    let msg = err.user_message();
    assert!(msg.contains("private"));
}

#[test]
fn test_user_message_unavailable() {
    let err = DownloadError::YtDlpError("ERROR: Video unavailable".to_string());
    let msg = err.user_message();
    assert!(msg.contains("unavailable") || msg.contains("removed"));
}

#[test]
fn test_user_message_network() {
    let err = DownloadError::YtDlpError("Connection refused".to_string());
    let msg = err.user_message();
    assert!(msg.contains("Network") || msg.contains("internet"));
}

#[test]
fn test_user_message_cancelled() {
    let err = DownloadError::Cancelled;
    let msg = err.user_message();
    assert!(msg.contains("cancelled"));
}

#[test]
fn test_user_message_ffmpeg_codec() {
    let err = DownloadError::FFmpegError("Decoder codec not found".to_string());
    let msg = err.user_message();
    assert!(msg.contains("format") || msg.contains("quality"));
}

// ---------------------------------------------------------------------------

#[test]
fn aria2_progress_exact_fields() {
    let p = parse_aria2_progress("[#2089b0 400.0KiB/34.0MiB(1%) CN:1 DL:115.0KiB ETA:4m59s]").unwrap();
    assert_eq!(p.percent, "1");
    assert_eq!(p.speed, "115.0KiB/s");
    assert_eq!(p.eta, "4m59s");
}

#[test]
fn aria2_progress_defaults_without_speed_or_eta() {
    let p = parse_aria2_progress("[#1 1MiB/2MiB(50%)]").unwrap();
    assert_eq!(p.speed, "-- B/s");
    assert_eq!(p.eta, "--:--");
}

#[test]
fn aria2_progress_rejects_unreadable_percent() {
    assert!(parse_aria2_progress("[#1 (1.2.3%) DL:1KiB]").is_none());
}

#[test]
fn user_message_each_ytdlp_kind() {
    let m = |s: &str| DownloadError::YtDlpError(s.to_string()).user_message();
    assert_eq!(m("Sign in to confirm your age"), "This video requires sign-in or age verification, which is not supported.");
    assert_eq!(m("No video formats found"), "No downloadable formats found for this video.");
    assert_eq!(m("is not a valid URL"), "Invalid or unsupported URL. Please check the link.");
    assert_eq!(m("HTTP Error 429: Too Many Requests"), "Rate limited by server. Please wait a few minutes and try again.");
    assert_eq!(m("Video blocked"), "This video is blocked in your region.");
    assert_eq!(m("copyright claim"), "This video cannot be downloaded due to copyright restrictions.");
    assert_eq!(m("strange failure"), "Download failed: strange failure");
}

#[test]
fn user_message_cuts_long_ytdlp_text() {
    let long = "x".repeat(100);
    let msg = DownloadError::YtDlpError(long).user_message();
    assert_eq!(msg, format!("Download failed: {}...", "x".repeat(80)));
}

#[test]
fn user_message_cuts_at_character_boundary() {
    let text = format!("a{}", "é".repeat(40));
    let msg = DownloadError::YtDlpError(text).user_message();
    assert_eq!(msg, format!("Download failed: a{}...", "é".repeat(39)));
    let text = format!("{}é{}", "x".repeat(79), "y".repeat(30));
    let msg = DownloadError::YtDlpError(text).user_message();
    assert_eq!(msg, format!("Download failed: {}...", "x".repeat(79)));
    let text = format!("{}é{}", "x".repeat(78), "y".repeat(30));
    let msg = DownloadError::YtDlpError(text).user_message();
    assert_eq!(msg, format!("Download failed: {}é...", "x".repeat(78)));
}

#[test]
fn user_message_other_errors() {
    let m = DownloadError::Aria2Error("Connection reset".to_string()).user_message();
    assert_eq!(m, "Connection lost. Please check your internet and retry.");
    let m = DownloadError::Aria2Error("disk full".to_string()).user_message();
    assert_eq!(m, "Not enough disk space. Free up some space and try again.");
    let m = DownloadError::FFmpegError("Permission denied".to_string()).user_message();
    assert_eq!(m, "Cannot create output file. Check folder permissions.");
    let m = DownloadError::FFmpegError("whatever".to_string()).user_message();
    assert_eq!(m, "Failed to merge video and audio. Try a different format.");
    let io = |kind| DownloadError::IoError(IoFailure { kind, message: "boom".to_string() }).user_message();
    assert_eq!(io(IoErrorKind::PermissionDenied), "Permission denied. Check folder access rights.");
    assert_eq!(io(IoErrorKind::NotFound), "File or folder not found. Check download location.");
    assert_eq!(io(IoErrorKind::AlreadyExists), "File already exists.");
    assert_eq!(io(IoErrorKind::OutOfMemory), "System out of memory. Close other applications.");
    assert_eq!(io(IoErrorKind::Other), "File system error: boom");
    let m = DownloadError::JsonError("eof".to_string()).user_message();
    assert_eq!(m, "Failed to parse video metadata. Try refreshing.");
}

#[test]
fn describe_each_error() {
    assert_eq!(DownloadError::YtDlpError("a".to_string()).describe(), "yt-dlp error: a");
    assert_eq!(DownloadError::Aria2Error("b".to_string()).describe(), "aria2 error: b");
    assert_eq!(DownloadError::FFmpegError("c".to_string()).describe(), "ffmpeg error: c");
    assert_eq!(DownloadError::JsonError("d".to_string()).describe(), "JSON error: d");
    assert_eq!(DownloadError::Cancelled.describe(), "Download cancelled");
}
