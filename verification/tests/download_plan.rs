use alpha_tube::download::{
    aria2_args, aria2_failed, aria2_header_args, joint_outcome, merge_args, classify_stream, final_filename, get_format_selector,
    merge_failed, merge_order, parse_ffmpeg_progress_us, plan_streams, process_step,
    sanitize_filename, temp_filename, DownloadError, FormatChoice, ProcessStep, StreamType,
};

#[test]
fn download_format_selector() {
    assert_eq!(get_format_selector("MP3"), "bestaudio/best");
    assert_eq!(get_format_selector("4K"), "bestvideo[height<=2160]+bestaudio/best[height<=2160]");
    assert_eq!(get_format_selector("720p"), "bestvideo[height<=720]+bestaudio/best[height<=720]");
    assert_eq!(get_format_selector("480p"), "bestvideo+bestaudio/best");
}

#[test]
fn file_names() {
    assert_eq!(sanitize_filename("a/b:c?*.mp4"), "a_b_c__.mp4");
    assert_eq!(sanitize_filename(&sanitize_filename("<x>")), "_x_");
    assert_eq!(final_filename("My Video.webm", true), "My Video.mp4");
    assert_eq!(final_filename("My Video.webm", false), "My Video.webm");
    assert_eq!(final_filename(".hidden", true), ".hidden.mp4");
    assert_eq!(final_filename("noext", true), "noext.mp4");
    assert_eq!(temp_filename("v", StreamType::Video, "mp4"), "v.video.mp4");
    assert_eq!(temp_filename("v", StreamType::Audio, "m4a"), "v.audio.m4a");
    assert_eq!(temp_filename("v", StreamType::Combined, "mp4"), "v.combined.mp4");
}

#[test]
fn stream_kinds() {
    assert_eq!(classify_stream("avc1", "none"), StreamType::Video);
    assert_eq!(classify_stream("avc1", ""), StreamType::Video);
    assert_eq!(classify_stream("none", "opus"), StreamType::Audio);
    assert_eq!(classify_stream("", "opus"), StreamType::Audio);
    assert_eq!(classify_stream("avc1", "mp4a"), StreamType::Combined);
    assert_eq!(merge_order(StreamType::Video), (0, 1));
    assert_eq!(merge_order(StreamType::Audio), (1, 0));
}

#[test]
fn planning_streams() {
    let fmts = vec![
        FormatChoice { url: "u1".to_string(), ext: "mp4".to_string(), vcodec: "avc1".to_string(), acodec: "none".to_string() },
        FormatChoice { url: "u2".to_string(), ext: "m4a".to_string(), vcodec: "none".to_string(), acodec: "mp4a".to_string() },
    ];
    let tasks = plan_streams("clip", Some(fmts), None, None).unwrap();
    assert_eq!(tasks.len(), 2);
    assert_eq!(tasks[0].temp_filename, "clip.video.mp4");
    assert_eq!(tasks[1].stream_type, StreamType::Audio);
    let single = plan_streams("clip", None, Some("u".to_string()), None).unwrap();
    assert_eq!(single[0].temp_filename, "clip.combined.mp4");
    match plan_streams("clip", None, None, None) {
        Err(DownloadError::YtDlpError(m)) => assert_eq!(m, "No URL found"),
        other => panic!("unexpected {:?}", other.is_ok()),
    }
}

#[test]
fn aria2_and_ffmpeg_lines() {
    let h = vec![("User-Agent".to_string(), Some("UA".to_string())), ("X".to_string(), None)];
    assert_eq!(aria2_header_args(&h), vec!["--header=User-Agent: UA".to_string()]);
    assert_eq!(parse_ffmpeg_progress_us("out_time_ms=1500000"), Some(1_500_000));
    assert_eq!(parse_ffmpeg_progress_us("out_time_ms= 42 "), Some(42));
    assert_eq!(parse_ffmpeg_progress_us("out_time=00:00:01"), None);
    assert_eq!(parse_ffmpeg_progress_us("out_time_ms=N/A"), None);
    assert_eq!(process_step(true, Some(true)), ProcessStep::Cancel);
    assert_eq!(process_step(false, Some(true)), ProcessStep::Finished);
    assert_eq!(process_step(false, Some(false)), ProcessStep::Failed);
    assert_eq!(process_step(false, None), ProcessStep::Wait);
    assert!(matches!(aria2_failed(), DownloadError::Aria2Error(ref m) if m == "Process failed"));
    assert!(matches!(merge_failed("x"), DownloadError::FFmpegError(ref m) if m == "Merge failed: x"));
}

#[test]
fn joint_outcomes() {
    assert!(joint_outcome(Ok(()), Ok(())).is_ok());
    assert!(matches!(joint_outcome(Err(DownloadError::Cancelled), Err(aria2_failed())), Err(DownloadError::Cancelled)));
    assert!(matches!(joint_outcome(Ok(()), Err(aria2_failed())), Err(DownloadError::Aria2Error(_))));
}

#[test]
fn command_lines() {
    let h = vec![("Referer".to_string(), Some("r".to_string()))];
    let a = aria2_args("u", "n.mp4", "/d", &h);
    assert_eq!(a.len(), 11);
    assert_eq!(a[0], "u");
    assert_eq!(a[2], "n.mp4");
    assert_eq!(a[10], "--header=Referer: r");
    let m = merge_args("v.mp4", "a.m4a", "o.mp4");
    assert_eq!(m, vec!["-i", "v.mp4", "-i", "a.m4a", "-c", "copy", "-y", "-progress", "pipe:1", "-nostats", "o.mp4"]);
}
