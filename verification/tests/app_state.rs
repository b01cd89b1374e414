use std::sync::atomic::AtomicBool;
use std::sync::Arc;

use alpha_tube::download::DownloadError;
use alpha_tube::registry::Registry;
use alpha_tube::state::{
    apply_download_dir, cancel_download, cancel_stream, default_stream_url, finish_download, greet,
    pause_answer, register_download, resume_download, start_streaming_response, stream_target,
    streaming_urls, AppConfig, DownloadManager, DownloadOptions, PlaybackManager, PlaybackState,
};
use alpha_tube::ytdlp::ProcessOutput;

fn options(id: &str) -> DownloadOptions {
    DownloadOptions {
        id: id.to_string(),
        url: "https://youtu.be/x".to_string(),
        quality: "720p".to_string(),
        output_path: "/tmp/out".to_string(),
        format_id: None,
    }
}

#[test]
fn config_overrides_output_path() {
    let mut config = AppConfig::unset();
    assert_eq!(apply_download_dir(&config, options("a")).output_path, "/tmp/out");
    config.set_download_dir("/media/videos".to_string());
    assert_eq!(config.download_dir.as_deref(), Some("/media/videos"));
    let o = apply_download_dir(&config, options("a"));
    assert_eq!(o.output_path, "/media/videos");
    assert_eq!(o.quality, "720p");
}

#[test]
fn registry_store_read_remove() {
    let mut r: Registry<u32> = Registry::new();
    assert!(r.is_empty());
    r.insert("a".to_string(), 1);
    r.insert("b".to_string(), 2);
    r.insert("a".to_string(), 3);
    assert_eq!(r.get(&"a".to_string()), Some(&3));
    assert!(r.contains_key(&"b".to_string()));
    assert_eq!(r.remove(&"a".to_string()), Some(3));
    assert_eq!(r.get(&"a".to_string()), None);
    assert_eq!(r.remove(&"a".to_string()), None);
    assert!(!r.is_empty());
}

#[test]
fn cancel_then_resume_is_not_found() {
    let mut m: DownloadManager = Registry::new();
    register_download(&mut m, options("d1"), Arc::new(AtomicBool::new(false)));
    let plan = cancel_download(&mut m, &"d1".to_string()).unwrap();
    assert_eq!(plan.message, "Download cancelled");
    assert_eq!(plan.output_path, "/tmp/out");
    assert!(plan.leftover_files.is_empty());
    assert_eq!(plan.event.status, "cancelled");
    assert_eq!(plan.event.percent, "0");
    assert_eq!(cancel_download(&mut m, &"d1".to_string()).unwrap_err(), "Download not active");
    assert_eq!(resume_download(&m, &"d1".to_string()).unwrap_err(), "Download not found in history");
}

#[test]
fn cancel_lists_leftover_files() {
    let mut m: DownloadManager = Registry::new();
    register_download(&mut m, options("d2"), Arc::new(AtomicBool::new(false)));
    let mut st = m.remove(&"d2".to_string()).unwrap();
    st.current_filename = Some("clip.mp4".to_string());
    m.insert("d2".to_string(), st);
    let plan = cancel_download(&mut m, &"d2".to_string()).unwrap();
    assert_eq!(plan.leftover_files, vec!["clip.mp4".to_string(), "clip.mp4.part".to_string(), "clip.mp4.ytdl".to_string()]);
}

#[test]
fn resume_needs_a_paused_download() {
    let mut m: DownloadManager = Registry::new();
    register_download(&mut m, options("d3"), Arc::new(AtomicBool::new(false)));
    assert_eq!(resume_download(&m, &"d3".to_string()).unwrap_err(), "Download is not paused");
    let mut st = m.remove(&"d3".to_string()).unwrap();
    st.paused = true;
    m.insert("d3".to_string(), st);
    let (o, ev) = resume_download(&m, &"d3".to_string()).unwrap();
    assert_eq!(o.id, "d3");
    assert_eq!(ev.speed, "Resuming...");
    assert_eq!(ev.status, "downloading");
}

#[test]
fn pause_answers() {
    assert_eq!(pause_answer(Ok("Download cancelled".to_string())).unwrap(), "Download cancelled (Pause not supported)");
    assert_eq!(pause_answer(Err("Download not active".to_string())).unwrap_err(), "Download not active");
}

#[test]
fn finished_downloads() {
    let mut m: DownloadManager = Registry::new();
    register_download(&mut m, options("f"), Arc::new(AtomicBool::new(false)));
    let (ev, answer) = finish_download(&mut m, &"f".to_string(), Ok("/tmp/out/x.mp4".to_string()));
    assert_eq!(ev.percent, "100");
    assert_eq!(ev.status, "complete");
    assert_eq!(ev.filename, "/tmp/out/x.mp4");
    assert_eq!(answer.unwrap(), "Download complete: /tmp/out/x.mp4");
    assert!(m.is_empty());
    let (ev, answer) = finish_download(&mut m, &"f".to_string(), Err(DownloadError::Cancelled));
    assert_eq!(ev.status, "cancelled");
    assert_eq!(answer.unwrap(), "Download cancelled");
    let (ev, answer) = finish_download(&mut m, &"f".to_string(), Err(DownloadError::YtDlpError("Video is private".to_string())));
    assert_eq!(ev.status, "error");
    assert_eq!(ev.error_message.as_deref(), Some("This video is private and cannot be downloaded."));
    assert_eq!(answer.unwrap_err(), "Download failed: This video is private and cannot be downloaded.");
}

#[test]
fn playback_processes() {
    let mut m: PlaybackManager = Registry::new();
    m.insert("h1".to_string(), PlaybackState { child_pid: 42, video_path: "/v.mkv".to_string(), stream_hash: "h1".to_string() });
    let (st, msg) = cancel_stream(&mut m, &"h1".to_string());
    assert_eq!(st.unwrap().child_pid, 42);
    assert_eq!(msg, "Stream cancelled");
    let (st, msg) = cancel_stream(&mut m, &"h1".to_string());
    assert!(st.is_none());
    assert_eq!(msg, "No active stream for this video");
}

fn out(success: bool, stdout: &str) -> ProcessOutput {
    ProcessOutput { success, stdout: stdout.to_string(), stderr: String::new() }
}

#[test]
fn streaming_urls_collects_qualities() {
    let outs = vec![out(true, "  https://a/360\n"), out(false, ""), out(true, "https://a/720\nmore"), out(true, "\n")];
    let s = streaming_urls(&outs, "http://127.0.0.1:9876/stream".to_string()).unwrap();
    assert_eq!(s.available, vec!["360p".to_string(), "720p".to_string()]);
    assert_eq!(s.urls[0], ("360p".to_string(), "https://a/360".to_string()));
    assert_eq!(s.default_quality, "360p");
    assert_eq!(default_stream_url(&s).as_deref(), Some("https://a/360"));
    let none = vec![out(false, ""), out(false, ""), out(true, ""), out(false, "")];
    assert_eq!(streaming_urls(&none, String::new()).unwrap_err(), "No streaming URLs available for any quality");
    let with480 = vec![out(true, "u1"), out(true, "u2"), out(false, ""), out(false, "")];
    assert_eq!(streaming_urls(&with480, String::new()).unwrap().default_quality, "480p");
    let high = vec![out(false, ""), out(false, ""), out(true, "u7"), out(true, "u10")];
    let s = streaming_urls(&high, "p".to_string()).unwrap();
    assert_eq!(s.available, vec!["720p".to_string(), "1080p".to_string()]);
    assert_eq!(s.default_quality, "1080p");
    assert_eq!(default_stream_url(&s).as_deref(), Some("u10"));
}

#[test]
fn stream_answers() {
    assert_eq!(stream_target(None), ("360p".to_string(), false));
    assert_eq!(stream_target(Some("720p".to_string())), ("720p".to_string(), true));
    let r = start_streaming_response("p".to_string());
    assert_eq!((r.proxy_url.as_str(), r.quality.as_str()), ("p", "360p"));
    assert_eq!(greet("Ann"), "Hello, Ann! You've been greeted from Rust!");
}
