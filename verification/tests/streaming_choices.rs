use alpha_tube::search::{build_search_url, format_minutes_seconds, nonblank_lines, search_range, search_request, search_result_from_json, search_results};
use alpha_tube::json::{JsonNumber, JsonValue};
use alpha_tube::url_cache::{url_is_fresh, CachedUrl, UrlCache};
use alpha_tube::ytdlp::{
    available_qualities, hls_transmux_args, playlist_args, search_args, url_args,
    available_url, cached_url_result, choose_default_quality, direct_url_result, listed_qualities,
    progressive_format_selector, quality_url_result, sidecar_file_names, stream_format_selector,
    ProcessOutput,
};

fn run(success: bool, stdout: &str, stderr: &str) -> ProcessOutput {
    ProcessOutput { success, stdout: stdout.to_string(), stderr: stderr.to_string() }
}

#[test]
fn ytdlp_url_answers() {
    assert_eq!(direct_url_result(&run(true, " https://u \nx", "")).unwrap(), "https://u");
    assert_eq!(direct_url_result(&run(false, "", "bad")).unwrap_err(), "Failed to get streaming URL: bad");
    assert_eq!(direct_url_result(&run(true, "", "")).unwrap_err(), "No streaming URL returned");
    assert_eq!(quality_url_result(&run(false, "", "e"), "720p").unwrap_err(), "Failed to get 720p URL: e");
    assert!(cached_url_result(&run(true, "\n", ""), "720p").is_err());
    assert_eq!(available_url(&run(true, "u\n", "")).as_deref(), Some("u"));
    assert!(available_url(&run(false, "u\n", "")).is_none());
}

#[test]
fn selectors_and_defaults() {
    assert_eq!(stream_format_selector("720p"), "95/22/best[height<=720][acodec!=none]");
    assert_eq!(stream_format_selector("8k"), "best[acodec!=none]");
    assert_eq!(progressive_format_selector("360p"), "18/best[height<=360][ext=mp4][acodec!=none][protocol^=http]");
    let av = vec!["720p".to_string(), "1080p".to_string()];
    assert_eq!(choose_default_quality(&av), "1080p");
    assert_eq!(choose_default_quality(&vec!["720p".to_string(), "360p".to_string()]), "360p");
    assert_eq!(choose_default_quality(&vec![]), "480p");
    assert_eq!(listed_qualities(&vec![false, false, true, false]), vec!["360p".to_string(), "720p".to_string()]);
    assert_eq!(listed_qualities(&vec![true, true, true, true]).len(), 4);
    assert_eq!(sidecar_file_names("ffmpeg")[2], "ffmpeg.exe");
    assert_eq!(sidecar_file_names("ffmpeg")[3], "ffmpeg");
}

#[test]
fn url_cache_read_after_write() {
    let mut c = UrlCache::new();
    assert_eq!(UrlCache::cache_key("v", "720p"), "v:720p");
    c.set("v", "720p", "https://a".to_string());
    c.set("v", "360p", "https://b".to_string());
    c.set("w", "720p", "https://c".to_string());
    assert_eq!(c.get("v", "720p").as_deref(), Some("https://a"));
    c.set("v", "720p", "https://d".to_string());
    assert_eq!(c.get("v", "720p").as_deref(), Some("https://d"));
    assert_eq!(c.cached_for("v", "720p", true), None);
    c.clear_video("v");
    assert!(c.lookup("v", "720p").is_none());
    assert!(c.lookup("v", "360p").is_none());
    assert_eq!(c.get("w", "720p").as_deref(), Some("https://c"));
    let r = c.record_fetch("x", "480p", Err("failed".to_string()));
    assert_eq!(r.unwrap_err(), "failed");
    assert!(c.lookup("x", "480p").is_none());
    let r = c.record_fetch("x", "480p", Ok("https://e".to_string()));
    assert_eq!(r.unwrap(), "https://e");
    assert_eq!(c.get("x", "480p").as_deref(), Some("https://e"));
    c.clear();
    assert!(c.lookup("w", "720p").is_none());
}

#[test]
fn cached_url_freshness() {
    assert!(CachedUrl::new("u".to_string()).is_fresh());
    assert!(url_is_fresh(0));
    assert!(!url_is_fresh(60 * 60 * 24));
    let c = CachedUrl::new("u".to_string());
    assert_eq!(c.fresh_answer(0).as_deref(), Some("u"));
    assert_eq!(c.fresh_answer(4 * 60 * 60 - 1).as_deref(), Some("u"));
    assert!(c.fresh_answer(4 * 60 * 60).is_none());
    let mut cache = UrlCache::new();
    cache.set("v", "720p", "https://s".to_string());
    let stored = cache.lookup("v", "720p").unwrap();
    assert_eq!(stored.fresh_answer(3 * 60 * 60).as_deref(), Some("https://s"));
}

#[test]
fn search_urls() {
    assert_eq!(
        build_search_url("cats & dogs", "youtube"),
        "https://www.youtube.com/results?search_query=cats%20%26%20dogs&sp=CAMSAhAB"
    );
    assert_eq!(build_search_url("é", ""), "https://www.youtube.com/results?search_query=%C3%A9&sp=CAMSAhAB");
    assert_eq!(build_search_url("x y", "dailymotion"), "https://www.dailymotion.com/search/x%20y/videos");
    assert_eq!(build_search_url("x y", "scsearch"), "scsearch20:x y");
    assert_eq!(build_search_url("x y", "other"), "ytsearch20:x y");
    assert_eq!(search_range(2, 20), (21, 40));
    assert_eq!(nonblank_lines("a\n  \n\nb\r\n"), vec!["a".to_string(), "b".to_string()]);
    assert_eq!(format_minutes_seconds(125), "2:05");
    assert_eq!(format_minutes_seconds(3600), "60:00");
}

#[test]
fn search_result_fields() {
    let doc = JsonValue::Object(vec![
        ("id".to_string(), JsonValue::String("abc".to_string())),
        ("duration".to_string(), JsonValue::Number(JsonNumber { as_u64: Some(61), text: "61".to_string() })),
        ("channel".to_string(), JsonValue::String("Chan".to_string())),
    ]);
    let r = search_result_from_json(&doc, "youtube");
    assert_eq!(r.title, "Unknown");
    assert_eq!(r.video_url, "https://www.youtube.com/watch?v=abc");
    assert_eq!(r.duration.as_deref(), Some("1:01"));
    assert_eq!(r.uploader.as_deref(), Some("Chan"));
    assert_eq!(r.thumbnail_url, None);
    assert_eq!(r.view_count, None);
}

#[test]
fn search_results_skip_unparsed_lines() {
    let doc = |t: &str| JsonValue::Object(vec![("title".to_string(), JsonValue::String(t.to_string()))]);
    let r = search_results(&vec![Some(doc("a")), None, Some(doc("b"))], "scsearch");
    assert_eq!(r.len(), 2);
    assert_eq!(r[0].title, "a");
    assert_eq!(r[1].title, "b");
    assert_eq!(r[1].video_url, "");
}

#[test]
fn ytdlp_command_lines() {
    assert_eq!(url_args("v", "18", "10"), vec!["v", "-g", "-f", "18", "--no-playlist", "--socket-timeout", "10"]);
    let s = search_args("q", "1", "20", true);
    assert_eq!(s[3], "1");
    assert_eq!(s[9], "--match-filter");
    assert_eq!(s.last().unwrap(), "q");
    assert_eq!(search_args("q", "1", "20", false).len(), 10);
    assert_eq!(playlist_args("p")[3], "1:50");
    assert_eq!(hls_transmux_args("/v.mkv")[1], "/v.mkv");
}

#[test]
fn clear_video_keeps_other_videos() {
    let mut c = UrlCache::new();
    c.set("https://youtu.be/abc", "720p", "u1".to_string());
    c.set("https://youtu.be/abc", "360p", "u2".to_string());
    c.set("https://youtu.be/abcd", "720p", "u3".to_string());
    c.set("https://youtu.be/abc:720p", "x", "u4".to_string());
    c.clear_video("https://youtu.be/abc");
    assert!(c.lookup("https://youtu.be/abc", "720p").is_none());
    assert!(c.lookup("https://youtu.be/abc", "360p").is_none());
    assert_eq!(c.lookup("https://youtu.be/abcd", "720p").unwrap().url, "u3");
    assert_eq!(c.lookup("https://youtu.be/abc:720p", "x").unwrap().url, "u4");
}

#[test]
fn video_and_quality_are_kept_apart() {
    let mut c = UrlCache::new();
    c.set("a:b", "c", "first".to_string());
    c.set("a", "b:c", "second".to_string());
    assert_eq!(c.lookup("a:b", "c").unwrap().url, "first");
    assert_eq!(c.lookup("a", "b:c").unwrap().url, "second");
}

#[test]
fn search_requests() {
    assert!(search_request("", "youtube", 0, 20, false).is_none());
    let args = search_request("cats", "scsearch", 3, 10, false).unwrap();
    assert_eq!(args[3], "21");
    assert_eq!(args[5], "30");
    assert_eq!(args.last().unwrap(), "scsearch20:cats");
}

#[test]
fn available_quality_lists() {
    assert_eq!(available_qualities(false, &vec![true, true, true, true]), vec!["360p".to_string()]);
    assert_eq!(available_qualities(true, &vec![false, true, false, false]), vec!["360p".to_string(), "480p".to_string()]);
}
