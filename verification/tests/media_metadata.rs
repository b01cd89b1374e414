use alpha_tube::json::{JsonNumber, JsonValue};
use alpha_tube::media::{
    get_format_selector, is_ffmpeg_compatible, local_video_metadata, metadata_formats, needs_hls,
    playlist_probe, single_video_metadata, hls_cache_complete, hls_wait_step, HlsWait,
};

fn s(x: &str) -> JsonValue {
    JsonValue::String(x.to_string())
}

fn num(text: &str, whole: Option<u64>) -> JsonValue {
    JsonValue::Number(JsonNumber { as_u64: whole, text: text.to_string() })
}

fn obj(members: Vec<(&str, JsonValue)>) -> JsonValue {
    JsonValue::Object(members.into_iter().map(|(k, v)| (k.to_string(), v)).collect())
}

#[test]
fn format_selector_by_quality() {
    assert_eq!(get_format_selector("Audio Only"), "bestaudio/best");
    assert_eq!(get_format_selector("MP3"), "bestaudio/best");
    assert_eq!(
        get_format_selector("720p"),
        "bestvideo[height<=720][ext=mp4]+bestaudio[ext=m4a]/best[height<=720][ext=mp4]/best[height<=720]"
    );
    assert_eq!(
        get_format_selector("2K"),
        "bestvideo[height<=1440][ext=mp4]+bestaudio[ext=m4a]/best[height<=1440][ext=mp4]/best[height<=1440]"
    );
    assert_eq!(
        get_format_selector("4k"),
        "bestvideo[height<=2160][ext=mp4]+bestaudio[ext=m4a]/best[height<=2160][ext=mp4]/best[height<=2160]"
    );
    assert_eq!(get_format_selector("best"), "bestvideo[ext=mp4]+bestaudio[ext=m4a]/best[ext=mp4]/best");
    assert_eq!(get_format_selector("weird"), "bestvideo[ext=mp4]+bestaudio[ext=m4a]/best[ext=mp4]/best");
}

#[test]
fn ffmpeg_compatibility() {
    assert!(is_ffmpeg_compatible("avc1.64001F", "mp4a.40.2", "MP4"));
    assert!(is_ffmpeg_compatible("none", "opus", "webm"));
    assert!(is_ffmpeg_compatible("VP9", "none", "webm"));
    assert!(!is_ffmpeg_compatible("av01.0.08M.08", "none", "mp4"));
    assert!(!is_ffmpeg_compatible("avc1", "mp4a", "mkv"));
    assert!(!is_ffmpeg_compatible("theora", "none", "ogg"));
    assert!(!is_ffmpeg_compatible("avc1", "alac", "mp4"));
}

#[test]
fn metadata_formats_filter() {
    let fmts = vec![
        obj(vec![("format_id", s("sb1")), ("ext", s("mhtml"))]),
        obj(vec![("format_id", s("18")), ("ext", s("mp4")), ("vcodec", s("avc1")), ("acodec", s("mp4a")), ("resolution", s("640x360")), ("fps", num("30", Some(30))), ("tbr", num("500.5", None)), ("filesize", num("1000", Some(1000))), ("format_note", s("360p"))]),
        obj(vec![("format_id", s("399")), ("ext", s("mp4")), ("vcodec", s("av01")), ("acodec", s("none"))]),
        obj(vec![("format_id", s("251")), ("ext", s("webm")), ("vcodec", s("none")), ("acodec", s("opus"))]),
        obj(vec![("format_id", s("nothing")), ("ext", s("mp4")), ("vcodec", s("none")), ("acodec", s("none"))]),
    ];
    let r = metadata_formats(&fmts);
    assert_eq!(r.len(), 2);
    assert_eq!(r[0].format_id, "18");
    assert_eq!(r[0].resolution, "640x360");
    assert_eq!(r[0].fps, "30");
    assert_eq!(r[0].tbr, "500.5");
    assert_eq!(r[0].filesize, 1000);
    assert_eq!(r[0].note, "360p");
    assert_eq!(r[1].format_id, "251");
    assert_eq!(r[1].resolution, "audio only");
    assert_eq!(r[1].fps, "0");
}

#[test]
fn playlist_probe_and_single_video() {
    let pl = obj(vec![
        ("_type", s("playlist")),
        ("entries", JsonValue::Array(vec![obj(vec![]), obj(vec![])])),
    ]);
    let m = playlist_probe(&pl).unwrap();
    assert!(m.is_playlist);
    assert_eq!(m.title, "Unknown Playlist");
    assert_eq!(m.video_count, Some(2));
    assert_eq!(m.duration, "0");
    let video = obj(vec![("title", s("T")), ("duration", num("12.5", None)), ("formats", JsonValue::Array(vec![]))]);
    assert!(playlist_probe(&video).is_none());
    let v = single_video_metadata(&video).unwrap();
    assert!(!v.is_playlist);
    assert_eq!(v.title, "T");
    assert_eq!(v.duration, "12.5");
    assert_eq!(v.thumbnail_url, "");
    assert_eq!(v.video_count, None);
    let bare = obj(vec![("title", s("T"))]);
    assert_eq!(single_video_metadata(&bare).unwrap_err(), "No formats found");
}

#[test]
fn local_metadata_from_ffprobe() {
    let doc = obj(vec![
        ("format", obj(vec![("duration", s("61.2")), ("size", s("12345"))])),
        ("streams", JsonValue::Array(vec![
            obj(vec![("codec_type", s("audio")), ("codec_name", s("aac")), ("tags", obj(vec![("language", s("eng"))]))]),
            obj(vec![("codec_type", s("video")), ("codec_name", s("h264")), ("width", num("1280", Some(1280))), ("height", num("720", Some(720)))]),
            obj(vec![("codec_type", s("audio")), ("codec_name", s("opus")), ("tags", obj(vec![("title", s("Commentary"))]))]),
            obj(vec![("codec_type", s("audio")), ("codec_name", s("mp3"))]),
        ])),
    ]);
    let m = local_video_metadata(&doc).unwrap();
    assert_eq!(m.duration, "61.2");
    assert_eq!(m.width, 1280);
    assert_eq!(m.height, 720);
    assert_eq!(m.codec, "h264");
    assert_eq!(m.file_size, 12345);
    assert_eq!(m.audio_tracks, vec!["eng".to_string(), "Commentary".to_string(), "unknown (mp3)".to_string()]);
    let none = obj(vec![("streams", JsonValue::Array(vec![]))]);
    let m = local_video_metadata(&none).unwrap();
    assert_eq!(m.duration, "0");
    assert_eq!(m.codec, "unknown");
    assert_eq!(m.width, 0);
    assert_eq!(m.file_size, 0);
    assert_eq!(local_video_metadata(&obj(vec![])).unwrap_err(), "No streams found");
}

#[test]
fn hls_only_for_several_audio_tracks() {
    let two = obj(vec![("streams", JsonValue::Array(vec![obj(vec![]), obj(vec![])]))]);
    let one = obj(vec![("streams", JsonValue::Array(vec![obj(vec![])]))]);
    assert!(needs_hls(&two));
    assert!(!needs_hls(&one));
    assert!(!needs_hls(&obj(vec![])));
}

#[test]
fn hls_decisions() {
    assert!(hls_cache_complete(true, true, true));
    assert!(!hls_cache_complete(true, true, false));
    assert_eq!(hls_wait_step(true, true, true, u64::MAX), HlsWait::Ready);
    assert_eq!(hls_wait_step(true, true, false, 30_000_000_000), HlsWait::Poll);
    assert_eq!(hls_wait_step(true, true, false, 30_000_000_001), HlsWait::TimedOut);
    assert_eq!(hls_wait_step(false, false, false, 0), HlsWait::Poll);
}
