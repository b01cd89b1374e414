use alpha_tube::json::{JsonNumber, JsonValue};
use alpha_tube::playlist::{parse_video_entry, playlist_formats, playlist_metadata};

fn s(x: &str) -> JsonValue {
    JsonValue::String(x.to_string())
}

fn num(text: &str, whole: Option<u64>) -> JsonValue {
    JsonValue::Number(JsonNumber { as_u64: whole, text: text.to_string() })
}

fn obj(members: Vec<(&str, JsonValue)>) -> JsonValue {
    JsonValue::Object(members.into_iter().map(|(k, v)| (k.to_string(), v)).collect())
}

#[test]
fn test_parse_video_entry() {
    let value = obj(vec![
        ("id", s("dQw4w9WgXcQ")),
        ("title", s("Test Video")),
        ("duration", num("212.0", None)),
        ("thumbnail", s("https://example.com/thumb.jpg")),
    ]);
    let entry = parse_video_entry(&value, 1);

    assert!(entry.is_some());
    let entry = entry.unwrap();
    assert_eq!(entry.id, "dQw4w9WgXcQ");
    assert_eq!(entry.title, "Test Video");
    assert_eq!(entry.index, 1);
    assert!(entry.url.contains("dQw4w9WgXcQ"));
}

// ---------------------------------------------------------------------------

#[test]
fn entry_fields_exact() {
    let value = obj(vec![("id", s("abc")), ("duration", num("212.0", None))]);
    let e = parse_video_entry(&value, 7).unwrap();
    assert_eq!(e.url, "https://www.youtube.com/watch?v=abc");
    assert_eq!(e.title, "Unknown Title");
    assert_eq!(e.duration, "212.0");
    assert_eq!(e.thumbnail_url, "");
    assert_eq!(e.index, 7);
    assert!(e.formats.is_empty());
}

#[test]
fn entry_without_id_uses_url_or_is_skipped() {
    let value = obj(vec![("url", s("https://x.test/v"))]);
    let e = parse_video_entry(&value, 2).unwrap();
    assert_eq!(e.url, "https://x.test/v");
    assert_eq!(e.id, "");
    assert!(parse_video_entry(&obj(vec![("title", s("t"))]), 1).is_none());
}

#[test]
fn entry_thumbnail_falls_back_to_last() {
    let value = obj(vec![
        ("id", s("a")),
        ("thumbnails", JsonValue::Array(vec![obj(vec![("url", s("first"))]), obj(vec![("url", s("last"))])])),
    ]);
    assert_eq!(parse_video_entry(&value, 1).unwrap().thumbnail_url, "last");
}

#[test]
fn playlist_formats_filter_and_resolution() {
    let fmts = JsonValue::Array(vec![
        obj(vec![("format_id", s("sb0")), ("vcodec", s("none")), ("acodec", s("none"))]),
        obj(vec![("format_id", s("140")), ("ext", s("m4a")), ("acodec", s("mp4a.40.2")), ("vcodec", s("none"))]),
        obj(vec![("format_id", s("137")), ("ext", s("mp4")), ("vcodec", s("avc1")), ("width", num("1920", Some(1920))), ("height", num("1080", Some(1080))), ("filesize_approx", num("99", Some(99)))]),
        obj(vec![("format_id", s("x")), ("vcodec", s("vp9"))]),
        obj(vec![("ext", s("mp4")), ("vcodec", s("avc1"))]),
        obj(vec![("format_id", s("y")), ("ext", s("mhtml")), ("vcodec", s("avc1"))]),
    ]);
    let video = obj(vec![("formats", fmts)]);
    let r = playlist_formats(&video);
    assert_eq!(r.len(), 3);
    assert_eq!(r[0].format_id, "140");
    assert_eq!(r[0].resolution, "audio only");
    assert_eq!(r[1].resolution, "1920x1080");
    assert_eq!(r[1].filesize, 99);
    assert_eq!(r[1].fps, "0");
    assert_eq!(r[2].resolution, "unknown");
    assert_eq!(r[2].acodec, "none");
    assert!(playlist_formats(&obj(vec![])).is_empty());
}

#[test]
fn playlist_metadata_reads_entries() {
    let doc = obj(vec![
        ("_type", s("playlist")),
        ("title", s("Mix")),
        ("id", s("PL1")),
        ("thumbnails", JsonValue::Array(vec![obj(vec![("url", s("t1"))]), obj(vec![("url", s("t2"))])])),
        ("entries", JsonValue::Array(vec![
            obj(vec![("id", s("a")), ("thumbnails", JsonValue::Array(vec![obj(vec![("url", s("ta"))]), obj(vec![("url", s("tb"))])]))]),
            obj(vec![("title", s("no id"))]),
            obj(vec![("id", s("c")), ("title", s("C"))]),
        ])),
    ]);
    let m = playlist_metadata(&doc).unwrap();
    assert_eq!(m.title, "Mix");
    assert_eq!(m.playlist_id, "PL1");
    assert_eq!(m.video_count, 3);
    assert_eq!(m.thumbnail_url, "t2");
    assert_eq!(m.videos.len(), 2);
    assert_eq!(m.videos[0].index, 1);
    assert_eq!(m.videos[0].thumbnail_url, "ta");
    assert_eq!(m.videos[1].index, 3);
    assert_eq!(m.videos[1].title, "C");
    let counted = obj(vec![("_type", s("playlist")), ("playlist_count", num("120", Some(120)))]);
    assert_eq!(playlist_metadata(&counted).unwrap().video_count, 120);
    assert_eq!(playlist_metadata(&obj(vec![("_type", s("video"))])).unwrap_err(), "URL is not a playlist");
}
