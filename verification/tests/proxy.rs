use alpha_tube::stream_proxy::{
    decode_segment_url, manifest_headers, no_stream_reply, rewrite_hls_manifest, rewrite_uri_in_tag,
    segment_error_reply, stream_headers, upstream_headers, SegmentError, StreamProxy, StreamRoute,
};

fn param(link: &str) -> &str {
    link.split("url=").nth(1).unwrap()
}

#[test]
fn local_url_and_routes() {
    let mut p = StreamProxy::new(9876);
    assert_eq!(p.get_local_url(), "http://127.0.0.1:9876/stream");
    assert!(matches!(p.route(), StreamRoute::NoUrl));
    p.set_url("https://cdn.test/index.m3u8".to_string(), vec![]);
    assert!(matches!(p.route(), StreamRoute::Manifest(ref u) if u == "https://cdn.test/index.m3u8"));
    p.set_url("https://cdn.test/videoplayback?x=1".to_string(), vec![]);
    assert!(matches!(p.route(), StreamRoute::Direct(_)));
    assert_eq!(p.get_local_url(), "http://127.0.0.1:9876/stream");
    let r = no_stream_reply();
    assert_eq!((r.status, r.body.as_str()), (404, "No stream URL set"));
}

#[test]
fn manifest_rewriting() {
    let manifest = "#EXTM3U\n#EXT-X-KEY:METHOD=AES-128,URI=\"key.bin\",IV=0x1\nseg1.ts\r\n\nhttps://other.test/seg2.ts\n";
    let out = rewrite_hls_manifest(manifest, "https://cdn.test/path/index.m3u8", 9000);
    let lines: Vec<&str> = out.split('\n').collect();
    assert_eq!(lines[0], "#EXTM3U");
    assert!(lines[1].starts_with("#EXT-X-KEY:METHOD=AES-128,URI=\"http://127.0.0.1:9000/segment?url="));
    assert!(lines[1].ends_with("\",IV=0x1"));
    assert!(lines[2].starts_with("http://127.0.0.1:9000/segment?url="));
    assert_eq!(lines[3], "");
    assert!(lines[4].starts_with("http://127.0.0.1:9000/segment?url="));
    assert_eq!(lines.len(), 6);
    assert!(out.ends_with('\n'));
    assert_eq!(decode_segment_url(param(lines[2])).unwrap(), "https://cdn.test/path/seg1.ts");
    assert_eq!(decode_segment_url(param(lines[4])).unwrap(), "https://other.test/seg2.ts");
    let key = param(lines[1]).split('"').next().unwrap();
    assert_eq!(decode_segment_url(key).unwrap(), "https://cdn.test/path/key.bin");
}

#[test]
fn segment_parameter_is_base64_of_address() {
    let out = rewrite_hls_manifest("a", "https://h/x/", 1);
    // "https://h/x/a" in URL-safe base64 without padding
    assert_eq!(out, "http://127.0.0.1:1/segment?url=aHR0cHM6Ly9oL3gvYQ\n");
}

#[test]
fn tag_without_closing_quote_is_kept() {
    assert_eq!(rewrite_uri_in_tag("#EXT-X-MAP:URI=\"init.mp4", "b/", 5), "#EXT-X-MAP:URI=\"init.mp4");
    assert_eq!(rewrite_uri_in_tag("#EXT-X-VERSION:3", "b/", 5), "#EXT-X-VERSION:3");
}

#[test]
fn segment_errors() {
    assert_eq!(decode_segment_url("***"), Err(SegmentError::InvalidBase64));
    assert_eq!(decode_segment_url("aGk="), Err(SegmentError::InvalidBase64));
    assert_eq!(decode_segment_url("_w"), Err(SegmentError::InvalidUtf8));
    assert_eq!(decode_segment_url("aGk").unwrap(), "hi");
    let r = segment_error_reply(SegmentError::InvalidBase64);
    assert_eq!((r.status, r.body.as_str()), (400, "Invalid base64 URL"));
    let r = segment_error_reply(SegmentError::InvalidUtf8);
    assert_eq!((r.status, r.body.as_str()), (400, "Invalid URL encoding"));
}

#[test]
fn header_lists() {
    let h = upstream_headers(Some("bytes=0-"));
    assert_eq!(h.len(), 3);
    assert_eq!(h[1], ("Referer".to_string(), "https://www.youtube.com/".to_string()));
    assert_eq!(h[2], ("Range".to_string(), "bytes=0-".to_string()));
    assert_eq!(upstream_headers(None).len(), 2);
    assert_eq!(manifest_headers()[0].1, "application/vnd.apple.mpegurl");
    let s = stream_headers(None, Some("+42"), Some("bytes 0-41/42"));
    assert_eq!(s[0], ("Content-Type".to_string(), "video/mp4".to_string()));
    assert_eq!(s[6], ("Content-Length".to_string(), "42".to_string()));
    assert_eq!(s[7], ("Content-Range".to_string(), "bytes 0-41/42".to_string()));
    let s = stream_headers(Some("video/webm"), Some("x"), None);
    assert_eq!(s.len(), 6);
    assert_eq!(s[0].1, "video/webm");
}
