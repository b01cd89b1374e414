//! Video metadata: the format selector for a quality, which formats the
//! bundled FFmpeg can handle, and what yt-dlp and ffprobe report of a video.
use vstd::prelude::*;
use crate::json::{JsonValue, at, field, str_of, u64_of, array_of, str_or, number_text_or_zero};
use crate::numtext::{parse_u64, parse_u64_spec};
use crate::text::{
    contains_seq, has_str, str_eq, lower_text, lowercase_chars, owned, chars_of, decimal_text,
    push_decimal, push_str, all_ascii, ascii_lowercase, has_sub_at,
};

verus! {

// ---------------------------------------------------------------------------
// Format selectors and codec support
// ---------------------------------------------------------------------------

pub open spec fn video_selector(h: Seq<char>) -> Seq<char> {
    "bestvideo[height<="@ + h + "][ext=mp4]+bestaudio[ext=m4a]/best[height<="@ + h
        + "][ext=mp4]/best[height<="@ + h + "]"@
}

/// The yt-dlp format selector for a quality name, already in lowercase.
pub open spec fn format_selector_spec(q: Seq<char>) -> Seq<char> {
    if q == "audio"@ || q == "mp3"@ || q == "audio only"@ {
        "bestaudio/best"@
    } else if q == "360p"@ {
        video_selector("360"@)
    } else if q == "480p"@ {
        video_selector("480"@)
    } else if q == "720p"@ {
        video_selector("720"@)
    } else if q == "1080p"@ {
        video_selector("1080"@)
    } else if q == "1440p"@ || q == "2k"@ {
        video_selector("1440"@)
    } else if q == "2160p"@ || q == "4k"@ {
        video_selector("2160"@)
    } else {
        "bestvideo[ext=mp4]+bestaudio[ext=m4a]/best[ext=mp4]/best"@
    }
}

fn video_selector_exec(h: &str) -> (r: String)
    ensures
        r@ == video_selector(h@),
{
    let mut r = owned("bestvideo[height<=");
    push_str(&mut r, h);
    push_str(&mut r, "][ext=mp4]+bestaudio[ext=m4a]/best[height<=");
    push_str(&mut r, h);
    push_str(&mut r, "][ext=mp4]/best[height<=");
    push_str(&mut r, h);
    push_str(&mut r, "]");
    r
}

/// Convert quality string to yt-dlp format selector
pub fn get_format_selector(quality: &str) -> (r: String)
    ensures
        r@ == format_selector_spec(lower_text(quality@)),
{
    let q = lowercase_chars(quality);
    if str_eq(&q, "audio") || str_eq(&q, "mp3") || str_eq(&q, "audio only") {
        owned("bestaudio/best")
    } else if str_eq(&q, "360p") {
        video_selector_exec("360")
    } else if str_eq(&q, "480p") {
        video_selector_exec("480")
    } else if str_eq(&q, "720p") {
        video_selector_exec("720")
    } else if str_eq(&q, "1080p") {
        video_selector_exec("1080")
    } else if str_eq(&q, "1440p") || str_eq(&q, "2k") {
        video_selector_exec("1440")
    } else if str_eq(&q, "2160p") || str_eq(&q, "4k") {
        video_selector_exec("2160")
    } else {
        owned("bestvideo[ext=mp4]+bestaudio[ext=m4a]/best[ext=mp4]/best")
    }
}

/// Video codecs that the bundled FFmpeg decodes (in lowercase): H.264,
/// HEVC, VP8, VP9, or none.
pub open spec fn video_codec_supported(v: Seq<char>) -> bool {
    v == "none"@ || contains_seq(v, "avc"@) || contains_seq(v, "h264"@) || contains_seq(v, "hevc"@)
        || contains_seq(v, "hev1"@) || contains_seq(v, "hvc1"@) || contains_seq(v, "vp8"@)
        || contains_seq(v, "vp9"@) || contains_seq(v, "vp09"@)
}

/// AV1, which the bundled FFmpeg cannot decode.
pub open spec fn is_av1(v: Seq<char>) -> bool {
    contains_seq(v, "av01"@) || contains_seq(v, "av1"@)
}

/// Audio codecs that the bundled FFmpeg decodes (in lowercase).
pub open spec fn audio_codec_supported(a: Seq<char>) -> bool {
    a == "none"@ || contains_seq(a, "aac"@) || contains_seq(a, "mp4a"@) || contains_seq(a, "mp3"@)
        || contains_seq(a, "opus"@) || contains_seq(a, "vorbis"@) || contains_seq(a, "ac3"@)
        || contains_seq(a, "eac3"@) || contains_seq(a, "flac"@)
}

/// Containers that the bundled FFmpeg writes (in lowercase).
pub open spec fn container_supported(e: Seq<char>) -> bool {
    e == "mp4"@ || e == "m4a"@ || e == "webm"@ || e == "mov"@ || e == "mp3"@ || e == "ogg"@ || e
        == "3gp"@
}

/// A format that the bundled FFmpeg can handle, its codecs and container
/// compared in lowercase.
pub open spec fn ffmpeg_compatible_spec(vcodec: Seq<char>, acodec: Seq<char>, ext: Seq<char>) -> bool {
    let v = lower_text(vcodec);
    let a = lower_text(acodec);
    let e = lower_text(ext);
    !is_av1(v) && video_codec_supported(v) && audio_codec_supported(a) && container_supported(e)
}

/// Check if a format's codecs are compatible with our bundled FFmpeg build
pub fn is_ffmpeg_compatible(vcodec: &str, acodec: &str, ext: &str) -> (r: bool)
    ensures
        r == ffmpeg_compatible_spec(vcodec@, acodec@, ext@),
{
    let v = lowercase_chars(vcodec);
    let a = lowercase_chars(acodec);
    let e = lowercase_chars(ext);
    let video_ok = str_eq(&v, "none") || has_str(&v, "avc") || has_str(&v, "h264") || has_str(
        &v,
        "hevc",
    ) || has_str(&v, "hev1") || has_str(&v, "hvc1") || has_str(&v, "vp8") || has_str(&v, "vp9")
        || has_str(&v, "vp09");
    if has_str(&v, "av01") || has_str(&v, "av1") {
        return false;
    }
    let audio_ok = str_eq(&a, "none") || has_str(&a, "aac") || has_str(&a, "mp4a") || has_str(
        &a,
        "mp3",
    ) || has_str(&a, "opus") || has_str(&a, "vorbis") || has_str(&a, "ac3") || has_str(&a, "eac3")
        || has_str(&a, "flac");
    let ext_ok = str_eq(&e, "mp4") || str_eq(&e, "m4a") || str_eq(&e, "webm") || str_eq(&e, "mov")
        || str_eq(&e, "mp3") || str_eq(&e, "ogg") || str_eq(&e, "3gp");
    video_ok && audio_ok && ext_ok
}


// ---------------------------------------------------------------------------
// Formats of a video, as yt-dlp's `--dump-json` lists them
// ---------------------------------------------------------------------------

/// One downloadable format. `fps` and `tbr` (total bitrate in kbps) are the
/// numerals that yt-dlp printed, `"0"` when it printed none.
#[derive(Debug, Clone)]
pub struct VideoFormat {
    pub format_id: String,
    pub ext: String,
    pub resolution: String,
    pub fps: String,
    pub filesize: u64,
    pub vcodec: String,
    pub acodec: String,
    pub note: String,
    pub tbr: String,
}

/// `"{width}x{height}"` when both are whole numbers.
pub open spec fn dims_text(fmt: JsonValue) -> Option<Seq<char>> {
    match (u64_of(at(fmt, "width"@)), u64_of(at(fmt, "height"@))) {
        (Some(w), Some(h)) => Some(decimal_text(w as nat) + seq!['x'] + decimal_text(h as nat)),
        _ => None,
    }
}

/// `filesize`, else `filesize_approx`, else 0.
pub open spec fn filesize_of(fmt: JsonValue) -> u64 {
    match u64_of(at(fmt, "filesize"@)) {
        Some(n) => n,
        None => match u64_of(at(fmt, "filesize_approx"@)) {
            Some(n) => n,
            None => 0,
        },
    }
}

/// `resolution`, else the dimensions, else `fallback`.
pub open spec fn resolution_or(fmt: JsonValue, fallback: Seq<char>) -> Seq<char> {
    match str_of(at(fmt, "resolution"@)) {
        Some(r) => r,
        None => match dims_text(fmt) {
            Some(d) => d,
            None => fallback,
        },
    }
}

pub open spec fn vcodec_of(fmt: JsonValue) -> Seq<char> {
    str_or(fmt, "vcodec"@, "none"@)
}

pub open spec fn acodec_of(fmt: JsonValue) -> Seq<char> {
    str_or(fmt, "acodec"@, "none"@)
}

/// Storyboards and MHTML pages, which are no video.
pub open spec fn is_storyboard(id: Seq<char>, ext: Seq<char>) -> bool {
    contains_seq(id, "sb"@) || ext == "mhtml"@
}

/// The formats that the metadata lists: no storyboard, playable by the
/// bundled FFmpeg, with video or audio.
pub open spec fn keeps_metadata_format(fmt: JsonValue) -> bool {
    let id = str_or(fmt, "format_id"@, ""@);
    let ext = str_or(fmt, "ext"@, ""@);
    &&& !is_storyboard(id, ext)
    &&& ffmpeg_compatible_spec(vcodec_of(fmt), acodec_of(fmt), ext)
    &&& (vcodec_of(fmt) != "none"@ || acodec_of(fmt) != "none"@)
}

/// `f` is the format that `fmt` describes.
pub open spec fn video_format_of(f: VideoFormat, fmt: JsonValue) -> bool {
    &&& f.format_id@ == str_or(fmt, "format_id"@, ""@)
    &&& f.ext@ == str_or(fmt, "ext"@, ""@)
    &&& f.resolution@ == resolution_or(fmt, "audio only"@)
    &&& f.fps@ == number_text_or_zero(fmt, "fps"@)
    &&& f.filesize == filesize_of(fmt)
    &&& f.vcodec@ == vcodec_of(fmt)
    &&& f.acodec@ == acodec_of(fmt)
    &&& f.note@ == str_or(fmt, "format_note"@, ""@)
    &&& f.tbr@ == number_text_or_zero(fmt, "tbr"@)
}

pub fn dims_text_exec(fmt: &JsonValue) -> (r: Option<String>)
    ensures
        match r {
            Some(d) => dims_text(*fmt) == Some(d@),
            None => dims_text(*fmt) is None,
        },
{
    match (fmt.u64_at("width"), fmt.u64_at("height")) {
        (Some(w), Some(h)) => {
            let mut d = String::new();
            push_decimal(&mut d, w);
            push_str(&mut d, "x");
            push_decimal(&mut d, h);
            proof {
                reveal_strlit("x");
            }
            assert(d@ =~= decimal_text(w as nat) + seq!['x'] + decimal_text(h as nat));
            Some(d)
        },
        _ => None,
    }
}

pub fn filesize_exec(fmt: &JsonValue) -> (r: u64)
    ensures
        r == filesize_of(*fmt),
{
    match fmt.u64_at("filesize") {
        Some(n) => n,
        None => match fmt.u64_at("filesize_approx") {
            Some(n) => n,
            None => 0,
        },
    }
}

pub fn resolution_exec(fmt: &JsonValue, fallback: &str) -> (r: String)
    ensures
        r@ == resolution_or(*fmt, fallback@),
{
    match fmt.str_at("resolution") {
        Some(s) => s.clone(),
        None => match dims_text_exec(fmt) {
            Some(d) => d,
            None => owned(fallback),
        },
    }
}

/// The format that `fmt` describes, when the metadata lists it.
pub fn video_format_from_json(fmt: &JsonValue) -> (r: Option<VideoFormat>)
    ensures
        r is Some <==> keeps_metadata_format(*fmt),
        r matches Some(f) ==> video_format_of(f, *fmt),
{
    let format_id = fmt.str_or("format_id", "");
    let ext = fmt.str_or("ext", "");
    let resolution = resolution_exec(fmt, "audio only");
    let fps = fmt.number_text_or_zero("fps");
    let filesize = filesize_exec(fmt);
    let vcodec = fmt.str_or("vcodec", "none");
    let acodec = fmt.str_or("acodec", "none");
    let note = fmt.str_or("format_note", "");
    let tbr = fmt.number_text_or_zero("tbr");
    proof {
        reveal_strlit("");
    }
    let id_chars = chars_of(format_id.as_str());
    let ext_chars = chars_of(ext.as_str());
    if has_str(&id_chars, "sb") || str_eq(&ext_chars, "mhtml") {
        return None;
    }
    if !is_ffmpeg_compatible(vcodec.as_str(), acodec.as_str(), ext.as_str()) {
        return None;
    }
    let v = chars_of(vcodec.as_str());
    let a = chars_of(acodec.as_str());
    if !str_eq(&v, "none") || !str_eq(&a, "none") {
        Some(VideoFormat { format_id, ext, resolution, fps, filesize, vcodec, acodec, note, tbr })
    } else {
        None
    }
}

/// The formats of a video that the metadata lists, in yt-dlp's order.
pub fn metadata_formats(fmts: &Vec<JsonValue>) -> (r: Vec<VideoFormat>)
    ensures
        r@.len() == fmts@.filter(|f: JsonValue| keeps_metadata_format(f)).len(),
        forall|i: int|
            0 <= i < r@.len() ==> video_format_of(
                #[trigger] r@[i],
                fmts@.filter(|f: JsonValue| keeps_metadata_format(f))[i],
            ),
{
    let mut r: Vec<VideoFormat> = Vec::new();
    let mut i: usize = 0;
    while i < fmts.len()
        invariant
            i <= fmts.len(),
            r@.len() == fmts@.take(i as int).filter(|f: JsonValue| keeps_metadata_format(f)).len(),
            forall|k: int|
                0 <= k < r@.len() ==> video_format_of(
                    #[trigger] r@[k],
                    fmts@.take(i as int).filter(|f: JsonValue| keeps_metadata_format(f))[k],
                ),
        decreases fmts.len() - i,
    {
        proof {
            assert(fmts@.take(i + 1).drop_last() =~= fmts@.take(i as int));
            reveal_with_fuel(Seq::filter, 1);
        }
        match video_format_from_json(&fmts[i]) {
            Some(f) => {
                r.push(f);
            },
            None => {},
        }
        i += 1;
    }
    assert(fmts@.take(fmts.len() as int) =~= fmts@);
    r
}


// ---------------------------------------------------------------------------
// What a link is: a playlist or a single video
// ---------------------------------------------------------------------------

/// The metadata of a link. `duration` is the numeral of seconds that
/// yt-dlp printed, `"0"` when it printed none.
#[derive(Debug)]
pub struct VideoMetadataResponse {
    pub title: String,
    pub thumbnail_url: String,
    pub duration: String,
    pub formats: Vec<VideoFormat>,
    pub is_playlist: bool,
    pub video_count: Option<usize>,
}

/// yt-dlp's document describes a playlist.
pub open spec fn is_playlist_doc(json: JsonValue) -> bool {
    str_or(json, "_type"@, ""@) == "playlist"@
}

/// `playlist_count`, else the number of `entries`, else 0.
pub open spec fn playlist_count_spec(json: JsonValue) -> int {
    match u64_of(at(json, "playlist_count"@)) {
        Some(n) => n as int,
        None => match array_of(at(json, "entries"@)) {
            Some(a) => a.len() as int,
            None => 0,
        },
    }
}

/// The `url` of the last of `thumbnails`, or empty.
pub open spec fn last_thumbnail_url(json: JsonValue) -> Seq<char> {
    match array_of(at(json, "thumbnails"@)) {
        Some(a) => if a.len() > 0 {
            match str_of(at(a.last(), "url"@)) {
                Some(u) => u,
                None => ""@,
            }
        } else {
            ""@
        },
        None => ""@,
    }
}

pub fn playlist_count(json: &JsonValue) -> (r: u64)
    ensures
        r as int == playlist_count_spec(*json),
{
    match json.u64_at("playlist_count") {
        Some(n) => n,
        None => match json.array_at("entries") {
            Some(a) => a.len() as u64,
            None => 0,
        },
    }
}

pub fn last_thumbnail(json: &JsonValue) -> (r: String)
    ensures
        r@ == last_thumbnail_url(*json),
{
    proof {
        reveal_strlit("");
    }
    match json.array_at("thumbnails") {
        Some(a) => if a.len() > 0 {
            a[a.len() - 1].str_or("url", "")
        } else {
            String::new()
        },
        None => String::new(),
    }
}

/// The answer for a playlist, read from yt-dlp's `--flat-playlist -J`
/// document; `None` when the link is no playlist.
pub fn playlist_probe(json: &JsonValue) -> (r: Option<VideoMetadataResponse>)
    ensures
        r is Some <==> is_playlist_doc(*json),
        r matches Some(m) ==> {
            &&& m.title@ == str_or(*json, "title"@, "Unknown Playlist"@)
            &&& m.thumbnail_url@ == last_thumbnail_url(*json)
            &&& m.duration@ == "0"@
            &&& m.formats@.len() == 0
            &&& m.is_playlist
            &&& m.video_count == Some(playlist_count_spec(*json) as usize)
        },
{
    let kind = json.str_or("_type", "");
    if !str_eq(&chars_of(kind.as_str()), "playlist") {
        return None;
    }
    let count = playlist_count(json);
    Some(VideoMetadataResponse {
        title: json.str_or("title", "Unknown Playlist"),
        thumbnail_url: last_thumbnail(json),
        duration: owned("0"),
        formats: Vec::new(),
        is_playlist: true,
        video_count: Some(count as usize),
    })
}

/// The answer for a single video, read from yt-dlp's `--dump-json`
/// document; an error when it lists no formats.
pub fn single_video_metadata(json: &JsonValue) -> (r: Result<VideoMetadataResponse, String>)
    ensures
        match array_of(at(*json, "formats"@)) {
            None => r matches Err(e) && e@ == "No formats found"@,
            Some(fmts) => r matches Ok(m) && {
                &&& m.title@ == str_or(*json, "title"@, "Unknown Title"@)
                &&& m.thumbnail_url@ == str_or(*json, "thumbnail"@, ""@)
                &&& m.duration@ == number_text_or_zero(*json, "duration"@)
                &&& !m.is_playlist
                &&& m.video_count is None
                &&& m.formats@.len() == fmts.filter(|f: JsonValue| keeps_metadata_format(f)).len()
                &&& forall|i: int|
                    0 <= i < m.formats@.len() ==> video_format_of(
                        #[trigger] m.formats@[i],
                        fmts.filter(|f: JsonValue| keeps_metadata_format(f))[i],
                    )
            },
        },
{
    let title = json.str_or("title", "Unknown Title");
    let thumbnail_url = json.str_or("thumbnail", "");
    let duration = json.number_text_or_zero("duration");
    match json.array_at("formats") {
        None => Err(owned("No formats found")),
        Some(fmts) => {
            let formats = metadata_formats(fmts);
            Ok(VideoMetadataResponse {
                title,
                thumbnail_url,
                duration,
                formats,
                is_playlist: false,
                video_count: None,
            })
        },
    }
}


// ---------------------------------------------------------------------------
// Local files, as ffprobe reports them
// ---------------------------------------------------------------------------

/// What ffprobe reports of a local video. `duration` is the numeral of
/// seconds that ffprobe printed, `"0"` when it printed none.
#[derive(Debug)]
pub struct VideoMetadata {
    pub duration: String,
    pub width: u32,
    pub height: u32,
    pub codec: String,
    pub file_size: u64,
    pub audio_tracks: Vec<String>,
}

/// The stream is of the given type (`codec_type`).
pub open spec fn stream_is(st: JsonValue, t: Seq<char>) -> bool {
    str_of(at(st, "codec_type"@)) == Some(t)
}

/// The first stream of the given type.
pub open spec fn first_of_type(s: Seq<JsonValue>, t: Seq<char>) -> Option<JsonValue>
    decreases s.len(),
{
    if s.len() == 0 {
        None
    } else if stream_is(s[0], t) {
        Some(s[0])
    } else {
        first_of_type(s.drop_first(), t)
    }
}

/// The label of an audio track: its title, else `"{language} ({codec})"`.
pub open spec fn audio_label(st: JsonValue) -> Seq<char> {
    let tags = at(st, "tags"@);
    let lang = str_or(tags, "language"@, "unknown"@);
    let title = str_or(tags, "title"@, lang);
    let codec = str_or(st, "codec_name"@, ""@);
    if title != "unknown"@ {
        title
    } else {
        lang + " ("@ + codec + ")"@
    }
}

pub open spec fn is_audio_stream(st: JsonValue) -> bool {
    stream_is(st, "audio"@)
}

/// A whole number that a field holds as text, else 0.
pub open spec fn u64_text_or_zero(v: JsonValue, key: Seq<char>) -> u64 {
    match str_of(at(v, key)) {
        Some(t) => match parse_u64_spec(t) {
            Some(n) => n as u64,
            None => 0,
        },
        None => 0,
    }
}

/// The numeral of seconds that a field holds as text, else `"0"`.
pub open spec fn text_or_zero(v: JsonValue, key: Seq<char>) -> Seq<char> {
    str_or(v, key, "0"@)
}

pub open spec fn dim_of(video: Option<JsonValue>, key: Seq<char>) -> u32 {
    match video {
        Some(st) => match u64_of(at(st, key)) {
            Some(n) => n as u32,
            None => 0,
        },
        None => 0,
    }
}

fn first_of_type_exec<'a>(streams: &'a Vec<JsonValue>, t: &str) -> (r: Option<&'a JsonValue>)
    ensures
        match r {
            Some(x) => first_of_type(streams@, t@) == Some(*x),
            None => first_of_type(streams@, t@) is None,
        },
{
    let mut i: usize = 0;
    assert(streams@.subrange(0, streams@.len() as int) =~= streams@);
    while i < streams.len()
        invariant
            i <= streams.len(),
            first_of_type(streams@, t@) == first_of_type(
                streams@.subrange(i as int, streams@.len() as int),
                t@,
            ),
        decreases streams.len() - i,
    {
        let ghost rest = streams@.subrange(i as int, streams@.len() as int);
        assert(rest.drop_first() =~= streams@.subrange(i + 1, streams@.len() as int));
        assert(rest[0] == streams@[i as int]);
        let is_t = match streams[i].str_at("codec_type") {
            Some(k) => str_eq(&chars_of(k.as_str()), t),
            None => false,
        };
        if is_t {
            return Some(&streams[i]);
        }
        i += 1;
    }
    None
}

fn audio_label_exec(st: &JsonValue) -> (r: String)
    ensures
        r@ == audio_label(*st),
{
    let lang = match st.get("tags") {
        Some(tags) => tags.str_or("language", "unknown"),
        None => owned("unknown"),
    };
    let title = match st.get("tags") {
        Some(tags) => tags.str_or("title", lang.as_str()),
        None => lang.clone(),
    };
    let codec = st.str_or("codec_name", "");
    if !str_eq(&chars_of(title.as_str()), "unknown") {
        title
    } else {
        let mut r = lang.clone();
        push_str(&mut r, " (");
        push_str(&mut r, codec.as_str());
        push_str(&mut r, ")");
        r
    }
}

fn u64_text_or_zero_exec(v: &JsonValue, key: &str) -> (r: u64)
    ensures
        r == u64_text_or_zero(*v, key@),
{
    match v.str_at(key) {
        Some(t) => match parse_u64(&chars_of(t.as_str())) {
            Some(n) => n,
            None => 0,
        },
        None => 0,
    }
}

/// What ffprobe's `-show_format -show_streams` document says of a local
/// file; an error when it lists no streams.
pub fn local_video_metadata(json: &JsonValue) -> (r: Result<VideoMetadata, String>)
    ensures
        match array_of(at(*json, "streams"@)) {
            None => r matches Err(e) && e@ == "No streams found"@,
            Some(streams) => r matches Ok(m) && {
                let format = at(*json, "format"@);
                let video = first_of_type(streams, "video"@);
                let audio = streams.filter(|st: JsonValue| is_audio_stream(st));
                &&& m.duration@ == text_or_zero(format, "duration"@)
                &&& m.width == dim_of(video, "width"@)
                &&& m.height == dim_of(video, "height"@)
                &&& m.codec@ == match video {
                    Some(st) => str_or(st, "codec_name"@, "unknown"@),
                    None => "unknown"@,
                }
                &&& m.file_size == u64_text_or_zero(format, "size"@)
                &&& m.audio_tracks@.len() == audio.len()
                &&& forall|i: int|
                    0 <= i < audio.len() ==> #[trigger] m.audio_tracks@[i]@ == audio_label(audio[i])
            },
        },
{
    let null = JsonValue::Null;
    let format: &JsonValue = match json.get("format") {
        Some(f) => f,
        None => &null,
    };
    let duration = format.str_or("duration", "0");
    let streams = match json.array_at("streams") {
        Some(a) => a,
        None => {
            return Err(owned("No streams found"));
        },
    };
    let video = first_of_type_exec(streams, "video");
    let width: u32 = match video {
        Some(st) => match st.u64_at("width") {
            Some(n) => n as u32,
            None => 0,
        },
        None => 0,
    };
    let height: u32 = match video {
        Some(st) => match st.u64_at("height") {
            Some(n) => n as u32,
            None => 0,
        },
        None => 0,
    };
    let codec = match video {
        Some(st) => st.str_or("codec_name", "unknown"),
        None => owned("unknown"),
    };
    let mut audio_tracks: Vec<String> = Vec::new();
    let mut i: usize = 0;
    while i < streams.len()
        invariant
            i <= streams.len(),
            audio_tracks@.len() == streams@.take(i as int).filter(
                |st: JsonValue| is_audio_stream(st),
            ).len(),
            forall|k: int|
                0 <= k < audio_tracks@.len() ==> #[trigger] audio_tracks@[k]@ == audio_label(
                    streams@.take(i as int).filter(|st: JsonValue| is_audio_stream(st))[k],
                ),
        decreases streams.len() - i,
    {
        proof {
            assert(streams@.take(i + 1).drop_last() =~= streams@.take(i as int));
            reveal_with_fuel(Seq::filter, 1);
        }
        let is_audio = match streams[i].str_at("codec_type") {
            Some(k) => str_eq(&chars_of(k.as_str()), "audio"),
            None => false,
        };
        if is_audio {
            audio_tracks.push(audio_label_exec(&streams[i]));
        }
        i += 1;
    }
    assert(streams@.take(streams.len() as int) =~= streams@);
    let file_size = u64_text_or_zero_exec(format, "size");
    Ok(VideoMetadata { duration, width, height, codec, file_size, audio_tracks })
}

/// The number of audio streams in ffprobe's `-select_streams a` document.
pub open spec fn audio_stream_count(probe: JsonValue) -> int {
    match array_of(at(probe, "streams"@)) {
        Some(a) => a.len() as int,
        None => 0,
    }
}

/// A local video is played through HLS when it has more than one audio
/// track; otherwise the file is played as it is.
pub fn needs_hls(probe: &JsonValue) -> (r: bool)
    ensures
        r == (audio_stream_count(*probe) > 1),
{
    let count: usize = match probe.array_at("streams") {
        Some(a) => a.len(),
        None => 0,
    };
    count > 1
}


/// A cached HLS stream is used again only when its manifest, its init
/// segment and the mark that ffmpeg finished are all there; otherwise the
/// folder is cleared and ffmpeg runs again.
pub fn hls_cache_complete(manifest: bool, init: bool, done_mark: bool) -> (r: bool)
    ensures
        r == (manifest && init && done_mark),
{
    manifest && init && done_mark
}

/// How long to wait for ffmpeg's first segment, in nanoseconds: 30 s.
pub const HLS_READY_TIMEOUT_NANOS: u64 = 30_000_000_000;

/// How long to sleep between two looks at the HLS folder, in milliseconds.
pub const HLS_POLL_INTERVAL_MS: u64 = 200;

/// What to do while ffmpeg prepares an HLS stream.
#[derive(Debug, Clone, Copy, PartialEq, Eq, Structural)]
pub enum HlsWait {
    /// The manifest, the init segment and the first segment are there: play.
    Ready,
    /// More than the timeout has passed: stop ffmpeg and fail.
    TimedOut,
    /// Sleep `HLS_POLL_INTERVAL_MS` and look again.
    Poll,
}

/// One look at the HLS folder, `elapsed_nanos` after ffmpeg started.
pub fn hls_wait_step(manifest: bool, init: bool, first_segment: bool, elapsed_nanos: u64) -> (r: HlsWait)
    ensures
        r == if manifest && init && first_segment {
            HlsWait::Ready
        } else if elapsed_nanos > HLS_READY_TIMEOUT_NANOS {
            HlsWait::TimedOut
        } else {
            HlsWait::Poll
        },
{
    if manifest && init && first_segment {
        HlsWait::Ready
    } else if elapsed_nanos > HLS_READY_TIMEOUT_NANOS {
        HlsWait::TimedOut
    } else {
        HlsWait::Poll
    }
}


/// Law: streaming at a quality that names a height asks for video of at most
/// that height, mp4 video with m4a audio first, then the best mp4 file, then
/// the best file: 360p at 360, 480p at 480, 720p at 720, 1080p at 1080,
/// 1440p and 2k at 1440, 2160p and 4k at 2160, in any case of letters.
pub proof fn lemma_stream_selector_caps_height(quality: Seq<char>, name: Seq<char>, height: Seq<char>)
    requires
        (name == "360p"@ && height == "360"@) || (name == "480p"@ && height == "480"@) || (name == "720p"@ && height == "720"@) || (name == "1080p"@ && height == "1080"@) || (name == "1440p"@ && height == "1440"@) || (name == "2k"@ && height == "1440"@) || (name == "2160p"@ && height == "2160"@) || (name == "4k"@ && height == "2160"@),
        lower_text(quality) == name,
    ensures
        format_selector_spec(lower_text(quality)) == "bestvideo[height<="@ + height
            + "][ext=mp4]+bestaudio[ext=m4a]/best[height<="@ + height + "][ext=mp4]/best[height<="@
            + height + "]"@,
{
    reveal_strlit("1080");
    reveal_strlit("1080p");
    reveal_strlit("1440");
    reveal_strlit("1440p");
    reveal_strlit("2160");
    reveal_strlit("2160p");
    reveal_strlit("2k");
    reveal_strlit("360");
    reveal_strlit("360p");
    reveal_strlit("480");
    reveal_strlit("480p");
    reveal_strlit("4k");
    reveal_strlit("720");
    reveal_strlit("720p");
    reveal_strlit("]");
    reveal_strlit("][ext=mp4]+bestaudio[ext=m4a]/best[height<=");
    reveal_strlit("][ext=mp4]/best[height<=");
    reveal_strlit("audio");
    reveal_strlit("audio only");
    reveal_strlit("bestaudio/best");
    reveal_strlit("bestvideo[ext=mp4]+bestaudio[ext=m4a]/best[ext=mp4]/best");
    reveal_strlit("bestvideo[height<=");
    reveal_strlit("mp3");
    assert("360p"@[0] != "480p"@[0] && "360p"@[0] != "720p"@[0] && "480p"@[0] != "720p"@[0]);
    assert("1080p"@[0] != "audio"@[0] && "1440p"@[0] != "audio"@[0] && "2160p"@[0] != "audio"@[0]);
    assert("1080p"@[1] != "1440p"@[1] && "1080p"@[0] != "2160p"@[0] && "1440p"@[0] != "2160p"@[0]);
    assert("2k"@[0] != "4k"@[0]);
    assert("360p"@.len() == 4 && "480p"@.len() == 4 && "720p"@.len() == 4 && "1080p"@.len() == 5 && "1440p"@.len() == 5 && "2k"@.len() == 2 && "2160p"@.len() == 5 && "4k"@.len() == 2);
    if name == "360p"@ {
        assert(height == "360"@);
        assert(format_selector_spec("360p"@) == video_selector("360"@));
    } else if name == "480p"@ {
        assert(height == "480"@);
        assert(format_selector_spec("480p"@) == video_selector("480"@));
    } else if name == "720p"@ {
        assert(height == "720"@);
        assert(format_selector_spec("720p"@) == video_selector("720"@));
    } else if name == "1080p"@ {
        assert(height == "1080"@);
        assert(format_selector_spec("1080p"@) == video_selector("1080"@));
    } else if name == "1440p"@ {
        assert(height == "1440"@);
        assert(format_selector_spec("1440p"@) == video_selector("1440"@));
    } else if name == "2k"@ {
        assert(height == "1440"@);
        assert(format_selector_spec("2k"@) == video_selector("1440"@));
    } else if name == "2160p"@ {
        assert(height == "2160"@);
        assert(format_selector_spec("2160p"@) == video_selector("2160"@));
    } else {
        assert(name == "4k"@);
        assert(height == "2160"@);
        assert(format_selector_spec("4k"@) == video_selector("2160"@));
    }
}


/// The containers that the bundled FFmpeg writes, as their names read.
pub open spec fn listed_container(e: Seq<char>) -> bool {
    e == "mp4"@ || e == "m4a"@ || e == "webm"@ || e == "mov"@ || e == "mp3"@ || e == "ogg"@
        || e == "3gp"@
}

proof fn lemma_ascii_lower_same(s: Seq<char>)
    requires
        all_ascii(s),
        forall|i: int| 0 <= i < s.len() ==> !('A' <= #[trigger] s[i] && s[i] <= 'Z'),
    ensures
        lower_text(s) == s,
{
    assert(ascii_lowercase(s) =~= s);
}

/// Law: an audio-only format of AAC audio (`none`, `mp4a.40.2`, as YouTube
/// lists them) and an H.264 format with AAC audio (`avc1.4d401f`,
/// `mp4a.40.2`) are handled exactly when their container is one of mp4,
/// m4a, webm, mov, mp3, ogg and 3gp, in any case of letters.
pub proof fn lemma_ffmpeg_containers(ext: Seq<char>)
    ensures
        ffmpeg_compatible_spec("none"@, "mp4a.40.2"@, ext) == listed_container(lower_text(ext)),
        ffmpeg_compatible_spec("avc1.4d401f"@, "mp4a.40.2"@, ext) == listed_container(lower_text(ext)),
{
    reveal_strlit("none");
    reveal_strlit("mp4a.40.2");
    reveal_strlit("avc1.4d401f");
    reveal_strlit("av01");
    reveal_strlit("av1");
    reveal_strlit("avc");
    reveal_strlit("mp4a");
    let n = "none"@;
    let a = "mp4a.40.2"@;
    let v = "avc1.4d401f"@;
    lemma_ascii_lower_same(n);
    lemma_ascii_lower_same(a);
    lemma_ascii_lower_same(v);
    assert(a.subrange(0, 4) =~= "mp4a"@);
    assert(has_sub_at(a, 0, "mp4a"@));
    assert(audio_codec_supported(a));
    assert(v.subrange(0, 3) =~= "avc"@);
    assert(has_sub_at(v, 0, "avc"@));
    assert(video_codec_supported(v));
    assert(video_codec_supported(n));
    assert forall|i: int| !has_sub_at(n, i, "av01"@) && !has_sub_at(n, i, "av1"@) by {
        if 0 <= i < n.len() {
            assert(n[i] != 'a');
        }
        if has_sub_at(n, i, "av1"@) {
            assert(n.subrange(i, i + 3)[0] == 'a');
        }
        if has_sub_at(n, i, "av01"@) {
            assert(n.subrange(i, i + 4)[0] == 'a');
        }
    }
    assert forall|i: int| !has_sub_at(v, i, "av01"@) && !has_sub_at(v, i, "av1"@) by {
        if has_sub_at(v, i, "av1"@) {
            assert(v.subrange(i, i + 3)[0] == 'a');
            assert(v.subrange(i, i + 3)[1] == 'v');
            assert(v.subrange(i, i + 3)[2] == '1');
            assert(v[i] == 'a' && v[i + 1] == 'v' && v[i + 2] == '1');
        }
        if has_sub_at(v, i, "av01"@) {
            assert(v.subrange(i, i + 4)[0] == 'a');
            assert(v.subrange(i, i + 4)[1] == 'v');
            assert(v.subrange(i, i + 4)[2] == '0');
            assert(v[i] == 'a' && v[i + 1] == 'v' && v[i + 2] == '0');
        }
    }
    assert(!is_av1(n));
    assert(!is_av1(v));
}


/// Law: among the listed containers the container makes no difference: a
/// format is handled in one exactly when it is in another; in a container
/// outside the list no format is handled.
pub proof fn lemma_ffmpeg_container_decides(vcodec: Seq<char>, acodec: Seq<char>, e1: Seq<char>, e2: Seq<char>)
    ensures
        listed_container(lower_text(e1)) && listed_container(lower_text(e2)) ==> ffmpeg_compatible_spec(
            vcodec,
            acodec,
            e1,
        ) == ffmpeg_compatible_spec(vcodec, acodec, e2),
        !listed_container(lower_text(e1)) ==> !ffmpeg_compatible_spec(vcodec, acodec, e1),
{
}


/// Law: streaming audio (`audio`, `mp3` or `audio only`, in any case of
/// letters) asks for the best audio; a quality name that names no known
/// height asks for mp4 video with m4a audio, then the best mp4, then the
/// best file, without a cap.
pub proof fn lemma_stream_selector_uncapped(quality: Seq<char>)
    ensures
        lower_text(quality) == "audio"@ || lower_text(quality) == "mp3"@ || lower_text(quality)
            == "audio only"@ ==> format_selector_spec(lower_text(quality)) == "bestaudio/best"@,
        !(lower_text(quality) == "audio"@ || lower_text(quality) == "mp3"@ || lower_text(quality)
            == "audio only"@ || lower_text(quality) == "360p"@ || lower_text(quality) == "480p"@
            || lower_text(quality) == "720p"@ || lower_text(quality) == "1080p"@ || lower_text(quality)
            == "1440p"@ || lower_text(quality) == "2k"@ || lower_text(quality) == "2160p"@
            || lower_text(quality) == "4k"@) ==> format_selector_spec(lower_text(quality))
            == "bestvideo[ext=mp4]+bestaudio[ext=m4a]/best[ext=mp4]/best"@,
{
}

/// Law: a format whose video codec is AV1 (`av01` or `av1` in its name, in
/// any case of letters) is never handled, whatever its audio and container.
pub proof fn lemma_ffmpeg_rejects_av1(vcodec: Seq<char>, acodec: Seq<char>, ext: Seq<char>)
    requires
        contains_seq(lower_text(vcodec), "av01"@) || contains_seq(lower_text(vcodec), "av1"@),
    ensures
        !ffmpeg_compatible_spec(vcodec, acodec, ext),
{
}

} // verus!
