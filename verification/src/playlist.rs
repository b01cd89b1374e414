//! Playlists: their entries and the formats of each video, read from the
//! documents that yt-dlp prints.
use vstd::prelude::*;
use crate::json::{JsonValue, at, str_of, array_of, str_or, number_text_or_zero};
use crate::media::{
    resolution_or, resolution_exec, filesize_of, filesize_exec, is_storyboard, vcodec_of, acodec_of,
    is_playlist_doc, playlist_count_spec, playlist_count, last_thumbnail_url, last_thumbnail,
};
use crate::text::{chars_of, owned, cat, str_eq, has_str};

verus! {

/// One format of a playlist video. `fps` is the numeral that yt-dlp
/// printed, `"0"` when it printed none.
#[derive(Debug, Clone)]
pub struct PlaylistVideoFormat {
    pub format_id: String,
    pub ext: String,
    pub resolution: String,
    pub fps: String,
    pub filesize: u64,
    pub vcodec: String,
    pub acodec: String,
    pub note: String,
}

/// Individual video entry within a playlist
#[derive(Debug)]
pub struct PlaylistVideoEntry {
    /// Unique video ID (from YouTube)
    pub id: String,
    /// Video title
    pub title: String,
    /// Thumbnail URL
    pub thumbnail_url: String,
    /// Video duration: the numeral of seconds that yt-dlp printed, `"0"`
    /// when it printed none
    pub duration: String,
    /// Direct video URL for downloading
    pub url: String,
    /// Position in playlist (1-indexed)
    pub index: usize,
    /// Available quality formats
    pub formats: Vec<PlaylistVideoFormat>,
}

/// Full playlist metadata response
#[derive(Debug)]
pub struct PlaylistMetadataResponse {
    /// Playlist title
    pub title: String,
    /// Playlist thumbnail URL
    pub thumbnail_url: String,
    /// Total video count in playlist
    pub video_count: usize,
    /// Unique playlist ID
    pub playlist_id: String,
    /// Individual video entries (limited to first 50)
    pub videos: Vec<PlaylistVideoEntry>,
}

/// Options for downloading selected playlist videos
#[derive(Debug, Clone)]
pub struct PlaylistVideoDownload {
    /// Video URL
    pub url: String,
    /// Specific format ID to download (optional)
    pub format_id: Option<String>,
    /// Quality preset (e.g., "720p", "1080p", "best")
    pub quality: String,
    /// Position in playlist (1-indexed)
    pub index: usize,
    /// Video title (for progress tracking)
    pub title: String,
    /// Thumbnail URL (for UI display)
    pub thumbnail_url: String,
    /// Duration: a numeral of seconds
    pub duration: String,
}

/// Options for downloading multiple videos from a playlist
#[derive(Debug, Clone)]
pub struct PlaylistDownloadOptions {
    /// Unique ID for this batch download
    pub id: String,
    /// Playlist ID
    pub playlist_id: String,
    /// Playlist title (used for folder creation)
    pub playlist_title: String,
    /// Selected videos to download
    pub videos: Vec<PlaylistVideoDownload>,
    /// Output directory
    pub output_path: String,
}

/// Enhanced download progress with playlist context
#[derive(Debug, Clone)]
pub struct PlaylistDownloadProgress {
    /// Unique download ID
    pub id: String,
    /// Download percent (0-100), as a numeral
    pub percent: String,
    /// Download speed string
    pub speed: String,
    /// Estimated time remaining
    pub eta: String,
    /// Status: "downloading", "processing", "complete", "error", "paused"
    pub status: String,
    /// Current filename being downloaded
    pub filename: String,
    /// Playlist ID this download belongs to (None for single videos)
    pub playlist_id: Option<String>,
    /// Playlist title
    pub playlist_title: Option<String>,
    /// Current video index in playlist (1-indexed)
    pub playlist_index: Option<usize>,
    /// Total videos in this playlist batch
    pub playlist_total: Option<usize>,
    /// Video title
    pub video_title: Option<String>,
    /// Thumbnail URL
    pub thumbnail_url: Option<String>,
    /// Duration in seconds, as a numeral
    pub duration: Option<String>,
}

// ---------------------------------------------------------------------------
// Formats
// ---------------------------------------------------------------------------

/// The formats that a playlist video lists: those with a `format_id`, no
/// storyboard, with video or audio.
pub open spec fn keeps_playlist_format(fmt: JsonValue) -> bool {
    &&& str_of(at(fmt, "format_id"@)) is Some
    &&& !is_storyboard(str_of(at(fmt, "format_id"@))->0, str_or(fmt, "ext"@, ""@))
    &&& !(vcodec_of(fmt) == "none"@ && acodec_of(fmt) == "none"@)
}

/// `f` is the format that `fmt` describes.
pub open spec fn playlist_format_of(f: PlaylistVideoFormat, fmt: JsonValue) -> bool {
    &&& str_of(at(fmt, "format_id"@)) == Some(f.format_id@)
    &&& f.ext@ == str_or(fmt, "ext"@, ""@)
    &&& f.resolution@ == resolution_or(
        fmt,
        if vcodec_of(fmt) == "none"@ {
            "audio only"@
        } else {
            "unknown"@
        },
    )
    &&& f.fps@ == number_text_or_zero(fmt, "fps"@)
    &&& f.filesize == filesize_of(fmt)
    &&& f.vcodec@ == vcodec_of(fmt)
    &&& f.acodec@ == acodec_of(fmt)
    &&& f.note@ == str_or(fmt, "format_note"@, ""@)
}

/// The format that `fmt` describes, when a playlist video lists it.
pub fn playlist_format_from_json(fmt: &JsonValue) -> (r: Option<PlaylistVideoFormat>)
    ensures
        r is Some <==> keeps_playlist_format(*fmt),
        r matches Some(f) ==> playlist_format_of(f, *fmt),
{
    let format_id = match fmt.str_at("format_id") {
        Some(s) => s.clone(),
        None => {
            return None;
        },
    };
    let ext = fmt.str_or("ext", "");
    let vcodec = fmt.str_or("vcodec", "none");
    let acodec = fmt.str_or("acodec", "none");
    if has_str(&chars_of(format_id.as_str()), "sb") || str_eq(&chars_of(ext.as_str()), "mhtml") {
        return None;
    }
    let video_none = str_eq(&chars_of(vcodec.as_str()), "none");
    if video_none && str_eq(&chars_of(acodec.as_str()), "none") {
        return None;
    }
    let resolution = if video_none {
        resolution_exec(fmt, "audio only")
    } else {
        resolution_exec(fmt, "unknown")
    };
    Some(PlaylistVideoFormat {
        format_id,
        ext,
        resolution,
        fps: fmt.number_text_or_zero("fps"),
        filesize: filesize_exec(fmt),
        vcodec,
        acodec,
        note: fmt.str_or("format_note", ""),
    })
}

/// The listed formats among `formats` of a video document.
pub open spec fn playlist_formats_spec(json: JsonValue) -> Seq<JsonValue> {
    match array_of(at(json, "formats"@)) {
        Some(a) => a.filter(|f: JsonValue| keeps_playlist_format(f)),
        None => seq![],
    }
}

/// The formats of a video, from its `--dump-json` document, in yt-dlp's
/// order; none when it lists no formats.
pub fn playlist_formats(json: &JsonValue) -> (r: Vec<PlaylistVideoFormat>)
    ensures
        r@.len() == playlist_formats_spec(*json).len(),
        forall|i: int|
            0 <= i < r@.len() ==> playlist_format_of(#[trigger] r@[i], playlist_formats_spec(*json)[i]),
{
    let mut r: Vec<PlaylistVideoFormat> = Vec::new();
    let fmts = match json.array_at("formats") {
        Some(a) => a,
        None => {
            return r;
        },
    };
    let mut i: usize = 0;
    while i < fmts.len()
        invariant
            i <= fmts.len(),
            r@.len() == fmts@.take(i as int).filter(|f: JsonValue| keeps_playlist_format(f)).len(),
            forall|k: int|
                0 <= k < r@.len() ==> playlist_format_of(
                    #[trigger] r@[k],
                    fmts@.take(i as int).filter(|f: JsonValue| keeps_playlist_format(f))[k],
                ),
        decreases fmts.len() - i,
    {
        proof {
            assert(fmts@.take(i + 1).drop_last() =~= fmts@.take(i as int));
            reveal_with_fuel(Seq::filter, 1);
        }
        match playlist_format_from_json(&fmts[i]) {
            Some(f) => {
                r.push(f);
            },
            None => {},
        }
        i += 1;
    }
    assert(fmts@.take(fmts.len() as int) =~= fmts@);
    r
}


// ---------------------------------------------------------------------------
// Entries
// ---------------------------------------------------------------------------

pub open spec fn entry_id(e: JsonValue) -> Seq<char> {
    str_or(e, "id"@, ""@)
}

/// The address of an entry: the watch page of its id, else its `url`.
pub open spec fn entry_url(e: JsonValue) -> Seq<char> {
    if entry_id(e).len() > 0 {
        "https://www.youtube.com/watch?v="@ + entry_id(e)
    } else {
        str_or(e, "url"@, ""@)
    }
}

/// An entry with neither id nor address is skipped.
pub open spec fn entry_kept(e: JsonValue) -> bool {
    !(entry_id(e).len() == 0 && entry_url(e).len() == 0)
}

/// The `url` of the first of `thumbnails`, or empty.
pub open spec fn first_thumbnail_url(e: JsonValue) -> Seq<char> {
    match array_of(at(e, "thumbnails"@)) {
        Some(a) => if a.len() > 0 {
            str_or(a[0], "url"@, ""@)
        } else {
            ""@
        },
        None => ""@,
    }
}

/// `thumbnail`, else the last of `thumbnails`.
pub open spec fn entry_thumbnail(e: JsonValue) -> Seq<char> {
    match str_of(at(e, "thumbnail"@)) {
        Some(t) => t,
        None => last_thumbnail_url(e),
    }
}

/// The fields that every entry reads from its document.
pub open spec fn entry_basics(v: PlaylistVideoEntry, e: JsonValue, index: usize) -> bool {
    &&& v.id@ == entry_id(e)
    &&& v.title@ == str_or(e, "title"@, "Unknown Title"@)
    &&& v.duration@ == number_text_or_zero(e, "duration"@)
    &&& v.url@ == entry_url(e)
    &&& v.index == index
}

fn entry_url_exec(e: &JsonValue, id: &String) -> (r: String)
    requires
        id@ == entry_id(*e),
    ensures
        r@ == entry_url(*e),
{
    if chars_of(id.as_str()).len() > 0 {
        cat("https://www.youtube.com/watch?v=", id.as_str())
    } else {
        e.str_or("url", "")
    }
}

fn first_thumbnail(e: &JsonValue) -> (r: String)
    ensures
        r@ == first_thumbnail_url(*e),
{
    proof {
        reveal_strlit("");
    }
    match e.array_at("thumbnails") {
        Some(a) => if a.len() > 0 {
            a[0].str_or("url", "")
        } else {
            String::new()
        },
        None => String::new(),
    }
}

/// Parse a single video entry from yt-dlp JSON
pub fn parse_video_entry(entry: &JsonValue, index: usize) -> (r: Option<PlaylistVideoEntry>)
    ensures
        r is Some <==> entry_kept(*entry),
        r matches Some(v) ==> {
            &&& entry_basics(v, *entry, index)
            &&& v.thumbnail_url@ == entry_thumbnail(*entry)
            &&& v.formats@.len() == playlist_formats_spec(*entry).len()
            &&& forall|i: int|
                0 <= i < v.formats@.len() ==> playlist_format_of(
                    #[trigger] v.formats@[i],
                    playlist_formats_spec(*entry)[i],
                )
        },
{
    let id = entry.str_or("id", "");
    let title = entry.str_or("title", "Unknown Title");
    let duration = entry.number_text_or_zero("duration");
    let url = entry_url_exec(entry, &id);
    let thumbnail_url = match entry.str_at("thumbnail") {
        Some(t) => t.clone(),
        None => last_thumbnail(entry),
    };
    let formats = playlist_formats(entry);
    if chars_of(id.as_str()).len() == 0 && chars_of(url.as_str()).len() == 0 {
        return None;
    }
    Some(PlaylistVideoEntry { id, title, thumbnail_url, duration, url, index, formats })
}

/// The entry at position `index` (from 1) of a flat playlist, without
/// formats; `None` when it has neither id nor address.
pub fn flat_playlist_entry(entry: &JsonValue, index: usize) -> (r: Option<PlaylistVideoEntry>)
    ensures
        r is Some <==> entry_kept(*entry),
        r matches Some(v) ==> {
            &&& entry_basics(v, *entry, index)
            &&& v.thumbnail_url@ == first_thumbnail_url(*entry)
            &&& v.formats@.len() == 0
        },
{
    let id = entry.str_or("id", "");
    let title = entry.str_or("title", "Unknown Title");
    let duration = entry.number_text_or_zero("duration");
    let url = entry_url_exec(entry, &id);
    let thumbnail_url = first_thumbnail(entry);
    if chars_of(id.as_str()).len() == 0 && chars_of(url.as_str()).len() == 0 {
        return None;
    }
    Some(PlaylistVideoEntry { id, title, thumbnail_url, duration, url, index, formats: Vec::new() })
}

/// The kept entries among the first `n`, each with its position from 1.
pub open spec fn kept_entries(entries: Seq<JsonValue>, n: int) -> Seq<(JsonValue, int)>
    decreases n,
{
    if n <= 0 {
        seq![]
    } else if entry_kept(entries[n - 1]) {
        kept_entries(entries, n - 1).push((entries[n - 1], n))
    } else {
        kept_entries(entries, n - 1)
    }
}

/// The `entries` of a playlist document, or none.
pub open spec fn entries_of(json: JsonValue) -> Seq<JsonValue> {
    match array_of(at(json, "entries"@)) {
        Some(a) => a,
        None => seq![],
    }
}

/// The playlist that yt-dlp's `--flat-playlist -J` document describes; an
/// error when the link is no playlist.
pub fn playlist_metadata(json: &JsonValue) -> (r: Result<PlaylistMetadataResponse, String>)
    ensures
        !is_playlist_doc(*json) ==> (r matches Err(e) && e@ == "URL is not a playlist"@),
        is_playlist_doc(*json) ==> (r matches Ok(m) && {
            let kept = kept_entries(entries_of(*json), entries_of(*json).len() as int);
            &&& m.title@ == str_or(*json, "title"@, "Unknown Playlist"@)
            &&& m.playlist_id@ == str_or(*json, "id"@, ""@)
            &&& m.video_count == playlist_count_spec(*json) as usize
            &&& m.thumbnail_url@ == last_thumbnail_url(*json)
            &&& m.videos@.len() == kept.len()
            &&& forall|k: int|
                0 <= k < kept.len() ==> {
                    &&& entry_basics(#[trigger] m.videos@[k], kept[k].0, kept[k].1 as usize)
                    &&& m.videos@[k].thumbnail_url@ == first_thumbnail_url(kept[k].0)
                    &&& m.videos@[k].formats@.len() == 0
                }
        }),
{
    let kind = json.str_or("_type", "");
    if !str_eq(&chars_of(kind.as_str()), "playlist") {
        return Err(owned("URL is not a playlist"));
    }
    let title = json.str_or("title", "Unknown Playlist");
    let playlist_id = json.str_or("id", "");
    let video_count = playlist_count(json) as usize;
    let thumbnail_url = last_thumbnail(json);
    let empty: Vec<JsonValue> = Vec::new();
    let entries: &Vec<JsonValue> = match json.array_at("entries") {
        Some(a) => a,
        None => &empty,
    };
    assert(entries@ == entries_of(*json));
    let mut videos: Vec<PlaylistVideoEntry> = Vec::new();
    let mut i: usize = 0;
    while i < entries.len()
        invariant
            i <= entries.len(),
            videos@.len() == kept_entries(entries@, i as int).len(),
            forall|k: int|
                0 <= k < videos@.len() ==> {
                    &&& entry_basics(
                        #[trigger] videos@[k],
                        kept_entries(entries@, i as int)[k].0,
                        kept_entries(entries@, i as int)[k].1 as usize,
                    )
                    &&& videos@[k].thumbnail_url@ == first_thumbnail_url(
                        kept_entries(entries@, i as int)[k].0,
                    )
                    &&& videos@[k].formats@.len() == 0
                },
        decreases entries.len() - i,
    {
        match flat_playlist_entry(&entries[i], i + 1) {
            Some(v) => {
                videos.push(v);
            },
            None => {},
        }
        i += 1;
    }
    Ok(PlaylistMetadataResponse { title, thumbnail_url, video_count, playlist_id, videos })
}

} // verus!
