//! What the crate asks yt-dlp for, and how it reads the answers.
use vstd::prelude::*;
use crate::text::{cat, cat3, owned, chars_of, string_of, str_eq, first_line, trim, first_line_chars, lines};

verus! {

/// What a finished process left: whether it succeeded, and its output as text.
#[derive(Debug, Clone)]
pub struct ProcessOutput {
    pub success: bool,
    pub stdout: String,
    pub stderr: String,
}

/// The first line of the output, trimmed.
pub open spec fn url_line(out: &ProcessOutput) -> Option<Seq<char>> {
    match first_line(out.stdout@) {
        Some(l) => Some(trim(l)),
        None => None,
    }
}

fn url_line_exec(out: &ProcessOutput) -> (r: Option<String>)
    ensures
        match r {
            Some(u) => url_line(out) == Some(u@),
            None => url_line(out) is None,
        },
{
    match first_line_chars(&chars_of(out.stdout.as_str())) {
        Some(l) => Some(string_of(&l)),
        None => None,
    }
}

/// The URL of a `-g` run whose failure reads "Failed to get streaming URL".
pub open spec fn direct_url_spec(out: &ProcessOutput) -> Result<Seq<char>, Seq<char>> {
    if !out.success {
        Err("Failed to get streaming URL: "@ + out.stderr@)
    } else {
        match url_line(out) {
            Some(u) => Ok(u),
            None => Err("No streaming URL returned"@),
        }
    }
}

pub open spec fn result_view(r: Result<String, String>) -> Result<Seq<char>, Seq<char>> {
    match r {
        Ok(u) => Ok(u@),
        Err(e) => Err(e@),
    }
}

/// The streaming URL that yt-dlp printed, for playback without a quality.
pub fn direct_url_result(out: &ProcessOutput) -> (r: Result<String, String>)
    ensures
        result_view(r) == direct_url_spec(out),
{
    if !out.success {
        return Err(cat("Failed to get streaming URL: ", out.stderr.as_str()));
    }
    match url_line_exec(out) {
        Some(u) => Ok(u),
        None => Err(owned("No streaming URL returned")),
    }
}

/// The URL of a `-g` run for one quality.
pub open spec fn quality_url_spec(out: &ProcessOutput, quality: Seq<char>) -> Result<Seq<char>, Seq<char>> {
    if !out.success {
        Err("Failed to get "@ + quality + " URL: "@ + out.stderr@)
    } else {
        match url_line(out) {
            Some(u) => Ok(u),
            None => Err("No streaming URL returned"@),
        }
    }
}

/// The streaming URL that yt-dlp printed for a quality.
pub fn quality_url_result(out: &ProcessOutput, quality: &str) -> (r: Result<String, String>)
    ensures
        result_view(r) == quality_url_spec(out, quality@),
{
    if !out.success {
        let mut m = cat3("Failed to get ", quality, " URL: ");
        crate::text::push_str(&mut m, out.stderr.as_str());
        return Err(m);
    }
    match url_line_exec(out) {
        Some(u) => Ok(u),
        None => Err(owned("No streaming URL returned")),
    }
}

/// As `quality_url_spec`, and an empty URL is an error too.
pub open spec fn cached_url_spec(out: &ProcessOutput, quality: Seq<char>) -> Result<Seq<char>, Seq<char>> {
    match quality_url_spec(out, quality) {
        Ok(u) => if u.len() == 0 {
            Err("Empty URL returned for "@ + quality)
        } else {
            Ok(u)
        },
        Err(e) => Err(e),
    }
}

/// The URL that the cache stores for a quality.
pub fn cached_url_result(out: &ProcessOutput, quality: &str) -> (r: Result<String, String>)
    ensures
        result_view(r) == cached_url_spec(out, quality@),
{
    match quality_url_result(out, quality) {
        Ok(u) => {
            if u.as_str().is_empty() {
                Err(cat("Empty URL returned for ", quality))
            } else {
                Ok(u)
            }
        },
        Err(e) => Err(e),
    }
}

/// A quality is available when yt-dlp succeeded and printed a URL.
pub open spec fn available_url_spec(out: &ProcessOutput) -> Option<Seq<char>> {
    if out.success {
        match url_line(out) {
            Some(u) => if u.len() > 0 {
                Some(u)
            } else {
                None
            },
            None => None,
        }
    } else {
        None
    }
}

pub fn available_url(out: &ProcessOutput) -> (r: Option<String>)
    ensures
        match r {
            Some(u) => available_url_spec(out) == Some(u@),
            None => available_url_spec(out) is None,
        },
{
    if !out.success {
        return None;
    }
    match url_line_exec(out) {
        Some(u) => if u.as_str().is_empty() {
            None
        } else {
            Some(u)
        },
        None => None,
    }
}

/// The format selector that the URL cache asks for, by quality: HLS formats
/// first, with progressive fallbacks.
pub open spec fn stream_format_selector_spec(q: Seq<char>) -> Seq<char> {
    if q == "360p"@ {
        "93/18/best[height<=360][acodec!=none]"@
    } else if q == "480p"@ {
        "94/best[height<=480][acodec!=none]"@
    } else if q == "720p"@ {
        "95/22/best[height<=720][acodec!=none]"@
    } else if q == "1080p"@ {
        "96/best[height<=1080][acodec!=none]"@
    } else {
        "best[acodec!=none]"@
    }
}

pub fn stream_format_selector(quality: &str) -> (r: String)
    ensures
        r@ == stream_format_selector_spec(quality@),
{
    let q = chars_of(quality);
    if str_eq(&q, "360p") {
        owned("93/18/best[height<=360][acodec!=none]")
    } else if str_eq(&q, "480p") {
        owned("94/best[height<=480][acodec!=none]")
    } else if str_eq(&q, "720p") {
        owned("95/22/best[height<=720][acodec!=none]")
    } else if str_eq(&q, "1080p") {
        owned("96/best[height<=1080][acodec!=none]")
    } else {
        owned("best[acodec!=none]")
    }
}

/// The progressive (direct https) format selector for a quality, as quality
/// switching asks for it.
pub open spec fn progressive_format_selector_spec(q: Seq<char>) -> Seq<char> {
    if q == "360p"@ {
        "18/best[height<=360][ext=mp4][acodec!=none][protocol^=http]"@
    } else if q == "480p"@ {
        "best[height<=480][ext=mp4][acodec!=none][protocol^=http]/18"@
    } else if q == "720p"@ {
        "22/best[height<=720][ext=mp4][acodec!=none][protocol^=http]"@
    } else if q == "1080p"@ {
        "best[height<=1080][ext=mp4][acodec!=none][protocol^=http]/22"@
    } else {
        "best[ext=mp4][acodec!=none][protocol^=http]"@
    }
}

pub fn progressive_format_selector(quality: &str) -> (r: String)
    ensures
        r@ == progressive_format_selector_spec(quality@),
{
    let q = chars_of(quality);
    if str_eq(&q, "360p") {
        owned("18/best[height<=360][ext=mp4][acodec!=none][protocol^=http]")
    } else if str_eq(&q, "480p") {
        owned("best[height<=480][ext=mp4][acodec!=none][protocol^=http]/18")
    } else if str_eq(&q, "720p") {
        owned("22/best[height<=720][ext=mp4][acodec!=none][protocol^=http]")
    } else if str_eq(&q, "1080p") {
        owned("best[height<=1080][ext=mp4][acodec!=none][protocol^=http]/22")
    } else {
        owned("best[ext=mp4][acodec!=none][protocol^=http]")
    }
}

/// The format selector of the first playback of a video: combined formats.
pub fn playback_format_selector() -> (r: String)
    ensures
        r@ == "22/18/best[ext=mp4][vcodec^=avc][acodec^=mp4a]/best[ext=mp4]/best"@,
{
    owned("22/18/best[ext=mp4][vcodec^=avc][acodec^=mp4a]/best[ext=mp4]/best")
}

/// The qualities a player offers, lowest first.
pub open spec fn player_qualities() -> Seq<Seq<char>> {
    seq!["360p"@, "480p"@, "720p"@, "1080p"@]
}

pub fn player_quality_list() -> (r: Vec<String>)
    ensures
        r@.len() == 4,
        forall|i: int| 0 <= i < 4 ==> #[trigger] r@[i]@ == player_qualities()[i],
{
    let mut r: Vec<String> = Vec::new();
    r.push(owned("360p"));
    r.push(owned("480p"));
    r.push(owned("720p"));
    r.push(owned("1080p"));
    r
}

/// The default quality among the available ones, listed lowest first: 480p,
/// else 360p, else the last (highest) one, else 480p.
pub open spec fn default_quality_spec(available: Seq<Seq<char>>) -> Seq<char> {
    if available.contains("480p"@) {
        "480p"@
    } else if available.contains("360p"@) {
        "360p"@
    } else if available.len() > 0 {
        available.last()
    } else {
        "480p"@
    }
}

pub open spec fn views(v: Seq<String>) -> Seq<Seq<char>> {
    v.map_values(|s: String| s@)
}

fn contains_string(v: &Vec<String>, s: &str) -> (r: bool)
    ensures
        r == views(v@).contains(s@),
{
    let mut i: usize = 0;
    while i < v.len()
        invariant
            i <= v.len(),
            forall|j: int| 0 <= j < i ==> v@[j]@ != s@,
        decreases v.len() - i,
    {
        if str_eq(&chars_of(v[i].as_str()), s) {
            assert(views(v@)[i as int] == s@);
            return true;
        }
        i += 1;
    }
    assert forall|j: int| 0 <= j < views(v@).len() implies views(v@)[j] != s@ by {
        assert(views(v@)[j] == v@[j]@);
    }
    false
}

/// The default streaming quality: 480p where it is available (to spare
/// bandwidth), else 360p, else the highest available one, which is the last
/// of a list that runs lowest first.
pub fn choose_default_quality(available: &Vec<String>) -> (r: String)
    ensures
        r@ == default_quality_spec(views(available@)),
{
    if contains_string(available, "480p") {
        owned("480p")
    } else if contains_string(available, "360p") {
        owned("360p")
    } else if available.len() > 0 {
        available[available.len() - 1].clone()
    } else {
        owned("480p")
    }
}

/// The qualities to list as available: those whose URL is cached, and 360p
/// always, lowest first.
pub open spec fn listed_qualities_spec(cached: Seq<bool>) -> Seq<Seq<char>> {
    Seq::new(4, |i: int| i).filter(|i: int| i == 0 || cached[i]).map_values(
        |i: int| player_qualities()[i],
    )
}

pub fn listed_qualities(cached: &Vec<bool>) -> (r: Vec<String>)
    requires
        cached.len() == 4,
    ensures
        views(r@) == listed_qualities_spec(cached@),
{
    let names = player_quality_list();
    let mut r: Vec<String> = Vec::new();
    let mut i: usize = 0;
    let ghost idx = Seq::new(4, |i: int| i);
    while i < 4
        invariant
            i <= 4,
            cached.len() == 4,
            names@.len() == 4,
            forall|j: int| 0 <= j < 4 ==> #[trigger] names@[j]@ == player_qualities()[j],
            idx == Seq::new(4, |i: int| i),
            views(r@) == idx.take(i as int).filter(|i: int| i == 0 || cached@[i]).map_values(
                |i: int| player_qualities()[i],
            ),
        decreases 4 - i,
    {
        let ghost before = r@;
        proof {
            assert(idx.take(i + 1).drop_last() =~= idx.take(i as int));
            reveal_with_fuel(Seq::filter, 1);
        }
        if i == 0 || cached[i] {
            r.push(names[i].clone());
            proof {
                assert(views(r@) =~= views(before).push(names@[i as int]@));
            }
        }
        i += 1;
    }
    assert(idx.take(4) =~= idx);
    r
}


/// The names under which a bundled tool is looked for, in order: the
/// Windows target names, then `.exe`, then the bare name.
pub open spec fn sidecar_names_spec(name: Seq<char>) -> Seq<Seq<char>> {
    seq![
        name + "-x86_64-pc-windows-gnu.exe"@,
        name + "-x86_64-pc-windows-msvc.exe"@,
        name + ".exe"@,
        name + ""@,
    ]
}

pub fn sidecar_file_names(name: &str) -> (r: Vec<String>)
    ensures
        views(r@) == sidecar_names_spec(name@),
{
    let mut r: Vec<String> = Vec::new();
    r.push(cat(name, "-x86_64-pc-windows-gnu.exe"));
    r.push(cat(name, "-x86_64-pc-windows-msvc.exe"));
    r.push(cat(name, ".exe"));
    r.push(cat(name, ""));
    assert(views(r@) =~= sidecar_names_spec(name@));
    r
}

/// Law: the default quality is one of the available ones whenever any is
/// available; it is 480p whenever 480p is; and without 480p and 360p it is
/// the highest available one, the last of the list.
pub proof fn lemma_default_quality_available(available: Seq<Seq<char>>)
    ensures
        available.len() > 0 ==> available.contains(default_quality_spec(available)),
        available.contains("480p"@) ==> default_quality_spec(available) == "480p"@,
        available.len() > 0 && !available.contains("480p"@) && !available.contains("360p"@)
            ==> default_quality_spec(available) == available[available.len() - 1],
{
    if available.len() > 0 && !available.contains("480p"@) && !available.contains("360p"@) {
        assert(available[available.len() - 1] == default_quality_spec(available));
    }
}

/// Law: the listed qualities always start with 360p, and they come lowest
/// first.
pub proof fn lemma_listed_qualities(cached: Seq<bool>)
    requires
        cached.len() == 4,
    ensures
        listed_qualities_spec(cached).len() >= 1,
        listed_qualities_spec(cached)[0] == "360p"@,
{
    let idx = Seq::new(4, |i: int| i);
    let keep = |i: int| i == 0 || cached[i];
    reveal_with_fuel(Seq::filter, 5);
    assert(idx.take(1) =~= seq![0int]);
    assert(idx =~= seq![0int, 1, 2, 3]);
    assert(seq![0int, 1, 2, 3].drop_last() =~= seq![0int, 1, 2]);
    assert(seq![0int, 1, 2].drop_last() =~= seq![0int, 1]);
    assert(seq![0int, 1].drop_last() =~= seq![0int]);
    assert(seq![0int].drop_last() =~= Seq::<int>::empty());
    assert(seq![0int].filter(keep) =~= seq![0int]);
    let f1 = seq![0int, 1].filter(keep);
    let f2 = seq![0int, 1, 2].filter(keep);
    let f3 = seq![0int, 1, 2, 3].filter(keep);
    assert(f1.len() >= 1 && f1[0] == 0);
    assert(f2.len() >= 1 && f2[0] == 0);
    assert(f3.len() >= 1 && f3[0] == 0);
}


// ---------------------------------------------------------------------------
// Command lines
// ---------------------------------------------------------------------------

pub(crate) fn push_arg(args: &mut Vec<String>, a: &str)
    ensures
        views(final(args)@) == views(old(args)@).push(a@),
{
    let ghost before = args@;
    args.push(owned(a));
    assert(views(args@) =~= views(before).push(a@));
}

/// yt-dlp's arguments to print the direct URL of `selector` for a video.
pub fn url_args(video_url: &str, selector: &str, timeout: &str) -> (r: Vec<String>)
    ensures
        views(r@) == seq![video_url@, "-g"@, "-f"@, selector@, "--no-playlist"@, "--socket-timeout"@, timeout@],
{
    let mut r: Vec<String> = Vec::new();
    push_arg(&mut r, video_url);
    push_arg(&mut r, "-g");
    push_arg(&mut r, "-f");
    push_arg(&mut r, selector);
    push_arg(&mut r, "--no-playlist");
    push_arg(&mut r, "--socket-timeout");
    push_arg(&mut r, timeout);
    assert(views(r@) =~= seq![video_url@, "-g"@, "-f"@, selector@, "--no-playlist"@, "--socket-timeout"@, timeout@]);
    r
}

/// yt-dlp's arguments for the playlist items `start` to `end` of a search,
/// shorts left out when asked.
pub open spec fn search_args_spec(search_url: Seq<char>, start: Seq<char>, end: Seq<char>, exclude_shorts: bool) -> Seq<Seq<char>> {
    seq![
        "--flat-playlist"@,
        "--dump-json"@,
        "--playlist-start"@,
        start,
        "--playlist-end"@,
        end,
        "--no-download"@,
        "--socket-timeout"@,
        "15"@,
    ] + (if exclude_shorts {
        seq!["--match-filter"@, "original_url!*=/shorts/"@]
    } else {
        seq![]
    }) + seq![search_url]
}

/// yt-dlp's arguments for one page of search results.
pub fn search_args(search_url: &str, start: &str, end: &str, exclude_shorts: bool) -> (r: Vec<String>)
    ensures
        views(r@) == search_args_spec(search_url@, start@, end@, exclude_shorts),
{
    let mut r: Vec<String> = Vec::new();
    push_arg(&mut r, "--flat-playlist");
    push_arg(&mut r, "--dump-json");
    push_arg(&mut r, "--playlist-start");
    push_arg(&mut r, start);
    push_arg(&mut r, "--playlist-end");
    push_arg(&mut r, end);
    push_arg(&mut r, "--no-download");
    push_arg(&mut r, "--socket-timeout");
    push_arg(&mut r, "15");
    if exclude_shorts {
        push_arg(&mut r, "--match-filter");
        push_arg(&mut r, "original_url!*=/shorts/");
    }
    push_arg(&mut r, search_url);
    let ghost want = search_args_spec(search_url@, start@, end@, exclude_shorts);
    assert(views(r@) =~= want);
    r
}

/// yt-dlp's arguments for the flat listing of the first 50 entries of a
/// playlist, as one JSON document.
pub fn playlist_args(url: &str) -> (r: Vec<String>)
    ensures
        views(r@) == seq![url@, "-J"@, "--playlist-items"@, "1:50"@, "--flat-playlist"@, "--socket-timeout"@, "15"@],
{
    let mut r: Vec<String> = Vec::new();
    push_arg(&mut r, url);
    push_arg(&mut r, "-J");
    push_arg(&mut r, "--playlist-items");
    push_arg(&mut r, "1:50");
    push_arg(&mut r, "--flat-playlist");
    push_arg(&mut r, "--socket-timeout");
    push_arg(&mut r, "15");
    assert(views(r@) =~= seq![url@, "-J"@, "--playlist-items"@, "1:50"@, "--flat-playlist"@, "--socket-timeout"@, "15"@]);
    r
}

/// yt-dlp's arguments for the full document of one video.
pub fn video_json_args(url: &str) -> (r: Vec<String>)
    ensures
        views(r@) == seq![url@, "--dump-json"@, "--no-playlist"@, "--socket-timeout"@, "10"@],
{
    let mut r: Vec<String> = Vec::new();
    push_arg(&mut r, url);
    push_arg(&mut r, "--dump-json");
    push_arg(&mut r, "--no-playlist");
    push_arg(&mut r, "--socket-timeout");
    push_arg(&mut r, "10");
    assert(views(r@) =~= seq![url@, "--dump-json"@, "--no-playlist"@, "--socket-timeout"@, "10"@]);
    r
}

/// yt-dlp's arguments for the quick probe of a link (playlist or video).
pub fn probe_args(url: &str) -> (r: Vec<String>)
    ensures
        views(r@) == seq![url@, "--flat-playlist"@, "-J"@, "--socket-timeout"@, "10"@],
{
    let mut r: Vec<String> = Vec::new();
    push_arg(&mut r, url);
    push_arg(&mut r, "--flat-playlist");
    push_arg(&mut r, "-J");
    push_arg(&mut r, "--socket-timeout");
    push_arg(&mut r, "10");
    assert(views(r@) =~= seq![url@, "--flat-playlist"@, "-J"@, "--socket-timeout"@, "10"@]);
    r
}

/// yt-dlp's arguments for the document of a download, with its format
/// selector.
pub fn download_json_args(url: &str, selector: &str) -> (r: Vec<String>)
    ensures
        views(r@) == seq![url@, "--dump-json"@, "--no-playlist"@, "-f"@, selector@],
{
    let mut r: Vec<String> = Vec::new();
    push_arg(&mut r, url);
    push_arg(&mut r, "--dump-json");
    push_arg(&mut r, "--no-playlist");
    push_arg(&mut r, "-f");
    push_arg(&mut r, selector);
    assert(views(r@) =~= seq![url@, "--dump-json"@, "--no-playlist"@, "-f"@, selector@]);
    r
}

/// yt-dlp's arguments to print the file name it would use.
pub fn filename_args(url: &str) -> (r: Vec<String>)
    ensures
        views(r@) == seq![url@, "--print"@, "filename"@, "-o"@, "%(title)s.%(ext)s"@, "--no-playlist"@],
{
    let mut r: Vec<String> = Vec::new();
    push_arg(&mut r, url);
    push_arg(&mut r, "--print");
    push_arg(&mut r, "filename");
    push_arg(&mut r, "-o");
    push_arg(&mut r, "%(title)s.%(ext)s");
    push_arg(&mut r, "--no-playlist");
    assert(views(r@) =~= seq![url@, "--print"@, "filename"@, "-o"@, "%(title)s.%(ext)s"@, "--no-playlist"@]);
    r
}

/// ffmpeg's arguments to turn a local video into an HLS stream in its
/// working folder: streams copied, four-second fMP4 segments.
pub fn hls_transmux_args(video_path: &str) -> (r: Vec<String>)
    ensures
        views(r@) == seq![
            "-i"@, video_path@, "-map"@, "0:v"@, "-map"@, "0:a?"@, "-c:v"@, "copy"@, "-c:a"@,
            "copy"@, "-f"@, "hls"@, "-hls_time"@, "4"@, "-hls_list_size"@, "0"@,
            "-hls_playlist_type"@, "event"@, "-hls_segment_type"@, "fmp4"@,
            "-hls_fmp4_init_filename"@, "init.mp4"@, "-hls_segment_filename"@, "seg_%03d.m4s"@,
            "master.m3u8"@,
        ],
{
    let mut r: Vec<String> = Vec::new();
    push_arg(&mut r, "-i");
    push_arg(&mut r, video_path);
    push_arg(&mut r, "-map");
    push_arg(&mut r, "0:v");
    push_arg(&mut r, "-map");
    push_arg(&mut r, "0:a?");
    push_arg(&mut r, "-c:v");
    push_arg(&mut r, "copy");
    push_arg(&mut r, "-c:a");
    push_arg(&mut r, "copy");
    push_arg(&mut r, "-f");
    push_arg(&mut r, "hls");
    push_arg(&mut r, "-hls_time");
    push_arg(&mut r, "4");
    push_arg(&mut r, "-hls_list_size");
    push_arg(&mut r, "0");
    push_arg(&mut r, "-hls_playlist_type");
    push_arg(&mut r, "event");
    push_arg(&mut r, "-hls_segment_type");
    push_arg(&mut r, "fmp4");
    push_arg(&mut r, "-hls_fmp4_init_filename");
    push_arg(&mut r, "init.mp4");
    push_arg(&mut r, "-hls_segment_filename");
    push_arg(&mut r, "seg_%03d.m4s");
    push_arg(&mut r, "master.m3u8");
    assert(views(r@) =~= seq![
        "-i"@, video_path@, "-map"@, "0:v"@, "-map"@, "0:a?"@, "-c:v"@, "copy"@, "-c:a"@,
        "copy"@, "-f"@, "hls"@, "-hls_time"@, "4"@, "-hls_list_size"@, "0"@,
        "-hls_playlist_type"@, "event"@, "-hls_segment_type"@, "fmp4"@,
        "-hls_fmp4_init_filename"@, "init.mp4"@, "-hls_segment_filename"@, "seg_%03d.m4s"@,
        "master.m3u8"@,
    ]);
    r
}


/// The qualities a video lists as available: 360p alone when yt-dlp cannot
/// be found, else the ones whose URL is cached (and 360p), lowest first.
pub fn available_qualities(tool_found: bool, cached: &Vec<bool>) -> (r: Vec<String>)
    requires
        cached.len() == 4,
    ensures
        !tool_found ==> views(r@) == seq!["360p"@],
        tool_found ==> views(r@) == listed_qualities_spec(cached@),
{
    if !tool_found {
        let mut r: Vec<String> = Vec::new();
        r.push(owned("360p"));
        assert(views(r@) =~= seq!["360p"@]);
        r
    } else {
        listed_qualities(cached)
    }
}

} // verus!
