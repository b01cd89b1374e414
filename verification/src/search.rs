//! Video search: the search address for each platform and the results that
//! yt-dlp prints, one JSON document per line.
use vstd::prelude::*;
use vstd::utf8::encode_utf8;
use crate::json::{JsonValue, field, str_of, u64_of, array_of, at};
use crate::text::{
    cat, cat3, owned, chars_of, string_of, str_eq, has_sub_at, sub_at, push_str, decimal_text,
    push_decimal, lines, trim, split_lines, trim_chars, decimal_string,
};
use crate::ytdlp::{search_args, search_args_spec, views};

verus! {

/// Represents a video search result
#[derive(Debug, Clone)]
pub struct VideoSearchResult {
    pub title: String,
    pub thumbnail_url: Option<String>,
    pub video_url: String,
    pub duration: Option<String>,
    pub uploader: Option<String>,
    pub view_count: Option<u64>,
}

/// The bytes that `urlencoding` leaves as they are.
pub open spec fn url_safe_byte(b: u8) -> bool {
    (48 <= b <= 57) || (65 <= b <= 90) || (97 <= b <= 122) || b == 45 || b == 46 || b == 95 || b
        == 126
}

pub open spec fn hex_upper(d: int) -> char {
    if d < 10 {
        (48 + d) as char
    } else {
        (55 + d) as char
    }
}

/// Percent-encoding of `bytes`: safe bytes as they are, others as `%XX`
/// with upper-case hex digits.
pub open spec fn percent_encode(bytes: Seq<u8>) -> Seq<char>
    decreases bytes.len(),
{
    if bytes.len() == 0 {
        seq![]
    } else {
        let b = bytes[0];
        (if url_safe_byte(b) {
            seq![b as char]
        } else {
            seq!['%', hex_upper(b as int / 16), hex_upper(b as int % 16)]
        }) + percent_encode(bytes.drop_first())
    }
}

/// `urlencoding::encode`. Claimed, as its documentation and source give it:
/// every byte of the UTF-8 encoding of `s` except ASCII letters, digits and
/// `-._~` becomes `%` and two upper-case hex digits.
#[verifier::external_body]
fn url_encode(s: &str) -> (r: String)
    ensures
        r@ == percent_encode(encode_utf8(s@)),
{
    urlencoding::encode(s).into_owned()
}

pub open spec fn is_youtube_platform(p: Seq<char>) -> bool {
    p == "ytsearch"@ || p == "youtube"@ || p.len() == 0
}

/// The search address for a query on a platform.
pub open spec fn search_url_spec(query: Seq<char>, platform: Seq<char>) -> Seq<char> {
    let encoded = percent_encode(encode_utf8(query));
    if is_youtube_platform(platform) {
        "https://www.youtube.com/results?search_query="@ + encoded + "&sp=CAMSAhAB"@
    } else if platform == "scsearch"@ {
        "scsearch20:"@ + query
    } else if platform == "bilisearch"@ {
        "bilisearch20:"@ + query
    } else if platform == "nicosearch"@ {
        "nicosearch20:"@ + query
    } else if platform == "dailymotion"@ {
        "https://www.dailymotion.com/search/"@ + encoded + "/videos"@
    } else if platform == "gvsearch"@ {
        "gvsearch20:"@ + query
    } else if platform == "yvsearch"@ {
        "yvsearch20:"@ + query
    } else {
        "ytsearch20:"@ + query
    }
}

/// Build search URL based on platform
pub fn build_search_url(query: &str, platform: &str) -> (r: String)
    ensures
        r@ == search_url_spec(query@, platform@),
{
    let encoded = url_encode(query);
    let p = chars_of(platform);
    if str_eq(&p, "ytsearch") || str_eq(&p, "youtube") || p.len() == 0 {
        cat3("https://www.youtube.com/results?search_query=", encoded.as_str(), "&sp=CAMSAhAB")
    } else if str_eq(&p, "scsearch") {
        cat("scsearch20:", query)
    } else if str_eq(&p, "bilisearch") {
        cat("bilisearch20:", query)
    } else if str_eq(&p, "nicosearch") {
        cat("nicosearch20:", query)
    } else if str_eq(&p, "dailymotion") {
        cat3("https://www.dailymotion.com/search/", encoded.as_str(), "/videos")
    } else if str_eq(&p, "gvsearch") {
        cat("gvsearch20:", query)
    } else if str_eq(&p, "yvsearch") {
        cat("yvsearch20:", query)
    } else {
        cat("ytsearch20:", query)
    }
}

/// The playlist items of a results page: the first and the last, counting from 1.
pub fn search_range(page: usize, page_size: usize) -> (r: (usize, usize))
    requires
        page >= 1,
        page * page_size <= usize::MAX,
    ensures
        r.0 == (page - 1) * page_size + 1,
        r.1 == page * page_size,
{
    assert((page - 1) * page_size <= page * page_size) by (nonlinear_arith)
        requires
            page >= 1,
    ;
    assert((page - 1) * page_size + 1 <= usize::MAX) by (nonlinear_arith)
        requires
            page >= 1,
            page * page_size <= usize::MAX,
    ;
    let start = (page - 1) * page_size + 1;
    let end = page * page_size;
    (start, end)
}

/// The lines of yt-dlp's output that hold something besides white space.
pub open spec fn nonblank_lines_spec(text: Seq<char>) -> Seq<Seq<char>> {
    lines(text).filter(|l: Seq<char>| trim(l).len() > 0)
}

pub fn nonblank_lines(text: &str) -> (r: Vec<String>)
    ensures
        r@.map_values(|s: String| s@) == nonblank_lines_spec(text@),
{
    let ls = split_lines(&chars_of(text));
    let ghost all = lines(text@);
    let mut r: Vec<String> = Vec::new();
    let mut i: usize = 0;
    while i < ls.len()
        invariant
            i <= ls.len(),
            ls@.len() == all.len(),
            forall|j: int| 0 <= j < ls@.len() ==> #[trigger] ls@[j]@ == all[j],
            r@.map_values(|s: String| s@) == all.take(i as int).filter(|l: Seq<char>| trim(l).len() > 0),
        decreases ls.len() - i,
    {
        let ghost before = r@;
        proof {
            assert(all.take(i + 1).drop_last() =~= all.take(i as int));
            reveal_with_fuel(Seq::filter, 1);
        }
        let t = trim_chars(&ls[i]);
        if t.len() > 0 {
            r.push(string_of(&ls[i]));
            proof {
                assert(r@.map_values(|s: String| s@) =~= before.map_values(|s: String| s@).push(all[i as int]));
            }
        }
        i += 1;
    }
    assert(all.take(ls.len() as int) =~= all);
    r
}

/// `json.get("thumbnail")`, or else the `url` of the last of `thumbnails`.
pub open spec fn search_thumbnail_value(j: JsonValue) -> Option<JsonValue> {
    match field(j, "thumbnail"@) {
        Some(v) => Some(v),
        None => match field(j, "thumbnails"@) {
            Some(t) => match array_of(t) {
                Some(a) => if a.len() > 0 {
                    field(a.last(), "url"@)
                } else {
                    None
                },
                None => None,
            },
            None => None,
        },
    }
}

pub open spec fn opt_str(v: Option<JsonValue>) -> Option<Seq<char>> {
    match v {
        Some(x) => str_of(x),
        None => None,
    }
}

/// The address of a result: `url`, else `webpage_url`, else one made from `id`.
pub open spec fn search_video_url(j: JsonValue, platform: Seq<char>) -> Seq<char> {
    match opt_str(field(j, "url"@)) {
        Some(u) => u,
        None => match opt_str(field(j, "webpage_url"@)) {
            Some(u) => u,
            None => match opt_str(field(j, "id"@)) {
                Some(id) => if has_sub_at(id, 0, "http"@) {
                    id
                } else if is_youtube_platform(platform) {
                    "https://www.youtube.com/watch?v="@ + id
                } else {
                    id
                },
                None => seq![],
            },
        },
    }
}

/// `format!("{}:{:02}", secs / 60, secs % 60)`.
pub open spec fn minutes_seconds(secs: nat) -> Seq<char> {
    decimal_text(secs / 60) + seq![':'] + (if secs % 60 < 10 {
        seq!['0']
    } else {
        seq![]
    }) + decimal_text(secs % 60)
}

/// The duration of a result: `duration_string`, or else `duration`; a
/// string as it is, a whole number of seconds as minutes and seconds.
pub open spec fn search_duration(j: JsonValue) -> Option<Seq<char>> {
    let v = match field(j, "duration_string"@) {
        Some(v) => Some(v),
        None => field(j, "duration"@),
    };
    match v {
        Some(x) => match str_of(x) {
            Some(s) => Some(s),
            None => match u64_of(x) {
                Some(secs) => Some(minutes_seconds(secs as nat)),
                None => None,
            },
        },
        None => None,
    }
}

pub open spec fn search_uploader(j: JsonValue) -> Option<Seq<char>> {
    match field(j, "uploader"@) {
        Some(v) => str_of(v),
        None => opt_str(field(j, "channel"@)),
    }
}

pub open spec fn opt_view(o: Option<String>) -> Option<Seq<char>> {
    match o {
        Some(s) => Some(s@),
        None => None,
    }
}

/// What a search result says, read from its JSON document.
pub open spec fn search_result_ok(r: VideoSearchResult, j: JsonValue, platform: Seq<char>) -> bool {
    &&& r.title@ == match opt_str(field(j, "title"@)) {
        Some(t) => t,
        None => "Unknown"@,
    }
    &&& opt_view(r.thumbnail_url) == opt_str(search_thumbnail_value(j))
    &&& r.video_url@ == search_video_url(j, platform)
    &&& opt_view(r.duration) == search_duration(j)
    &&& opt_view(r.uploader) == search_uploader(j)
    &&& r.view_count == match field(j, "view_count"@) {
        Some(v) => u64_of(v),
        None => None,
    }
}

fn opt_string(v: Option<&JsonValue>) -> (r: Option<String>)
    ensures
        opt_view(r) == opt_str(
            match v {
                Some(x) => Some(*x),
                None => None,
            },
        ),
{
    match v {
        Some(x) => match x.as_str() {
            Some(s) => Some(s.clone()),
            None => None,
        },
        None => None,
    }
}

/// `format!("{}:{:02}", secs / 60, secs % 60)`.
pub fn format_minutes_seconds(secs: u64) -> (r: String)
    ensures
        r@ == minutes_seconds(secs as nat),
{
    let mut r = String::new();
    push_decimal(&mut r, secs / 60);
    push_str(&mut r, ":");
    proof {
        reveal_strlit(":");
        reveal_strlit("0");
    }
    if secs % 60 < 10 {
        push_str(&mut r, "0");
    }
    push_decimal(&mut r, secs % 60);
    r
}

/// One search result from the JSON document that yt-dlp printed for it.
pub fn search_result_from_json(json: &JsonValue, platform: &str) -> (r: VideoSearchResult)
    ensures
        search_result_ok(r, *json, platform@),
{
    let title = match opt_string(json.get("title")) {
        Some(t) => t,
        None => owned("Unknown"),
    };
    let thumb_value: Option<&JsonValue> = match json.get("thumbnail") {
        Some(v) => Some(v),
        None => match json.get("thumbnails") {
            Some(t) => match t.as_array() {
                Some(a) => if a.len() > 0 {
                    a[a.len() - 1].get("url")
                } else {
                    None
                },
                None => None,
            },
            None => None,
        },
    };
    let thumbnail_url = opt_string(thumb_value);
    let video_url = match opt_string(json.get("url")) {
        Some(u) => u,
        None => match opt_string(json.get("webpage_url")) {
            Some(u) => u,
            None => match opt_string(json.get("id")) {
                Some(id) => {
                    let idc = chars_of(id.as_str());
                    let p = chars_of(platform);
                    if sub_at(&idc, 0, &chars_of("http")) {
                        id
                    } else if str_eq(&p, "ytsearch") || str_eq(&p, "youtube") || p.len() == 0 {
                        cat("https://www.youtube.com/watch?v=", id.as_str())
                    } else {
                        id
                    }
                },
                None => String::new(),
            },
        },
    };
    let dur_value: Option<&JsonValue> = match json.get("duration_string") {
        Some(v) => Some(v),
        None => json.get("duration"),
    };
    let duration = match dur_value {
        Some(x) => match x.as_str() {
            Some(s) => Some(s.clone()),
            None => match x.as_u64() {
                Some(secs) => Some(format_minutes_seconds(secs)),
                None => None,
            },
        },
        None => None,
    };
    let uploader = match json.get("uploader") {
        Some(v) => opt_string(Some(v)),
        None => opt_string(json.get("channel")),
    };
    let view_count = match json.get("view_count") {
        Some(v) => v.as_u64(),
        None => None,
    };
    VideoSearchResult { title, thumbnail_url, video_url, duration, uploader, view_count }
}


/// The search results of the lines that parsed as JSON documents (`None`
/// for a line that did not), in order.
pub fn search_results(docs: &Vec<Option<JsonValue>>, platform: &str) -> (r: Vec<VideoSearchResult>)
    ensures
        r@.len() == docs@.filter(|d: Option<JsonValue>| d is Some).len(),
        forall|i: int|
            0 <= i < r@.len() ==> search_result_ok(
                #[trigger] r@[i],
                docs@.filter(|d: Option<JsonValue>| d is Some)[i]->0,
                platform@,
            ),
{
    let mut r: Vec<VideoSearchResult> = Vec::new();
    let mut i: usize = 0;
    while i < docs.len()
        invariant
            i <= docs.len(),
            r@.len() == docs@.take(i as int).filter(|d: Option<JsonValue>| d is Some).len(),
            forall|k: int|
                0 <= k < r@.len() ==> search_result_ok(
                    #[trigger] r@[k],
                    docs@.take(i as int).filter(|d: Option<JsonValue>| d is Some)[k]->0,
                    platform@,
                ),
        decreases docs.len() - i,
    {
        proof {
            assert(docs@.take(i + 1).drop_last() =~= docs@.take(i as int));
            reveal_with_fuel(Seq::filter, 1);
        }
        match &docs[i] {
            Some(j) => {
                r.push(search_result_from_json(j, platform));
            },
            None => {},
        }
        i += 1;
    }
    assert(docs@.take(docs.len() as int) =~= docs@);
    r
}


/// yt-dlp's arguments for a page of search results; `None` for an empty
/// query, which is answered with no results and no search.
pub fn search_request(query: &str, platform: &str, page: usize, page_size: usize, exclude_shorts: bool) -> (r: Option<Vec<String>>)
    requires
        query@.len() > 0 ==> page >= 1 && page * page_size <= usize::MAX,
    ensures
        r is None <==> query@.len() == 0,
        r matches Some(args) ==> views(args@) == search_args_spec(
            search_url_spec(query@, platform@),
            decimal_text(((page - 1) * page_size + 1) as nat),
            decimal_text((page * page_size) as nat),
            exclude_shorts,
        ),
{
    if chars_of(query).len() == 0 {
        return None;
    }
    let search_url = build_search_url(query, platform);
    let (start, end) = search_range(page, page_size);
    let start_text = decimal_string(start as u64);
    let end_text = decimal_string(end as u64);
    Some(search_args(search_url.as_str(), start_text.as_str(), end_text.as_str(), exclude_shorts))
}


/// Law: every platform that yt-dlp searches by a prefix of its own is
/// searched under that prefix: the target is the platform's name, then
/// `20:`, then the query, whatever the query is.
pub proof fn lemma_search_prefix_names_platform(query: Seq<char>, platform: Seq<char>)
    requires
        platform == "scsearch"@ || platform == "bilisearch"@ || platform == "nicosearch"@
            || platform == "gvsearch"@ || platform == "yvsearch"@,
    ensures
        search_url_spec(query, platform) == platform + "20:"@ + query,
        search_url_spec(query, platform).subrange(0, platform.len() as int) == platform,
{
    reveal_strlit("scsearch");
    reveal_strlit("bilisearch");
    reveal_strlit("nicosearch");
    reveal_strlit("gvsearch");
    reveal_strlit("yvsearch");
    reveal_strlit("ytsearch");
    reveal_strlit("youtube");
    reveal_strlit("dailymotion");
    reveal_strlit("20:");
    reveal_strlit("scsearch20:");
    reveal_strlit("bilisearch20:");
    reveal_strlit("nicosearch20:");
    reveal_strlit("gvsearch20:");
    reveal_strlit("yvsearch20:");
    assert(platform + "20:"@ + query == (platform + "20:"@) + query);
    assert("scsearch"@[0] != "ytsearch"@[0]);
    assert("gvsearch"@[0] != "ytsearch"@[0]);
    assert("yvsearch"@[1] != "ytsearch"@[1]);
    assert("scsearch"@ != "ytsearch"@);
    assert("gvsearch"@ != "ytsearch"@);
    assert("yvsearch"@ != "ytsearch"@);
    if platform == "scsearch"@ {
        assert(platform + "20:"@ =~= "scsearch20:"@);
        assert(search_url_spec(query, platform) == "scsearch20:"@ + query);
    } else if platform == "bilisearch"@ {
        assert(platform + "20:"@ =~= "bilisearch20:"@);
        assert(search_url_spec(query, platform) == "bilisearch20:"@ + query);
    } else if platform == "nicosearch"@ {
        assert(platform + "20:"@ =~= "nicosearch20:"@);
        assert(search_url_spec(query, platform) == "nicosearch20:"@ + query);
    } else if platform == "gvsearch"@ {
        assert(platform + "20:"@ =~= "gvsearch20:"@);
        assert(search_url_spec(query, platform) == "gvsearch20:"@ + query);
    } else {
        assert(platform + "20:"@ =~= "yvsearch20:"@);
        assert(search_url_spec(query, platform) == "yvsearch20:"@ + query);
    }
    assert((platform + "20:"@ + query).subrange(0, platform.len() as int) =~= platform);
}

/// Law: a platform that the search does not know is searched on YouTube
/// through yt-dlp's `ytsearch20:` prefix.
pub proof fn lemma_search_unknown_platform(query: Seq<char>, platform: Seq<char>)
    requires
        platform.len() > 0,
        platform != "ytsearch"@,
        platform != "youtube"@,
        platform != "scsearch"@,
        platform != "bilisearch"@,
        platform != "nicosearch"@,
        platform != "dailymotion"@,
        platform != "gvsearch"@,
        platform != "yvsearch"@,
    ensures
        search_url_spec(query, platform) == "ytsearch20:"@ + query,
{
}


/// Law: YouTube (`ytsearch`, `youtube`, or no platform) is searched on its
/// results page, newest first, with the query percent-encoded; Dailymotion
/// on its search page for videos.
pub proof fn lemma_search_result_pages(query: Seq<char>, platform: Seq<char>)
    ensures
        platform == "ytsearch"@ || platform == "youtube"@ || platform.len() == 0 ==> search_url_spec(
            query,
            platform,
        ) == "https://www.youtube.com/results?search_query="@ + percent_encode(encode_utf8(query))
            + "&sp=CAMSAhAB"@,
        platform == "dailymotion"@ ==> search_url_spec(query, platform)
            == "https://www.dailymotion.com/search/"@ + percent_encode(encode_utf8(query)) + "/videos"@,
{
    reveal_strlit("dailymotion");
    reveal_strlit("ytsearch");
    reveal_strlit("youtube");
    reveal_strlit("scsearch");
    reveal_strlit("bilisearch");
    reveal_strlit("nicosearch");
    if platform == "dailymotion"@ {
        assert(platform.len() == 11);
        assert(platform != "ytsearch"@ && platform != "youtube"@ && platform != "scsearch"@);
        assert(platform != "bilisearch"@ && platform != "nicosearch"@);
    }
}

} // verus!
