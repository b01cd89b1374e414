//! Errors of the download pipeline and the lines that aria2c and ffmpeg print.
use vstd::prelude::*;
use vstd::utf8::{encode_utf8, encode_scalar};
use vstd::string::StringSliceAdditionalSpecFns;
use crate::numtext::{is_plain_decimal, plain_decimal, parse_i64_spec, parse_i64};
use crate::progress::{unit_end, unit_end_exec};
use crate::ytdlp::{push_arg, views};
use crate::text::{
    CharClass, contains_seq, has_str, str_eq, lower_text, lowercase_chars, owned, cat, cat3,
    chars_of, string_of, slice_chars, scan_run, run_end, lemma_run_end_bounds, has_sub_at, sub_at,
    find_sub, find_chars, same_end, push_str, lit_end, lit_end_exec, trim, trim_chars, last_index_of, rfind_char,
    in_class, is_decimal_digit, is_white_space, lemma_find_sub_first, lemma_run_end_at, lemma_find_sub_found,
};

verus! {

/// Identifies the type of stream being downloaded
#[derive(Debug, Clone, Copy, PartialEq, Eq, Structural)]
pub enum StreamType {
    Video,
    Audio,
    Combined,
}

/// The kinds of `std::io::ErrorKind` that the messages tell apart.
#[derive(Debug, Clone, Copy, PartialEq, Eq, Structural)]
pub enum IoErrorKind {
    PermissionDenied,
    NotFound,
    AlreadyExists,
    OutOfMemory,
    Other,
}

/// An I/O failure: its kind and the text that `std::io::Error` displays.
#[derive(Debug, Clone)]
pub struct IoFailure {
    pub kind: IoErrorKind,
    pub message: String,
}

#[derive(Debug)]
pub enum DownloadError {
    YtDlpError(String),
    Aria2Error(String),
    FFmpegError(String),
    IoError(IoFailure),
    /// A metadata document that did not parse, with the parser's message.
    JsonError(String),
    Cancelled,
}

// ---------------------------------------------------------------------------
// Messages
// ---------------------------------------------------------------------------

/// `msg` names none of the failures that yt-dlp messages are sorted into.
pub open spec fn ytdlp_unrecognized(l: Seq<char>) -> bool {
    !(contains_seq(l, "private video"@) || contains_seq(l, "video is private"@))
    && !(contains_seq(l, "video unavailable"@) || contains_seq(l, "not available"@))
    && !(contains_seq(l, "age"@) || contains_seq(l, "sign in"@) || contains_seq(l, "login"@))
    && !(contains_seq(l, "no video formats"@) || contains_seq(l, "no suitable format"@))
    && !(contains_seq(l, "not a valid url"@) || contains_seq(l, "unsupported url"@))
    && !(contains_seq(l, "connection"@) || contains_seq(l, "network"@) || contains_seq(l, "timed out"@))
    && !(contains_seq(l, "http error 429"@) || contains_seq(l, "too many requests"@))
    && !(contains_seq(l, "geo"@) || contains_seq(l, "blocked"@) || contains_seq(l, "country"@))
    && !contains_seq(l, "copyright"@)
}

/// The message for a yt-dlp failure, given the lowercase text `l` and the
/// message `msg` itself; a long unrecognized message is cut after 80 bytes.
pub open spec fn ytdlp_message(l: Seq<char>, msg: Seq<char>) -> Seq<char> {
    if contains_seq(l, "private video"@) || contains_seq(l, "video is private"@) {
        "This video is private and cannot be downloaded."@
    } else if contains_seq(l, "video unavailable"@) || contains_seq(l, "not available"@) {
        "This video is unavailable. It may have been removed or is restricted in your region."@
    } else if contains_seq(l, "age"@) || contains_seq(l, "sign in"@) || contains_seq(l, "login"@) {
        "This video requires sign-in or age verification, which is not supported."@
    } else if contains_seq(l, "no video formats"@) || contains_seq(l, "no suitable format"@) {
        "No downloadable formats found for this video."@
    } else if contains_seq(l, "not a valid url"@) || contains_seq(l, "unsupported url"@) {
        "Invalid or unsupported URL. Please check the link."@
    } else if contains_seq(l, "connection"@) || contains_seq(l, "network"@) || contains_seq(
        l,
        "timed out"@,
    ) {
        "Network error. Please check your internet connection and try again."@
    } else if contains_seq(l, "http error 429"@) || contains_seq(l, "too many requests"@) {
        "Rate limited by server. Please wait a few minutes and try again."@
    } else if contains_seq(l, "geo"@) || contains_seq(l, "blocked"@) || contains_seq(l, "country"@) {
        "This video is blocked in your region."@
    } else if contains_seq(l, "copyright"@) {
        "This video cannot be downloaded due to copyright restrictions."@
    } else if encode_utf8(msg).len() > 80 {
        "Download failed: "@ + utf8_prefix(msg, 80) + "..."@
    } else {
        "Download failed: "@ + msg
    }
}

/// The number of bytes that `c` takes in UTF-8.
pub open spec fn utf8_width(c: char) -> int {
    encode_scalar(c as u32).len() as int
}

/// The longest prefix of `s` whose UTF-8 encoding takes at most `n` bytes:
/// the text up to the last character boundary at or before byte `n`.
pub open spec fn utf8_prefix(s: Seq<char>, n: int) -> Seq<char>
    decreases s.len(),
{
    if s.len() == 0 || utf8_width(s[0]) > n {
        seq![]
    } else {
        seq![s[0]] + utf8_prefix(s.drop_first(), n - utf8_width(s[0]))
    }
}

fn utf8_width_exec(c: char) -> (r: usize)
    ensures
        r as int == utf8_width(c),
        1 <= r <= 4,
{
    let v = c as u32;
    proof {
        vstd::utf8::char_is_scalar(c);
    }
    if v <= 0x7F {
        1
    } else if v <= 0x7FF {
        2
    } else if v <= 0xFFFF {
        3
    } else {
        4
    }
}

/// The cut keeps a prefix of the text, within `n` bytes.
pub proof fn lemma_utf8_prefix(s: Seq<char>, n: int)
    requires
        n >= 0,
    ensures
        utf8_prefix(s, n).len() <= s.len(),
        utf8_prefix(s, n) == s.take(utf8_prefix(s, n).len() as int),
        encode_utf8(utf8_prefix(s, n)).len() <= n,
    decreases s.len(),
{
    if s.len() > 0 && utf8_width(s[0]) <= n {
        let t = s.drop_first();
        lemma_utf8_prefix(t, n - utf8_width(s[0]));
        let p = utf8_prefix(s, n);
        let q = utf8_prefix(t, n - utf8_width(s[0]));
        assert(p == seq![s[0]] + q);
        assert(p =~= s.take(p.len() as int)) by {
            assert forall|i: int| 0 <= i < p.len() implies p[i] == s[i] by {
                if i > 0 {
                    assert(q[i - 1] == t[i - 1]);
                }
            }
        }
        assert(p.drop_first() =~= q);
    } else {
        assert(utf8_prefix(s, n) =~= s.take(0));
    }
}

pub open spec fn aria2_message(l: Seq<char>) -> Seq<char> {
    if contains_seq(l, "connection"@) || contains_seq(l, "network"@) {
        "Connection lost. Please check your internet and retry."@
    } else if contains_seq(l, "timeout"@) {
        "Download timed out. The server may be slow - try again later."@
    } else if contains_seq(l, "disk"@) || contains_seq(l, "space"@) {
        "Not enough disk space. Free up some space and try again."@
    } else if contains_seq(l, "permission"@) || contains_seq(l, "access denied"@) {
        "Cannot write to download folder. Check folder permissions."@
    } else {
        "Download transfer failed. Please try again."@
    }
}

pub open spec fn ffmpeg_message(l: Seq<char>) -> Seq<char> {
    if contains_seq(l, "codec"@) || contains_seq(l, "encoder"@) || contains_seq(l, "decoder"@) {
        "Media format not supported. Try a different quality."@
    } else if contains_seq(l, "permission"@) {
        "Cannot create output file. Check folder permissions."@
    } else if contains_seq(l, "disk"@) || contains_seq(l, "space"@) {
        "Not enough disk space for merging. Free up space and retry."@
    } else {
        "Failed to merge video and audio. Try a different format."@
    }
}

pub open spec fn io_message(kind: IoErrorKind, message: Seq<char>) -> Seq<char> {
    match kind {
        IoErrorKind::PermissionDenied => "Permission denied. Check folder access rights."@,
        IoErrorKind::NotFound => "File or folder not found. Check download location."@,
        IoErrorKind::AlreadyExists => "File already exists."@,
        IoErrorKind::OutOfMemory => "System out of memory. Close other applications."@,
        IoErrorKind::Other => "File system error: "@ + message,
    }
}

/// The user-facing message for `e`.
pub open spec fn user_message_spec(e: &DownloadError) -> Seq<char> {
    match e {
        DownloadError::YtDlpError(msg) => ytdlp_message(lower_text(msg@), msg@),
        DownloadError::Aria2Error(msg) => aria2_message(lower_text(msg@)),
        DownloadError::FFmpegError(msg) => ffmpeg_message(lower_text(msg@)),
        DownloadError::IoError(err) => io_message(err.kind, err.message@),
        DownloadError::JsonError(_) => "Failed to parse video metadata. Try refreshing."@,
        DownloadError::Cancelled => "Download was cancelled."@,
    }
}

/// The text that `Display` shows for `e`.
pub open spec fn describe_spec(e: &DownloadError) -> Seq<char> {
    match e {
        DownloadError::YtDlpError(msg) => "yt-dlp error: "@ + msg@,
        DownloadError::Aria2Error(msg) => "aria2 error: "@ + msg@,
        DownloadError::FFmpegError(msg) => "ffmpeg error: "@ + msg@,
        DownloadError::IoError(err) => "IO error: "@ + err.message@,
        DownloadError::JsonError(msg) => "JSON error: "@ + msg@,
        DownloadError::Cancelled => "Download cancelled"@,
    }
}

fn unrecognized_exec(l: &Vec<char>) -> (r: bool)
    ensures
        r == ytdlp_unrecognized(l@),
{
    !(has_str(l, "private video") || has_str(l, "video is private")) && !(has_str(
        l,
        "video unavailable",
    ) || has_str(l, "not available")) && !(has_str(l, "age") || has_str(l, "sign in") || has_str(
        l,
        "login",
    )) && !(has_str(l, "no video formats") || has_str(l, "no suitable format")) && !(has_str(
        l,
        "not a valid url",
    ) || has_str(l, "unsupported url")) && !(has_str(l, "connection") || has_str(l, "network")
        || has_str(l, "timed out")) && !(has_str(l, "http error 429") || has_str(
        l,
        "too many requests",
    )) && !(has_str(l, "geo") || has_str(l, "blocked") || has_str(l, "country")) && !has_str(
        l,
        "copyright",
    )
}

impl DownloadError {
    /// The text that `Display` shows for this error.
    pub fn describe(&self) -> (r: String)
        ensures
            r@ == describe_spec(self),
    {
        match self {
            DownloadError::YtDlpError(msg) => cat("yt-dlp error: ", msg.as_str()),
            DownloadError::Aria2Error(msg) => cat("aria2 error: ", msg.as_str()),
            DownloadError::FFmpegError(msg) => cat("ffmpeg error: ", msg.as_str()),
            DownloadError::IoError(err) => cat("IO error: ", err.message.as_str()),
            DownloadError::JsonError(msg) => cat("JSON error: ", msg.as_str()),
            DownloadError::Cancelled => owned("Download cancelled"),
        }
    }

    /// Convert technical error to user-friendly message with actionable suggestions
    pub fn user_message(&self) -> (r: String)
        ensures
            r@ == user_message_spec(self),
    {
        match self {
            DownloadError::YtDlpError(msg) => Self::parse_ytdlp_error(msg.as_str()),
            DownloadError::Aria2Error(msg) => Self::parse_aria2_error(msg.as_str()),
            DownloadError::FFmpegError(msg) => Self::parse_ffmpeg_error(msg.as_str()),
            DownloadError::IoError(err) => Self::parse_io_error(err),
            DownloadError::JsonError(_) => owned("Failed to parse video metadata. Try refreshing."),
            DownloadError::Cancelled => owned("Download was cancelled."),
        }
    }

    fn parse_ytdlp_error(msg: &str) -> (r: String)
        ensures
            r@ == ytdlp_message(lower_text(msg@), msg@),
    {
        let l = lowercase_chars(msg);
        if has_str(&l, "private video") || has_str(&l, "video is private") {
            return owned("This video is private and cannot be downloaded.");
        }
        if has_str(&l, "video unavailable") || has_str(&l, "not available") {
            return owned(
                "This video is unavailable. It may have been removed or is restricted in your region.",
            );
        }
        if has_str(&l, "age") || has_str(&l, "sign in") || has_str(&l, "login") {
            return owned("This video requires sign-in or age verification, which is not supported.");
        }
        if has_str(&l, "no video formats") || has_str(&l, "no suitable format") {
            return owned("No downloadable formats found for this video.");
        }
        if has_str(&l, "not a valid url") || has_str(&l, "unsupported url") {
            return owned("Invalid or unsupported URL. Please check the link.");
        }
        if has_str(&l, "connection") || has_str(&l, "network") || has_str(&l, "timed out") {
            return owned("Network error. Please check your internet connection and try again.");
        }
        if has_str(&l, "http error 429") || has_str(&l, "too many requests") {
            return owned("Rate limited by server. Please wait a few minutes and try again.");
        }
        if has_str(&l, "geo") || has_str(&l, "blocked") || has_str(&l, "country") {
            return owned("This video is blocked in your region.");
        }
        if has_str(&l, "copyright") {
            return owned("This video cannot be downloaded due to copyright restrictions.");
        }
        assert(ytdlp_unrecognized(l@));
        if msg.as_bytes().len() > 80 {
            let cs = chars_of(msg);
            let mut used: usize = 0;
            let mut i: usize = 0;
            assert(cs@.skip(0) =~= cs@);
            assert(cs@.take(0) =~= Seq::<char>::empty());
            while i < cs.len() && utf8_width_exec(cs[i]) <= 80 - used
                invariant
                    i <= cs.len(),
                    used <= 80,
                    utf8_prefix(cs@, 80) == cs@.take(i as int) + utf8_prefix(
                        cs@.skip(i as int),
                        80 - used,
                    ),
                decreases cs.len() - i,
            {
                let w = utf8_width_exec(cs[i]);
                proof {
                    let rest = cs@.skip(i as int);
                    assert(rest[0] == cs@[i as int]);
                    assert(rest.drop_first() =~= cs@.skip(i + 1));
                    assert(cs@.take(i + 1) =~= cs@.take(i as int) + seq![cs@[i as int]]);
                }
                used = used + w;
                i += 1;
            }
            proof {
                if i < cs.len() {
                    assert(cs@.skip(i as int)[0] == cs@[i as int]);
                }
                assert(utf8_prefix(cs@.skip(i as int), 80 - used) =~= Seq::<char>::empty());
            }
            let head = string_of(&slice_chars(&cs, 0, i));
            assert(head@ =~= cs@.take(i as int));
            cat3("Download failed: ", head.as_str(), "...")
        } else {
            cat("Download failed: ", msg)
        }
    }

    fn parse_aria2_error(msg: &str) -> (r: String)
        ensures
            r@ == aria2_message(lower_text(msg@)),
    {
        let l = lowercase_chars(msg);
        if has_str(&l, "connection") || has_str(&l, "network") {
            return owned("Connection lost. Please check your internet and retry.");
        }
        if has_str(&l, "timeout") {
            return owned("Download timed out. The server may be slow - try again later.");
        }
        if has_str(&l, "disk") || has_str(&l, "space") {
            return owned("Not enough disk space. Free up some space and try again.");
        }
        if has_str(&l, "permission") || has_str(&l, "access denied") {
            return owned("Cannot write to download folder. Check folder permissions.");
        }
        owned("Download transfer failed. Please try again.")
    }

    fn parse_ffmpeg_error(msg: &str) -> (r: String)
        ensures
            r@ == ffmpeg_message(lower_text(msg@)),
    {
        let l = lowercase_chars(msg);
        if has_str(&l, "codec") || has_str(&l, "encoder") || has_str(&l, "decoder") {
            return owned("Media format not supported. Try a different quality.");
        }
        if has_str(&l, "permission") {
            return owned("Cannot create output file. Check folder permissions.");
        }
        if has_str(&l, "disk") || has_str(&l, "space") {
            return owned("Not enough disk space for merging. Free up space and retry.");
        }
        owned("Failed to merge video and audio. Try a different format.")
    }

    fn parse_io_error(err: &IoFailure) -> (r: String)
        ensures
            r@ == io_message(err.kind, err.message@),
    {
        match err.kind {
            IoErrorKind::PermissionDenied => owned("Permission denied. Check folder access rights."),
            IoErrorKind::NotFound => owned("File or folder not found. Check download location."),
            IoErrorKind::AlreadyExists => owned("File already exists."),
            IoErrorKind::OutOfMemory => owned("System out of memory. Close other applications."),
            IoErrorKind::Other => cat("File system error: ", err.message.as_str()),
        }
    }
}

} // verus!

verus! {

// ---------------------------------------------------------------------------
// aria2c progress lines, e.g. `[#2089b0 400.0KiB/34.0MiB(1%) CN:1 DL:115.0KiB ETA:4m59s]`
// ---------------------------------------------------------------------------

/// Parsed progress data from aria2c output: `percent` is the decimal numeral
/// that aria2c printed.
#[derive(Debug, Clone)]
pub struct Aria2Progress {
    pub percent: String,
    pub speed: String,
    pub eta: String,
}

/// `\(([\d\.]+)%\)` at `i`: the end of the captured numeral.
pub open spec fn aria2_percent_at(s: Seq<char>, i: int) -> Option<int> {
    if 0 <= i < s.len() && s[i] == '(' {
        let a = run_end(s, i + 1, CharClass::DigitOrDot);
        if a > i + 1 && a + 1 < s.len() && s[a] == '%' && s[a + 1] == ')' {
            Some(a)
        } else {
            None
        }
    } else {
        None
    }
}

pub open spec fn first_aria2_percent(s: Seq<char>, p: int) -> Option<(int, int)>
    decreases s.len() + 1 - p,
{
    if p < 0 || p > s.len() {
        None
    } else {
        match aria2_percent_at(s, p) {
            Some(a) => Some((p + 1, a)),
            None => first_aria2_percent(s, p + 1),
        }
    }
}

/// `DL:([\d\.]+)\s*([KMG]i?B)` at `i`: the numeral span and the unit span.
pub open spec fn aria2_speed_at(s: Seq<char>, i: int) -> Option<(int, int, int, int)> {
    match lit_end(s, i, "DL:"@) {
        None => None,
        Some(v) => {
            let a = run_end(s, v, CharClass::DigitOrDot);
            if a > v {
                let w = run_end(s, a, CharClass::Space);
                match unit_end(s, w) {
                    Some(u) => Some((v, a, w, u)),
                    None => None,
                }
            } else {
                None
            }
        },
    }
}

pub open spec fn first_aria2_speed(s: Seq<char>, p: int) -> Option<(int, int, int, int)>
    decreases s.len() + 1 - p,
{
    if p < 0 || p > s.len() {
        None
    } else {
        match aria2_speed_at(s, p) {
            Some(m) => Some(m),
            None => first_aria2_speed(s, p + 1),
        }
    }
}

/// `(?:\d+c)?` at `pos`: where the group ends (at `pos` when it is absent).
pub open spec fn group_end(s: Seq<char>, pos: int, c: char) -> int {
    let d = run_end(s, pos, CharClass::Digit);
    if d > pos && d < s.len() && s[d] == c {
        d + 1
    } else {
        pos
    }
}

/// `(?:\d+h)?(?:\d+m)?(?:\d+s)?` at `pos`.
pub open spec fn eta_groups_end(s: Seq<char>, pos: int) -> int {
    group_end(s, group_end(s, group_end(s, pos, 'h'), 'm'), 's')
}

pub open spec fn aria2_speed_text(s: Seq<char>) -> Seq<char> {
    match first_aria2_speed(s, 0) {
        Some((v, a, w, u)) => s.subrange(v, a) + s.subrange(w, u) + "/s"@,
        None => "-- B/s"@,
    }
}

pub open spec fn aria2_eta_text(s: Seq<char>) -> Seq<char> {
    match find_sub(s, "ETA:"@, 0) {
        Some(i) => {
            let start = i + "ETA:"@.len();
            let e = eta_groups_end(s, start);
            if e > start {
                s.subrange(start, e)
            } else {
                "--:--"@
            }
        },
        None => "--:--"@,
    }
}

/// What an aria2c line says: the first percentage in parentheses (which
/// must read as a float), the first `DL:` speed, the first `ETA:`.
pub open spec fn aria2_progress_spec(s: Seq<char>) -> Option<(Seq<char>, Seq<char>, Seq<char>)> {
    match first_aria2_percent(s, 0) {
        None => None,
        Some((a, b)) => if is_plain_decimal(s.subrange(a, b)) {
            Some((s.subrange(a, b), aria2_speed_text(s), aria2_eta_text(s)))
        } else {
            None
        },
    }
}

fn aria2_percent_at_exec(s: &Vec<char>, i: usize) -> (r: Option<usize>)
    ensures
        same_end(r, aria2_percent_at(s@, i as int)),
        r matches Some(a) ==> i < a < s.len(),
{
    if i < s.len() && s[i] == '(' {
        let a = scan_run(s, i + 1, CharClass::DigitOrDot);
        if a > i + 1 && s.len() - a > 1 && s[a] == '%' && s[a + 1] == ')' {
            Some(a)
        } else {
            None
        }
    } else {
        None
    }
}

fn first_aria2_percent_exec(s: &Vec<char>) -> (r: Option<(usize, usize)>)
    ensures
        match r {
            Some((a, b)) => first_aria2_percent(s@, 0) == Some((a as int, b as int)) && a <= b
                <= s.len(),
            None => first_aria2_percent(s@, 0) is None,
        },
{
    let mut p: usize = 0;
    while p < s.len()
        invariant
            p <= s.len(),
            first_aria2_percent(s@, 0) == first_aria2_percent(s@, p as int),
        decreases s.len() - p,
    {
        if let Some(a) = aria2_percent_at_exec(s, p) {
            return Some((p + 1, a));
        }
        p += 1;
    }
    assert(aria2_percent_at(s@, p as int) is None);
    assert(first_aria2_percent(s@, p + 1) is None);
    None
}

fn aria2_speed_at_exec(s: &Vec<char>, i: usize, dl: &Vec<char>) -> (r: Option<(usize, usize, usize, usize)>)
    requires
        dl@ == "DL:"@,
    ensures
        match r {
            Some((v, a, w, u)) => aria2_speed_at(s@, i as int) == Some(
                (v as int, a as int, w as int, u as int),
            ) && v <= a <= w <= u <= s.len(),
            None => aria2_speed_at(s@, i as int) is None,
        },
{
    let v = lit_end_exec(s, i, dl)?;
    let a = scan_run(s, v, CharClass::DigitOrDot);
    if a > v {
        let w = scan_run(s, a, CharClass::Space);
        match unit_end_exec(s, w) {
            Some(u) => Some((v, a, w, u)),
            None => None,
        }
    } else {
        None
    }
}

fn first_aria2_speed_exec(s: &Vec<char>) -> (r: Option<(usize, usize, usize, usize)>)
    ensures
        match r {
            Some((v, a, w, u)) => first_aria2_speed(s@, 0) == Some(
                (v as int, a as int, w as int, u as int),
            ) && v <= a <= w <= u <= s.len(),
            None => first_aria2_speed(s@, 0) is None,
        },
{
    let dl = chars_of("DL:");
    let mut p: usize = 0;
    while p < s.len()
        invariant
            p <= s.len(),
            dl@ == "DL:"@,
            first_aria2_speed(s@, 0) == first_aria2_speed(s@, p as int),
        decreases s.len() - p,
    {
        if let Some(m) = aria2_speed_at_exec(s, p, &dl) {
            return Some(m);
        }
        p += 1;
    }
    if let Some(m) = aria2_speed_at_exec(s, p, &dl) {
        return Some(m);
    }
    assert(first_aria2_speed(s@, p + 1) is None);
    None
}

fn group_end_exec(s: &Vec<char>, pos: usize, c: char) -> (r: usize)
    requires
        pos <= s.len(),
    ensures
        r as int == group_end(s@, pos as int, c),
        pos <= r <= s.len(),
{
    let d = scan_run(s, pos, CharClass::Digit);
    if d > pos && d < s.len() && s[d] == c {
        d + 1
    } else {
        pos
    }
}

/// Parse aria2c output line for progress info including speed and ETA
pub fn parse_aria2_progress(line: &str) -> (r: Option<Aria2Progress>)
    ensures
        match r {
            Some(p) => aria2_progress_spec(line@) == Some((p.percent@, p.speed@, p.eta@)),
            None => aria2_progress_spec(line@) is None,
        },
{
    let s = chars_of(line);
    let (a, b) = first_aria2_percent_exec(&s)?;
    let pct = slice_chars(&s, a, b);
    if !plain_decimal(&pct) {
        return None;
    }
    let speed = match first_aria2_speed_exec(&s) {
        Some((v, x, w, u)) => {
            let value = string_of(&slice_chars(&s, v, x));
            let unit = string_of(&slice_chars(&s, w, u));
            cat3(value.as_str(), unit.as_str(), "/s")
        },
        None => owned("-- B/s"),
    };
    let eta_lit = chars_of("ETA:");
    let eta = match find_chars(&s, &eta_lit, 0) {
        Some(i) => {
            proof {
                reveal_strlit("ETA:");
            }
            assert(s@.len() == s.len() && eta_lit@.len() == eta_lit.len());
            let start = i + eta_lit.len();
            let e = group_end_exec(&s, group_end_exec(&s, group_end_exec(&s, start, 'h'), 'm'), 's');
            if e > start {
                string_of(&slice_chars(&s, start, e))
            } else {
                owned("--:--")
            }
        },
        None => owned("--:--"),
    };
    Some(Aria2Progress { percent: string_of(&pct), speed, eta })
}

// ---------------------------------------------------------------------------
// ffmpeg progress lines: `out_time_ms=123456789` (microseconds)
// ---------------------------------------------------------------------------

/// The microseconds of an `out_time_ms=` line: the rest of the line,
/// trimmed, read as an `i64`.
pub open spec fn ffmpeg_progress_spec(s: Seq<char>) -> Option<int> {
    if has_sub_at(s, 0, "out_time_ms="@) {
        parse_i64_spec(trim(s.subrange("out_time_ms="@.len() as int, s.len() as int)))
    } else {
        None
    }
}

/// Parse FFmpeg progress output for out_time_ms, in microseconds.
pub fn parse_ffmpeg_progress_us(line: &str) -> (r: Option<i64>)
    ensures
        match r {
            Some(v) => ffmpeg_progress_spec(line@) == Some(v as int),
            None => ffmpeg_progress_spec(line@) is None,
        },
{
    let s = chars_of(line);
    let prefix = chars_of("out_time_ms=");
    if !sub_at(&s, 0, &prefix) {
        return None;
    }
    let rest = trim_chars(&slice_chars(&s, prefix.len(), s.len()));
    parse_i64(&rest)
}

} // verus!

verus! {

// ---------------------------------------------------------------------------
// Format selection and the plan of a download
// ---------------------------------------------------------------------------

/// The yt-dlp format selector for a quality name, already in lowercase.
pub open spec fn download_format_selector_spec(q: Seq<char>) -> Seq<char> {
    if q == "audio"@ || q == "mp3"@ {
        "bestaudio/best"@
    } else if q == "4k"@ {
        "bestvideo[height<=2160]+bestaudio/best[height<=2160]"@
    } else if q == "2k"@ {
        "bestvideo[height<=1440]+bestaudio/best[height<=1440]"@
    } else if q == "1080p"@ {
        "bestvideo[height<=1080]+bestaudio/best[height<=1080]"@
    } else if q == "720p"@ {
        "bestvideo[height<=720]+bestaudio/best[height<=720]"@
    } else {
        "bestvideo+bestaudio/best"@
    }
}

/// The format selector that the download pipeline passes to yt-dlp.
pub fn get_format_selector(quality: &str) -> (r: String)
    ensures
        r@ == download_format_selector_spec(lower_text(quality@)),
{
    let q = lowercase_chars(quality);
    if str_eq(&q, "audio") || str_eq(&q, "mp3") {
        owned("bestaudio/best")
    } else if str_eq(&q, "4k") {
        owned("bestvideo[height<=2160]+bestaudio/best[height<=2160]")
    } else if str_eq(&q, "2k") {
        owned("bestvideo[height<=1440]+bestaudio/best[height<=1440]")
    } else if str_eq(&q, "1080p") {
        owned("bestvideo[height<=1080]+bestaudio/best[height<=1080]")
    } else if str_eq(&q, "720p") {
        owned("bestvideo[height<=720]+bestaudio/best[height<=720]")
    } else {
        owned("bestvideo+bestaudio/best")
    }
}

/// The characters that `[<>:"/\\|?*]` matches in a file name.
pub open spec fn is_unsafe_file_char(c: char) -> bool {
    c == '<' || c == '>' || c == ':' || c == '"' || c == '/' || c == '\\' || c == '|' || c == '?'
        || c == '*'
}

pub open spec fn sanitize_spec(name: Seq<char>) -> Seq<char> {
    Seq::new(
        name.len(),
        |i: int|
            if is_unsafe_file_char(name[i]) {
                '_'
            } else {
                name[i]
            },
    )
}

/// The file name with every character that file systems refuse replaced by `_`.
pub fn sanitize_filename(name: &str) -> (r: String)
    ensures
        r@ == sanitize_spec(name@),
{
    let s = chars_of(name);
    let mut out: Vec<char> = Vec::new();
    let mut i: usize = 0;
    while i < s.len()
        invariant
            i <= s.len(),
            out@ == sanitize_spec(s@).subrange(0, i as int),
        decreases s.len() - i,
    {
        let c = s[i];
        if c == '<' || c == '>' || c == ':' || c == '"' || c == '/' || c == '\\' || c == '|' || c
            == '?' || c == '*' {
            out.push('_');
        } else {
            out.push(c);
        }
        i += 1;
        assert(out@ =~= sanitize_spec(s@).subrange(0, i as int));
    }
    assert(sanitize_spec(s@).subrange(0, s.len() as int) =~= sanitize_spec(s@));
    string_of(&out)
}

/// `Path::file_stem` of a name with no separator, with the name itself where
/// there is no stem (`..`, or a name with no dot but a leading one).
pub open spec fn stem_spec(name: Seq<char>) -> Seq<char> {
    if name == ".."@ {
        name
    } else {
        match last_index_of(name, '.') {
            None => name,
            Some(k) => if k == 0 {
                name
            } else {
                name.subrange(0, k)
            },
        }
    }
}

/// The name of the finished file: for a download that is merged, the stem
/// with `.mp4`; otherwise the safe name itself.
pub open spec fn final_filename_spec(safe: Seq<char>, merged: bool) -> Seq<char> {
    if merged {
        stem_spec(safe) + ".mp4"@
    } else {
        safe
    }
}

pub fn final_filename(safe_filename: &str, merged: bool) -> (r: String)
    ensures
        r@ == final_filename_spec(safe_filename@, merged),
{
    if !merged {
        return owned(safe_filename);
    }
    let s = chars_of(safe_filename);
    let stem = if str_eq(&s, "..") {
        s
    } else {
        match rfind_char(&s, '.') {
            None => s,
            Some(k) => if k == 0 {
                s
            } else {
                slice_chars(&s, 0, k)
            },
        }
    };
    let stem_text = string_of(&stem);
    cat(stem_text.as_str(), ".mp4")
}

pub open spec fn classify_stream_spec(vcodec: Seq<char>, acodec: Seq<char>) -> StreamType {
    if vcodec != "none"@ && (acodec == "none"@ || acodec.len() == 0) {
        StreamType::Video
    } else if (vcodec == "none"@ || vcodec.len() == 0) && acodec != "none"@ {
        StreamType::Audio
    } else {
        StreamType::Combined
    }
}

/// Determine stream type from codecs
pub fn classify_stream(vcodec: &str, acodec: &str) -> (r: StreamType)
    ensures
        r == classify_stream_spec(vcodec@, acodec@),
{
    let v = chars_of(vcodec);
    let a = chars_of(acodec);
    if !str_eq(&v, "none") && (str_eq(&a, "none") || a.len() == 0) {
        StreamType::Video
    } else if (str_eq(&v, "none") || v.len() == 0) && !str_eq(&a, "none") {
        StreamType::Audio
    } else {
        StreamType::Combined
    }
}

pub open spec fn temp_filename_spec(safe: Seq<char>, t: StreamType, ext: Seq<char>) -> Seq<char> {
    match t {
        StreamType::Video => safe + ".video."@ + ext,
        StreamType::Audio => safe + ".audio."@ + ext,
        StreamType::Combined => safe + ".combined."@ + ext,
    }
}

/// Create descriptive temp filename
pub fn temp_filename(safe_filename: &str, t: StreamType, ext: &str) -> (r: String)
    ensures
        r@ == temp_filename_spec(safe_filename@, t, ext@),
{
    match t {
        StreamType::Video => cat3(safe_filename, ".video.", ext),
        StreamType::Audio => cat3(safe_filename, ".audio.", ext),
        StreamType::Combined => cat3(safe_filename, ".combined.", ext),
    }
}

/// One stream that yt-dlp selected: where it is and what it holds.
#[derive(Debug, Clone)]
pub struct FormatChoice {
    pub url: String,
    pub ext: String,
    pub vcodec: String,
    pub acodec: String,
}

/// One file to fetch: from `url` into `temp_filename` in the output folder.
#[derive(Debug, Clone)]
pub struct StreamTask {
    pub url: String,
    pub temp_filename: String,
    pub stream_type: StreamType,
}

/// What the metadata says of the streams: the separate streams to merge, or
/// the one combined stream.
pub open spec fn stream_tasks_ok(
    safe: Seq<char>,
    requested: Option<Seq<FormatChoice>>,
    url: Option<Seq<char>>,
    ext: Option<Seq<char>>,
    tasks: Seq<StreamTask>,
) -> bool {
    match requested {
        Some(fmts) => tasks.len() == fmts.len() && forall|i: int|
            0 <= i < fmts.len() ==> {
                let t = classify_stream_spec(#[trigger] fmts[i].vcodec@, fmts[i].acodec@);
                &&& tasks[i].url@ == fmts[i].url@
                &&& tasks[i].stream_type == t
                &&& tasks[i].temp_filename@ == temp_filename_spec(safe, t, fmts[i].ext@)
            },
        None => url is Some && tasks.len() == 1 && tasks[0].url@ == url->0 && tasks[0].stream_type
            == StreamType::Combined && tasks[0].temp_filename@ == temp_filename_spec(
            safe,
            StreamType::Combined,
            match ext {
                Some(e) => e,
                None => "mp4"@,
            },
        ),
    }
}

/// The files a download fetches: one per requested format, or the single
/// combined stream, which must have a URL.
pub fn plan_streams(
    safe_filename: &str,
    requested: Option<Vec<FormatChoice>>,
    url: Option<String>,
    ext: Option<String>,
) -> (r: Result<Vec<StreamTask>, DownloadError>)
    ensures
        match r {
            Ok(tasks) => stream_tasks_ok(
                safe_filename@,
                match requested {
                    Some(v) => Some(v@),
                    None => None,
                },
                match url {
                    Some(u) => Some(u@),
                    None => None,
                },
                match ext {
                    Some(e) => Some(e@),
                    None => None,
                },
                tasks@,
            ),
            Err(e) => requested is None && url is None && (e matches DownloadError::YtDlpError(m)
                && m@ == "No URL found"@),
        },
{
    match requested {
        Some(fmts) => {
            let mut tasks: Vec<StreamTask> = Vec::new();
            let mut i: usize = 0;
            while i < fmts.len()
                invariant
                    i <= fmts.len(),
                    tasks.len() == i,
                    forall|j: int|
                        0 <= j < i ==> {
                            let t = classify_stream_spec(#[trigger] fmts@[j].vcodec@, fmts@[j].acodec@);
                            &&& tasks@[j].url@ == fmts@[j].url@
                            &&& tasks@[j].stream_type == t
                            &&& tasks@[j].temp_filename@ == temp_filename_spec(
                                safe_filename@,
                                t,
                                fmts@[j].ext@,
                            )
                        },
                decreases fmts.len() - i,
            {
                let f = &fmts[i];
                let t = classify_stream(f.vcodec.as_str(), f.acodec.as_str());
                let name = temp_filename(safe_filename, t, f.ext.as_str());
                tasks.push(StreamTask { url: f.url.clone(), temp_filename: name, stream_type: t });
                i += 1;
            }
            Ok(tasks)
        },
        None => match url {
            None => Err(DownloadError::YtDlpError(owned("No URL found"))),
            Some(u) => {
                let e = match ext {
                    Some(e) => e,
                    None => owned("mp4"),
                };
                let name = temp_filename(safe_filename, StreamType::Combined, e.as_str());
                let mut tasks: Vec<StreamTask> = Vec::new();
                tasks.push(StreamTask { url: u, temp_filename: name, stream_type: StreamType::Combined });
                Ok(tasks)
            },
        },
    }
}

/// Which of two downloaded files goes to ffmpeg as video and which as audio:
/// the first when it is the video stream, else the second.
pub fn merge_order(first: StreamType) -> (r: (usize, usize))
    ensures
        r == (if first == StreamType::Video {
            (0usize, 1usize)
        } else {
            (1usize, 0usize)
        }),
{
    if first == StreamType::Video {
        (0, 1)
    } else {
        (1, 0)
    }
}

/// The `--header=` arguments for aria2c: one per header whose value is a
/// string, in order.
pub open spec fn header_args_spec(headers: Seq<(String, Option<String>)>) -> Seq<Seq<char>>
    decreases headers.len(),
{
    if headers.len() == 0 {
        seq![]
    } else {
        let rest = header_args_spec(headers.drop_last());
        match headers.last().1 {
            Some(v) => rest.push("--header="@ + headers.last().0@ + ": "@ + v@),
            None => rest,
        }
    }
}

pub fn aria2_header_args(headers: &Vec<(String, Option<String>)>) -> (r: Vec<String>)
    ensures
        r@.len() == header_args_spec(headers@).len(),
        forall|i: int| 0 <= i < r@.len() ==> #[trigger] r@[i]@ == header_args_spec(headers@)[i],
{
    let mut r: Vec<String> = Vec::new();
    let mut i: usize = 0;
    while i < headers.len()
        invariant
            i <= headers.len(),
            r@.len() == header_args_spec(headers@.subrange(0, i as int)).len(),
            forall|j: int| 0 <= j < r@.len() ==> #[trigger] r@[j]@ == header_args_spec(
                headers@.subrange(0, i as int),
            )[j],
        decreases headers.len() - i,
    {
        let ghost pre = headers@.subrange(0, i as int);
        assert(headers@.subrange(0, i + 1).drop_last() =~= pre);
        match &headers[i].1 {
            Some(v) => {
                let mut a = cat("--header=", headers[i].0.as_str());
                push_str(&mut a, ": ");
                push_str(&mut a, v.as_str());
                r.push(a);
            },
            None => {},
        }
        i += 1;
    }
    assert(headers@.subrange(0, headers.len() as int) =~= headers@);
    r
}

/// What a watched process loop does after one look at the process.
#[derive(Debug, Clone, Copy, PartialEq, Eq, Structural)]
pub enum ProcessStep {
    /// Kill the process and stop with `DownloadError::Cancelled`.
    Cancel,
    /// The process ended well.
    Finished,
    /// The process ended with a failure.
    Failed,
    /// Wait and look again.
    Wait,
}

/// Cancellation is checked first, then whether the process has exited
/// (`Some(success)`) or still runs (`None`).
pub fn process_step(cancel_requested: bool, exited: Option<bool>) -> (r: ProcessStep)
    ensures
        r == (if cancel_requested {
            ProcessStep::Cancel
        } else {
            match exited {
                Some(true) => ProcessStep::Finished,
                Some(false) => ProcessStep::Failed,
                None => ProcessStep::Wait,
            }
        }),
{
    if cancel_requested {
        ProcessStep::Cancel
    } else {
        match exited {
            Some(true) => ProcessStep::Finished,
            Some(false) => ProcessStep::Failed,
            None => ProcessStep::Wait,
        }
    }
}

/// The error of an aria2c run that exited with a failure.
pub fn aria2_failed() -> (e: DownloadError)
    ensures
        e matches DownloadError::Aria2Error(m) && m@ == "Process failed"@,
{
    DownloadError::Aria2Error(owned("Process failed"))
}

/// The error of an ffmpeg merge that exited with a failure, with what it wrote.
pub fn merge_failed(stderr: &str) -> (e: DownloadError)
    ensures
        e matches DownloadError::FFmpegError(m) && m@ == "Merge failed: "@ + stderr@,
{
    DownloadError::FFmpegError(cat("Merge failed: ", stderr))
}


/// Law: a sanitized name has the same length, no character that file
/// systems refuse, and sanitizing it again changes nothing.
pub proof fn lemma_sanitize_safe(name: Seq<char>)
    ensures
        sanitize_spec(name).len() == name.len(),
        forall|i: int| 0 <= i < name.len() ==> !is_unsafe_file_char(#[trigger] sanitize_spec(name)[i]),
        sanitize_spec(sanitize_spec(name)) == sanitize_spec(name),
{
    assert(sanitize_spec(sanitize_spec(name)) =~= sanitize_spec(name));
}

/// Law: a merged download always ends up as an `.mp4` file.
pub proof fn lemma_merged_is_mp4(safe: Seq<char>)
    ensures
        final_filename_spec(safe, true).len() >= 4,
        final_filename_spec(safe, true).subrange(
            final_filename_spec(safe, true).len() - 4,
            final_filename_spec(safe, true).len() as int,
        ) == ".mp4"@,
{
    let f = final_filename_spec(safe, true);
    reveal_strlit(".mp4");
    assert(f.subrange(f.len() - 4, f.len() as int) =~= ".mp4"@);
}

/// Law: the streams of one download never share a temporary file: the
/// names of different kinds of streams differ.
pub proof fn lemma_temp_names_differ(safe: Seq<char>, t1: StreamType, e1: Seq<char>, t2: StreamType, e2: Seq<char>)
    requires
        t1 != t2,
    ensures
        temp_filename_spec(safe, t1, e1) != temp_filename_spec(safe, t2, e2),
{
    reveal_strlit(".video.");
    reveal_strlit(".audio.");
    reveal_strlit(".combined.");
    let a = temp_filename_spec(safe, t1, e1);
    let b = temp_filename_spec(safe, t2, e2);
    let n = safe.len() as int;
    assert(a[n + 1] != b[n + 1]);
}


/// aria2c's arguments to fetch `url` into `dir/name` with eight
/// connections, resuming, then one `--header` per header.
pub fn aria2_args(url: &str, name: &str, dir: &str, headers: &Vec<(String, Option<String>)>) -> (r: Vec<String>)
    ensures
        views(r@) == seq![
            url@, "-o"@, name@, "-d"@, dir@, "-c"@, "--file-allocation=none"@,
            "--summary-interval=1"@, "--max-connection-per-server=8"@, "--split=8"@,
        ] + header_args_spec(headers@),
{
    let mut r: Vec<String> = Vec::new();
    push_arg(&mut r, url);
    push_arg(&mut r, "-o");
    push_arg(&mut r, name);
    push_arg(&mut r, "-d");
    push_arg(&mut r, dir);
    push_arg(&mut r, "-c");
    push_arg(&mut r, "--file-allocation=none");
    push_arg(&mut r, "--summary-interval=1");
    push_arg(&mut r, "--max-connection-per-server=8");
    push_arg(&mut r, "--split=8");
    let ghost head = views(r@);
    let h = aria2_header_args(headers);
    let mut i: usize = 0;
    while i < h.len()
        invariant
            i <= h.len(),
            views(r@) == head + views(h@).take(i as int),
        decreases h.len() - i,
    {
        let ghost before = r@;
        r.push(h[i].clone());
        assert(views(h@).take(i + 1) =~= views(h@).take(i as int).push(h@[i as int]@));
        assert(views(r@) =~= views(before).push(h@[i as int]@));
        i += 1;
    }
    assert(views(h@) =~= header_args_spec(headers@));
    assert(views(h@).take(h.len() as int) =~= views(h@));
    r
}

/// ffmpeg's arguments to merge a video and an audio file into `output`
/// without re-encoding, reporting progress on its standard output.
pub fn merge_args(video: &str, audio: &str, output: &str) -> (r: Vec<String>)
    ensures
        views(r@) == seq![
            "-i"@, video@, "-i"@, audio@, "-c"@, "copy"@, "-y"@, "-progress"@, "pipe:1"@,
            "-nostats"@, output@,
        ],
{
    let mut r: Vec<String> = Vec::new();
    push_arg(&mut r, "-i");
    push_arg(&mut r, video);
    push_arg(&mut r, "-i");
    push_arg(&mut r, audio);
    push_arg(&mut r, "-c");
    push_arg(&mut r, "copy");
    push_arg(&mut r, "-y");
    push_arg(&mut r, "-progress");
    push_arg(&mut r, "pipe:1");
    push_arg(&mut r, "-nostats");
    push_arg(&mut r, output);
    assert(views(r@) =~= seq![
        "-i"@, video@, "-i"@, audio@, "-c"@, "copy"@, "-y"@, "-progress"@, "pipe:1"@,
        "-nostats"@, output@,
    ]);
    r
}

/// aria2c's arguments to fetch an app update into `dir/name`.
pub fn update_download_args(url: &str, dir: &str, name: &str) -> (r: Vec<String>)
    ensures
        views(r@) == seq![
            url@, "-d"@, dir@, "-o"@, name@, "-c"@, "--file-allocation=none"@,
            "--summary-interval=1"@, "--max-connection-per-server=16"@, "--split=16"@,
            "--min-split-size=1M"@,
        ],
{
    let mut r: Vec<String> = Vec::new();
    push_arg(&mut r, url);
    push_arg(&mut r, "-d");
    push_arg(&mut r, dir);
    push_arg(&mut r, "-o");
    push_arg(&mut r, name);
    push_arg(&mut r, "-c");
    push_arg(&mut r, "--file-allocation=none");
    push_arg(&mut r, "--summary-interval=1");
    push_arg(&mut r, "--max-connection-per-server=16");
    push_arg(&mut r, "--split=16");
    push_arg(&mut r, "--min-split-size=1M");
    assert(views(r@) =~= seq![
        url@, "-d"@, dir@, "-o"@, name@, "-c"@, "--file-allocation=none"@,
        "--summary-interval=1"@, "--max-connection-per-server=16"@, "--split=16"@,
        "--min-split-size=1M"@,
    ]);
    r
}


/// The outcome of two streams fetched together: success when both
/// succeeded, else the first stream's error, else the second's.
pub fn joint_outcome(first: Result<(), DownloadError>, second: Result<(), DownloadError>) -> (r: Result<(), DownloadError>)
    ensures
        match (first, second) {
            (Ok(_), Ok(_)) => r is Ok,
            (Err(e), _) => r == Err::<(), DownloadError>(e),
            (Ok(_), Err(e)) => r == Err::<(), DownloadError>(e),
        },
{
    match (first, second) {
        (Ok(_), Ok(_)) => Ok(()),
        (Err(e), _) => Err(e),
        (Ok(_), Err(e)) => Err(e),
    }
}


/// Law: a download at a quality that names a height is capped at that
/// height, best video and best audio together or the best single file:
/// 720p at 720, 1080p at 1080, 2k at 1440, 4k at 2160, in any case of
/// letters.
pub proof fn lemma_download_selector_caps_height(quality: Seq<char>, name: Seq<char>, height: Seq<char>)
    requires
        (name == "720p"@ && height == "720"@) || (name == "1080p"@ && height == "1080"@) || (name
            == "2k"@ && height == "1440"@) || (name == "4k"@ && height == "2160"@),
        lower_text(quality) == name,
    ensures
        download_format_selector_spec(lower_text(quality)) == "bestvideo[height<="@ + height
            + "]+bestaudio/best[height<="@ + height + "]"@,
{
    reveal_strlit("audio");
    reveal_strlit("mp3");
    reveal_strlit("4k");
    reveal_strlit("2k");
    reveal_strlit("1080p");
    reveal_strlit("720p");
    reveal_strlit("720");
    reveal_strlit("1080");
    reveal_strlit("1440");
    reveal_strlit("2160");
    reveal_strlit("bestvideo[height<=");
    reveal_strlit("]+bestaudio/best[height<=");
    reveal_strlit("]");
    reveal_strlit("bestvideo[height<=2160]+bestaudio/best[height<=2160]");
    reveal_strlit("bestvideo[height<=1440]+bestaudio/best[height<=1440]");
    reveal_strlit("bestvideo[height<=1080]+bestaudio/best[height<=1080]");
    reveal_strlit("bestvideo[height<=720]+bestaudio/best[height<=720]");
    let r = "bestvideo[height<="@ + height + "]+bestaudio/best[height<="@ + height + "]"@;
    assert("4k"@[0] != "2k"@[0]);
    assert("720p"@.len() == 4 && "1080p"@.len() == 5 && "2k"@.len() == 2 && "4k"@.len() == 2);
    if name == "720p"@ {
        assert(height == "720"@);
        assert("720p"@ != "audio"@ && "720p"@ != "mp3"@ && "720p"@ != "4k"@ && "720p"@ != "2k"@ && "720p"@ != "1080p"@);
        assert(download_format_selector_spec("720p"@) == "bestvideo[height<=720]+bestaudio/best[height<=720]"@);
        assert(r =~= "bestvideo[height<=720]+bestaudio/best[height<=720]"@);
    } else if name == "1080p"@ {
        assert(height == "1080"@);
        assert("1080p"@[0] != "audio"@[0]);
        assert(download_format_selector_spec("1080p"@) == "bestvideo[height<=1080]+bestaudio/best[height<=1080]"@);
        assert(r =~= "bestvideo[height<=1080]+bestaudio/best[height<=1080]"@);
    } else if name == "2k"@ {
        assert(height == "1440"@);
        assert(download_format_selector_spec("2k"@) == "bestvideo[height<=1440]+bestaudio/best[height<=1440]"@);
        assert(r =~= "bestvideo[height<=1440]+bestaudio/best[height<=1440]"@);
    } else {
        assert(name == "4k"@ && height == "2160"@);
        assert(download_format_selector_spec("4k"@) == "bestvideo[height<=2160]+bestaudio/best[height<=2160]"@);
        assert(r =~= "bestvideo[height<=2160]+bestaudio/best[height<=2160]"@);
    }
}


pub open spec fn all_decimal_digits(d: Seq<char>) -> bool {
    forall|i: int| 0 <= i < d.len() ==> is_decimal_digit(#[trigger] d[i])
}

/// At `pos` stand the digits `d` and then `c`, which is no digit: the group
/// `(?:\d+c)?` takes them, and a group for any other letter takes nothing.
proof fn lemma_digit_group(s: Seq<char>, pos: int, d: Seq<char>, c: char)
    requires
        0 <= pos,
        d.len() > 0,
        pos + d.len() < s.len(),
        s.subrange(pos, pos + d.len()) == d,
        s[pos + d.len()] == c,
        all_decimal_digits(d),
        !is_decimal_digit(c),
    ensures
        run_end(s, pos, CharClass::Digit) == pos + d.len(),
        group_end(s, pos, c) == pos + d.len() + 1,
        forall|c2: char| c2 != c ==> group_end(s, pos, c2) == pos,
{
    assert forall|t: int| pos <= t < pos + d.len() implies in_class(CharClass::Digit, #[trigger] s[t]) by {
        assert(s[t] == s.subrange(pos, pos + d.len())[t - pos]);
    }
    lemma_run_end_at(s, pos, CharClass::Digit, pos + d.len());
}

/// The first `ETA:` of `s` is at `i`.
proof fn lemma_first_eta(s: Seq<char>, i: int)
    requires
        0 <= i,
        i + 4 <= s.len(),
        s.subrange(i, i + 4) == "ETA:"@,
        forall|j: int| 0 <= j < i ==> !has_sub_at(s, j, "ETA:"@),
    ensures
        find_sub(s, "ETA:"@, 0) == Some(i),
{
    reveal_strlit("ETA:");
    lemma_find_sub_first(s, "ETA:"@, 0, i);
}

/// Law: when the first `ETA:` of an aria2c line is followed by hours,
/// minutes and seconds (`1h15m3s`), the ETA is all of them.
pub proof fn lemma_aria2_eta_hours_minutes_seconds(
    pre: Seq<char>,
    h: Seq<char>,
    m: Seq<char>,
    sec: Seq<char>,
    rest: Seq<char>,
)
    requires
        h.len() > 0 && m.len() > 0 && sec.len() > 0,
        all_decimal_digits(h) && all_decimal_digits(m) && all_decimal_digits(sec),
        forall|j: int| 0 <= j < pre.len() ==> !has_sub_at(
            pre + "ETA:"@ + h + seq!['h'] + m + seq!['m'] + sec + seq!['s'] + rest,
            j,
            "ETA:"@,
        ),
    ensures
        aria2_eta_text(pre + "ETA:"@ + h + seq!['h'] + m + seq!['m'] + sec + seq!['s'] + rest) == h
            + seq!['h'] + m + seq!['m'] + sec + seq!['s'],
{
    reveal_strlit("ETA:");
    let s = pre + "ETA:"@ + h + seq!['h'] + m + seq!['m'] + sec + seq!['s'] + rest;
    let p0: int = pre.len() as int + 4;
    let p1: int = p0 + h.len() + 1;
    let p2: int = p1 + m.len() + 1;
    let p3: int = p2 + sec.len() + 1;
    assert(s.subrange(pre.len() as int, p0) =~= "ETA:"@);
    lemma_first_eta(s, pre.len() as int);
    assert(s.subrange(p0, p0 + h.len()) =~= h);
    assert(s[p0 + h.len()] == 'h');
    lemma_digit_group(s, p0, h, 'h');
    assert(s.subrange(p1, p1 + m.len()) =~= m);
    assert(s[p1 + m.len()] == 'm');
    lemma_digit_group(s, p1, m, 'm');
    assert(s.subrange(p2, p2 + sec.len()) =~= sec);
    assert(s[p2 + sec.len()] == 's');
    lemma_digit_group(s, p2, sec, 's');
    assert(eta_groups_end(s, p0) == p3);
    assert(s.subrange(p0, p3) =~= h + seq!['h'] + m + seq!['m'] + sec + seq!['s']);
}


/// Law: when the first `ETA:` of an aria2c line is followed by hours
/// (`1h`), the ETA starts with those hours, whatever follows them.
pub proof fn lemma_aria2_eta_keeps_hours(pre: Seq<char>, h: Seq<char>, rest: Seq<char>)
    requires
        h.len() > 0,
        all_decimal_digits(h),
        forall|j: int| 0 <= j < pre.len() ==> !has_sub_at(pre + "ETA:"@ + h + seq!['h'] + rest, j, "ETA:"@),
    ensures
        aria2_eta_text(pre + "ETA:"@ + h + seq!['h'] + rest).len() >= h.len() + 1,
        aria2_eta_text(pre + "ETA:"@ + h + seq!['h'] + rest).subrange(0, h.len() as int + 1) == h + seq!['h'],
{
    reveal_strlit("ETA:");
    let s = pre + "ETA:"@ + h + seq!['h'] + rest;
    let p0: int = pre.len() as int + 4;
    let p1: int = p0 + h.len() + 1;
    assert(s.subrange(pre.len() as int, p0) =~= "ETA:"@);
    lemma_first_eta(s, pre.len() as int);
    assert(s.subrange(p0, p0 + h.len()) =~= h);
    assert(s[p0 + h.len()] == 'h');
    lemma_digit_group(s, p0, h, 'h');
    let e = eta_groups_end(s, p0);
    assert(p1 <= e <= s.len());
    assert(s.subrange(p0, e).subrange(0, h.len() as int + 1) =~= h + seq!['h']);
}

/// Law: when the first `ETA:` of an aria2c line is followed by minutes and
/// seconds (`15m3s`), the ETA is both.
pub proof fn lemma_aria2_eta_minutes_seconds(pre: Seq<char>, m: Seq<char>, sec: Seq<char>, rest: Seq<char>)
    requires
        m.len() > 0 && sec.len() > 0,
        all_decimal_digits(m) && all_decimal_digits(sec),
        forall|j: int| 0 <= j < pre.len() ==> !has_sub_at(
            pre + "ETA:"@ + m + seq!['m'] + sec + seq!['s'] + rest,
            j,
            "ETA:"@,
        ),
    ensures
        aria2_eta_text(pre + "ETA:"@ + m + seq!['m'] + sec + seq!['s'] + rest) == m + seq!['m'] + sec
            + seq!['s'],
{
    reveal_strlit("ETA:");
    let s = pre + "ETA:"@ + m + seq!['m'] + sec + seq!['s'] + rest;
    let p0: int = pre.len() as int + 4;
    let p1: int = p0 + m.len() + 1;
    let p2: int = p1 + sec.len() + 1;
    assert(s.subrange(pre.len() as int, p0) =~= "ETA:"@);
    lemma_first_eta(s, pre.len() as int);
    assert(s.subrange(p0, p0 + m.len()) =~= m);
    assert(s[p0 + m.len()] == 'm');
    lemma_digit_group(s, p0, m, 'm');
    assert(s.subrange(p1, p1 + sec.len()) =~= sec);
    assert(s[p1 + sec.len()] == 's');
    lemma_digit_group(s, p1, sec, 's');
    assert(group_end(s, p0, 'h') == p0);
    assert(eta_groups_end(s, p0) == p2);
    assert(s.subrange(p0, p2) =~= m + seq!['m'] + sec + seq!['s']);
}

/// Law: when the first `ETA:` of an aria2c line is followed by seconds
/// alone (`42s`), the ETA is those seconds.
pub proof fn lemma_aria2_eta_seconds(pre: Seq<char>, sec: Seq<char>, rest: Seq<char>)
    requires
        sec.len() > 0,
        all_decimal_digits(sec),
        forall|j: int| 0 <= j < pre.len() ==> !has_sub_at(pre + "ETA:"@ + sec + seq!['s'] + rest, j, "ETA:"@),
    ensures
        aria2_eta_text(pre + "ETA:"@ + sec + seq!['s'] + rest) == sec + seq!['s'],
{
    reveal_strlit("ETA:");
    let s = pre + "ETA:"@ + sec + seq!['s'] + rest;
    let p0: int = pre.len() as int + 4;
    let p1: int = p0 + sec.len() + 1;
    assert(s.subrange(pre.len() as int, p0) =~= "ETA:"@);
    lemma_first_eta(s, pre.len() as int);
    assert(s.subrange(p0, p0 + sec.len()) =~= sec);
    assert(s[p0 + sec.len()] == 's');
    lemma_digit_group(s, p0, sec, 's');
    assert(group_end(s, p0, 'h') == p0);
    assert(group_end(s, p0, 'm') == p0);
    assert(eta_groups_end(s, p0) == p1);
    assert(s.subrange(p0, p1) =~= sec + seq!['s']);
}

/// Law: when no digit follows the first `ETA:` of an aria2c line, or there
/// is no `ETA:` at all, the ETA reads `--:--`.
pub proof fn lemma_aria2_eta_unknown(pre: Seq<char>, rest: Seq<char>, line: Seq<char>)
    requires
        rest.len() == 0 || !is_decimal_digit(rest[0]),
        forall|j: int| 0 <= j < pre.len() ==> !has_sub_at(pre + "ETA:"@ + rest, j, "ETA:"@),
    ensures
        aria2_eta_text(pre + "ETA:"@ + rest) == "--:--"@,
        (forall|j: int| !has_sub_at(line, j, "ETA:"@)) ==> aria2_eta_text(line) == "--:--"@,
{
    reveal_strlit("ETA:");
    let s = pre + "ETA:"@ + rest;
    let p0: int = pre.len() as int + 4;
    assert(s.subrange(pre.len() as int, p0) =~= "ETA:"@);
    lemma_first_eta(s, pre.len() as int);
    if rest.len() > 0 {
        assert(s[p0] == rest[0]);
    }
    lemma_run_end_at(s, p0, CharClass::Digit, p0);
    assert(eta_groups_end(s, p0) == p0);
    if forall|j: int| !has_sub_at(line, j, "ETA:"@) {
        lemma_find_sub_found(line, "ETA:"@, 0);
    }
}


proof fn lemma_first_speed_at(s: Seq<char>, p: int, k: int)
    requires
        0 <= p <= k <= s.len(),
        forall|j: int| p <= j < k ==> aria2_speed_at(s, j) is None,
        aria2_speed_at(s, k) is Some,
    ensures
        first_aria2_speed(s, p) == aria2_speed_at(s, k),
    decreases k - p,
{
    if p < k {
        lemma_first_speed_at(s, p + 1, k);
    }
}

proof fn lemma_first_percent_at(s: Seq<char>, p: int, k: int)
    requires
        0 <= p <= k <= s.len(),
        forall|j: int| p <= j < k ==> aria2_percent_at(s, j) is None,
        aria2_percent_at(s, k) is Some,
    ensures
        first_aria2_percent(s, p) == Some((k + 1, aria2_percent_at(s, k).unwrap())),
    decreases k - p,
{
    if p < k {
        lemma_first_percent_at(s, p + 1, k);
    }
}

/// Law: the speed of an aria2c line is the number after its first `DL:`
/// with its unit (KiB, MiB, GiB, KB, MB or GB, spaces between dropped),
/// then `/s`.
pub proof fn lemma_aria2_speed(pre: Seq<char>, v: Seq<char>, sp: Seq<char>, unit: Seq<char>, rest: Seq<char>)
    requires
        forall|j: int| 0 <= j < pre.len() ==> !has_sub_at(pre + "DL:"@ + v + sp + unit + rest, j, "DL:"@),
        v.len() > 0,
        forall|i: int| 0 <= i < v.len() ==> is_decimal_digit(#[trigger] v[i]) || v[i] == '.',
        forall|i: int| 0 <= i < sp.len() ==> is_white_space(#[trigger] sp[i]),
        unit == "KiB"@ || unit == "MiB"@ || unit == "GiB"@ || unit == "KB"@ || unit == "MB"@ || unit
            == "GB"@,
    ensures
        aria2_speed_text(pre + "DL:"@ + v + sp + unit + rest) == v + unit + "/s"@,
{
    reveal_strlit("DL:");
    reveal_strlit("KiB");
    reveal_strlit("MiB");
    reveal_strlit("GiB");
    reveal_strlit("KB");
    reveal_strlit("MB");
    reveal_strlit("GB");
    let s = pre + "DL:"@ + v + sp + unit + rest;
    let d: int = pre.len() as int + 3;
    let a: int = d + v.len();
    let w: int = a + sp.len();
    let u: int = w + unit.len();
    assert(unit.len() >= 2 && (unit[0] == 'K' || unit[0] == 'M' || unit[0] == 'G'));
    assert forall|j: int| 0 <= j < pre.len() implies aria2_speed_at(s, j) is None by {
        assert(!has_sub_at(s, j, "DL:"@));
    }
    assert(s.subrange(pre.len() as int, d) =~= "DL:"@);
    assert forall|t: int| d <= t < a implies in_class(CharClass::DigitOrDot, #[trigger] s[t]) by {
        assert(s[t] == v[t - d]);
    }
    assert(s[w] == unit[0]);
    if sp.len() > 0 {
        assert(s[a] == sp[0]);
    }
    lemma_run_end_at(s, d, CharClass::DigitOrDot, a);
    assert forall|t: int| a <= t < w implies in_class(CharClass::Space, #[trigger] s[t]) by {
        assert(s[t] == sp[t - a]);
    }
    lemma_run_end_at(s, a, CharClass::Space, w);
    assert(s[w + 1] == unit[1]);
    if unit.len() == 3 {
        assert(s[w + 2] == unit[2]);
    }
    assert(unit_end(s, w) == Some(u));
    assert(aria2_speed_at(s, pre.len() as int) == Some((d, a, w, u)));
    lemma_first_speed_at(s, 0, pre.len() as int);
    assert(s.subrange(d, a) =~= v);
    assert(s.subrange(w, u) =~= unit);
}

/// Law: the percentage of an aria2c line is the number in its first
/// `(N%)`; the line reads as progress exactly when that number is a plain
/// decimal, and then the percentage is that number as written.
pub proof fn lemma_aria2_percent(pre: Seq<char>, n: Seq<char>, rest: Seq<char>)
    requires
        forall|j: int| 0 <= j < pre.len() ==> pre[j] != '(',
        n.len() > 0,
        forall|i: int| 0 <= i < n.len() ==> is_decimal_digit(#[trigger] n[i]) || n[i] == '.',
    ensures
        (aria2_progress_spec(pre + seq!['('] + n + seq!['%', ')'] + rest) is Some) == is_plain_decimal(n),
        aria2_progress_spec(pre + seq!['('] + n + seq!['%', ')'] + rest) matches Some(r) ==> r.0 == n,
{
    let s = pre + seq!['('] + n + seq!['%', ')'] + rest;
    let k: int = pre.len() as int;
    let a: int = k + 1 + n.len();
    assert forall|j: int| 0 <= j < k implies aria2_percent_at(s, j) is None by {
        assert(s[j] == pre[j]);
    }
    assert forall|t: int| k + 1 <= t < a implies in_class(CharClass::DigitOrDot, #[trigger] s[t]) by {
        assert(s[t] == n[t - k - 1]);
    }
    assert(s[a] == '%' && s[a + 1] == ')');
    lemma_run_end_at(s, k + 1, CharClass::DigitOrDot, a);
    assert(aria2_percent_at(s, k) == Some(a));
    lemma_first_percent_at(s, 0, k);
    assert(s.subrange(k + 1, a) =~= n);
}


/// Law: a download of audio (`audio` or `mp3`, in any case of letters) asks
/// for the best audio; a quality name that names no known height asks for
/// the best video and audio without a cap.
pub proof fn lemma_download_selector_uncapped(quality: Seq<char>)
    ensures
        lower_text(quality) == "audio"@ || lower_text(quality) == "mp3"@ ==> download_format_selector_spec(
            lower_text(quality),
        ) == "bestaudio/best"@,
        lower_text(quality) != "audio"@ && lower_text(quality) != "mp3"@ && lower_text(quality)
            != "720p"@ && lower_text(quality) != "1080p"@ && lower_text(quality) != "2k"@
            && lower_text(quality) != "4k"@ ==> download_format_selector_spec(lower_text(quality))
            == "bestvideo+bestaudio/best"@,
{
}

} // verus!
