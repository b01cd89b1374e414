//! Updates of the app and of yt-dlp: what the release feed says, whether it
//! is newer, and how the update runs are reported.
use vstd::prelude::*;
use crate::json::{JsonValue, at, str_or};
use crate::numtext::{all_ascii_digits, digits_value, lemma_digits_value_nonneg};
use crate::text::{
    CharClass, run_end, scan_run, chars_of, owned, has_str, contains_seq, trim, trim_chars,
    string_of, slice_chars, push_str, lemma_run_end_bounds, in_class,
};
use crate::ytdlp::ProcessOutput;
use crate::state::{DownloadManager, DownloadState};

verus! {

/// What the release feed says of the latest version of the app.
#[derive(Debug, Clone)]
pub struct AppUpdateInfo {
    pub version: String,
    pub notes: String,
    pub download_url: String,
    pub current_version: String,
    pub update_available: bool,
}

/// Progress of the download of an update. `percent` is a numeral.
#[derive(Debug, Clone)]
pub struct AppUpdateProgress {
    pub percent: String,
    pub downloaded_bytes: u64,
    pub total_bytes: u64,
    pub status: String,
}

/// The version the feed names, `0.0.0` when it names none.
pub open spec fn feed_version(json: JsonValue) -> Seq<char> {
    str_or(json, "version"@, "0.0.0"@)
}

/// The Windows installer that the feed names, or empty.
pub open spec fn feed_download_url(json: JsonValue) -> Seq<char> {
    str_or(at(at(json, "platforms"@), "windows-x86_64"@), "url"@, ""@)
}

/// The cap on the value of one component of a version: 2^64. Components at
/// or above it compare equal to each other.
pub open spec fn version_component_cap() -> int {
    0x1_0000_0000_0000_0000
}

/// The value of the component of `s` that starts at `i`: the number that its
/// leading ASCII digits spell (0 where there are none), capped; 0 once the
/// components are exhausted (`i` past the end).
pub open spec fn component_value(s: Seq<char>, i: int) -> int {
    if 0 <= i <= s.len() {
        let v = digits_value(s.subrange(i, run_end(s, i, CharClass::AsciiDigit)));
        if v < version_component_cap() {
            v
        } else {
            version_component_cap()
        }
    } else {
        0
    }
}

/// Where the component after the one at `i` starts: just past the next dot.
/// Past the end when there is no further dot, and then it stays there.
pub open spec fn next_component(s: Seq<char>, i: int) -> int {
    if 0 <= i <= s.len() {
        run_end(s, i, CharClass::NotDot) + 1
    } else {
        i
    }
}

/// What remains to be read of `s` from component position `i`.
pub open spec fn components_left(s: Seq<char>, i: int) -> nat {
    if 0 <= i <= s.len() {
        (s.len() + 1 - i) as nat
    } else {
        0
    }
}

/// The version order from component positions `i` and `j`: the first pair of
/// components that differ decides; a missing component counts as 0.
pub open spec fn version_lt_from(a: Seq<char>, i: int, b: Seq<char>, j: int) -> bool
    decreases components_left(a, i) + components_left(b, j),
{
    if components_left(a, i) == 0 && components_left(b, j) == 0 {
        false
    } else if component_value(a, i) != component_value(b, j) {
        component_value(a, i) < component_value(b, j)
    } else {
        proof {
            if 0 <= i <= a.len() {
                lemma_run_end_bounds(a, i, CharClass::NotDot);
            }
            if 0 <= j <= b.len() {
                lemma_run_end_bounds(b, j, CharClass::NotDot);
            }
        }
        version_lt_from(a, next_component(a, i), b, next_component(b, j))
    }
}

/// `a` is an earlier version than `b`: their dot-separated numeric components
/// compared in turn (so `0.9.0` comes before `0.10.0`, and `1.2` equals
/// `1.2.0`).
pub open spec fn version_lt(a: Seq<char>, b: Seq<char>) -> bool {
    version_lt_from(a, 0, b, 0)
}

fn component_value_exec(s: &Vec<char>, i: usize) -> (r: u128)
    requires
        i <= s.len(),
    ensures
        r as int == component_value(s@, i as int),
{
    let e = scan_run(s, i, CharClass::AsciiDigit);
    proof {
        lemma_run_end_bounds(s@, i as int, CharClass::AsciiDigit);
    }
    let cap: u128 = 18446744073709551616;
    let mut acc: u128 = 0;
    let mut k = i;
    while k < e
        invariant
            i <= k <= e,
            e <= s.len(),
            e as int == run_end(s@, i as int, CharClass::AsciiDigit),
            forall|t: int| i <= t < e ==> in_class(CharClass::AsciiDigit, #[trigger] s@[t]),
            cap == 18446744073709551616,
            all_ascii_digits(s@.subrange(i as int, k as int)),
            acc as int == if digits_value(s@.subrange(i as int, k as int)) < cap {
                digits_value(s@.subrange(i as int, k as int))
            } else {
                cap as int
            },
        decreases e - k,
    {
        let c = s[k];
        assert(in_class(CharClass::AsciiDigit, s@[k as int]));
        let d: u128 = (c as u32 - '0' as u32) as u128;
        let ghost pre = s@.subrange(i as int, k as int);
        let ghost post = s@.subrange(i as int, k + 1);
        assert(post.drop_last() =~= pre);
        assert(post.last() == c);
        proof {
            lemma_digits_value_nonneg(pre);
        }
        if acc >= cap {
            acc = cap;
        } else {
            let next = acc * 10 + d;
            acc = if next >= cap {
                cap
            } else {
                next
            };
        }
        k += 1;
    }
    acc
}

/// Compares two versions by their dot-separated numeric components.
pub fn version_less(a: &Vec<char>, b: &Vec<char>) -> (r: bool)
    ensures
        r == version_lt(a@, b@),
{
    let mut i: usize = 0;
    let mut j: usize = 0;
    let mut done_a = false;
    let mut done_b = false;
    loop
        invariant
            i <= a.len(),
            j <= b.len(),
            version_lt(a@, b@) == version_lt_from(
                a@,
                if done_a { a.len() + 1 } else { i as int },
                b@,
                if done_b { b.len() + 1 } else { j as int },
            ),
        decreases
            components_left(a@, if done_a { a.len() + 1 } else { i as int })
                + components_left(b@, if done_b { b.len() + 1 } else { j as int }),
    {
        let ghost pa: int = if done_a { a.len() + 1 } else { i as int };
        let ghost pb: int = if done_b { b.len() + 1 } else { j as int };
        if done_a && done_b {
            return false;
        }
        let va: u128 = if done_a { 0 } else { component_value_exec(a, i) };
        let vb: u128 = if done_b { 0 } else { component_value_exec(b, j) };
        if va != vb {
            return va < vb;
        }
        if !done_a {
            let e = scan_run(a, i, CharClass::NotDot);
            if e < a.len() {
                i = e + 1;
            } else {
                done_a = true;
            }
        }
        if !done_b {
            let e = scan_run(b, j, CharClass::NotDot);
            if e < b.len() {
                j = e + 1;
            } else {
                done_b = true;
            }
        }
        assert(next_component(a@, pa) == if done_a { a.len() + 1 } else { i as int });
        assert(next_component(b@, pb) == if done_b { b.len() + 1 } else { j as int });
    }
}

/// Law: the version order never holds both ways, so no version is earlier
/// than itself.
pub proof fn lemma_version_lt_asymmetric(a: Seq<char>, b: Seq<char>)
    ensures
        version_lt(a, b) ==> !version_lt(b, a),
        !version_lt(a, a),
{
    lemma_version_lt_from_asymmetric(a, 0, b, 0);
    lemma_version_lt_from_asymmetric(a, 0, a, 0);
}

proof fn lemma_version_lt_from_asymmetric(a: Seq<char>, i: int, b: Seq<char>, j: int)
    ensures
        version_lt_from(a, i, b, j) ==> !version_lt_from(b, j, a, i),
    decreases components_left(a, i) + components_left(b, j),
{
    if components_left(a, i) == 0 && components_left(b, j) == 0 {
    } else if component_value(a, i) != component_value(b, j) {
    } else {
        if 0 <= i <= a.len() {
            lemma_run_end_bounds(a, i, CharClass::NotDot);
        }
        if 0 <= j <= b.len() {
            lemma_run_end_bounds(b, j, CharClass::NotDot);
        }
        lemma_version_lt_from_asymmetric(a, next_component(a, i), b, next_component(b, j));
    }
}

/// What the release feed (`latest.json`) says, compared with the running
/// version: an update is available when the feed's version comes after it,
/// component by component (x.y.z).
pub fn app_update_info(json: &JsonValue, current_version: &str) -> (r: AppUpdateInfo)
    ensures
        r.version@ == feed_version(*json),
        r.notes@ == str_or(*json, "notes"@, ""@),
        r.download_url@ == feed_download_url(*json),
        r.current_version@ == current_version@,
        r.update_available == version_lt(current_version@, feed_version(*json)),
{
    let version = json.str_or("version", "0.0.0");
    let notes = json.str_or("notes", "");
    let download_url = match json.get("platforms") {
        Some(p) => match p.get("windows-x86_64") {
            Some(w) => w.str_or("url", ""),
            None => owned(""),
        },
        None => owned(""),
    };
    let update_available = version_less(&chars_of(current_version), &chars_of(version.as_str()));
    AppUpdateInfo {
        version,
        notes,
        download_url,
        current_version: owned(current_version),
        update_available,
    }
}

/// `\((\d+)%\)` at `i`: the end of the digits.
pub open spec fn paren_percent_at(s: Seq<char>, i: int) -> Option<int> {
    if 0 <= i < s.len() && s[i] == '(' {
        let a = run_end(s, i + 1, CharClass::Digit);
        if a > i + 1 && a + 1 < s.len() && s[a] == '%' && s[a + 1] == ')' {
            Some(a)
        } else {
            None
        }
    } else {
        None
    }
}

/// The first match of `\((\d+)%\)` at or after `p`: the span of the digits.
pub open spec fn first_paren_percent(s: Seq<char>, p: int) -> Option<(int, int)>
    decreases s.len() + 1 - p,
{
    if p < 0 || p > s.len() {
        None
    } else {
        match paren_percent_at(s, p) {
            Some(a) => Some((p + 1, a)),
            None => first_paren_percent(s, p + 1),
        }
    }
}

/// The percentage of an aria2c line while an update downloads: the digits
/// of the first `(N%)`, when they are ASCII digits (which read as a float).
pub open spec fn update_percent_spec(s: Seq<char>) -> Option<Seq<char>> {
    match first_paren_percent(s, 0) {
        Some((a, b)) => if all_ascii_digits(s.subrange(a, b)) {
            Some(s.subrange(a, b))
        } else {
            None
        },
        None => None,
    }
}

fn paren_percent_at_exec(s: &Vec<char>, i: usize) -> (r: Option<usize>)
    ensures
        match r {
            Some(a) => paren_percent_at(s@, i as int) == Some(a as int) && a < s.len(),
            None => paren_percent_at(s@, i as int) is None,
        },
{
    if i < s.len() && s[i] == '(' {
        let a = scan_run(s, i + 1, CharClass::Digit);
        proof {
            lemma_run_end_bounds(s@, i + 1, CharClass::Digit);
        }
        if a > i + 1 && a < s.len() && a + 1 < s.len() && s[a] == '%' && s[a + 1] == ')' {
            Some(a)
        } else {
            None
        }
    } else {
        None
    }
}

fn first_paren_percent_exec(s: &Vec<char>) -> (r: Option<(usize, usize)>)
    ensures
        match r {
            Some((a, b)) => first_paren_percent(s@, 0) == Some((a as int, b as int)) && a <= b
                <= s.len(),
            None => first_paren_percent(s@, 0) is None,
        },
{
    let mut p: usize = 0;
    while p < s.len()
        invariant
            p <= s.len(),
            first_paren_percent(s@, 0) == first_paren_percent(s@, p as int),
        decreases s.len() - p,
    {
        match paren_percent_at_exec(s, p) {
            Some(a) => {
                proof {
                    lemma_run_end_bounds(s@, p + 1, CharClass::Digit);
                }
                return Some((p + 1, a));
            },
            None => {},
        }
        p += 1;
    }
    assert(paren_percent_at(s@, p as int) is None);
    assert(first_paren_percent(s@, p + 1) is None);
    None
}

/// The percentage in an aria2c line while an update downloads, as digits.
pub fn update_percent(line: &str) -> (r: Option<String>)
    ensures
        match r {
            Some(d) => update_percent_spec(line@) == Some(d@),
            None => update_percent_spec(line@) is None,
        },
{
    let s = chars_of(line);
    match first_paren_percent_exec(&s) {
        Some((a, b)) => {
            let d = slice_chars(&s, a, b);
            let mut k: usize = 0;
            while k < d.len()
                invariant
                    k <= d.len(),
                    forall|t: int| 0 <= t < k ==> '0' <= #[trigger] d@[t] <= '9',
                    s@ == line@,
                    first_paren_percent(s@, 0) == Some((a as int, b as int)),
                    d@ == s@.subrange(a as int, b as int),
                decreases d.len() - k,
            {
                if !('0' <= d[k] && d[k] <= '9') {
                    assert(!all_ascii_digits(d@)) by {
                        assert(!crate::text::is_ascii_digit(d@[k as int]));
                    }
                    return None;
                }
                k += 1;
            }
            assert(all_ascii_digits(d@));
            Some(string_of(&d))
        },
        None => None,
    }
}

/// The progress event of an update download at `percent`.
pub fn update_progress(percent: String) -> (r: AppUpdateProgress)
    ensures
        r.percent == percent,
        r.downloaded_bytes == 0,
        r.total_bytes == 0,
        r.status@ == "downloading"@,
{
    AppUpdateProgress { percent, downloaded_bytes: 0, total_bytes: 0, status: owned("downloading") }
}

/// The event of a finished update download.
pub fn update_complete() -> (r: AppUpdateProgress)
    ensures
        r.percent@ == "100"@,
        r.downloaded_bytes == 0,
        r.total_bytes == 0,
        r.status@ == "complete"@,
{
    AppUpdateProgress {
        percent: owned("100"),
        downloaded_bytes: 0,
        total_bytes: 0,
        status: owned("complete"),
    }
}

/// The answer of a `yt-dlp -U` run started by the user.
pub fn update_ytdlp_answer(out: &ProcessOutput) -> (r: Result<String, String>)
    ensures
        !out.success ==> (r matches Err(e) && e@ == "Update failed: "@ + out.stdout@ + " "@
            + out.stderr@),
        out.success ==> (r matches Ok(m) && m@ == out.stdout@ + "\n"@ + out.stderr@),
{
    if !out.success {
        let mut e = owned("Update failed: ");
        push_str(&mut e, out.stdout.as_str());
        push_str(&mut e, " ");
        push_str(&mut e, out.stderr.as_str());
        Err(e)
    } else {
        let mut m = out.stdout.clone();
        push_str(&mut m, "\n");
        push_str(&mut m, out.stderr.as_str());
        Ok(m)
    }
}

/// How a background update of yt-dlp went, as the front end is told.
#[derive(Debug, Clone)]
pub struct YtdlpUpdateStatus {
    /// `skipped`, `complete` or `error`.
    pub status: String,
    pub message: String,
    /// Whether yt-dlp changed; told only when the run succeeded.
    pub updated: Option<bool>,
}

/// A background update is skipped while downloads run.
pub fn ytdlp_update_skipped() -> (r: YtdlpUpdateStatus)
    ensures
        r.status@ == "skipped"@,
        r.message@ == "Downloads in progress"@,
        r.updated is None,
{
    YtdlpUpdateStatus {
        status: owned("skipped"),
        message: owned("Downloads in progress"),
        updated: None,
    }
}

/// How a background `yt-dlp -U` run went: its trimmed output and whether it
/// updated, or its trimmed error output.
pub fn ytdlp_update_status(out: &ProcessOutput) -> (r: YtdlpUpdateStatus)
    ensures
        out.success ==> {
            &&& r.status@ == "complete"@
            &&& r.message@ == trim(out.stdout@)
            &&& r.updated == Some(
                contains_seq(trim(out.stdout@), "Updated"@) || contains_seq(
                    trim(out.stdout@),
                    "Updating"@,
                ),
            )
        },
        !out.success ==> {
            &&& r.status@ == "error"@
            &&& r.message@ == trim(out.stderr@)
            &&& r.updated is None
        },
{
    if out.success {
        let message = trim_chars(&chars_of(out.stdout.as_str()));
        let updated = has_str(&message, "Updated") || has_str(&message, "Updating");
        YtdlpUpdateStatus {
            status: owned("complete"),
            message: string_of(&message),
            updated: Some(updated),
        }
    } else {
        let message = trim_chars(&chars_of(out.stderr.as_str()));
        YtdlpUpdateStatus { status: owned("error"), message: string_of(&message), updated: None }
    }
}


/// A background update of yt-dlp waits while downloads run: the status to
/// report instead of updating, or `None` when none runs.
pub fn ytdlp_update_gate(downloads: &DownloadManager) -> (r: Option<YtdlpUpdateStatus>)
    ensures
        r is None <==> downloads@ == Map::<Seq<char>, DownloadState>::empty(),
        r matches Some(st) ==> st.status@ == "skipped"@ && st.message@ == "Downloads in progress"@
            && st.updated is None,
{
    if downloads.is_empty() {
        None
    } else {
        Some(ytdlp_update_skipped())
    }
}

} // verus!
