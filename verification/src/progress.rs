//! The lines that yt-dlp prints while it downloads, read as progress events.
use vstd::prelude::*;
use crate::numtext::{is_plain_decimal, plain_decimal};
use crate::text::{contains_seq, contains_chars, trim, trim_chars, slice_chars, CharClass, run_end, scan_run, is_ascii_letter, chars_of, string_of, lemma_run_end_bounds, same_end, lit_end, lit_end_exec, spaces1_end, spaces1_exec, has_sub_at, sub_at};


verus! {

/// What one line of yt-dlp output says about a download.
#[derive(Debug, Clone)]
pub enum ProgressUpdate {
    /// Download progress: `percent` and `speed_value` are decimal numerals as
    /// yt-dlp printed them, `speed_unit` is `KiB`, `MB` and the like, `eta` is
    /// `minutes:seconds` or empty.
    Progress { percent: String, speed_value: String, speed_unit: String, eta: String },
    /// Muxing/merging phase detected
    Muxing,
    /// Download completed
    Completed,
    /// Destination filename detected
    Destination(String),
}

pub enum ProgressUpdateView {
    Progress { percent: Seq<char>, speed_value: Seq<char>, speed_unit: Seq<char>, eta: Seq<char> },
    Muxing,
    Completed,
    Destination(Seq<char>),
}

impl View for ProgressUpdate {
    type V = ProgressUpdateView;

    open spec fn view(&self) -> ProgressUpdateView {
        match self {
            ProgressUpdate::Progress { percent, speed_value, speed_unit, eta } => ProgressUpdateView::Progress {
                percent: percent@,
                speed_value: speed_value@,
                speed_unit: speed_unit@,
                eta: eta@,
            },
            ProgressUpdate::Muxing => ProgressUpdateView::Muxing,
            ProgressUpdate::Completed => ProgressUpdateView::Completed,
            ProgressUpdate::Destination(f) => ProgressUpdateView::Destination(f@),
        }
    }
}

// ---------------------------------------------------------------------------
// Terminal escape sequences: `\x1B\[[0-9;]*[a-zA-Z]`
// ---------------------------------------------------------------------------

/// The length of the escape sequence that starts at `i`, or 0.
pub open spec fn escape_len(s: Seq<char>, i: int) -> int {
    if 0 <= i && i + 1 < s.len() && s[i] == '\u{1b}' && s[i + 1] == '[' {
        let j = run_end(s, i + 2, CharClass::AnsiParam);
        if j < s.len() && is_ascii_letter(s[j]) {
            j + 1 - i
        } else {
            0
        }
    } else {
        0
    }
}

/// `s[i..]` with every escape sequence removed, leftmost first.
pub open spec fn strip_ansi_from(s: Seq<char>, i: int) -> Seq<char>
    decreases s.len() - i,
{
    if i < 0 || i >= s.len() {
        seq![]
    } else if escape_len(s, i) > 0 {
        strip_ansi_from(s, i + escape_len(s, i))
    } else {
        seq![s[i]] + strip_ansi_from(s, i + 1)
    }
}

pub open spec fn strip_ansi_spec(s: Seq<char>) -> Seq<char> {
    strip_ansi_from(s, 0)
}

fn escape_len_exec(s: &Vec<char>, i: usize) -> (r: usize)
    requires
        i < s.len(),
    ensures
        r as int == escape_len(s@, i as int),
        r > 0 ==> i + r <= s.len(),
{
    if i + 1 < s.len() && s[i] == '\u{1b}' && s[i + 1] == '[' {
        let j = scan_run(s, i + 2, CharClass::AnsiParam);
        if j < s.len() && (('a' <= s[j] && s[j] <= 'z') || ('A' <= s[j] && s[j] <= 'Z')) {
            j + 1 - i
        } else {
            0
        }
    } else {
        0
    }
}

pub fn strip_ansi_chars(s: &Vec<char>) -> (r: Vec<char>)
    ensures
        r@ == strip_ansi_spec(s@),
{
    let mut out: Vec<char> = Vec::new();
    let mut i: usize = 0;
    while i < s.len()
        invariant
            i <= s.len(),
            strip_ansi_spec(s@) == out@ + strip_ansi_from(s@, i as int),
        decreases s.len() - i,
    {
        let n = escape_len_exec(s, i);
        if n > 0 {
            i = i + n;
        } else {
            let ghost prev = out@;
            out.push(s[i]);
            proof {
                assert(strip_ansi_from(s@, i as int) == seq![s@[i as int]] + strip_ansi_from(s@, i + 1));
                assert(out@ + strip_ansi_from(s@, i + 1) =~= prev + strip_ansi_from(s@, i as int));
            }
            i = i + 1;
        }
    }
    assert(strip_ansi_from(s@, i as int) =~= seq![]);
    assert(out@ + seq![] =~= out@);
    out
}

proof fn lemma_strip_plain_from(s: Seq<char>, i: int)
    requires
        0 <= i <= s.len(),
        forall|k: int| 0 <= k < s.len() ==> s[k] != '\u{1b}',
    ensures
        strip_ansi_from(s, i) == s.skip(i),
    decreases s.len() - i,
{
    if i < s.len() {
        lemma_strip_plain_from(s, i + 1);
        assert(s.skip(i) =~= seq![s[i]] + s.skip(i + 1));
    } else {
        assert(s.skip(i) =~= seq![]);
    }
}

proof fn lemma_strip_shorter_from(s: Seq<char>, i: int)
    requires
        0 <= i <= s.len(),
    ensures
        strip_ansi_from(s, i).len() <= s.len() - i,
    decreases s.len() - i,
{
    if i < s.len() {
        if escape_len(s, i) > 0 {
            lemma_run_end_bounds(s, i + 2, CharClass::AnsiParam);
            lemma_strip_shorter_from(s, i + escape_len(s, i));
        } else {
            lemma_strip_shorter_from(s, i + 1);
        }
    }
}

/// Law: stripping removes only: it never lengthens a text, and a text with
/// no escape character comes back unchanged.
pub proof fn lemma_strip_ansi_removes_only(s: Seq<char>)
    ensures
        strip_ansi_spec(s).len() <= s.len(),
        (forall|k: int| 0 <= k < s.len() ==> s[k] != '\u{1b}') ==> strip_ansi_spec(s) == s,
{
    lemma_strip_shorter_from(s, 0);
    if forall|k: int| 0 <= k < s.len() ==> s[k] != '\u{1b}' {
        lemma_strip_plain_from(s, 0);
        assert(s.skip(0) =~= s);
    }
}

/// Strip ANSI escape codes from a string
pub fn strip_ansi(s: &str) -> (r: String)
    ensures
        r@ == strip_ansi_spec(s@),
{
    let cs = chars_of(s);
    let clean = strip_ansi_chars(&cs);
    string_of(&clean)
}

} // verus!

verus! {

// ---------------------------------------------------------------------------
// yt-dlp progress lines:
// `\[download\]\s+(\d+\.?\d*)%\s+of\s+~?(\d+\.?\d*)(Ki?B|Mi?B|Gi?B)\s+at\s+(\d+\.?\d*)(Ki?B|Mi?B|Gi?B)/s(?:.*ETA\s+(\d+):(\d+))?`
// Each repetition is followed by a character it cannot take, so the greedy
// choice is the only one that can succeed; the `.*` before `ETA` takes the
// last `ETA` that completes the pattern on the same line.
// ---------------------------------------------------------------------------

/// `\d+\.?\d*` at `i`.
pub open spec fn number_end(s: Seq<char>, i: int) -> Option<int> {
    let a = run_end(s, i, CharClass::Digit);
    if a > i {
        let b = if 0 <= a < s.len() && s[a] == '.' {
            a + 1
        } else {
            a
        };
        Some(run_end(s, b, CharClass::Digit))
    } else {
        None
    }
}

/// `Ki?B|Mi?B|Gi?B` at `i`.
pub open spec fn unit_end(s: Seq<char>, i: int) -> Option<int> {
    if 0 <= i < s.len() && (s[i] == 'K' || s[i] == 'M' || s[i] == 'G') {
        if i + 2 < s.len() && s[i + 1] == 'i' && s[i + 2] == 'B' {
            Some(i + 3)
        } else if i + 1 < s.len() && s[i + 1] == 'B' {
            Some(i + 2)
        } else {
            None
        }
    } else {
        None
    }
}

fn number_end_exec(s: &Vec<char>, i: usize) -> (r: Option<usize>)
    requires
        i <= s.len(),
    ensures
        same_end(r, number_end(s@, i as int)),
        r matches Some(x) ==> x <= s.len(),
{
    let a = scan_run(s, i, CharClass::Digit);
    if a > i {
        let b = if a < s.len() && s[a] == '.' {
            a + 1
        } else {
            a
        };
        Some(scan_run(s, b, CharClass::Digit))
    } else {
        None
    }
}

pub fn unit_end_exec(s: &Vec<char>, i: usize) -> (r: Option<usize>)
    ensures
        same_end(r, unit_end(s@, i as int)),
        r matches Some(x) ==> x <= s.len(),
{
    if i < s.len() && (s[i] == 'K' || s[i] == 'M' || s[i] == 'G') {
        if s.len() - i > 2 && s[i + 1] == 'i' && s[i + 2] == 'B' {
            Some(i + 3)
        } else if s.len() - i > 1 && s[i + 1] == 'B' {
            Some(i + 2)
        } else {
            None
        }
    } else {
        None
    }
}

/// `\[download\]\s+(\d+\.?\d*)%` at `p`: the percent span and the position after `%`.
pub open spec fn percent_part(s: Seq<char>, p: int) -> Option<(int, int)> {
    match lit_end(s, p, "[download]"@) {
        None => None,
        Some(a) => match spaces1_end(s, a) {
            None => None,
            Some(e) => match number_end(s, e) {
                None => None,
                Some(n) => if n < s.len() && s[n] == '%' {
                    Some((e, n))
                } else {
                    None
                },
            },
        },
    }
}

/// `\s+of\s+~?(\d+\.?\d*)(Ki?B|Mi?B|Gi?B)` at `i`: the position after the unit.
pub open spec fn size_part(s: Seq<char>, i: int) -> Option<int> {
    match spaces1_end(s, i) {
        None => None,
        Some(a) => match lit_end(s, a, "of"@) {
            None => None,
            Some(b) => match spaces1_end(s, b) {
                None => None,
                Some(c) => {
                    let d = if 0 <= c < s.len() && s[c] == '~' {
                        c + 1
                    } else {
                        c
                    };
                    match number_end(s, d) {
                        None => None,
                        Some(n) => unit_end(s, n),
                    }
                },
            },
        },
    }
}

/// `\s+at\s+(\d+\.?\d*)(Ki?B|Mi?B|Gi?B)/s` at `i`: the number span and the unit end.
pub open spec fn speed_part(s: Seq<char>, i: int) -> Option<(int, int, int)> {
    match spaces1_end(s, i) {
        None => None,
        Some(a) => match lit_end(s, a, "at"@) {
            None => None,
            Some(b) => match spaces1_end(s, b) {
                None => None,
                Some(c) => match number_end(s, c) {
                    None => None,
                    Some(n) => match unit_end(s, n) {
                        None => None,
                        Some(u) => if has_sub_at(s, u, "/s"@) {
                            Some((c, n, u))
                        } else {
                            None
                        },
                    },
                },
            },
        },
    }
}

/// The progress pattern at `p`: percent span, speed span, unit end.
pub open spec fn progress_at(s: Seq<char>, p: int) -> Option<(int, int, int, int, int)> {
    match percent_part(s, p) {
        None => None,
        Some((ps, pe)) => match size_part(s, pe + 1) {
            None => None,
            Some(z) => match speed_part(s, z) {
                None => None,
                Some((ss, se, ue)) => Some((ps, pe, ss, se, ue)),
            },
        },
    }
}

/// The leftmost match of the progress pattern at or after `p`.
pub open spec fn first_progress(s: Seq<char>, p: int) -> Option<(int, int, int, int, int)>
    decreases s.len() + 1 - p,
{
    if p < 0 || p > s.len() {
        None
    } else {
        match progress_at(s, p) {
            Some(m) => Some(m),
            None => first_progress(s, p + 1),
        }
    }
}

/// `ETA\s+(\d+):(\d+)` at `q`: the two digit spans.
pub open spec fn eta_at(s: Seq<char>, q: int) -> Option<(int, int, int, int)> {
    match lit_end(s, q, "ETA"@) {
        None => None,
        Some(a) => match spaces1_end(s, a) {
            None => None,
            Some(e) => {
                let d1 = run_end(s, e, CharClass::Digit);
                if d1 > e && d1 < s.len() && s[d1] == ':' {
                    let d2 = run_end(s, d1 + 1, CharClass::Digit);
                    if d2 > d1 + 1 {
                        Some((e, d1, d1 + 1, d2))
                    } else {
                        None
                    }
                } else {
                    None
                }
            },
        },
    }
}

/// The last position in `t..=q` where `eta_at` matches.
pub open spec fn last_eta(s: Seq<char>, t: int, q: int) -> Option<(int, int, int, int)>
    decreases q - t + 1,
{
    if q < t {
        None
    } else {
        match eta_at(s, q) {
            Some(m) => Some(m),
            None => last_eta(s, t, q - 1),
        }
    }
}

/// `(?:.*ETA\s+(\d+):(\d+))?` at `t`.
pub open spec fn eta_tail(s: Seq<char>, t: int) -> Option<(int, int, int, int)> {
    last_eta(s, t, run_end(s, t, CharClass::NotNewline))
}

/// The characters of the literal patterns, built once per line.
pub struct Patterns {
    pub download: Vec<char>,
    pub of: Vec<char>,
    pub at: Vec<char>,
    pub per_second: Vec<char>,
    pub eta: Vec<char>,
}

pub open spec fn patterns_ok(l: &Patterns) -> bool {
    &&& l.download@ == "[download]"@
    &&& l.of@ == "of"@
    &&& l.at@ == "at"@
    &&& l.per_second@ == "/s"@
    &&& l.eta@ == "ETA"@
}

fn patterns() -> (l: Patterns)
    ensures
        patterns_ok(&l),
{
    Patterns {
        download: chars_of("[download]"),
        of: chars_of("of"),
        at: chars_of("at"),
        per_second: chars_of("/s"),
        eta: chars_of("ETA"),
    }
}

fn percent_part_exec(s: &Vec<char>, p: usize, l: &Patterns) -> (r: Option<(usize, usize)>)
    requires
        patterns_ok(l),
    ensures
        match r {
            Some((a, b)) => percent_part(s@, p as int) == Some((a as int, b as int)) && a <= b
                < s.len(),
            None => percent_part(s@, p as int) is None,
        },
{
    let a = lit_end_exec(s, p, &l.download)?;
    let e = spaces1_exec(s, a)?;
    let n = number_end_exec(s, e)?;
    proof {
        lemma_run_end_bounds(s@, e as int, CharClass::Digit);
        let x = run_end(s@, e as int, CharClass::Digit);
        if 0 <= x < s@.len() && s@[x] == '.' {
            lemma_run_end_bounds(s@, x + 1, CharClass::Digit);
        } else {
            lemma_run_end_bounds(s@, x, CharClass::Digit);
        }
    }
    if n < s.len() && s[n] == '%' {
        Some((e, n))
    } else {
        None
    }
}

fn size_part_exec(s: &Vec<char>, i: usize, l: &Patterns) -> (r: Option<usize>)
    requires
        patterns_ok(l),
        i <= s.len(),
    ensures
        same_end(r, size_part(s@, i as int)),
        r matches Some(x) ==> x <= s.len(),
{
    let a = spaces1_exec(s, i)?;
    let b = lit_end_exec(s, a, &l.of)?;
    let c = spaces1_exec(s, b)?;
    let d = if c < s.len() && s[c] == '~' {
        c + 1
    } else {
        c
    };
    let n = number_end_exec(s, d)?;
    unit_end_exec(s, n)
}

fn speed_part_exec(s: &Vec<char>, i: usize, l: &Patterns) -> (r: Option<(usize, usize, usize)>)
    requires
        patterns_ok(l),
        i <= s.len(),
    ensures
        match r {
            Some((a, b, c)) => speed_part(s@, i as int) == Some((a as int, b as int, c as int))
                && a <= b <= c && c + 2 <= s.len(),
            None => speed_part(s@, i as int) is None,
        },
{
    let a = spaces1_exec(s, i)?;
    let b = lit_end_exec(s, a, &l.at)?;
    let c = spaces1_exec(s, b)?;
    let n = number_end_exec(s, c)?;
    let u = unit_end_exec(s, n)?;
    proof {
        lemma_run_end_bounds(s@, c as int, CharClass::Digit);
        let x = run_end(s@, c as int, CharClass::Digit);
        if 0 <= x < s@.len() && s@[x] == '.' {
            lemma_run_end_bounds(s@, x + 1, CharClass::Digit);
        } else {
            lemma_run_end_bounds(s@, x, CharClass::Digit);
        }
    }
    proof {
        reveal_strlit("/s");
    }
    if sub_at(s, u, &l.per_second) {
        Some((c, n, u))
    } else {
        None
    }
}

fn progress_at_exec(s: &Vec<char>, p: usize, l: &Patterns) -> (r: Option<(usize, usize, usize, usize, usize)>)
    requires
        patterns_ok(l),
    ensures
        match r {
            Some((a, b, c, d, e)) => progress_at(s@, p as int) == Some(
                (a as int, b as int, c as int, d as int, e as int),
            ) && a <= b && c <= d <= e && e + 2 <= s.len() && b <= s.len(),
            None => progress_at(s@, p as int) is None,
        },
{
    let (ps, pe) = percent_part_exec(s, p, l)?;
    let z = size_part_exec(s, pe + 1, l)?;
    let (ss, se, ue) = speed_part_exec(s, z, l)?;
    Some((ps, pe, ss, se, ue))
}

fn first_progress_exec(s: &Vec<char>, l: &Patterns) -> (r: Option<(usize, usize, usize, usize, usize)>)
    requires
        patterns_ok(l),
    ensures
        match r {
            Some((a, b, c, d, e)) => first_progress(s@, 0) == Some(
                (a as int, b as int, c as int, d as int, e as int),
            ) && a <= b <= s.len() && c <= d <= e && e + 2 <= s.len(),
            None => first_progress(s@, 0) is None,
        },
{
    let mut p: usize = 0;
    while p < s.len()
        invariant
            p <= s.len(),
            patterns_ok(l),
            first_progress(s@, 0) == first_progress(s@, p as int),
        decreases s.len() - p,
    {
        if let Some(m) = progress_at_exec(s, p, l) {
            return Some(m);
        }
        p += 1;
    }
    if let Some(m) = progress_at_exec(s, p, l) {
        return Some(m);
    }
    assert(first_progress(s@, p + 1) is None);
    None
}

fn eta_at_exec(s: &Vec<char>, q: usize, l: &Patterns) -> (r: Option<(usize, usize, usize, usize)>)
    requires
        patterns_ok(l),
    ensures
        match r {
            Some((a, b, c, d)) => eta_at(s@, q as int) == Some((a as int, b as int, c as int, d as int))
                && a <= b < c <= d <= s.len(),
            None => eta_at(s@, q as int) is None,
        },
{
    let a = lit_end_exec(s, q, &l.eta)?;
    let e = spaces1_exec(s, a)?;
    let d1 = scan_run(s, e, CharClass::Digit);
    if d1 > e && d1 < s.len() && s[d1] == ':' {
        let d2 = scan_run(s, d1 + 1, CharClass::Digit);
        if d2 > d1 + 1 {
            Some((e, d1, d1 + 1, d2))
        } else {
            None
        }
    } else {
        None
    }
}

fn eta_tail_exec(s: &Vec<char>, t: usize, l: &Patterns) -> (r: Option<(usize, usize, usize, usize)>)
    requires
        patterns_ok(l),
        t <= s.len(),
    ensures
        match r {
            Some((a, b, c, d)) => eta_tail(s@, t as int) == Some((a as int, b as int, c as int, d as int))
                && a <= b < c <= d <= s.len(),
            None => eta_tail(s@, t as int) is None,
        },
{
    let end = scan_run(s, t, CharClass::NotNewline);
    let mut q = end;
    while q > t
        invariant
            t <= q <= end,
            patterns_ok(l),
            eta_tail(s@, t as int) == last_eta(s@, t as int, q as int),
        decreases q,
    {
        if let Some(m) = eta_at_exec(s, q, l) {
            return Some(m);
        }
        q -= 1;
    }
    if let Some(m) = eta_at_exec(s, q, l) {
        return Some(m);
    }
    assert(last_eta(s@, t as int, q - 1) is None);
    None
}

} // verus!

verus! {

// ---------------------------------------------------------------------------
// Destination lines: `\[download\] Destination:\s*(.+)`
// ---------------------------------------------------------------------------

/// The largest `k` in `lo..hi` with `s[k]` not a line feed.
pub open spec fn last_non_newline(s: Seq<char>, lo: int, hi: int) -> Option<int>
    decreases hi - lo,
{
    if hi <= lo || lo < 0 || hi > s.len() {
        None
    } else if s[hi - 1] != '\n' {
        Some(hi - 1)
    } else {
        last_non_newline(s, lo, hi - 1)
    }
}

/// Where the file name captured at `p` starts: `\s*` gives back white space
/// until `.+` has a character that is not a line feed.
pub open spec fn destination_at(s: Seq<char>, p: int) -> Option<int> {
    match lit_end(s, p, "[download] Destination:"@) {
        None => None,
        Some(lo) => {
            let w = run_end(s, lo, CharClass::Space);
            last_non_newline(
                s,
                lo,
                if w < s.len() {
                    w + 1
                } else {
                    s.len() as int
                },
            )
        },
    }
}

pub open spec fn first_destination(s: Seq<char>, p: int) -> Option<int>
    decreases s.len() + 1 - p,
{
    if p < 0 || p > s.len() {
        None
    } else {
        match destination_at(s, p) {
            Some(k) => Some(k),
            None => first_destination(s, p + 1),
        }
    }
}

fn destination_at_exec(s: &Vec<char>, p: usize, lit: &Vec<char>) -> (r: Option<usize>)
    requires
        lit@ == "[download] Destination:"@,
    ensures
        same_end(r, destination_at(s@, p as int)),
        r matches Some(k) ==> k < s.len(),
{
    let lo = lit_end_exec(s, p, lit)?;
    let w = scan_run(s, lo, CharClass::Space);
    let mut hi = if w < s.len() {
        w + 1
    } else {
        s.len()
    };
    while hi > lo
        invariant
            lo <= hi <= s.len(),
            destination_at(s@, p as int) == last_non_newline(s@, lo as int, hi as int),
        decreases hi,
    {
        if s[hi - 1] != '\n' {
            return Some(hi - 1);
        }
        hi -= 1;
    }
    None
}

fn first_destination_exec(s: &Vec<char>) -> (r: Option<usize>)
    ensures
        same_end(r, first_destination(s@, 0)),
        r matches Some(k) ==> k < s.len(),
{
    let lit = chars_of("[download] Destination:");
    let mut p: usize = 0;
    while p < s.len()
        invariant
            p <= s.len(),
            lit@ == "[download] Destination:"@,
            first_destination(s@, 0) == first_destination(s@, p as int),
        decreases s.len() - p,
    {
        if let Some(k) = destination_at_exec(s, p, &lit) {
            return Some(k);
        }
        p += 1;
    }
    if let Some(k) = destination_at_exec(s, p, &lit) {
        return Some(k);
    }
    assert(first_destination(s@, p + 1) is None);
    None
}

// ---------------------------------------------------------------------------
// Merging and completion: `\[Merger\]|\[ffmpeg\]|Merging` and
// `\[download\] 100%|\[download\].*has already been downloaded`
// ---------------------------------------------------------------------------

pub open spec fn is_muxing_line(s: Seq<char>) -> bool {
    contains_seq(s, "[Merger]"@) || contains_seq(s, "[ffmpeg]"@) || contains_seq(s, "Merging"@)
}

pub open spec fn no_newline_between(s: Seq<char>, a: int, b: int) -> bool {
    forall|k: int| a <= k < b ==> s[k] != '\n'
}

/// `[download]` at `i`, then characters other than line feeds, then
/// `has already been downloaded` at `j`.
pub open spec fn already_downloaded_at(s: Seq<char>, i: int, j: int) -> bool {
    &&& has_sub_at(s, i, "[download]"@)
    &&& i + "[download]"@.len() <= j
    &&& no_newline_between(s, i + "[download]"@.len(), j)
    &&& has_sub_at(s, j, "has already been downloaded"@)
}

pub open spec fn is_completed_line(s: Seq<char>) -> bool {
    contains_seq(s, "[download] 100%"@) || exists|i: int, j: int| already_downloaded_at(s, i, j)
}

/// `pat` occurs at some `j >= from` with no line feed in `s[from..j]`.
fn found_on_line(s: &Vec<char>, from: usize, pat: &Vec<char>) -> (r: bool)
    requires
        from <= s.len(),
    ensures
        r == exists|j: int| from <= j && no_newline_between(s@, from as int, j) && has_sub_at(s@, j, pat@),
{
    let mut j = from;
    while j < s.len()
        invariant
            from <= j <= s.len(),
            no_newline_between(s@, from as int, j as int),
            forall|j2: int| from <= j2 < j ==> !has_sub_at(s@, j2, pat@),
        decreases s.len() - j,
    {
        if sub_at(s, j, pat) {
            return true;
        }
        if s[j] == '\n' {
            assert forall|j2: int| !(from <= j2 && no_newline_between(s@, from as int, j2) && has_sub_at(s@, j2, pat@)) by {
                if from <= j2 && no_newline_between(s@, from as int, j2) && j2 > j {
                    assert(s@[j as int] != '\n');
                }
            }
            return false;
        }
        j += 1;
    }
    if sub_at(s, j, pat) {
        return true;
    }
    assert forall|j2: int| !(from <= j2 && no_newline_between(s@, from as int, j2) && has_sub_at(s@, j2, pat@)) by {
        if from <= j2 && has_sub_at(s@, j2, pat@) {
            assert(j2 <= s@.len());
        }
    }
    false
}

fn already_downloaded(s: &Vec<char>) -> (r: bool)
    ensures
        r == exists|i: int, j: int| already_downloaded_at(s@, i, j),
{
    let dl = chars_of("[download]");
    let done = chars_of("has already been downloaded");
    proof {
        reveal_strlit("[download]");
    }
    let mut i: usize = 0;
    while i < s.len()
        invariant
            i <= s.len(),
            dl@ == "[download]"@,
            dl@.len() == 10,
            done@ == "has already been downloaded"@,
            forall|i2: int, j2: int| 0 <= i2 < i ==> !already_downloaded_at(s@, i2, j2),
        decreases s.len() - i,
    {
        if sub_at(s, i, &dl) {
            if found_on_line(s, i + dl.len(), &done) {
                let ghost j = choose|j: int| i + dl@.len() <= j && no_newline_between(s@, i + dl@.len(), j) && has_sub_at(s@, j, done@);
                assert(already_downloaded_at(s@, i as int, j));
                return true;
            }
        }
        i += 1;
    }
    assert forall|i2: int, j2: int| !already_downloaded_at(s@, i2, j2) by {
        if already_downloaded_at(s@, i2, j2) {
            assert(i2 + 10 <= s@.len());
        }
    }
    false
}

// ---------------------------------------------------------------------------
// The whole line
// ---------------------------------------------------------------------------

/// What a line says once its escape sequences are gone, in the order of the
/// checks: merging, completion, destination, then the progress pattern,
/// whose two numbers must read as floats.
pub open spec fn progress_of_clean_line(c: Seq<char>) -> Option<ProgressUpdateView> {
    if is_muxing_line(c) {
        Some(ProgressUpdateView::Muxing)
    } else if is_completed_line(c) {
        Some(ProgressUpdateView::Completed)
    } else {
        match first_destination(c, 0) {
            Some(k) => Some(
                ProgressUpdateView::Destination(
                    trim(c.subrange(k, run_end(c, k, CharClass::NotNewline))),
                ),
            ),
            None => match first_progress(c, 0) {
                Some((ps, pe, ss, se, ue)) => {
                    let percent = c.subrange(ps, pe);
                    let speed = c.subrange(ss, se);
                    if is_plain_decimal(percent) && is_plain_decimal(speed) {
                        Some(
                            ProgressUpdateView::Progress {
                                percent,
                                speed_value: speed,
                                speed_unit: c.subrange(se, ue),
                                eta: match eta_tail(c, ue + 2) {
                                    Some((a, b, x, y)) => c.subrange(a, b) + seq![':']
                                        + c.subrange(x, y),
                                    None => seq![],
                                },
                            },
                        )
                    } else {
                        None
                    }
                },
                None => None,
            },
        }
    }
}

pub open spec fn progress_update_spec(line: Seq<char>) -> Option<ProgressUpdateView> {
    progress_of_clean_line(strip_ansi_spec(line))
}

/// Parse a line of yt-dlp output for progress info
pub fn parse_progress_line(line: &str) -> (r: Option<ProgressUpdate>)
    ensures
        match r {
            Some(u) => progress_update_spec(line@) == Some(u@),
            None => progress_update_spec(line@) is None,
        },
{
    let raw = chars_of(line);
    let c = strip_ansi_chars(&raw);
    if contains_chars(&c, &chars_of("[Merger]")) || contains_chars(&c, &chars_of("[ffmpeg]"))
        || contains_chars(&c, &chars_of("Merging")) {
        return Some(ProgressUpdate::Muxing);
    }
    if contains_chars(&c, &chars_of("[download] 100%")) || already_downloaded(&c) {
        return Some(ProgressUpdate::Completed);
    }
    if let Some(k) = first_destination_exec(&c) {
        let end = scan_run(&c, k, CharClass::NotNewline);
        let name = trim_chars(&slice_chars(&c, k, end));
        return Some(ProgressUpdate::Destination(string_of(&name)));
    }
    let l = patterns();
    if let Some((ps, pe, ss, se, ue)) = first_progress_exec(&c, &l) {
        let percent = slice_chars(&c, ps, pe);
        let speed = slice_chars(&c, ss, se);
        if !plain_decimal(&percent) || !plain_decimal(&speed) {
            return None;
        }
        let unit = slice_chars(&c, se, ue);
        let eta = match eta_tail_exec(&c, ue + 2, &l) {
            Some((a, b, x, y)) => {
                let mut e = slice_chars(&c, a, b);
                e.push(':');
                let mut rest = slice_chars(&c, x, y);
                e.append(&mut rest);
                e
            },
            None => Vec::new(),
        };
        let r = ProgressUpdate::Progress {
            percent: string_of(&percent),
            speed_value: string_of(&speed),
            speed_unit: string_of(&unit),
            eta: string_of(&eta),
        };
        proof {
            match eta_tail(c@, ue + 2) {
                Some((a, b, x, y)) => {
                    assert(eta@ =~= c@.subrange(a, b) + seq![':'] + c@.subrange(x, y));
                },
                None => {
                    assert(eta@ =~= Seq::<char>::empty());
                },
            }
        }
        return Some(r);
    }
    None
}

} // verus!
