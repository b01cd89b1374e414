use vstd::prelude::*;
use vstd::string::StringExecFns;

verus! {

// ---------------------------------------------------------------------------
// Character classes
// ---------------------------------------------------------------------------

/// Unicode `White_Space`: the class of `\s` in the `regex` crate and of
/// `char::is_whitespace`, which `str::trim` strips.
pub open spec fn is_white_space(c: char) -> bool {
    let v = c as u32;
    (0x9 <= v && v <= 0xd) || v == 0x20 || v == 0x85 || v == 0xa0 || v == 0x1680 || (0x2000 <= v
        && v <= 0x200a) || v == 0x2028 || v == 0x2029 || v == 0x202f || v == 0x205f || v == 0x3000
}

pub fn white_space(c: char) -> (r: bool)
    ensures
        r == is_white_space(c),
{
    let v = c as u32;
    (0x9 <= v && v <= 0xd) || v == 0x20 || v == 0x85 || v == 0xa0 || v == 0x1680 || (0x2000 <= v
        && v <= 0x200a) || v == 0x2028 || v == 0x2029 || v == 0x202f || v == 0x205f || v == 0x3000
}

/// Unicode `Decimal_Number` (general category `Nd`): the class of `\d` in the
/// `regex` crate, whose tables follow Unicode 16.0.
pub open spec fn is_decimal_digit(c: char) -> bool {
    let v = c as u32;
    false
    || (0x30 <= v && v <= 0x39)
    || (0x660 <= v && v <= 0x669)
    || (0x6f0 <= v && v <= 0x6f9)
    || (0x7c0 <= v && v <= 0x7c9)
    || (0x966 <= v && v <= 0x96f)
    || (0x9e6 <= v && v <= 0x9ef)
    || (0xa66 <= v && v <= 0xa6f)
    || (0xae6 <= v && v <= 0xaef)
    || (0xb66 <= v && v <= 0xb6f)
    || (0xbe6 <= v && v <= 0xbef)
    || (0xc66 <= v && v <= 0xc6f)
    || (0xce6 <= v && v <= 0xcef)
    || (0xd66 <= v && v <= 0xd6f)
    || (0xde6 <= v && v <= 0xdef)
    || (0xe50 <= v && v <= 0xe59)
    || (0xed0 <= v && v <= 0xed9)
    || (0xf20 <= v && v <= 0xf29)
    || (0x1040 <= v && v <= 0x1049)
    || (0x1090 <= v && v <= 0x1099)
    || (0x17e0 <= v && v <= 0x17e9)
    || (0x1810 <= v && v <= 0x1819)
    || (0x1946 <= v && v <= 0x194f)
    || (0x19d0 <= v && v <= 0x19d9)
    || (0x1a80 <= v && v <= 0x1a89)
    || (0x1a90 <= v && v <= 0x1a99)
    || (0x1b50 <= v && v <= 0x1b59)
    || (0x1bb0 <= v && v <= 0x1bb9)
    || (0x1c40 <= v && v <= 0x1c49)
    || (0x1c50 <= v && v <= 0x1c59)
    || (0xa620 <= v && v <= 0xa629)
    || (0xa8d0 <= v && v <= 0xa8d9)
    || (0xa900 <= v && v <= 0xa909)
    || (0xa9d0 <= v && v <= 0xa9d9)
    || (0xa9f0 <= v && v <= 0xa9f9)
    || (0xaa50 <= v && v <= 0xaa59)
    || (0xabf0 <= v && v <= 0xabf9)
    || (0xff10 <= v && v <= 0xff19)
    || (0x104a0 <= v && v <= 0x104a9)
    || (0x10d30 <= v && v <= 0x10d39)
    || (0x10d40 <= v && v <= 0x10d49)
    || (0x11066 <= v && v <= 0x1106f)
    || (0x110f0 <= v && v <= 0x110f9)
    || (0x11136 <= v && v <= 0x1113f)
    || (0x111d0 <= v && v <= 0x111d9)
    || (0x112f0 <= v && v <= 0x112f9)
    || (0x11450 <= v && v <= 0x11459)
    || (0x114d0 <= v && v <= 0x114d9)
    || (0x11650 <= v && v <= 0x11659)
    || (0x116c0 <= v && v <= 0x116c9)
    || (0x116d0 <= v && v <= 0x116e3)
    || (0x11730 <= v && v <= 0x11739)
    || (0x118e0 <= v && v <= 0x118e9)
    || (0x11950 <= v && v <= 0x11959)
    || (0x11bf0 <= v && v <= 0x11bf9)
    || (0x11c50 <= v && v <= 0x11c59)
    || (0x11d50 <= v && v <= 0x11d59)
    || (0x11da0 <= v && v <= 0x11da9)
    || (0x11f50 <= v && v <= 0x11f59)
    || (0x16130 <= v && v <= 0x16139)
    || (0x16a60 <= v && v <= 0x16a69)
    || (0x16ac0 <= v && v <= 0x16ac9)
    || (0x16b50 <= v && v <= 0x16b59)
    || (0x16d70 <= v && v <= 0x16d79)
    || (0x1ccf0 <= v && v <= 0x1ccf9)
    || (0x1d7ce <= v && v <= 0x1d7ff)
    || (0x1e140 <= v && v <= 0x1e149)
    || (0x1e2f0 <= v && v <= 0x1e2f9)
    || (0x1e4f0 <= v && v <= 0x1e4f9)
    || (0x1e5f1 <= v && v <= 0x1e5fa)
    || (0x1e950 <= v && v <= 0x1e959)
    || (0x1fbf0 <= v && v <= 0x1fbf9)
}

pub fn decimal_digit(c: char) -> (r: bool)
    ensures
        r == is_decimal_digit(c),
{
    let v = c as u32;
    false
    || (0x30 <= v && v <= 0x39)
    || (0x660 <= v && v <= 0x669)
    || (0x6f0 <= v && v <= 0x6f9)
    || (0x7c0 <= v && v <= 0x7c9)
    || (0x966 <= v && v <= 0x96f)
    || (0x9e6 <= v && v <= 0x9ef)
    || (0xa66 <= v && v <= 0xa6f)
    || (0xae6 <= v && v <= 0xaef)
    || (0xb66 <= v && v <= 0xb6f)
    || (0xbe6 <= v && v <= 0xbef)
    || (0xc66 <= v && v <= 0xc6f)
    || (0xce6 <= v && v <= 0xcef)
    || (0xd66 <= v && v <= 0xd6f)
    || (0xde6 <= v && v <= 0xdef)
    || (0xe50 <= v && v <= 0xe59)
    || (0xed0 <= v && v <= 0xed9)
    || (0xf20 <= v && v <= 0xf29)
    || (0x1040 <= v && v <= 0x1049)
    || (0x1090 <= v && v <= 0x1099)
    || (0x17e0 <= v && v <= 0x17e9)
    || (0x1810 <= v && v <= 0x1819)
    || (0x1946 <= v && v <= 0x194f)
    || (0x19d0 <= v && v <= 0x19d9)
    || (0x1a80 <= v && v <= 0x1a89)
    || (0x1a90 <= v && v <= 0x1a99)
    || (0x1b50 <= v && v <= 0x1b59)
    || (0x1bb0 <= v && v <= 0x1bb9)
    || (0x1c40 <= v && v <= 0x1c49)
    || (0x1c50 <= v && v <= 0x1c59)
    || (0xa620 <= v && v <= 0xa629)
    || (0xa8d0 <= v && v <= 0xa8d9)
    || (0xa900 <= v && v <= 0xa909)
    || (0xa9d0 <= v && v <= 0xa9d9)
    || (0xa9f0 <= v && v <= 0xa9f9)
    || (0xaa50 <= v && v <= 0xaa59)
    || (0xabf0 <= v && v <= 0xabf9)
    || (0xff10 <= v && v <= 0xff19)
    || (0x104a0 <= v && v <= 0x104a9)
    || (0x10d30 <= v && v <= 0x10d39)
    || (0x10d40 <= v && v <= 0x10d49)
    || (0x11066 <= v && v <= 0x1106f)
    || (0x110f0 <= v && v <= 0x110f9)
    || (0x11136 <= v && v <= 0x1113f)
    || (0x111d0 <= v && v <= 0x111d9)
    || (0x112f0 <= v && v <= 0x112f9)
    || (0x11450 <= v && v <= 0x11459)
    || (0x114d0 <= v && v <= 0x114d9)
    || (0x11650 <= v && v <= 0x11659)
    || (0x116c0 <= v && v <= 0x116c9)
    || (0x116d0 <= v && v <= 0x116e3)
    || (0x11730 <= v && v <= 0x11739)
    || (0x118e0 <= v && v <= 0x118e9)
    || (0x11950 <= v && v <= 0x11959)
    || (0x11bf0 <= v && v <= 0x11bf9)
    || (0x11c50 <= v && v <= 0x11c59)
    || (0x11d50 <= v && v <= 0x11d59)
    || (0x11da0 <= v && v <= 0x11da9)
    || (0x11f50 <= v && v <= 0x11f59)
    || (0x16130 <= v && v <= 0x16139)
    || (0x16a60 <= v && v <= 0x16a69)
    || (0x16ac0 <= v && v <= 0x16ac9)
    || (0x16b50 <= v && v <= 0x16b59)
    || (0x16d70 <= v && v <= 0x16d79)
    || (0x1ccf0 <= v && v <= 0x1ccf9)
    || (0x1d7ce <= v && v <= 0x1d7ff)
    || (0x1e140 <= v && v <= 0x1e149)
    || (0x1e2f0 <= v && v <= 0x1e2f9)
    || (0x1e4f0 <= v && v <= 0x1e4f9)
    || (0x1e5f1 <= v && v <= 0x1e5fa)
    || (0x1e950 <= v && v <= 0x1e959)
    || (0x1fbf0 <= v && v <= 0x1fbf9)
}

pub open spec fn is_ascii_digit(c: char) -> bool {
    '0' <= c && c <= '9'
}

pub open spec fn is_ascii_letter(c: char) -> bool {
    ('a' <= c && c <= 'z') || ('A' <= c && c <= 'Z')
}

/// The classes that the line formats of this crate repeat over.
#[derive(Clone, Copy, PartialEq, Eq, Debug)]
pub enum CharClass {
    /// `\d`
    Digit,
    /// `[\d\.]`
    DigitOrDot,
    /// `\s`
    Space,
    /// `.`: anything but a line feed
    NotNewline,
    /// `[0-9;]`: the parameter bytes of a terminal escape sequence
    AnsiParam,
    /// `[0-9]`
    AsciiDigit,
    /// `[^.]`: anything but a dot
    NotDot,
}

pub open spec fn in_class(k: CharClass, c: char) -> bool {
    match k {
        CharClass::Digit => is_decimal_digit(c),
        CharClass::DigitOrDot => is_decimal_digit(c) || c == '.',
        CharClass::Space => is_white_space(c),
        CharClass::NotNewline => c != '\n',
        CharClass::AnsiParam => is_ascii_digit(c) || c == ';',
        CharClass::AsciiDigit => is_ascii_digit(c),
        CharClass::NotDot => c != '.',
    }
}

pub fn class_contains(k: CharClass, c: char) -> (r: bool)
    ensures
        r == in_class(k, c),
{
    match k {
        CharClass::Digit => decimal_digit(c),
        CharClass::DigitOrDot => decimal_digit(c) || c == '.',
        CharClass::Space => white_space(c),
        CharClass::NotNewline => c != '\n',
        CharClass::AnsiParam => ('0' <= c && c <= '9') || c == ';',
        CharClass::AsciiDigit => '0' <= c && c <= '9',
        CharClass::NotDot => c != '.',
    }
}

// ---------------------------------------------------------------------------
// Runs, occurrences
// ---------------------------------------------------------------------------

/// The end of the longest run of characters of class `k` that starts at `i`.
pub open spec fn run_end(s: Seq<char>, i: int, k: CharClass) -> int
    decreases s.len() - i,
{
    if 0 <= i < s.len() && in_class(k, s[i]) {
        run_end(s, i + 1, k)
    } else {
        i
    }
}

pub proof fn lemma_run_end_bounds(s: Seq<char>, i: int, k: CharClass)
    requires
        0 <= i <= s.len(),
    ensures
        i <= run_end(s, i, k) <= s.len(),
        forall|j: int| i <= j < run_end(s, i, k) ==> in_class(k, #[trigger] s[j]),
        run_end(s, i, k) < s.len() ==> !in_class(k, s[run_end(s, i, k)]),
    decreases s.len() - i,
{
    if i < s.len() && in_class(k, s[i]) {
        lemma_run_end_bounds(s, i + 1, k);
    }
}

/// A run of class `k` from `i` that stops at `j` (the end, or a character
/// outside the class) ends at `j`.
pub proof fn lemma_run_end_at(s: Seq<char>, i: int, k: CharClass, j: int)
    requires
        0 <= i <= j <= s.len(),
        forall|t: int| i <= t < j ==> in_class(k, #[trigger] s[t]),
        j == s.len() || !in_class(k, s[j]),
    ensures
        run_end(s, i, k) == j,
    decreases j - i,
{
    if i < j {
        lemma_run_end_at(s, i + 1, k, j);
    }
}

pub fn scan_run(s: &Vec<char>, i: usize, k: CharClass) -> (r: usize)
    requires
        i <= s.len(),
    ensures
        r as int == run_end(s@, i as int, k),
        i <= r <= s.len(),
{
    let mut j = i;
    while j < s.len() && class_contains(k, s[j])
        invariant
            i <= j <= s.len(),
            run_end(s@, i as int, k) == run_end(s@, j as int, k),
        decreases s.len() - j,
    {
        j += 1;
    }
    j
}

/// `p` occurs in `s` at index `i`.
pub open spec fn has_sub_at(s: Seq<char>, i: int, p: Seq<char>) -> bool {
    0 <= i && i + p.len() <= s.len() && s.subrange(i, i + p.len()) == p
}

pub open spec fn contains_seq(s: Seq<char>, p: Seq<char>) -> bool {
    exists|i: int| has_sub_at(s, i, p)
}

pub fn sub_at(s: &Vec<char>, i: usize, p: &Vec<char>) -> (r: bool)
    ensures
        r == has_sub_at(s@, i as int, p@),
{
    if i > s.len() || p.len() > s.len() - i {
        return false;
    }
    let mut k: usize = 0;
    while k < p.len()
        invariant
            k <= p.len(),
            i + p.len() <= s.len(),
            forall|t: int| 0 <= t < k ==> s@[i + t] == p@[t],
        decreases p.len() - k,
    {
        if s[i + k] != p[k] {
            assert(s@.subrange(i as int, i + p.len())[k as int] != p@[k as int]);
            return false;
        }
        k += 1;
    }
    assert(s@.subrange(i as int, i + p.len()) =~= p@);
    true
}

pub fn contains_chars(s: &Vec<char>, p: &Vec<char>) -> (r: bool)
    ensures
        r == contains_seq(s@, p@),
{
    let mut i: usize = 0;
    while i < s.len()
        invariant
            i <= s.len(),
            forall|j: int| 0 <= j < i ==> !has_sub_at(s@, j, p@),
        decreases s.len() - i,
    {
        if sub_at(s, i, p) {
            return true;
        }
        i += 1;
    }
    if sub_at(s, i, p) {
        return true;
    }
    assert forall|j: int| !has_sub_at(s@, j, p@) by {
        if 0 <= j && j + p@.len() <= s@.len() {
            assert(j <= s@.len());
        }
    }
    false
}

/// The first index at or after `from` where `p` occurs.
pub open spec fn find_sub(s: Seq<char>, p: Seq<char>, from: int) -> Option<int>
    decreases s.len() + 1 - from,
{
    if from < 0 || from > s.len() {
        None
    } else if has_sub_at(s, from, p) {
        Some(from)
    } else {
        find_sub(s, p, from + 1)
    }
}

pub proof fn lemma_find_sub_found(s: Seq<char>, p: Seq<char>, from: int)
    ensures
        find_sub(s, p, from) matches Some(i) ==> from <= i && has_sub_at(s, i, p),
    decreases s.len() + 1 - from,
{
    if 0 <= from <= s.len() && !has_sub_at(s, from, p) {
        lemma_find_sub_found(s, p, from + 1);
    }
}

/// The first occurrence of `p` at or after `from` is at `k` when it occurs
/// at `k` and nowhere in between.
pub proof fn lemma_find_sub_first(s: Seq<char>, p: Seq<char>, from: int, k: int)
    requires
        0 <= from <= k,
        has_sub_at(s, k, p),
        forall|i: int| from <= i < k ==> !has_sub_at(s, i, p),
    ensures
        find_sub(s, p, from) == Some(k),
    decreases k - from,
{
    if from < k {
        lemma_find_sub_first(s, p, from + 1, k);
    }
}

pub fn find_chars(s: &Vec<char>, p: &Vec<char>, from: usize) -> (r: Option<usize>)
    ensures
        match r {
            Some(i) => find_sub(s@, p@, from as int) == Some(i as int) && has_sub_at(
                s@,
                i as int,
                p@,
            ),
            None => find_sub(s@, p@, from as int) is None,
        },
{
    if from > s.len() {
        return None;
    }
    let mut i = from;
    while i < s.len()
        invariant
            from <= i <= s.len(),
            find_sub(s@, p@, from as int) == find_sub(s@, p@, i as int),
        decreases s.len() - i,
    {
        if sub_at(s, i, p) {
            return Some(i);
        }
        i += 1;
    }
    if sub_at(s, i, p) {
        return Some(i);
    }
    assert(find_sub(s@, p@, i + 1) is None);
    None
}

/// The last index of `c` in `s`.
pub open spec fn last_index_of(s: Seq<char>, c: char) -> Option<int>
    decreases s.len(),
{
    if s.len() == 0 {
        None
    } else if s.last() == c {
        Some(s.len() - 1)
    } else {
        last_index_of(s.drop_last(), c)
    }
}

pub fn rfind_char(s: &Vec<char>, c: char) -> (r: Option<usize>)
    ensures
        match r {
            Some(i) => last_index_of(s@, c) == Some(i as int) && i < s.len(),
            None => last_index_of(s@, c) is None,
        },
{
    let mut n = s.len();
    assert(s@.subrange(0, n as int) =~= s@);
    while n > 0
        invariant
            n <= s.len(),
            last_index_of(s@, c) == last_index_of(s@.subrange(0, n as int), c),
        decreases n,
    {
        assert(s@.subrange(0, n as int).drop_last() =~= s@.subrange(0, n - 1));
        if s[n - 1] == c {
            return Some(n - 1);
        }
        n -= 1;
    }
    None
}

// ---------------------------------------------------------------------------
// Trimming and lines
// ---------------------------------------------------------------------------

pub open spec fn trim_start(s: Seq<char>) -> Seq<char>
    decreases s.len(),
{
    if s.len() > 0 && is_white_space(s[0]) {
        trim_start(s.drop_first())
    } else {
        s
    }
}

pub open spec fn trim_end(s: Seq<char>) -> Seq<char>
    decreases s.len(),
{
    if s.len() > 0 && is_white_space(s.last()) {
        trim_end(s.drop_last())
    } else {
        s
    }
}

/// `str::trim`: white space removed at both ends.
pub open spec fn trim(s: Seq<char>) -> Seq<char> {
    trim_end(trim_start(s))
}

pub fn trim_chars(s: &Vec<char>) -> (r: Vec<char>)
    ensures
        r@ == trim(s@),
{
    let mut a: usize = 0;
    assert(s@.subrange(0, s.len() as int) =~= s@);
    while a < s.len() && white_space(s[a])
        invariant
            a <= s.len(),
            trim_start(s@) == trim_start(s@.subrange(a as int, s.len() as int)),
        decreases s.len() - a,
    {
        assert(s@.subrange(a as int, s.len() as int).drop_first() =~= s@.subrange(
            a + 1,
            s.len() as int,
        ));
        a += 1;
    }
    let ghost t = s@.subrange(a as int, s.len() as int);
    assert(trim_start(s@) == t);
    let mut b: usize = s.len();
    while b > a && white_space(s[b - 1])
        invariant
            a <= b <= s.len(),
            trim_end(t) == trim_end(s@.subrange(a as int, b as int)),
        decreases b,
    {
        assert(s@.subrange(a as int, b as int).drop_last() =~= s@.subrange(a as int, b - 1));
        b -= 1;
    }
    let r = slice_chars(s, a, b);
    r
}

/// `v[a..b]` as a new vector.
pub fn slice_chars(v: &Vec<char>, a: usize, b: usize) -> (r: Vec<char>)
    requires
        a <= b <= v.len(),
    ensures
        r@ == v@.subrange(a as int, b as int),
{
    let mut r: Vec<char> = Vec::new();
    let mut i = a;
    while i < b
        invariant
            a <= i <= b <= v.len(),
            r@ == v@.subrange(a as int, i as int),
        decreases b - i,
    {
        r.push(v[i]);
        i += 1;
        assert(r@ =~= v@.subrange(a as int, i as int));
    }
    r
}

/// A line without the carriage return that ended it.
pub open spec fn strip_cr(line: Seq<char>) -> Seq<char> {
    if line.len() > 0 && line.last() == '\r' {
        line.drop_last()
    } else {
        line
    }
}

/// `str::lines` on `s[from..]`: pieces split after each line feed, the line
/// feed and a carriage return before it dropped; no piece after a final line
/// feed.
pub open spec fn lines_from(s: Seq<char>, from: int) -> Seq<Seq<char>>
    decreases s.len() - from,
{
    if from < 0 || from >= s.len() {
        seq![]
    } else {
        let k = run_end(s, from, CharClass::NotNewline);
        proof {
            lemma_run_end_bounds(s, from, CharClass::NotNewline);
        }
        if k < s.len() {
            seq![strip_cr(s.subrange(from, k))] + lines_from(s, k + 1)
        } else {
            seq![s.subrange(from, k)]
        }
    }
}

pub open spec fn lines(s: Seq<char>) -> Seq<Seq<char>> {
    lines_from(s, 0)
}

/// The first line of `s`, trimmed, as `s.lines().next().map(str::trim)`.
pub open spec fn first_line(s: Seq<char>) -> Option<Seq<char>> {
    if lines(s).len() > 0 {
        Some(lines(s)[0])
    } else {
        None
    }
}

pub proof fn lemma_lines_from_step(s: Seq<char>, from: int)
    requires
        0 <= from < s.len(),
    ensures
        run_end(s, from, CharClass::NotNewline) < s.len() ==> lines_from(s, from) == seq![
            strip_cr(s.subrange(from, run_end(s, from, CharClass::NotNewline)))
        ] + lines_from(s, run_end(s, from, CharClass::NotNewline) + 1),
        run_end(s, from, CharClass::NotNewline) >= s.len() ==> lines_from(s, from) == seq![
            s.subrange(from, s.len() as int)
        ],
{
    lemma_run_end_bounds(s, from, CharClass::NotNewline);
}

/// The lines of `s`, as `str::lines` gives them.
pub fn split_lines(s: &Vec<char>) -> (r: Vec<Vec<char>>)
    ensures
        r@.len() == lines(s@).len(),
        forall|i: int| 0 <= i < r@.len() ==> #[trigger] r@[i]@ == lines(s@)[i],
{
    let mut r: Vec<Vec<char>> = Vec::new();
    let mut pos: usize = 0;
    let ghost acc: Seq<Seq<char>> = seq![];
    while pos < s.len()
        invariant
            pos <= s.len(),
            r@.len() == acc.len(),
            forall|i: int| 0 <= i < r@.len() ==> #[trigger] r@[i]@ == acc[i],
            lines(s@) == acc + lines_from(s@, pos as int),
        decreases s.len() - pos,
    {
        let k = scan_run(s, pos, CharClass::NotNewline);
        proof {
            lemma_lines_from_step(s@, pos as int);
        }
        let mut line = slice_chars(s, pos, k);
        if k < s.len() {
            if line.len() > 0 && line[line.len() - 1] == '\r' {
                line.pop();
            }
            proof {
                acc = acc.push(line@);
                assert(lines(s@) == acc + lines_from(s@, k + 1));
            }
            r.push(line);
            pos = k + 1;
        } else {
            proof {
                acc = acc.push(line@);
                assert(lines_from(s@, s.len() as int) =~= seq![]);
                assert(lines(s@) =~= acc + lines_from(s@, s.len() as int));
            }
            r.push(line);
            pos = s.len();
        }
    }
    assert(lines_from(s@, pos as int) =~= seq![]);
    assert(lines(s@) =~= acc);
    r
}

/// The first line of `s`, trimmed.
pub fn first_line_chars(s: &Vec<char>) -> (r: Option<Vec<char>>)
    ensures
        match r {
            Some(l) => first_line(s@) is Some && l@ == trim(first_line(s@)->0),
            None => first_line(s@) is None,
        },
{
    let ls = split_lines(s);
    if ls.len() == 0 {
        None
    } else {
        Some(trim_chars(&ls[0]))
    }
}

// ---------------------------------------------------------------------------
// Conversions between `str`, `String` and characters
// ---------------------------------------------------------------------------

/// The characters of `s`, in order.
pub fn chars_of(s: &str) -> (r: Vec<char>)
    ensures
        r@ == s@,
{
    let mut r: Vec<char> = Vec::new();
    for c in it: s.chars()
        invariant
            r@ == it.seq().take(it.index() as int),
    {
        r.push(c);
    }
    r
}

/// `String::push`: appends one character.
#[verifier::external_body]
pub(crate) fn push_char(s: &mut String, c: char)
    ensures
        final(s)@ == old(s)@.push(c),
{
    s.push(c);
}

/// Appends the characters of `t`.
pub(crate) fn push_str(s: &mut String, t: &str)
    ensures
        final(s)@ == old(s)@ + t@,
{
    s.append(t);
}

/// The string of the characters of `v`.
pub fn string_of(v: &Vec<char>) -> (r: String)
    ensures
        r@ == v@,
{
    let mut r = String::new();
    let mut i: usize = 0;
    while i < v.len()
        invariant
            i <= v.len(),
            r@ == v@.subrange(0, i as int),
        decreases v.len() - i,
    {
        push_char(&mut r, v[i]);
        i += 1;
        assert(r@ =~= v@.subrange(0, i as int));
    }
    assert(v@.subrange(0, v.len() as int) =~= v@);
    r
}

/// Appends `v[a..b]` to `out`.
pub fn push_chars(out: &mut String, v: &Vec<char>, a: usize, b: usize)
    requires
        a <= b <= v.len(),
    ensures
        final(out)@ == old(out)@ + v@.subrange(a as int, b as int),
{
    let ghost start = out@;
    let mut i = a;
    while i < b
        invariant
            a <= i <= b <= v.len(),
            out@ == start + v@.subrange(a as int, i as int),
        decreases b - i,
    {
        push_char(out, v[i]);
        i += 1;
        assert(out@ =~= start + v@.subrange(a as int, i as int));
    }
}

/// A copy of `s`.
pub fn owned(s: &str) -> (r: String)
    ensures
        r@ == s@,
{
    s.to_owned()
}

/// `a` followed by `b`.
pub fn cat(a: &str, b: &str) -> (r: String)
    ensures
        r@ == a@ + b@,
{
    let mut r = a.to_owned();
    push_str(&mut r, b);
    r
}

/// `a`, `b`, `c` in a row.
pub fn cat3(a: &str, b: &str, c: &str) -> (r: String)
    ensures
        r@ == a@ + b@ + c@,
{
    let mut r = a.to_owned();
    push_str(&mut r, b);
    push_str(&mut r, c);
    r
}

/// The lowercase form of `s` that `str::to_lowercase` gives; it depends on
/// `s` alone (std's Unicode tables).
pub uninterp spec fn lowercase(s: Seq<char>) -> Seq<char>;

/// Every character is ASCII.
pub open spec fn all_ascii(s: Seq<char>) -> bool {
    forall|i: int| 0 <= i < s.len() ==> (#[trigger] s[i] as u32) < 128
}

/// `A`-`Z` to `a`-`z`; any other character stays.
pub open spec fn ascii_lower_char(c: char) -> char {
    if 'A' <= c && c <= 'Z' {
        ((c as u32) + 32) as char
    } else {
        c
    }
}

pub open spec fn ascii_lowercase(s: Seq<char>) -> Seq<char> {
    s.map_values(|c: char| ascii_lower_char(c))
}

/// `str::to_lowercase`. Claimed: the result is `lowercase(s@)`, a function of
/// the characters of `s` alone, and on ASCII text it maps `A`-`Z` to `a`-`z`
/// and keeps every other character, as std documents; what it does beyond
/// ASCII (Unicode case mapping) is not stated here.
#[verifier::external_body]
pub(crate) fn to_lowercase(s: &str) -> (r: String)
    ensures
        r@ == lowercase(s@),
        all_ascii(s@) ==> r@ == ascii_lowercase(s@),
{
    s.to_lowercase()
}

/// The lowercase form of `s`: on ASCII text `A`-`Z` become `a`-`z`;
/// beyond ASCII, the form that std gives (`lowercase`).
pub open spec fn lower_text(s: Seq<char>) -> Seq<char> {
    if all_ascii(s) {
        ascii_lowercase(s)
    } else {
        lowercase(s)
    }
}

/// `s` in lowercase, as characters.
pub fn lowercase_chars(s: &str) -> (r: Vec<char>)
    ensures
        r@ == lower_text(s@),
        r@ == lowercase(s@),
{
    let l = to_lowercase(s);
    chars_of(l.as_str())
}

// ---------------------------------------------------------------------------
// Decimal numerals
// ---------------------------------------------------------------------------

pub open spec fn digit_char(d: nat) -> char {
    if d == 0 {
        '0'
    } else if d == 1 {
        '1'
    } else if d == 2 {
        '2'
    } else if d == 3 {
        '3'
    } else if d == 4 {
        '4'
    } else if d == 5 {
        '5'
    } else if d == 6 {
        '6'
    } else if d == 7 {
        '7'
    } else if d == 8 {
        '8'
    } else {
        '9'
    }
}

/// The decimal numeral of `n`, as `format!("{}", n)` writes it.
pub open spec fn decimal_text(n: nat) -> Seq<char>
    decreases n,
{
    if n < 10 {
        seq![digit_char(n)]
    } else {
        decimal_text(n / 10).push(digit_char(n % 10))
    }
}

fn digit_of(d: u64) -> (c: char)
    requires
        d < 10,
    ensures
        c == digit_char(d as nat),
{
    if d == 0 {
        '0'
    } else if d == 1 {
        '1'
    } else if d == 2 {
        '2'
    } else if d == 3 {
        '3'
    } else if d == 4 {
        '4'
    } else if d == 5 {
        '5'
    } else if d == 6 {
        '6'
    } else if d == 7 {
        '7'
    } else if d == 8 {
        '8'
    } else {
        '9'
    }
}

pub fn push_decimal(out: &mut String, n: u64)
    ensures
        final(out)@ == old(out)@ + decimal_text(n as nat),
    decreases n,
{
    if n >= 10 {
        push_decimal(out, n / 10);
    }
    push_char(out, digit_of(n % 10));
}

/// `n.to_string()`.
pub fn decimal_string(n: u64) -> (r: String)
    ensures
        r@ == decimal_text(n as nat),
{
    let mut r = String::new();
    push_decimal(&mut r, n);
    r
}

} // verus!

verus! {

/// An executable end position that stands for a specified one.
pub open spec fn same_end(r: Option<usize>, e: Option<int>) -> bool {
    match r {
        Some(x) => e == Some(x as int),
        None => e is None,
    }
}

/// The position after `lit` when it occurs at `i`.
pub open spec fn lit_end(s: Seq<char>, i: int, lit: Seq<char>) -> Option<int> {
    if has_sub_at(s, i, lit) {
        Some(i + lit.len())
    } else {
        None
    }
}

pub fn lit_end_exec(s: &Vec<char>, i: usize, lit: &Vec<char>) -> (r: Option<usize>)
    ensures
        same_end(r, lit_end(s@, i as int, lit@)),
        r matches Some(x) ==> x <= s.len(),
{
    if sub_at(s, i, lit) {
        assert(i + lit@.len() <= s@.len());
        assert(s@.len() == s.len());
        assert(lit@.len() == lit.len());
        Some(i + lit.len())
    } else {
        None
    }
}

/// `\s+` at `i`: the end of the white space run, when it is not empty.
pub open spec fn spaces1_end(s: Seq<char>, i: int) -> Option<int> {
    let e = run_end(s, i, CharClass::Space);
    if e > i {
        Some(e)
    } else {
        None
    }
}

pub fn spaces1_exec(s: &Vec<char>, i: usize) -> (r: Option<usize>)
    requires
        i <= s.len(),
    ensures
        same_end(r, spaces1_end(s@, i as int)),
        r matches Some(x) ==> x <= s.len(),
{
    let e = scan_run(s, i, CharClass::Space);
    if e > i {
        Some(e)
    } else {
        None
    }
}

} // verus!

verus! {

pub fn eq_chars(a: &Vec<char>, b: &Vec<char>) -> (r: bool)
    ensures
        r == (a@ == b@),
{
    if a.len() != b.len() {
        return false;
    }
    let r = sub_at(a, 0, b);
    proof {
        if r {
            assert(a@.subrange(0, b@.len() as int) =~= a@);
        } else {
            assert(a@.subrange(0, b@.len() as int) =~= a@);
        }
    }
    r
}

/// `a == b` on a string and a literal.
pub fn str_eq(a: &Vec<char>, b: &str) -> (r: bool)
    ensures
        r == (a@ == b@),
{
    eq_chars(a, &chars_of(b))
}

/// `p` occurs in `s`, for a literal `p`.
pub fn has_str(s: &Vec<char>, p: &str) -> (r: bool)
    ensures
        r == contains_seq(s@, p@),
{
    contains_chars(s, &chars_of(p))
}

} // verus!
