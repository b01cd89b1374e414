//! The local library: which files are videos, how folders become
//! playlists, and the order in which they are shown.
use vstd::prelude::*;
use crate::text::{chars_of, str_eq, lower_text, lowercase_chars, string_of};


verus! {

#[derive(Debug, Clone)]
pub struct VideoFile {
    pub name: String,
    pub path: String,
    pub size: u64,
    pub modified_date: String,
    pub extension: String,
}

#[derive(Debug, Clone)]
pub struct PlaylistFolder {
    pub name: String,
    pub path: String,
    pub video_count: usize,
    pub thumbnail_path: Option<String>,
    pub videos: Vec<VideoFile>,
}

#[derive(Debug, Clone)]
pub struct LibraryContent {
    pub playlists: Vec<PlaylistFolder>,
    pub singles: Vec<VideoFile>,
}

// ---------------------------------------------------------------------------
// Video files
// ---------------------------------------------------------------------------

/// The extensions (in lowercase) of the files that the library shows.
pub open spec fn is_video_extension(e: Seq<char>) -> bool {
    e == "mp4"@ || e == "mkv"@ || e == "webm"@ || e == "avi"@ || e == "mov"@ || e == "m4v"@ || e
        == "flv"@ || e == "wmv"@
}

/// The lowercase extension of a file when the library shows it.
pub fn video_extension(ext: &str) -> (r: Option<String>)
    ensures
        match r {
            Some(e) => e@ == lower_text(ext@) && is_video_extension(e@),
            None => !is_video_extension(lower_text(ext@)),
        },
{
    let e = lowercase_chars(ext);
    if str_eq(&e, "mp4") || str_eq(&e, "mkv") || str_eq(&e, "webm") || str_eq(&e, "avi") || str_eq(
        &e,
        "mov",
    ) || str_eq(&e, "m4v") || str_eq(&e, "flv") || str_eq(&e, "wmv") {
        Some(string_of(&e))
    } else {
        None
    }
}

/// Folders whose name starts with a dot are hidden and skipped.
pub fn is_hidden_folder(name: &str) -> (r: bool)
    ensures
        r == (name@.len() > 0 && name@[0] == '.'),
{
    let c = chars_of(name);
    c.len() > 0 && c[0] == '.'
}

// ---------------------------------------------------------------------------
// Order
// ---------------------------------------------------------------------------

/// `a` comes strictly before `b` in the order of `String`'s `Ord`: bytes
/// of UTF-8 compared in turn, which is characters compared by code point in
/// turn, a proper prefix first.
pub open spec fn lex_lt(a: Seq<char>, b: Seq<char>) -> bool
    decreases a.len(),
{
    if a.len() == 0 {
        b.len() > 0
    } else if b.len() == 0 {
        false
    } else if a[0] != b[0] {
        (a[0] as int) < (b[0] as int)
    } else {
        lex_lt(a.drop_first(), b.drop_first())
    }
}

pub fn lex_less(a: &Vec<char>, b: &Vec<char>) -> (r: bool)
    ensures
        r == lex_lt(a@, b@),
{
    let mut i: usize = 0;
    assert(a@.skip(0) =~= a@);
    assert(b@.skip(0) =~= b@);
    while i < a.len() && i < b.len()
        invariant
            i <= a.len(),
            i <= b.len(),
            lex_lt(a@, b@) == lex_lt(a@.skip(i as int), b@.skip(i as int)),
        decreases a.len() - i,
    {
        assert(a@.skip(i as int)[0] == a@[i as int]);
        assert(b@.skip(i as int)[0] == b@[i as int]);
        if a[i] != b[i] {
            return a[i] < b[i];
        }
        assert(a@.skip(i as int).drop_first() =~= a@.skip(i + 1));
        assert(b@.skip(i as int).drop_first() =~= b@.skip(i + 1));
        i += 1;
    }
    i == a.len() && i < b.len()
}

/// `x` inserted into `s` before the first element that it goes strictly
/// before.
pub open spec fn insert_sorted<T>(s: Seq<T>, x: T, less: spec_fn(T, T) -> bool) -> Seq<T>
    decreases s.len(),
{
    if s.len() == 0 {
        seq![x]
    } else if less(x, s[0]) {
        seq![x] + s
    } else {
        seq![s[0]] + insert_sorted(s.drop_first(), x, less)
    }
}

/// The stable sort of `s` by `less`: each element after the ones it does
/// not go strictly before, equal ones in their first order (what the
/// standard library's `sort_by` gives).
pub open spec fn stable_sort<T>(s: Seq<T>, less: spec_fn(T, T) -> bool) -> Seq<T>
    decreases s.len(),
{
    if s.len() == 0 {
        seq![]
    } else {
        insert_sorted(stable_sort(s.drop_last(), less), s.last(), less)
    }
}

proof fn lemma_insert_at<T>(s: Seq<T>, x: T, less: spec_fn(T, T) -> bool, i: int)
    requires
        0 <= i <= s.len(),
        forall|j: int| 0 <= j < i ==> !less(x, #[trigger] s[j]),
        i < s.len() ==> less(x, s[i]),
    ensures
        insert_sorted(s, x, less) == s.insert(i, x),
    decreases s.len(),
{
    if s.len() == 0 {
        assert(s.insert(i, x) =~= seq![x]);
    } else if i == 0 {
        assert(s.insert(0, x) =~= seq![x] + s);
    } else {
        let t = s.drop_first();
        assert forall|j: int| 0 <= j < i - 1 implies !less(x, #[trigger] t[j]) by {
            assert(t[j] == s[j + 1]);
        }
        lemma_insert_at(t, x, less, i - 1);
        assert(s.insert(i, x) =~= seq![s[0]] + t.insert(i - 1, x));
    }
}

/// Videos by name, as `a.name.cmp(&b.name)` orders them.
pub open spec fn by_name(a: VideoFile, b: VideoFile) -> bool {
    lex_lt(a.name@, b.name@)
}

/// Videos newest first, as `b.modified_date.cmp(&a.modified_date)` orders
/// them.
pub open spec fn newest_first(a: VideoFile, b: VideoFile) -> bool {
    lex_lt(b.modified_date@, a.modified_date@)
}

/// Playlists by name.
pub open spec fn playlist_by_name(a: PlaylistFolder, b: PlaylistFolder) -> bool {
    lex_lt(a.name@, b.name@)
}

fn goes_before_video(x: &VideoFile, y: &VideoFile, newest: bool) -> (r: bool)
    ensures
        r == if newest {
            newest_first(*x, *y)
        } else {
            by_name(*x, *y)
        },
{
    if newest {
        lex_less(&chars_of(y.modified_date.as_str()), &chars_of(x.modified_date.as_str()))
    } else {
        lex_less(&chars_of(x.name.as_str()), &chars_of(y.name.as_str()))
    }
}

fn sort_videos(v: Vec<VideoFile>, newest: bool) -> (r: Vec<VideoFile>)
    ensures
        r@ == stable_sort(
            v@,
            if newest {
                |a: VideoFile, b: VideoFile| newest_first(a, b)
            } else {
                |a: VideoFile, b: VideoFile| by_name(a, b)
            },
        ),
{
    let ghost less = if newest {
        |a: VideoFile, b: VideoFile| newest_first(a, b)
    } else {
        |a: VideoFile, b: VideoFile| by_name(a, b)
    };
    let ghost orig = v@;
    let mut rest = v;
    let mut out: Vec<VideoFile> = Vec::new();
    let mut k: usize = 0;
    assert(orig.len() == rest.len());
    while rest.len() > 0
        invariant
            k <= orig.len(),
            orig.len() <= usize::MAX,
            rest@ == orig.skip(k as int),
            less == (if newest {
                |a: VideoFile, b: VideoFile| newest_first(a, b)
            } else {
                |a: VideoFile, b: VideoFile| by_name(a, b)
            }),
            out@ == stable_sort(orig.take(k as int), less),
        decreases rest.len(),
    {
        assert(rest@.len() == orig.len() - k);
        let x = rest.remove(0);
        assert(x == orig[k as int]);
        let mut i: usize = 0;
        while i < out.len() && !goes_before_video(&x, &out[i], newest)
            invariant
                i <= out.len(),
                forall|j: int| 0 <= j < i ==> !less(x, #[trigger] out@[j]),
                less == (if newest {
                    |a: VideoFile, b: VideoFile| newest_first(a, b)
                } else {
                    |a: VideoFile, b: VideoFile| by_name(a, b)
                }),
            decreases out.len() - i,
        {
            i += 1;
        }
        proof {
            lemma_insert_at(out@, x, less, i as int);
            assert(orig.take(k + 1).drop_last() =~= orig.take(k as int));
            assert(orig.take(k + 1).last() == x);
        }
        out.insert(i, x);
        k += 1;
        assert(rest@ =~= orig.skip(k as int));
    }
    assert(orig.take(k as int) =~= orig);
    out
}

/// Videos in the order of their names.
pub fn sort_by_name(v: Vec<VideoFile>) -> (r: Vec<VideoFile>)
    ensures
        r@ == stable_sort(v@, |a: VideoFile, b: VideoFile| by_name(a, b)),
{
    sort_videos(v, false)
}

/// Videos newest first, by their modification dates.
pub fn sort_newest_first(v: Vec<VideoFile>) -> (r: Vec<VideoFile>)
    ensures
        r@ == stable_sort(v@, |a: VideoFile, b: VideoFile| newest_first(a, b)),
{
    sort_videos(v, true)
}

/// Playlists in the order of their names.
pub fn sort_playlists(v: Vec<PlaylistFolder>) -> (r: Vec<PlaylistFolder>)
    ensures
        r@ == stable_sort(v@, |a: PlaylistFolder, b: PlaylistFolder| playlist_by_name(a, b)),
{
    let ghost less = |a: PlaylistFolder, b: PlaylistFolder| playlist_by_name(a, b);
    let ghost orig = v@;
    let mut rest = v;
    let mut out: Vec<PlaylistFolder> = Vec::new();
    let mut k: usize = 0;
    assert(orig.len() == rest.len());
    while rest.len() > 0
        invariant
            k <= orig.len(),
            orig.len() <= usize::MAX,
            rest@ == orig.skip(k as int),
            less == |a: PlaylistFolder, b: PlaylistFolder| playlist_by_name(a, b),
            out@ == stable_sort(orig.take(k as int), less),
        decreases rest.len(),
    {
        assert(rest@.len() == orig.len() - k);
        let x = rest.remove(0);
        assert(x == orig[k as int]);
        let xn = chars_of(x.name.as_str());
        let mut i: usize = 0;
        while i < out.len() && !lex_less(&xn, &chars_of(out[i].name.as_str()))
            invariant
                i <= out.len(),
                xn@ == x.name@,
                forall|j: int| 0 <= j < i ==> !less(x, #[trigger] out@[j]),
                less == |a: PlaylistFolder, b: PlaylistFolder| playlist_by_name(a, b),
            decreases out.len() - i,
        {
            i += 1;
        }
        proof {
            lemma_insert_at(out@, x, less, i as int);
            assert(orig.take(k + 1).drop_last() =~= orig.take(k as int));
            assert(orig.take(k + 1).last() == x);
        }
        out.insert(i, x);
        k += 1;
        assert(rest@ =~= orig.skip(k as int));
    }
    assert(orig.take(k as int) =~= orig);
    out
}


// ---------------------------------------------------------------------------
// Building the library
// ---------------------------------------------------------------------------

/// The `"%Y-%m-%d %H:%M"` text that chrono writes for the UTC time `secs`
/// seconds after the Unix epoch (the epoch itself when chrono cannot
/// represent that time); it depends on `secs` alone.
pub uninterp spec fn utc_minute_text(secs: u64) -> Seq<char>;

/// `chrono::DateTime::<Utc>::from_timestamp(secs, 0)`, the epoch when that
/// is `None`, then `format("%Y-%m-%d %H:%M")`. Claimed: the text is
/// `utc_minute_text(secs)`; the calendar arithmetic is not stated here.
#[verifier::external_body]
fn format_utc_minute(secs: u64) -> (r: String)
    ensures
        r@ == utc_minute_text(secs),
{
    let t: chrono::DateTime<chrono::Utc> = chrono::DateTime::from_timestamp(secs as i64, 0).unwrap_or_default();
    t.format("%Y-%m-%d %H:%M").to_string()
}

/// The date a file shows: its modification time to the minute, or
/// `Unknown` when the system does not tell it.
pub fn modified_text(secs: Option<u64>) -> (r: String)
    ensures
        r@ == match secs {
            Some(s) => utc_minute_text(s),
            None => "Unknown"@,
        },
{
    match secs {
        Some(s) => format_utc_minute(s),
        None => crate::text::owned("Unknown"),
    }
}

/// A video file of the library; `modified_secs` is its modification time in
/// seconds after the Unix epoch, when the system tells it.
pub fn video_file(name: String, path: String, size: u64, modified_secs: Option<u64>, extension: String) -> (r: VideoFile)
    ensures
        r.name == name,
        r.path == path,
        r.size == size,
        r.modified_date@ == match modified_secs {
            Some(s) => utc_minute_text(s),
            None => "Unknown"@,
        },
        r.extension == extension,
{
    VideoFile { name, path, size, modified_date: modified_text(modified_secs), extension }
}

/// A folder as a playlist: its videos by name, the first one's path as its
/// thumbnail; none when it holds no video.
pub fn playlist_folder(name: String, path: String, videos: Vec<VideoFile>) -> (r: Option<PlaylistFolder>)
    ensures
        videos@.len() == 0 ==> r is None,
        videos@.len() > 0 ==> (r matches Some(p) && {
            &&& p.name == name
            &&& p.path == path
            &&& p.videos@ == stable_sort(videos@, |a: VideoFile, b: VideoFile| by_name(a, b))
            &&& p.video_count == p.videos@.len()
            &&& p.thumbnail_path == Some(p.videos@[0].path)
        }),
{
    if videos.len() == 0 {
        return None;
    }
    let ghost n = videos@.len();
    let sorted = sort_by_name(videos);
    proof {
        lemma_stable_sort_len(videos@, |a: VideoFile, b: VideoFile| by_name(a, b));
    }
    let thumbnail_path = Some(sorted[0].path.clone());
    let video_count = sorted.len();
    Some(PlaylistFolder { name, path, video_count, thumbnail_path, videos: sorted })
}

/// The library: playlists by name, single videos newest first.
pub fn library_content(playlists: Vec<PlaylistFolder>, singles: Vec<VideoFile>) -> (r: LibraryContent)
    ensures
        r.playlists@ == stable_sort(
            playlists@,
            |a: PlaylistFolder, b: PlaylistFolder| playlist_by_name(a, b),
        ),
        r.singles@ == stable_sort(singles@, |a: VideoFile, b: VideoFile| newest_first(a, b)),
{
    LibraryContent { playlists: sort_playlists(playlists), singles: sort_newest_first(singles) }
}

// ---------------------------------------------------------------------------
// What the order keeps
// ---------------------------------------------------------------------------

proof fn lemma_insert_sorted_multiset<T>(s: Seq<T>, x: T, less: spec_fn(T, T) -> bool)
    ensures
        insert_sorted(s, x, less).to_multiset() == s.to_multiset().insert(x),
        insert_sorted(s, x, less).len() == s.len() + 1,
    decreases s.len(),
{
    broadcast use vstd::seq_lib::group_to_multiset_ensures;
    if s.len() == 0 {
        assert(seq![x] =~= Seq::<T>::empty().push(x));
    } else if less(x, s[0]) {
        assert(seq![x] + s =~= s.insert(0, x));
        s.to_multiset_ensures();
        vstd::seq_lib::lemma_seq_union_to_multiset_commutative(seq![x], s);
        vstd::seq_lib::lemma_multiset_commutative(seq![x], s);
        assert(seq![x] =~= Seq::<T>::empty().push(x));
    } else {
        let t = s.drop_first();
        lemma_insert_sorted_multiset(t, x, less);
        vstd::seq_lib::lemma_multiset_commutative(seq![s[0]], insert_sorted(t, x, less));
        vstd::seq_lib::lemma_multiset_commutative(seq![s[0]], t);
        assert(seq![s[0]] + t =~= s);
        assert(seq![s[0]] =~= Seq::<T>::empty().push(s[0]));
    }
}

proof fn lemma_stable_sort_len<T>(s: Seq<T>, less: spec_fn(T, T) -> bool)
    ensures
        stable_sort(s, less).len() == s.len(),
    decreases s.len(),
{
    if s.len() > 0 {
        lemma_stable_sort_len(s.drop_last(), less);
        lemma_insert_sorted_multiset(stable_sort(s.drop_last(), less), s.last(), less);
    }
}

/// Law: sorting keeps every element, as often as it occurs.
pub proof fn lemma_stable_sort_permutes<T>(s: Seq<T>, less: spec_fn(T, T) -> bool)
    ensures
        stable_sort(s, less).to_multiset() == s.to_multiset(),
    decreases s.len(),
{
    broadcast use vstd::seq_lib::group_to_multiset_ensures;
    if s.len() > 0 {
        lemma_stable_sort_permutes(s.drop_last(), less);
        lemma_insert_sorted_multiset(stable_sort(s.drop_last(), less), s.last(), less);
        assert(s.drop_last().push(s.last()) =~= s);
    }
}

/// Sorted by `less`: no element goes strictly before the one in front of it.
pub open spec fn sorted_by<T>(s: Seq<T>, less: spec_fn(T, T) -> bool) -> bool {
    forall|k: int| 0 < k < s.len() ==> !less(#[trigger] s[k], s[k - 1])
}


/// `lex_lt` never holds both ways.
pub proof fn lemma_lex_lt_asymmetric(a: Seq<char>, b: Seq<char>)
    ensures
        lex_lt(a, b) ==> !lex_lt(b, a),
    decreases a.len(),
{
    if a.len() > 0 && b.len() > 0 && a[0] == b[0] {
        lemma_lex_lt_asymmetric(a.drop_first(), b.drop_first());
    }
}

proof fn lemma_insert_sorted_sorted<T>(s: Seq<T>, x: T, less: spec_fn(T, T) -> bool)
    requires
        sorted_by(s, less),
        forall|a: T, b: T| #[trigger] less(a, b) ==> !less(b, a),
    ensures
        sorted_by(insert_sorted(s, x, less), less),
        s.len() > 0 ==> insert_sorted(s, x, less)[0] == x || insert_sorted(s, x, less)[0] == s[0],
    decreases s.len(),
{
    if s.len() == 0 {
    } else if less(x, s[0]) {
        let r = seq![x] + s;
        assert forall|k: int| 0 < k < r.len() implies !less(#[trigger] r[k], r[k - 1]) by {
            if k == 1 {
                assert(r[1] == s[0] && r[0] == x);
            } else {
                assert(r[k] == s[k - 1] && r[k - 1] == s[k - 2]);
            }
        }
    } else {
        let t = s.drop_first();
        assert(sorted_by(t, less)) by {
            assert forall|k: int| 0 < k < t.len() implies !less(#[trigger] t[k], t[k - 1]) by {
                assert(t[k] == s[k + 1] && t[k - 1] == s[k]);
            }
        }
        lemma_insert_sorted_sorted(t, x, less);
        lemma_insert_sorted_multiset(t, x, less);
        let it = insert_sorted(t, x, less);
        let r = seq![s[0]] + it;
        assert forall|k: int| 0 < k < r.len() implies !less(#[trigger] r[k], r[k - 1]) by {
            if k == 1 {
                assert(r[1] == it[0] && r[0] == s[0]);
                if t.len() > 0 {
                    assert(t[0] == s[1]);
                    assert(!less(s[1], s[0]));
                }
            } else {
                assert(r[k] == it[k - 1] && r[k - 1] == it[k - 2]);
            }
        }
    }
}

/// Law: when `less` never holds both ways, the stable sort is sorted by it.
pub proof fn lemma_stable_sort_sorted<T>(s: Seq<T>, less: spec_fn(T, T) -> bool)
    requires
        forall|a: T, b: T| #[trigger] less(a, b) ==> !less(b, a),
    ensures
        sorted_by(stable_sort(s, less), less),
    decreases s.len(),
{
    if s.len() > 0 {
        lemma_stable_sort_sorted(s.drop_last(), less);
        lemma_insert_sorted_sorted(stable_sort(s.drop_last(), less), s.last(), less);
    }
}

/// Law: the library shows every playlist and every single video it was
/// given, playlists in the order of their names and single videos newest
/// first.
pub proof fn lemma_library_order(playlists: Seq<PlaylistFolder>, singles: Seq<VideoFile>)
    ensures
        sorted_by(
            stable_sort(playlists, |a: PlaylistFolder, b: PlaylistFolder| playlist_by_name(a, b)),
            |a: PlaylistFolder, b: PlaylistFolder| playlist_by_name(a, b),
        ),
        stable_sort(
            playlists,
            |a: PlaylistFolder, b: PlaylistFolder| playlist_by_name(a, b),
        ).to_multiset() == playlists.to_multiset(),
        sorted_by(
            stable_sort(singles, |a: VideoFile, b: VideoFile| newest_first(a, b)),
            |a: VideoFile, b: VideoFile| newest_first(a, b),
        ),
        stable_sort(singles, |a: VideoFile, b: VideoFile| newest_first(a, b)).to_multiset()
            == singles.to_multiset(),
{
    let pl = |a: PlaylistFolder, b: PlaylistFolder| playlist_by_name(a, b);
    let nf = |a: VideoFile, b: VideoFile| newest_first(a, b);
    assert forall|a: PlaylistFolder, b: PlaylistFolder| #[trigger] pl(a, b) implies !pl(b, a) by {
        lemma_lex_lt_asymmetric(a.name@, b.name@);
    }
    assert forall|a: VideoFile, b: VideoFile| #[trigger] nf(a, b) implies !nf(b, a) by {
        lemma_lex_lt_asymmetric(b.modified_date@, a.modified_date@);
    }
    lemma_stable_sort_sorted(playlists, pl);
    lemma_stable_sort_permutes(playlists, pl);
    lemma_stable_sort_sorted(singles, nf);
    lemma_stable_sort_permutes(singles, nf);
}

} // verus!
