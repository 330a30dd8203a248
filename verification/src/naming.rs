//! Names the toolkit derives from user input: job and file slugs, the stem
//! and extension of a file or URL, and the names of output files.

use vstd::prelude::*;
use crate::text::{
    chars_eq_str, chars_of, dec, find_exec, find_set, in_set, is_alnum, is_alnum_exec,
    lemma_dec_digits, lemma_find, lemma_find_bounds, lemma_rfind, lemma_rfind_bounds,
    lemma_trim_end, lemma_trim_end_shape, lemma_trim_start_shape, lower, lower_all, lower_all_exec,
    lower_exec, push_all, push_char, push_decimal, rfind_exec, rfind_set, slice_chars, string_of,
    trim_end_exec, trim_end_set, trim_exec, trim_set, trim_start_exec, trim_start_set, CharSet,
};

verus! {

/// A lower-case ASCII letter or a digit.
pub open spec fn is_slug_char(c: char) -> bool {
    ('0' <= c && c <= '9') || ('a' <= c && c <= 'z')
}

/// The slug rule before trimming: letters and digits are kept in lower case,
/// every run of other characters becomes one `-`.
pub open spec fn slug_raw(s: Seq<char>) -> Seq<char>
    decreases s.len(),
{
    if s.len() == 0 {
        Seq::<char>::empty()
    } else {
        let p = slug_raw(s.drop_last());
        let c = s.last();
        if is_alnum(c) {
            p.push(lower(c))
        } else if p.len() > 0 && p.last() == '-' {
            p
        } else {
            p.push('-')
        }
    }
}

/// The word `job`, which stands in for an empty slug.
pub open spec fn job_word() -> Seq<char> {
    seq!['j', 'o', 'b']
}

/// The slug of `s`: `slug_raw` without leading and trailing `-`, or `job`
/// where nothing is left.
pub open spec fn slug_spec(s: Seq<char>) -> Seq<char> {
    let t = trim_set(slug_raw(s), CharSet::Dash);
    if t.len() == 0 {
        job_word()
    } else {
        t
    }
}

/// Lower-case letters, digits and single `-` between them: what a slug is
/// made of.
pub open spec fn is_clean(t: Seq<char>) -> bool {
    &&& forall|i: int| 0 <= i < t.len() ==> is_slug_char(#[trigger] t[i]) || t[i] == '-'
    &&& forall|i: int| 0 <= i < t.len() - 1 ==> !(#[trigger] t[i] == '-' && t[i + 1] == '-')
}

/// A well-formed slug: clean, not empty, and neither starting nor ending
/// with `-`.
pub open spec fn is_slug(t: Seq<char>) -> bool {
    &&& is_clean(t)
    &&& t.len() > 0
    &&& t[0] != '-'
    &&& t.last() != '-'
}

/// Turns any text into a name safe for a folder or file: ASCII letters and
/// digits in lower case, every run of other characters as one `-`, no `-`
/// at either end; `job` where nothing is left.
pub fn slug(value: &str) -> (r: String)
    ensures
        r@ == slug_spec(value@),
        is_slug(r@),
{
    let cs = chars_of(value);
    let mut out: Vec<char> = Vec::new();
    let mut i: usize = 0;
    while i < cs.len()
        invariant
            i <= cs.len(),
            out@ == slug_raw(cs@.take(i as int)),
        decreases cs.len() - i,
    {
        let c = cs[i];
        proof {
            assert(cs@.take(i + 1).drop_last() =~= cs@.take(i as int));
        }
        if is_alnum_exec(c) {
            let l = lower_exec(c);
            out.push(l);
        } else if !(out.len() > 0 && out[out.len() - 1] == '-') {
            out.push('-');
        }
        i += 1;
    }
    proof {
        assert(cs@.take(cs.len() as int) =~= cs@);
        lemma_slug_spec_is_slug(value@);
    }
    let t = trim_exec(&out, CharSet::Dash);
    if t.len() == 0 {
        let job = vec!['j', 'o', 'b'];
        assert(job@ =~= job_word());
        string_of(&job)
    } else {
        string_of(&t)
    }
}

/// What `slug_raw` builds is clean.
proof fn lemma_slug_raw_clean(s: Seq<char>)
    ensures
        is_clean(slug_raw(s)),
    decreases s.len(),
{
    if s.len() > 0 {
        lemma_slug_raw_clean(s.drop_last());
        let p = slug_raw(s.drop_last());
        let r = slug_raw(s);
        assert forall|i: int| 0 <= i < r.len() implies is_slug_char(#[trigger] r[i]) || r[i]
            == '-' by {
            if i < p.len() {
                assert(r[i] == p[i]);
            }
        }
        assert forall|i: int| 0 <= i < r.len() - 1 implies !(#[trigger] r[i] == '-' && r[i + 1]
            == '-') by {
            if i + 1 < p.len() {
                assert(r[i] == p[i] && r[i + 1] == p[i + 1]);
            }
        }
    }
}

/// A piece of a clean text is clean.
proof fn lemma_clean_subrange(t: Seq<char>, a: int, b: int)
    requires
        is_clean(t),
        0 <= a <= b <= t.len(),
    ensures
        is_clean(t.subrange(a, b)),
{
    let u = t.subrange(a, b);
    assert forall|i: int| 0 <= i < u.len() implies is_slug_char(#[trigger] u[i]) || u[i]
        == '-' by {
        assert(u[i] == t[i + a]);
    }
    assert forall|i: int| 0 <= i < u.len() - 1 implies !(#[trigger] u[i] == '-' && u[i + 1]
        == '-') by {
        assert(u[i] == t[i + a] && u[i + 1] == t[i + 1 + a]);
    }
}

/// Every slug is well formed.
proof fn lemma_slug_spec_is_slug(s: Seq<char>)
    ensures
        is_slug(slug_spec(s)),
{
    let r = slug_raw(s);
    lemma_slug_raw_clean(s);
    let a = lemma_trim_start_shape(r, CharSet::Dash);
    let ts = trim_start_set(r, CharSet::Dash);
    assert(ts =~= r.subrange(a, r.len() as int));
    lemma_clean_subrange(r, a, r.len() as int);
    let b = lemma_trim_end_shape(ts, CharSet::Dash);
    let t = trim_end_set(ts, CharSet::Dash);
    assert(t =~= ts.subrange(0, b));
    lemma_clean_subrange(ts, 0, b);
    if t.len() > 0 {
        assert(t[0] == ts[0]);
        assert(t.last() == ts[b - 1]);
    } else {
        let j = job_word();
        assert(is_clean(j)) by {
            assert forall|i: int| 0 <= i < j.len() implies is_slug_char(#[trigger] j[i]) || j[i]
                == '-' by {}
        }
    }
}

/// A clean text goes through `slug_raw` unchanged.
proof fn lemma_slug_raw_fixed(t: Seq<char>)
    requires
        is_clean(t),
    ensures
        slug_raw(t) == t,
    decreases t.len(),
{
    if t.len() > 0 {
        let p = t.drop_last();
        lemma_clean_subrange(t, 0, t.len() - 1);
        assert(p =~= t.subrange(0, t.len() - 1));
        lemma_slug_raw_fixed(p);
        let c = t.last();
        assert(is_slug_char(c) || c == '-');
        if c == '-' && p.len() > 0 {
            assert(t[t.len() - 2] != '-');
        }
        assert(slug_raw(t) =~= t);
    }
}

/// Taking the slug of a slug changes nothing: `slug(slug(x)) == slug(x)`.
pub proof fn lemma_slug_idempotent(s: Seq<char>)
    ensures
        slug_spec(slug_spec(s)) == slug_spec(s),
{
    let t = slug_spec(s);
    lemma_slug_spec_is_slug(s);
    lemma_slug_raw_fixed(t);
    assert(trim_start_set(t, CharSet::Dash) == t);
    assert(trim_end_set(t, CharSet::Dash) == t);
}

/// A well-formed slug is its own slug.
pub proof fn lemma_slug_of_slug(t: Seq<char>)
    requires
        is_slug(t),
    ensures
        slug_spec(t) == t,
{
    lemma_slug_raw_fixed(t);
    assert(trim_start_set(t, CharSet::Dash) == t);
    assert(trim_end_set(t, CharSet::Dash) == t);
}


// ---------------------------------------------------------------------------
// Stems and extensions of files and URLs

/// `s` up to its first `?` or `#`: a URL without its query and fragment.
pub open spec fn strip_query(s: Seq<char>) -> Seq<char> {
    match find_set(s, CharSet::QueryMark) {
        Some(i) => s.take(i),
        None => s,
    }
}

/// A source without query, fragment and trailing path separators.
pub open spec fn clean_source(s: Seq<char>) -> Seq<char> {
    trim_end_set(strip_query(s), CharSet::PathSep)
}

/// What follows the last `/` or `\` of `s` (all of `s` where it has none).
pub open spec fn last_segment(s: Seq<char>) -> Seq<char> {
    match rfind_set(s, CharSet::PathSep) {
        Some(i) => s.skip(i + 1),
        None => s,
    }
}

/// `s` before its last `.` (all of `s` where it has none).
pub open spec fn before_last_dot(s: Seq<char>) -> Seq<char> {
    match rfind_set(s, CharSet::Dot) {
        Some(i) => s.take(i),
        None => s,
    }
}

/// What follows the last `.` of `s`, where it has one.
pub open spec fn after_last_dot(s: Seq<char>) -> Option<Seq<char>> {
    match rfind_set(s, CharSet::Dot) {
        Some(i) => Some(s.skip(i + 1)),
        None => None,
    }
}

/// The word `output`, which stands in for a missing file name.
pub open spec fn output_word() -> Seq<char> {
    seq!['o', 'u', 't', 'p', 'u', 't']
}

/// The stem that names the outputs made from a file or URL: the last path
/// segment (`output` where there is none) before its last dot, as a slug.
pub open spec fn stem_spec(source: Seq<char>) -> Seq<char> {
    let seg = last_segment(clean_source(source));
    let name = if seg.len() == 0 {
        output_word()
    } else {
        seg
    };
    slug_spec(before_last_dot(name))
}

/// The extension of a file or URL: what follows the last dot of its last path
/// segment, or `fallback` where that is missing or empty; without leading
/// dots, in lower case.
pub open spec fn extension_spec(source: Seq<char>, fallback: Seq<char>) -> Seq<char> {
    let seg = last_segment(clean_source(source));
    let e = match after_last_dot(seg) {
        Some(e) => if e.len() > 0 {
            e
        } else {
            fallback
        },
        None => fallback,
    };
    lower_all(trim_start_set(e, CharSet::Dot))
}

/// The last path segment of a source, query and fragment taken off.
fn source_segment(cs: &Vec<char>) -> (r: Vec<char>)
    ensures
        r@ == last_segment(clean_source(cs@)),
{
    proof {
        lemma_find_bounds(cs@, CharSet::QueryMark);
    }
    let q = match find_exec(cs, CharSet::QueryMark) {
        Some(i) => slice_chars(cs, 0, i),
        None => slice_chars(cs, 0, cs.len()),
    };
    assert(q@ =~= strip_query(cs@));
    let clean = trim_end_exec(&q, CharSet::PathSep);
    proof {
        lemma_rfind_bounds(clean@, CharSet::PathSep);
    }
    let seg = match rfind_exec(&clean, CharSet::PathSep) {
        Some(i) => slice_chars(&clean, i + 1, clean.len()),
        None => slice_chars(&clean, 0, clean.len()),
    };
    assert(seg@ =~= last_segment(clean@));
    seg
}

/// The stem of a file name or URL, as a slug: `.../Launch Clip.mp4?token=abc`
/// gives `launch-clip`, `https://host/media/` gives `media`.
pub fn input_stem(source: &str) -> (r: String)
    ensures
        r@ == stem_spec(source@),
        is_slug(r@),
{
    let cs = chars_of(source);
    let seg = source_segment(&cs);
    let name = if seg.len() == 0 {
        let o = vec!['o', 'u', 't', 'p', 'u', 't'];
        assert(o@ =~= output_word());
        o
    } else {
        seg
    };
    proof {
        lemma_rfind_bounds(name@, CharSet::Dot);
    }
    let stem = match rfind_exec(&name, CharSet::Dot) {
        Some(i) => slice_chars(&name, 0, i),
        None => slice_chars(&name, 0, name.len()),
    };
    assert(stem@ =~= before_last_dot(name@));
    let stem_text = string_of(&stem);
    slug(stem_text.as_str())
}

/// The extension of a file name or URL in lower case, or `fallback` where it
/// has none: `.../Launch Clip.MP4?token=abc` gives `mp4`.
pub fn input_extension(source: &str, fallback: &str) -> (r: String)
    ensures
        r@ == extension_spec(source@, fallback@),
{
    let cs = chars_of(source);
    let seg = source_segment(&cs);
    proof {
        lemma_rfind_bounds(seg@, CharSet::Dot);
    }
    let e = match rfind_exec(&seg, CharSet::Dot) {
        Some(i) => {
            let e = slice_chars(&seg, i + 1, seg.len());
            if e.len() > 0 {
                e
            } else {
                chars_of(fallback)
            }
        },
        None => chars_of(fallback),
    };
    let t = trim_start_exec(&e, CharSet::Dot);
    let l = lower_all_exec(&t);
    string_of(&l)
}

/// A URL's query or fragment does not change the names made from it: the
/// stem and the extension of `s?q` (or `s#q`) are those of `s`.
pub proof fn lemma_names_ignore_query(s: Seq<char>, mark: char, q: Seq<char>, fallback: Seq<char>)
    requires
        find_set(s, CharSet::QueryMark) is None,
        mark == '?' || mark == '#',
    ensures
        stem_spec(s + seq![mark] + q) == stem_spec(s),
        extension_spec(s + seq![mark] + q, fallback) == extension_spec(s, fallback),
{
    let t = s + seq![mark] + q;
    lemma_find_bounds(s, CharSet::QueryMark);
    assert forall|j: int| 0 <= j < s.len() implies !crate::text::in_set(
        CharSet::QueryMark,
        #[trigger] t[j],
    ) by {
        assert(t[j] == s[j]);
    }
    assert(t[s.len() as int] == mark);
    lemma_find(t, CharSet::QueryMark, s.len() as int);
    assert(strip_query(t) =~= s);
    assert(strip_query(s) == s);
}

/// A slug holds none of `?`, `#`, `/`, `\` and `.`.
proof fn lemma_slug_has_no_marks(t: Seq<char>)
    requires
        is_slug(t),
    ensures
        find_set(t, CharSet::QueryMark) is None,
        rfind_set(t, CharSet::PathSep) is None,
        rfind_set(t, CharSet::Dot) is None,
        trim_end_set(t, CharSet::PathSep) == t,
{
    assert forall|j: int| 0 <= j < t.len() implies !in_set(CharSet::QueryMark, #[trigger] t[j])
        && !in_set(CharSet::PathSep, t[j]) && !in_set(CharSet::Dot, t[j]) by {
        assert(is_slug_char(t[j]) || t[j] == '-');
    }
    lemma_find(t, CharSet::QueryMark, t.len() as int);
    lemma_rfind(t, CharSet::PathSep, 0);
    lemma_rfind(t, CharSet::Dot, 0);
    lemma_trim_end(t, CharSet::PathSep, t.len() as int);
    assert(t.take(t.len() as int) =~= t);
}

/// Names made from inputs are stable: the stem of a stem is the stem itself,
/// so an output named after an input names its own outputs the same way.
pub proof fn lemma_stem_stable(source: Seq<char>)
    ensures
        stem_spec(stem_spec(source)) == stem_spec(source),
{
    let t = stem_spec(source);
    lemma_slug_spec_is_slug(
        before_last_dot(
            if last_segment(clean_source(source)).len() == 0 {
                output_word()
            } else {
                last_segment(clean_source(source))
            },
        ),
    );
    lemma_slug_has_no_marks(t);
    assert(strip_query(t) == t);
    assert(clean_source(t) == t);
    assert(last_segment(t) == t);
    assert(before_last_dot(t) == t);
    lemma_slug_of_slug(t);
}

/// The file name an output made from `source` gets: its stem, a dot, and the
/// extension without leading dots.
pub open spec fn output_name_spec(source: Seq<char>, extension: Seq<char>) -> Seq<char> {
    stem_spec(source) + seq!['.'] + trim_start_set(extension, CharSet::Dot)
}

/// The file name for an output made from `source` with the given extension,
/// such as `launch-clip.mp4`.
pub fn output_file_name(source: &str, extension: &str) -> (r: String)
    ensures
        r@ == output_name_spec(source@, extension@),
{
    let mut r = input_stem(source);
    push_char(&mut r, '.');
    let e = chars_of(extension);
    let t = trim_start_exec(&e, CharSet::Dot);
    push_all(&mut r, &t);
    r
}

/// The stem and extension of a file name, as `std::path` reads them: split at
/// the last dot, except where that dot is the first character.
pub open spec fn split_file_name(name: Seq<char>) -> (Seq<char>, Option<Seq<char>>) {
    match rfind_set(name, CharSet::Dot) {
        Some(i) => if i > 0 {
            (name.take(i), Some(name.skip(i + 1)))
        } else {
            (name, None)
        },
        None => (name, None),
    }
}

/// The name tried when `name` is taken: `-` and the number after the stem,
/// before the extension.
pub open spec fn numbered_name_spec(name: Seq<char>, index: nat) -> Seq<char> {
    let (stem, ext) = split_file_name(name);
    match ext {
        Some(e) => stem + seq!['-'] + dec(index) + seq!['.'] + e,
        None => stem + seq!['-'] + dec(index),
    }
}

/// The `index`-th alternative to a file name that is already taken:
/// `clip.mp4` becomes `clip-2.mp4`, `convert` becomes `convert-2`.
pub fn numbered_file_name(name: &str, index: u64) -> (r: String)
    ensures
        r@ == numbered_name_spec(name@, index as nat),
{
    let cs = chars_of(name);
    proof {
        lemma_rfind_bounds(cs@, CharSet::Dot);
    }
    let split = match rfind_exec(&cs, CharSet::Dot) {
        Some(i) => if i > 0 {
            Some(i)
        } else {
            None
        },
        None => None,
    };
    let mut r = String::new();
    match split {
        Some(i) => {
            let stem = slice_chars(&cs, 0, i);
            let ext = slice_chars(&cs, i + 1, cs.len());
            push_all(&mut r, &stem);
            push_char(&mut r, '-');
            push_decimal(&mut r, index);
            push_char(&mut r, '.');
            push_all(&mut r, &ext);
        },
        None => {
            push_all(&mut r, &cs);
            push_char(&mut r, '-');
            push_decimal(&mut r, index);
        },
    }
    assert(r@ =~= numbered_name_spec(name@, index as nat));
    r
}

/// The alternatives to a taken file name never overwrite it or each other:
/// each differs from the name, and different numbers give different names.
pub proof fn lemma_numbered_names_distinct(name: Seq<char>, i: nat, j: nat)
    ensures
        numbered_name_spec(name, i) != name,
        i != j ==> numbered_name_spec(name, i) != numbered_name_spec(name, j),
{
    lemma_dec_digits(i);
    lemma_dec_digits(j);
    lemma_rfind_bounds(name, CharSet::Dot);
    let (stem, ext) = split_file_name(name);
    let ni = numbered_name_spec(name, i);
    let nj = numbered_name_spec(name, j);
    match ext {
        Some(e) => {
            assert(stem.len() + 1 + e.len() == name.len());
        },
        None => {},
    }
    assert(ni.len() > name.len());
    if i != j && ni == nj {
        let a = stem.len() + 1;
        let di = dec(i);
        let dj = dec(j);
        if di.len() == dj.len() {
            assert(ni.subrange(a as int, (a + di.len()) as int) =~= di);
            assert(nj.subrange(a as int, (a + dj.len()) as int) =~= dj);
            assert(di == dj);
        } else {
            assert(ni.len() != nj.len());
        }
    }
}

// ---------------------------------------------------------------------------
// Escaping

/// How one character is written in a path inside an ffmpeg filter: `\`
/// becomes `/`, and `:` and `'` get a backslash in front.
pub open spec fn filter_path_piece(c: char) -> Seq<char> {
    if c == '\\' {
        seq!['/']
    } else if c == ':' {
        seq!['\\', ':']
    } else if c == '\'' {
        seq!['\\', '\'']
    } else {
        seq![c]
    }
}

/// A path as it is written inside an ffmpeg filter argument.
pub open spec fn filter_path_spec(s: Seq<char>) -> Seq<char>
    decreases s.len(),
{
    if s.len() == 0 {
        Seq::<char>::empty()
    } else {
        filter_path_spec(s.drop_last()) + filter_path_piece(s.last())
    }
}

/// Writes a path so that ffmpeg's filter syntax reads it back: backslashes as
/// slashes, `:` and `'` escaped.
pub fn ffmpeg_filter_path(path: &str) -> (r: String)
    ensures
        r@ == filter_path_spec(path@),
{
    let cs = chars_of(path);
    let mut r = String::new();
    let mut i: usize = 0;
    while i < cs.len()
        invariant
            i <= cs.len(),
            r@ == filter_path_spec(cs@.take(i as int)),
        decreases cs.len() - i,
    {
        let c = cs[i];
        proof {
            assert(cs@.take(i + 1).drop_last() =~= cs@.take(i as int));
        }
        if c == '\\' {
            push_char(&mut r, '/');
        } else if c == ':' {
            push_char(&mut r, '\\');
            push_char(&mut r, ':');
        } else if c == '\'' {
            push_char(&mut r, '\\');
            push_char(&mut r, '\'');
        } else {
            push_char(&mut r, c);
        }
        i += 1;
        assert(r@ =~= filter_path_spec(cs@.take(i as int)));
    }
    assert(cs@.take(cs.len() as int) =~= cs@);
    r
}

// ---------------------------------------------------------------------------
// Media files

/// The extensions of the files that folder jobs pick up.
pub open spec fn media_extensions() -> Seq<Seq<char>> {
    seq![
        "mp4"@,
        "mov"@,
        "mkv"@,
        "webm"@,
        "avi"@,
        "mp3"@,
        "wav"@,
        "m4a"@,
        "flac"@,
        "png"@,
        "jpg"@,
        "jpeg"@,
        "webp"@,
    ]
}

/// Whether a file extension, in any case of its ASCII letters, is one of the
/// media extensions.
pub fn is_media_extension(ext: &str) -> (r: bool)
    ensures
        r == media_extensions().contains(lower_all(ext@)),
{
    let exts: [&str; 13] = [
        "mp4",
        "mov",
        "mkv",
        "webm",
        "avi",
        "mp3",
        "wav",
        "m4a",
        "flac",
        "png",
        "jpg",
        "jpeg",
        "webp",
    ];
    let cs = chars_of(ext);
    let l = lower_all_exec(&cs);
    let ghost m = media_extensions();
    assert(forall|j: int| 0 <= j < 13 ==> (#[trigger] exts@[j])@ == m[j]);
    let mut i: usize = 0;
    while i < 13
        invariant
            i <= 13,
            m == media_extensions(),
            m.len() == 13,
            l@ == lower_all(ext@),
            forall|j: int| 0 <= j < 13 ==> (#[trigger] exts@[j])@ == m[j],
            forall|j: int| 0 <= j < i ==> m[j] != l@,
        decreases 13 - i,
    {
        if chars_eq_str(&l, exts[i]) {
            assert(m[i as int] == l@);
            assert(m.contains(l@));
            return true;
        }
        i += 1;
    }
    assert(!m.contains(l@));
    false
}

} // verus!
