//! Character-level helpers shared by the rest of the library: the ASCII and
//! Unicode character classes that the naming rules use, trimming, searching,
//! and decimal rendering of integers.

use vstd::prelude::*;

verus! {

/// std's `String::push`. Claimed: the string afterwards is the string before
/// with `c` added at the end, as the documentation of `String::push` says.
#[verifier::external_body]
pub(crate) fn push_char(s: &mut String, c: char)
    ensures
        final(s)@ == old(s)@.push(c),
{
    s.push(c);
}

/// The characters of a string slice, in order.
pub fn chars_of(s: &str) -> (v: Vec<char>)
    ensures
        v@ == s@,
{
    let mut v: Vec<char> = Vec::new();
    for c in it: s.chars()
        invariant
            v@ == it.seq().take(it.index() as int),
    {
        v.push(c);
    }
    v
}

/// A `String` holding the given characters.
pub fn string_of(cs: &Vec<char>) -> (s: String)
    ensures
        s@ == cs@,
{
    let mut s = String::new();
    let mut i: usize = 0;
    while i < cs.len()
        invariant
            i <= cs.len(),
            s@ == cs@.take(i as int),
        decreases cs.len() - i,
    {
        push_char(&mut s, cs[i]);
        i += 1;
        assert(s@ =~= cs@.take(i as int));
    }
    assert(cs@.take(cs.len() as int) =~= cs@);
    s
}

/// Appends every character of `cs` to `s`.
pub fn push_all(s: &mut String, cs: &Vec<char>)
    ensures
        final(s)@ == old(s)@ + cs@,
{
    let mut i: usize = 0;
    while i < cs.len()
        invariant
            i <= cs.len(),
            s@ == old(s)@ + cs@.take(i as int),
        decreases cs.len() - i,
    {
        push_char(s, cs[i]);
        i += 1;
        assert(s@ =~= old(s)@ + cs@.take(i as int));
    }
    assert(cs@.take(cs.len() as int) =~= cs@);
}

/// Appends the characters of `t` to `s`.
pub fn push_str(s: &mut String, t: &str)
    ensures
        final(s)@ == old(s)@ + t@,
{
    let cs = chars_of(t);
    push_all(s, &cs);
}

/// The characters `cs[lo..hi]`.
pub fn slice_chars(cs: &Vec<char>, lo: usize, hi: usize) -> (r: Vec<char>)
    requires
        lo <= hi <= cs.len(),
    ensures
        r@ == cs@.subrange(lo as int, hi as int),
{
    let mut r: Vec<char> = Vec::new();
    let mut i = lo;
    while i < hi
        invariant
            lo <= i <= hi <= cs.len(),
            r@ == cs@.subrange(lo as int, i as int),
        decreases hi - i,
    {
        r.push(cs[i]);
        i += 1;
        assert(r@ =~= cs@.subrange(lo as int, i as int));
    }
    r
}

/// Whether two character sequences are equal.
pub fn chars_eq(a: &Vec<char>, b: &Vec<char>) -> (r: bool)
    ensures
        r == (a@ == b@),
{
    if a.len() != b.len() {
        return false;
    }
    let mut i: usize = 0;
    while i < a.len()
        invariant
            a.len() == b.len(),
            i <= a.len(),
            forall|j: int| 0 <= j < i ==> a@[j] == b@[j],
        decreases a.len() - i,
    {
        if a[i] != b[i] {
            return false;
        }
        i += 1;
    }
    assert(a@ =~= b@);
    true
}

/// Whether the characters of `a` are those of the string `b`.
pub fn chars_eq_str(a: &Vec<char>, b: &str) -> (r: bool)
    ensures
        r == (a@ == b@),
{
    let bs = chars_of(b);
    chars_eq(a, &bs)
}

// ---------------------------------------------------------------------------
// Character classes

/// An ASCII decimal digit (`char::is_ascii_digit`).
pub open spec fn is_digit(c: char) -> bool {
    '0' <= c && c <= '9'
}

/// An ASCII letter or digit (`char::is_ascii_alphanumeric`).
pub open spec fn is_alnum(c: char) -> bool {
    ||| ('0' <= c && c <= '9')
    ||| ('a' <= c && c <= 'z')
    ||| ('A' <= c && c <= 'Z')
}

/// An ASCII upper-case letter.
pub open spec fn is_upper(c: char) -> bool {
    'A' <= c && c <= 'Z'
}

/// `char::to_ascii_lowercase`: upper-case ASCII letters map to their
/// lower-case form, every other character to itself.
pub open spec fn lower(c: char) -> char {
    if is_upper(c) {
        ((c as int) + 32) as char
    } else {
        c
    }
}

/// `str::to_ascii_lowercase` on a character sequence.
pub open spec fn lower_all(s: Seq<char>) -> Seq<char> {
    s.map_values(|c: char| lower(c))
}

/// Unicode `White_Space` (`char::is_whitespace`).
pub open spec fn is_white(c: char) -> bool {
    ||| ('\u{9}' <= c && c <= '\u{d}')
    ||| c == ' '
    ||| c == '\u{85}'
    ||| c == '\u{a0}'
    ||| c == '\u{1680}'
    ||| ('\u{2000}' <= c && c <= '\u{200a}')
    ||| c == '\u{2028}'
    ||| c == '\u{2029}'
    ||| c == '\u{202f}'
    ||| c == '\u{205f}'
    ||| c == '\u{3000}'
}

pub fn is_digit_exec(c: char) -> (r: bool)
    ensures
        r == is_digit(c),
{
    '0' <= c && c <= '9'
}

pub fn is_alnum_exec(c: char) -> (r: bool)
    ensures
        r == is_alnum(c),
{
    ('0' <= c && c <= '9') || ('a' <= c && c <= 'z') || ('A' <= c && c <= 'Z')
}

pub fn is_white_exec(c: char) -> (r: bool)
    ensures
        r == is_white(c),
{
    ('\u{9}' <= c && c <= '\u{d}') || c == ' ' || c == '\u{85}' || c == '\u{a0}' || c
        == '\u{1680}' || ('\u{2000}' <= c && c <= '\u{200a}') || c == '\u{2028}' || c
        == '\u{2029}' || c == '\u{202f}' || c == '\u{205f}' || c == '\u{3000}'
}

pub fn lower_exec(c: char) -> (r: char)
    ensures
        r == lower(c),
{
    if 'A' <= c && c <= 'Z' {
        let code = c as u32 + 32;
        char_from_ascii(code)
    } else {
        c
    }
}

/// The character with the given code, for codes of printable ASCII letters.
fn char_from_ascii(code: u32) -> (c: char)
    requires
        code < 128,
    ensures
        c == code as char,
{
    let b = code as u8;
    b as char
}

pub fn lower_all_exec(cs: &Vec<char>) -> (r: Vec<char>)
    ensures
        r@ == lower_all(cs@),
{
    let mut r: Vec<char> = Vec::new();
    let mut i: usize = 0;
    while i < cs.len()
        invariant
            i <= cs.len(),
            r@ == lower_all(cs@.take(i as int)),
        decreases cs.len() - i,
    {
        let l = lower_exec(cs[i]);
        r.push(l);
        i += 1;
        assert(r@ =~= lower_all(cs@.take(i as int)));
    }
    assert(cs@.take(cs.len() as int) =~= cs@);
    r
}


// ---------------------------------------------------------------------------
// Sets of characters that the naming rules trim at, split at or search for

/// A small set of characters.
#[derive(Clone, Copy, PartialEq, Eq, Debug)]
pub enum CharSet {
    /// Unicode white space (`char::is_whitespace`).
    White,
    /// The hyphen `-`.
    Dash,
    /// The dot `.`.
    Dot,
    /// The two path separators `/` and `\`.
    PathSep,
    /// The two characters that end a URL's path: `?` and `#`.
    QueryMark,
    /// Every character but the ASCII digits and the dot.
    NonNumeric,
}

pub open spec fn in_set(set: CharSet, c: char) -> bool {
    match set {
        CharSet::White => is_white(c),
        CharSet::Dash => c == '-',
        CharSet::Dot => c == '.',
        CharSet::PathSep => c == '/' || c == '\\',
        CharSet::QueryMark => c == '?' || c == '#',
        CharSet::NonNumeric => !(is_digit(c) || c == '.'),
    }
}

pub fn in_set_exec(set: CharSet, c: char) -> (r: bool)
    ensures
        r == in_set(set, c),
{
    match set {
        CharSet::White => is_white_exec(c),
        CharSet::Dash => c == '-',
        CharSet::Dot => c == '.',
        CharSet::PathSep => c == '/' || c == '\\',
        CharSet::QueryMark => c == '?' || c == '#',
        CharSet::NonNumeric => !(is_digit_exec(c) || c == '.'),
    }
}

/// `s` without its leading characters of `set` (`str::trim_start_matches`).
pub open spec fn trim_start_set(s: Seq<char>, set: CharSet) -> Seq<char>
    decreases s.len(),
{
    if s.len() > 0 && in_set(set, s[0]) {
        trim_start_set(s.drop_first(), set)
    } else {
        s
    }
}

/// `s` without its trailing characters of `set` (`str::trim_end_matches`).
pub open spec fn trim_end_set(s: Seq<char>, set: CharSet) -> Seq<char>
    decreases s.len(),
{
    if s.len() > 0 && in_set(set, s.last()) {
        trim_end_set(s.drop_last(), set)
    } else {
        s
    }
}

/// `s` without leading and trailing characters of `set` (`str::trim_matches`,
/// and `str::trim` for white space).
pub open spec fn trim_set(s: Seq<char>, set: CharSet) -> Seq<char> {
    trim_end_set(trim_start_set(s, set), set)
}

/// The index of the first character of `s` in `set`.
pub open spec fn find_set(s: Seq<char>, set: CharSet) -> Option<int>
    decreases s.len(),
{
    if s.len() == 0 {
        None
    } else if in_set(set, s[0]) {
        Some(0)
    } else {
        match find_set(s.drop_first(), set) {
            Some(i) => Some(i + 1),
            None => None,
        }
    }
}

/// The index of the last character of `s` in `set`.
pub open spec fn rfind_set(s: Seq<char>, set: CharSet) -> Option<int>
    decreases s.len(),
{
    if s.len() == 0 {
        None
    } else if in_set(set, s.last()) {
        Some(s.len() - 1)
    } else {
        rfind_set(s.drop_last(), set)
    }
}

pub proof fn lemma_trim_start(s: Seq<char>, set: CharSet, i: int)
    requires
        0 <= i <= s.len(),
        forall|j: int| 0 <= j < i ==> in_set(set, s[j]),
        i == s.len() || !in_set(set, s[i]),
    ensures
        trim_start_set(s, set) == s.skip(i),
    decreases i,
{
    if i == 0 {
        assert(s.skip(0) =~= s);
    } else {
        let t = s.drop_first();
        assert forall|j: int| 0 <= j < i - 1 implies in_set(set, t[j]) by {
            assert(t[j] == s[j + 1]);
        }
        lemma_trim_start(t, set, i - 1);
        assert(t.skip(i - 1) =~= s.skip(i));
    }
}

pub proof fn lemma_trim_end(s: Seq<char>, set: CharSet, k: int)
    requires
        0 <= k <= s.len(),
        forall|j: int| k <= j < s.len() ==> in_set(set, s[j]),
        k == 0 || !in_set(set, s[k - 1]),
    ensures
        trim_end_set(s, set) == s.take(k),
    decreases s.len() - k,
{
    if k == s.len() {
        assert(s.take(k) =~= s);
    } else {
        let t = s.drop_last();
        assert forall|j: int| k <= j < t.len() implies in_set(set, t[j]) by {
            assert(t[j] == s[j]);
        }
        lemma_trim_end(t, set, k);
        assert(t.take(k) =~= s.take(k));
    }
}

pub proof fn lemma_find(s: Seq<char>, set: CharSet, i: int)
    requires
        0 <= i <= s.len(),
        forall|j: int| 0 <= j < i ==> !in_set(set, s[j]),
    ensures
        i < s.len() && in_set(set, s[i]) ==> find_set(s, set) == Some(i),
        i == s.len() ==> find_set(s, set) is None,
    decreases i,
{
    if i > 0 {
        let t = s.drop_first();
        assert forall|j: int| 0 <= j < i - 1 implies !in_set(set, t[j]) by {
            assert(t[j] == s[j + 1]);
        }
        lemma_find(t, set, i - 1);
    }
}

pub proof fn lemma_rfind(s: Seq<char>, set: CharSet, k: int)
    requires
        0 <= k <= s.len(),
        forall|j: int| k <= j < s.len() ==> !in_set(set, s[j]),
    ensures
        k > 0 && in_set(set, s[k - 1]) ==> rfind_set(s, set) == Some(k - 1),
        k == 0 ==> rfind_set(s, set) is None,
    decreases s.len() - k,
{
    if k < s.len() {
        let t = s.drop_last();
        assert forall|j: int| k <= j < t.len() implies !in_set(set, t[j]) by {
            assert(t[j] == s[j]);
        }
        lemma_rfind(t, set, k);
    } else if k == 0 {
        assert(s.len() == 0);
    }
}

/// Trimming the front leaves a suffix that does not start with the set.
pub proof fn lemma_trim_start_shape(s: Seq<char>, set: CharSet) -> (k: int)
    ensures
        0 <= k <= s.len(),
        trim_start_set(s, set) == s.skip(k),
        k == s.len() || !in_set(set, s[k]),
    decreases s.len(),
{
    if s.len() > 0 && in_set(set, s[0]) {
        let k1 = lemma_trim_start_shape(s.drop_first(), set);
        assert(s.drop_first().skip(k1) =~= s.skip(k1 + 1));
        k1 + 1
    } else {
        assert(s.skip(0) =~= s);
        0
    }
}

/// Trimming the back leaves a prefix that does not end with the set.
pub proof fn lemma_trim_end_shape(s: Seq<char>, set: CharSet) -> (k: int)
    ensures
        0 <= k <= s.len(),
        trim_end_set(s, set) == s.take(k),
        k == 0 || !in_set(set, s[k - 1]),
    decreases s.len(),
{
    if s.len() > 0 && in_set(set, s.last()) {
        let k1 = lemma_trim_end_shape(s.drop_last(), set);
        assert(s.drop_last().take(k1) =~= s.take(k1));
        k1
    } else {
        assert(s.take(s.len() as int) =~= s);
        s.len() as int
    }
}

/// The characters of `cs` after its leading characters of `set`.
pub fn trim_start_exec(cs: &Vec<char>, set: CharSet) -> (r: Vec<char>)
    ensures
        r@ == trim_start_set(cs@, set),
{
    let mut i: usize = 0;
    while i < cs.len() && in_set_exec(set, cs[i])
        invariant
            i <= cs.len(),
            forall|j: int| 0 <= j < i ==> in_set(set, cs@[j]),
        decreases cs.len() - i,
    {
        i += 1;
    }
    proof {
        lemma_trim_start(cs@, set, i as int);
    }
    slice_chars(cs, i, cs.len())
}

/// The characters of `cs` before its trailing characters of `set`.
pub fn trim_end_exec(cs: &Vec<char>, set: CharSet) -> (r: Vec<char>)
    ensures
        r@ == trim_end_set(cs@, set),
{
    let mut k: usize = cs.len();
    while k > 0 && in_set_exec(set, cs[k - 1])
        invariant
            k <= cs.len(),
            forall|j: int| k <= j < cs.len() ==> in_set(set, cs@[j]),
        decreases k,
    {
        k -= 1;
    }
    proof {
        lemma_trim_end(cs@, set, k as int);
    }
    slice_chars(cs, 0, k)
}

/// The characters of `cs` without leading and trailing characters of `set`.
pub fn trim_exec(cs: &Vec<char>, set: CharSet) -> (r: Vec<char>)
    ensures
        r@ == trim_set(cs@, set),
{
    let t = trim_start_exec(cs, set);
    trim_end_exec(&t, set)
}

/// The index of the first character of `cs` in `set`.
pub fn find_exec(cs: &Vec<char>, set: CharSet) -> (r: Option<usize>)
    ensures
        r matches Some(i) ==> find_set(cs@, set) == Some(i as int),
        r is None ==> find_set(cs@, set) is None,
{
    let mut i: usize = 0;
    while i < cs.len()
        invariant
            i <= cs.len(),
            forall|j: int| 0 <= j < i ==> !in_set(set, cs@[j]),
        decreases cs.len() - i,
    {
        if in_set_exec(set, cs[i]) {
            proof {
                lemma_find(cs@, set, i as int);
            }
            return Some(i);
        }
        i += 1;
    }
    proof {
        lemma_find(cs@, set, i as int);
    }
    None
}

/// The index of the last character of `cs` in `set`.
pub fn rfind_exec(cs: &Vec<char>, set: CharSet) -> (r: Option<usize>)
    ensures
        r matches Some(i) ==> rfind_set(cs@, set) == Some(i as int),
        r is None ==> rfind_set(cs@, set) is None,
{
    let mut k: usize = cs.len();
    while k > 0
        invariant
            k <= cs.len(),
            forall|j: int| k <= j < cs.len() ==> !in_set(set, cs@[j]),
        decreases k,
    {
        if in_set_exec(set, cs[k - 1]) {
            proof {
                lemma_rfind(cs@, set, k as int);
            }
            return Some(k - 1);
        }
        k -= 1;
    }
    proof {
        lemma_rfind(cs@, set, k as int);
    }
    None
}

/// Facts about where a search result lies.
pub proof fn lemma_find_bounds(s: Seq<char>, set: CharSet)
    ensures
        find_set(s, set) matches Some(i) ==> 0 <= i < s.len() && in_set(set, s[i]) && (forall|
            j: int,
        | 0 <= j < i ==> !in_set(set, s[j])),
        find_set(s, set) is None ==> forall|j: int| 0 <= j < s.len() ==> !in_set(set, s[j]),
    decreases s.len(),
{
    if s.len() > 0 {
        let t = s.drop_first();
        lemma_find_bounds(t, set);
        assert forall|j: int| 0 < j < s.len() implies s[j] == t[j - 1] by {}
    }
}

/// Facts about where a backward search result lies.
pub proof fn lemma_rfind_bounds(s: Seq<char>, set: CharSet)
    ensures
        rfind_set(s, set) matches Some(i) ==> 0 <= i < s.len() && in_set(set, s[i]) && (forall|
            j: int,
        | i < j < s.len() ==> !in_set(set, s[j])),
        rfind_set(s, set) is None ==> forall|j: int| 0 <= j < s.len() ==> !in_set(set, s[j]),
    decreases s.len(),
{
    if s.len() > 0 {
        let t = s.drop_last();
        lemma_rfind_bounds(t, set);
        assert forall|j: int| 0 <= j < t.len() implies s[j] == t[j] by {}
    }
}


// ---------------------------------------------------------------------------
// Decimal numbers

/// The character of the decimal digit `d` (for `0 <= d < 10`).
pub open spec fn digit_char(d: int) -> char {
    (d + 48) as char
}

/// The value of a decimal digit character.
pub open spec fn digit_value(c: char) -> int {
    (c as int) - 48
}

/// The decimal rendering of `n`, without leading zeros (`u64`'s `Display`).
pub open spec fn dec(n: nat) -> Seq<char>
    decreases n,
{
    if n < 10 {
        seq![digit_char(n as int)]
    } else {
        dec(n / 10).push(digit_char((n % 10) as int))
    }
}

/// Every character of `s` is an ASCII digit.
pub open spec fn all_digits(s: Seq<char>) -> bool {
    forall|i: int| 0 <= i < s.len() ==> is_digit(#[trigger] s[i])
}

/// The number that the digits `s` spell in base ten.
pub open spec fn digits_value(s: Seq<char>) -> nat
    decreases s.len(),
{
    if s.len() == 0 {
        0
    } else {
        (digits_value(s.drop_last()) * 10 + digit_value(s.last())) as nat
    }
}

/// What `str::parse::<u64>` gives: an optional `+`, then at least one digit,
/// and a value that fits in a `u64`.
pub open spec fn parse_u64_spec(s: Seq<char>) -> Option<u64> {
    let d = if s.len() > 0 && s[0] == '+' {
        s.drop_first()
    } else {
        s
    };
    if d.len() > 0 && all_digits(d) && digits_value(d) <= u64::MAX {
        Some(digits_value(d) as u64)
    } else {
        None
    }
}

/// Appends the decimal rendering of `n` to `s`.
pub fn push_decimal(s: &mut String, n: u64)
    ensures
        final(s)@ == old(s)@ + dec(n as nat),
    decreases n,
{
    if n >= 10 {
        push_decimal(s, n / 10);
    }
    let d = (n % 10) as u32;
    let c = char_from_ascii(d + 48);
    push_char(s, c);
    assert(s@ =~= old(s)@ + dec(n as nat));
}

/// Appends the decimal rendering of a 128-bit `n` to `s`.
pub fn push_decimal_u128(s: &mut String, n: u128)
    ensures
        final(s)@ == old(s)@ + dec(n as nat),
    decreases n,
{
    if n >= 10 {
        push_decimal_u128(s, n / 10);
    }
    let d = (n % 10) as u32;
    let c = char_from_ascii(d + 48);
    push_char(s, c);
    assert(s@ =~= old(s)@ + dec(n as nat));
}

/// The decimal rendering of `n`.
pub fn decimal(n: u64) -> (r: String)
    ensures
        r@ == dec(n as nat),
{
    let mut s = String::new();
    push_decimal(&mut s, n);
    assert(s@ =~= dec(n as nat));
    s
}

/// The decimal rendering of `n` is made of digits and spells `n`.
pub proof fn lemma_dec_digits(n: nat)
    ensures
        all_digits(dec(n)),
        dec(n).len() > 0,
        digits_value(dec(n)) == n,
    decreases n,
{
    lemma_digit_char_value((n % 10) as int);
    if n < 10 {
        let s = dec(n);
        assert(s.drop_last() =~= Seq::<char>::empty());
        assert(is_digit(s[0]));
        assert(digits_value(s) == digits_value(s.drop_last()) * 10 + digit_value(s.last()));
        assert(n % 10 == n);
    } else {
        lemma_dec_digits(n / 10);
        let s = dec(n);
        assert(s.drop_last() =~= dec(n / 10));
        assert(n == (n / 10) * 10 + n % 10);
        assert(digits_value(s) == digits_value(s.drop_last()) * 10 + digit_value(s.last()));
        assert forall|i: int| 0 <= i < s.len() implies is_digit(#[trigger] s[i]) by {
            if i < s.len() - 1 {
                assert(s[i] == dec(n / 10)[i]);
            }
        }
    }
}

/// A digit's character spells that digit.
pub proof fn lemma_digit_char_value(d: int)
    requires
        0 <= d < 10,
    ensures
        digit_value(digit_char(d)) == d,
        is_digit(digit_char(d)),
{
    assert(((d + 48) as char) as int == d + 48);
}

/// `str::parse::<u64>`.
pub fn parse_u64(s: &str) -> (r: Option<u64>)
    ensures
        r == parse_u64_spec(s@),
{
    let cs = chars_of(s);
    let mut i: usize = 0;
    if cs.len() > 0 && cs[0] == '+' {
        i = 1;
    }
    let ghost d = if s@.len() > 0 && s@[0] == '+' {
        s@.drop_first()
    } else {
        s@
    };
    if i == cs.len() {
        return None;
    }
    let start = i;
    let mut acc: u64 = 0;
    while i < cs.len()
        invariant
            start <= i <= cs.len(),
            d == cs@.skip(start as int),
            d == (if s@.len() > 0 && s@[0] == '+' {
                s@.drop_first()
            } else {
                s@
            }),
            all_digits(cs@.subrange(start as int, i as int)),
            acc as nat == digits_value(cs@.subrange(start as int, i as int)),
        decreases cs.len() - i,
    {
        let c = cs[i];
        if !is_digit_exec(c) {
            proof {
                assert(d[i - start] == c);
                assert(!is_digit(d[i - start]));
            }
            return None;
        }
        let dv = (c as u32 - 48) as u64;
        proof {
            let t = cs@.subrange(start as int, i + 1);
            assert(t.drop_last() =~= cs@.subrange(start as int, i as int));
            assert(t.last() == c);
        }
        if acc > (u64::MAX - dv) / 10 {
            proof {
                let t = cs@.subrange(start as int, i + 1);
                assert(d.take((i + 1 - start) as int) =~= t);
                if all_digits(d) {
                    lemma_digits_value_prefix(d, (i + 1 - start) as int);
                }
                assert(acc * 10 + dv > u64::MAX) by (nonlinear_arith)
                    requires
                        acc > (u64::MAX - dv) / 10,
                        dv <= 9,
                ;
            }
            return None;
        }
        proof {
            assert(acc * 10 + dv <= u64::MAX) by (nonlinear_arith)
                requires
                    acc <= (u64::MAX - dv) / 10,
                    dv <= 9,
            ;
        }
        acc = acc * 10 + dv;
        i += 1;
        proof {
            let t = cs@.subrange(start as int, i as int);
            assert forall|j: int| 0 <= j < t.len() implies is_digit(#[trigger] t[j]) by {
                if j < t.len() - 1 {
                    assert(t[j] == cs@.subrange(start as int, (i - 1) as int)[j]);
                }
            }
        }
    }
    assert(cs@.subrange(start as int, cs.len() as int) =~= d);
    Some(acc)
}

/// A prefix of a digit string never spells more than the whole.
pub proof fn lemma_digits_value_prefix(s: Seq<char>, k: int)
    requires
        0 <= k <= s.len(),
        all_digits(s),
    ensures
        digits_value(s.take(k)) <= digits_value(s),
    decreases s.len() - k,
{
    if k < s.len() {
        lemma_digits_value_prefix(s.drop_last(), k);
        assert(s.drop_last().take(k) =~= s.take(k));
        assert(is_digit(s[s.len() - 1]));
        assert(all_digits(s.drop_last())) by {
            assert forall|i: int| 0 <= i < s.drop_last().len() implies is_digit(
                #[trigger] s.drop_last()[i],
            ) by {
                assert(s.drop_last()[i] == s[i]);
            }
        }
    } else {
        assert(s.take(k) =~= s);
    }
}

} // verus!
