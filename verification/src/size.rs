//! Sizes: reading a size such as `50mb` or `1.5GiB` into its number and
//! unit, choosing the unit that a byte count is shown in, and showing a
//! number of seconds as `HH:MM:SS`.

use vstd::prelude::*;
use crate::text::{
    all_digits, chars_of, dec, find_exec, find_set, in_set, is_digit,
    lemma_dec_digits, lemma_find, lemma_find_bounds, lemma_trim_end, lemma_trim_start, lower_all,
    lower_all_exec, push_char, push_decimal, slice_chars, string_of, trim_exec, trim_set, CharSet,
};

verus! {

/// Why a size could not be read.
#[derive(Debug)]
pub enum SizeError {
    /// The number in front of the unit is not a decimal number.
    InvalidNumber { input: String },
    /// The unit after the number is not one of the known units.
    UnknownUnit { unit: String },
}

impl SizeError {
    /// The message shown for the error.
    pub fn message(&self) -> (r: String)
        ensures
            self matches SizeError::InvalidNumber { input } ==> r@ == "invalid size `"@ + input@
                + "`"@,
            self matches SizeError::UnknownUnit { unit } ==> r@ == "unknown size unit `"@ + unit@
                + "`"@,
    {
        let mut r = String::new();
        match self {
            SizeError::InvalidNumber { input } => {
                crate::text::push_str(&mut r, "invalid size `");
                crate::text::push_str(&mut r, input.as_str());
            },
            SizeError::UnknownUnit { unit } => {
                crate::text::push_str(&mut r, "unknown size unit `");
                crate::text::push_str(&mut r, unit.as_str());
            },
        }
        crate::text::push_str(&mut r, "`");
        r
    }
}

/// The text a size is read from: trimmed of white space, ASCII letters in
/// lower case.
pub open spec fn size_text(value: Seq<char>) -> Seq<char> {
    lower_all(trim_set(value, CharSet::White))
}

/// Where the number of a size text ends: at its first character that is
/// neither a digit nor a dot.
pub open spec fn number_end(t: Seq<char>) -> int {
    match find_set(t, CharSet::NonNumeric) {
        Some(i) => i,
        None => t.len() as int,
    }
}

/// The number of a size text.
pub open spec fn number_part(t: Seq<char>) -> Seq<char> {
    t.take(number_end(t))
}

/// The unit of a size text, trimmed of white space.
pub open spec fn unit_part(t: Seq<char>) -> Seq<char> {
    trim_set(t.skip(number_end(t)), CharSet::White)
}

/// The digits before the dot of a number (all of them where it has none).
pub open spec fn int_digits(num: Seq<char>) -> Seq<char> {
    match find_set(num, CharSet::Dot) {
        Some(i) => num.take(i),
        None => num,
    }
}

/// The digits after the first dot of a number (none where it has none).
pub open spec fn frac_digits(num: Seq<char>) -> Seq<char> {
    match find_set(num, CharSet::Dot) {
        Some(i) => num.skip(i + 1),
        None => Seq::<char>::empty(),
    }
}

/// A number made of digits and dots is a decimal number: it has at least one
/// digit and at most one dot.
pub open spec fn valid_number(num: Seq<char>) -> bool {
    &&& int_digits(num).len() + frac_digits(num).len() > 0
    &&& find_set(frac_digits(num), CharSet::Dot) is None
}

/// The number of bytes that one of a unit stands for.
pub open spec fn unit_multiplier(u: Seq<char>) -> Option<nat> {
    if u == Seq::<char>::empty() || u == seq!['b'] {
        Some(1)
    } else if u == seq!['k'] || u == seq!['k', 'b'] {
        Some(1000)
    } else if u == seq!['m'] || u == seq!['m', 'b'] {
        Some(1000000)
    } else if u == seq!['g'] || u == seq!['g', 'b'] {
        Some(1000000000)
    } else if u == seq!['k', 'i'] || u == seq!['k', 'i', 'b'] {
        Some(1024)
    } else if u == seq!['m', 'i'] || u == seq!['m', 'i', 'b'] {
        Some(1048576)
    } else if u == seq!['g', 'i'] || u == seq!['g', 'i', 'b'] {
        Some(1073741824)
    } else {
        None
    }
}

/// A size text has a valid number.
pub open spec fn size_number_ok(value: Seq<char>) -> bool {
    valid_number(number_part(size_text(value)))
}

/// A size text has a known unit.
pub open spec fn size_unit_ok(value: Seq<char>) -> bool {
    unit_multiplier(unit_part(size_text(value))) is Some
}

fn is_chars1(u: &Vec<char>, a: char) -> (r: bool)
    ensures
        r == (u@ == seq![a]),
{
    let r = u.len() == 1 && u[0] == a;
    if u.len() == 1 {
        assert(r ==> u@ =~= seq![a]);
    }
    r
}

fn is_chars2(u: &Vec<char>, a: char, b: char) -> (r: bool)
    ensures
        r == (u@ == seq![a, b]),
{
    let r = u.len() == 2 && u[0] == a && u[1] == b;
    if u.len() == 2 {
        assert(r ==> u@ =~= seq![a, b]);
    }
    r
}

fn is_chars3(u: &Vec<char>, a: char, b: char, c: char) -> (r: bool)
    ensures
        r == (u@ == seq![a, b, c]),
{
    let r = u.len() == 3 && u[0] == a && u[1] == b && u[2] == c;
    if u.len() == 3 {
        assert(r ==> u@ =~= seq![a, b, c]);
    }
    r
}

fn unit_multiplier_exec(u: &Vec<char>) -> (r: Option<u64>)
    ensures
        r matches Some(m) ==> unit_multiplier(u@) == Some(m as nat),
        r is None ==> unit_multiplier(u@) is None,
{
    if u.len() == 0 {
        assert(u@ =~= Seq::<char>::empty());
        Some(1)
    } else if is_chars1(u, 'b') {
        Some(1)
    } else if is_chars1(u, 'k') || is_chars2(u, 'k', 'b') {
        Some(1000)
    } else if is_chars1(u, 'm') || is_chars2(u, 'm', 'b') {
        Some(1000000)
    } else if is_chars1(u, 'g') || is_chars2(u, 'g', 'b') {
        Some(1000000000)
    } else if is_chars2(u, 'k', 'i') || is_chars3(u, 'k', 'i', 'b') {
        Some(1024)
    } else if is_chars2(u, 'm', 'i') || is_chars3(u, 'm', 'i', 'b') {
        Some(1048576)
    } else if is_chars2(u, 'g', 'i') || is_chars3(u, 'g', 'i', 'b') {
        Some(1073741824)
    } else {
        assert(u@ != Seq::<char>::empty());
        None
    }
}

/// Reads a size such as `50mb`, `1.5 GiB` or `2048` into its number and the
/// bytes its unit stands for: surrounding white space is ignored, letters
/// may be of either case, a number with at most one dot comes first, then a
/// unit (`b`, `k`/`kb`, `m`/`mb`, `g`/`gb` in powers of 1000; `ki`/`kib`,
/// `mi`/`mib`, `gi`/`gib` in powers of 1024; none means bytes). A number is
/// checked before its unit.
pub fn size_parts(value: &str) -> (r: Result<(String, u64), SizeError>)
    ensures
        r is Ok <==> size_number_ok(value@) && size_unit_ok(value@),
        r matches Ok((num, mult)) ==> num@ == number_part(size_text(value@)) && mult as nat
            == unit_multiplier(unit_part(size_text(value@)))->0,
        r matches Err(SizeError::InvalidNumber { input }) ==> !size_number_ok(value@) && input@
            == value@,
        r matches Err(SizeError::UnknownUnit { unit }) ==> size_number_ok(value@)
            && !size_unit_ok(value@) && unit@ == unit_part(size_text(value@)),
{
    let cs = chars_of(value);
    let trimmed = trim_exec(&cs, CharSet::White);
    let t = lower_all_exec(&trimmed);
    let k = match find_exec(&t, CharSet::NonNumeric) {
        Some(i) => i,
        None => t.len(),
    };
    proof {
        lemma_find_bounds(t@, CharSet::NonNumeric);
    }
    let num = slice_chars(&t, 0, k);
    let rest = slice_chars(&t, k, t.len());
    let unit = trim_exec(&rest, CharSet::White);
    proof {
        lemma_find_bounds(num@, CharSet::Dot);
    }
    let (int_ds, frac_ds) = match find_exec(&num, CharSet::Dot) {
        Some(i) => (slice_chars(&num, 0, i), slice_chars(&num, i + 1, num.len())),
        None => (slice_chars(&num, 0, num.len()), Vec::new()),
    };
    proof {
        assert(num@ =~= number_part(t@));
        assert(int_ds@ =~= int_digits(num@));
        assert(frac_ds@ =~= frac_digits(num@));
    }
    if int_ds.len() + frac_ds.len() == 0 || find_exec(&frac_ds, CharSet::Dot).is_some() {
        return Err(SizeError::InvalidNumber { input: value.to_string() });
    }
    let mult = match unit_multiplier_exec(&unit) {
        Some(m) => m,
        None => {
            return Err(SizeError::UnknownUnit { unit: string_of(&unit) });
        },
    };
    Ok((string_of(&num), mult))
}

// ---------------------------------------------------------------------------
// Laws of reading sizes

/// A text of digits and lower-case letters is its own size text: trimming
/// finds no white space at its ends, and lowering changes nothing.
proof fn lemma_size_text_plain(t: Seq<char>)
    requires
        t.len() > 0,
        forall|i: int| 0 <= i < t.len() ==> is_digit(#[trigger] t[i]) || ('a' <= t[i] && t[i] <= 'z'),
    ensures
        size_text(t) == t,
{
    lemma_trim_start(t, CharSet::White, 0);
    assert(t.skip(0) =~= t);
    lemma_trim_end(t, CharSet::White, t.len() as int);
    assert(t.take(t.len() as int) =~= t);
    assert(lower_all(t) =~= t);
}

/// A number written in digits reads as itself, in bytes: the size `"1234"`
/// is the number `1234` with the multiplier 1.
pub proof fn lemma_size_of_decimal(n: u64)
    ensures
        size_number_ok(dec(n as nat)),
        size_unit_ok(dec(n as nat)),
        number_part(size_text(dec(n as nat))) == dec(n as nat),
        unit_multiplier(unit_part(size_text(dec(n as nat)))) == Some(1nat),
{
    let s = dec(n as nat);
    lemma_dec_digits(n as nat);
    assert forall|i: int| 0 <= i < s.len() implies is_digit(#[trigger] s[i]) || ('a' <= s[i]
        && s[i] <= 'z') by {
        assert(is_digit(s[i]));
    }
    lemma_size_text_plain(s);
    assert forall|j: int| 0 <= j < s.len() implies !in_set(CharSet::NonNumeric, #[trigger] s[j]) by {
        assert(is_digit(s[j]));
    }
    lemma_find(s, CharSet::NonNumeric, s.len() as int);
    assert(number_part(s) =~= s);
    assert(s.skip(s.len() as int) =~= Seq::<char>::empty());
    assert(unit_part(s) =~= Seq::<char>::empty());
    assert forall|j: int| 0 <= j < s.len() implies !in_set(CharSet::Dot, #[trigger] s[j]) by {
        assert(is_digit(s[j]));
    }
    lemma_find(s, CharSet::Dot, s.len() as int);
    assert(int_digits(s) == s);
    assert(frac_digits(s) =~= Seq::<char>::empty());
    assert(find_set(Seq::<char>::empty(), CharSet::Dot) is None);
}

/// A whole number with a unit reads as that number and the unit's
/// multiplier: `50mb` is 50 with 1 000 000, `2kib` is 2 with 1024.
pub proof fn lemma_size_with_unit(d: Seq<char>, u: Seq<char>)
    requires
        d.len() > 0,
        all_digits(d),
        u.len() > 0,
        unit_multiplier(u) is Some,
    ensures
        size_number_ok(d + u),
        size_unit_ok(d + u),
        number_part(size_text(d + u)) == d,
        unit_part(size_text(d + u)) == u,
        unit_multiplier(unit_part(size_text(d + u))) == unit_multiplier(u),
{
    let t = d + u;
    assert(forall|i: int| 0 <= i < u.len() ==> 'a' <= #[trigger] u[i] && u[i] <= 'z');
    assert forall|i: int| 0 <= i < t.len() implies is_digit(#[trigger] t[i]) || ('a' <= t[i]
        && t[i] <= 'z') by {
        if i < d.len() {
            assert(t[i] == d[i]);
        } else {
            assert(t[i] == u[i - d.len()]);
        }
    }
    lemma_size_text_plain(t);
    assert forall|j: int| 0 <= j < d.len() implies !in_set(CharSet::NonNumeric, #[trigger] t[j]) by {
        assert(t[j] == d[j]);
        assert(is_digit(d[j]));
    }
    assert(t[d.len() as int] == u[0]);
    lemma_find(t, CharSet::NonNumeric, d.len() as int);
    assert(number_part(t) =~= d);
    assert(t.skip(d.len() as int) =~= u);
    lemma_trim_start(u, CharSet::White, 0);
    assert(u.skip(0) =~= u);
    lemma_trim_end(u, CharSet::White, u.len() as int);
    assert(u.take(u.len() as int) =~= u);
    assert(unit_part(t) == u);
    assert forall|j: int| 0 <= j < d.len() implies !in_set(CharSet::Dot, #[trigger] d[j]) by {
        assert(is_digit(d[j]));
    }
    lemma_find(d, CharSet::Dot, d.len() as int);
    assert(int_digits(d) == d);
    assert(frac_digits(d) =~= Seq::<char>::empty());
    assert(find_set(Seq::<char>::empty(), CharSet::Dot) is None);
}

/// The bytes each unit stands for, with or without a trailing `b`: none and
/// `b` are bytes; `k`, `m`, `g` are powers of 1000; `ki`, `mi`, `gi` powers of
/// 1024.
pub proof fn lemma_unit_bytes()
    ensures
        unit_multiplier(Seq::<char>::empty()) == Some(1nat),
        unit_multiplier(seq!['b']) == Some(1nat),
        unit_multiplier(seq!['k']) == Some(1000nat),
        unit_multiplier(seq!['k', 'b']) == Some(1000nat),
        unit_multiplier(seq!['m']) == Some(1000000nat),
        unit_multiplier(seq!['m', 'b']) == Some(1000000nat),
        unit_multiplier(seq!['g']) == Some(1000000000nat),
        unit_multiplier(seq!['g', 'b']) == Some(1000000000nat),
        unit_multiplier(seq!['k', 'i']) == Some(1024nat),
        unit_multiplier(seq!['k', 'i', 'b']) == Some(1024nat),
        unit_multiplier(seq!['m', 'i']) == Some(1048576nat),
        unit_multiplier(seq!['m', 'i', 'b']) == Some(1048576nat),
        unit_multiplier(seq!['g', 'i']) == Some(1073741824nat),
        unit_multiplier(seq!['g', 'i', 'b']) == Some(1073741824nat),
{
    assert(unit_multiplier(seq!['b']) == Some(1nat)) by {
        let u = seq!['b'];
        assert(u.len() == 1 && u[0] == 'b');
    }
    assert(unit_multiplier(seq!['k']) == Some(1000nat)) by {
        let u = seq!['k'];
        assert(u.len() == 1 && u[0] == 'k');
    }
    assert(unit_multiplier(seq!['k', 'b']) == Some(1000nat)) by {
        let u = seq!['k', 'b'];
        assert(u.len() == 2 && u[0] == 'k' && u[1] == 'b');
    }
    assert(unit_multiplier(seq!['m']) == Some(1000000nat)) by {
        let u = seq!['m'];
        assert(u.len() == 1 && u[0] == 'm');
    }
    assert(unit_multiplier(seq!['m', 'b']) == Some(1000000nat)) by {
        let u = seq!['m', 'b'];
        assert(u.len() == 2 && u[0] == 'm' && u[1] == 'b');
    }
    assert(unit_multiplier(seq!['g']) == Some(1000000000nat)) by {
        let u = seq!['g'];
        assert(u.len() == 1 && u[0] == 'g');
    }
    assert(unit_multiplier(seq!['g', 'b']) == Some(1000000000nat)) by {
        let u = seq!['g', 'b'];
        assert(u.len() == 2 && u[0] == 'g' && u[1] == 'b');
    }
    assert(unit_multiplier(seq!['k', 'i']) == Some(1024nat)) by {
        let u = seq!['k', 'i'];
        assert(u.len() == 2 && u[0] == 'k' && u[1] == 'i');
    }
    assert(unit_multiplier(seq!['k', 'i', 'b']) == Some(1024nat)) by {
        let u = seq!['k', 'i', 'b'];
        assert(u.len() == 3 && u[0] == 'k' && u[1] == 'i' && u[2] == 'b');
    }
    assert(unit_multiplier(seq!['m', 'i']) == Some(1048576nat)) by {
        let u = seq!['m', 'i'];
        assert(u.len() == 2 && u[0] == 'm' && u[1] == 'i');
    }
    assert(unit_multiplier(seq!['m', 'i', 'b']) == Some(1048576nat)) by {
        let u = seq!['m', 'i', 'b'];
        assert(u.len() == 3 && u[0] == 'm' && u[1] == 'i' && u[2] == 'b');
    }
    assert(unit_multiplier(seq!['g', 'i']) == Some(1073741824nat)) by {
        let u = seq!['g', 'i'];
        assert(u.len() == 2 && u[0] == 'g' && u[1] == 'i');
    }
    assert(unit_multiplier(seq!['g', 'i', 'b']) == Some(1073741824nat)) by {
        let u = seq!['g', 'i', 'b'];
        assert(u.len() == 3 && u[0] == 'g' && u[1] == 'i' && u[2] == 'b');
    }
}

/// A size of whole digits `d` followed by a known unit reads as `d` with the
/// bytes of that unit, for every unit: `50m` is 50 times 1 000 000, the same
/// as `50mb`, and `2kib` is 2 times 1024.
pub proof fn lemma_sizes_in_units(d: Seq<char>, u: Seq<char>)
    requires
        d.len() > 0,
        all_digits(d),
        u.len() > 0,
        unit_multiplier(u) is Some,
    ensures
        size_number_ok(d + u),
        size_unit_ok(d + u),
        number_part(size_text(d + u)) == d,
        unit_part(size_text(d + u)) == u,
        u == seq!['m'] || u == seq!['m', 'b'] ==> unit_multiplier(unit_part(size_text(d + u)))
            == Some(1000000nat),
        u == seq!['k'] || u == seq!['k', 'b'] ==> unit_multiplier(unit_part(size_text(d + u)))
            == Some(1000nat),
        u == seq!['g'] || u == seq!['g', 'b'] ==> unit_multiplier(unit_part(size_text(d + u)))
            == Some(1000000000nat),
        u == seq!['k', 'i'] || u == seq!['k', 'i', 'b'] ==> unit_multiplier(
            unit_part(size_text(d + u)),
        ) == Some(1024nat),
        u == seq!['m', 'i'] || u == seq!['m', 'i', 'b'] ==> unit_multiplier(
            unit_part(size_text(d + u)),
        ) == Some(1048576nat),
        u == seq!['g', 'i'] || u == seq!['g', 'i', 'b'] ==> unit_multiplier(
            unit_part(size_text(d + u)),
        ) == Some(1073741824nat),
        u == seq!['b'] ==> unit_multiplier(unit_part(size_text(d + u))) == Some(1nat),
{
    lemma_size_with_unit(d, u);
    lemma_unit_bytes();
}

// ---------------------------------------------------------------------------
// Showing sizes and durations

/// The unit a byte count is shown in: 0 for B, 1 for KB, 2 for MB, 3 for
/// GB, 4 for TB (powers of 1000).
pub open spec fn byte_unit_spec(bytes: nat) -> nat {
    if bytes < 1000 {
        0
    } else if bytes < 1000000 {
        1
    } else if bytes < 1000000000 {
        2
    } else if bytes < 1000000000000 {
        3
    } else {
        4
    }
}

/// The unit a byte count is shown in, as an index into B, KB, MB, GB, TB:
/// the largest unit of which the count holds at least one, TB at most.
pub fn byte_unit(bytes: u64) -> (r: usize)
    ensures
        r as nat == byte_unit_spec(bytes as nat),
{
    if bytes < 1000 {
        0
    } else if bytes < 1000000 {
        1
    } else if bytes < 1000000000 {
        2
    } else if bytes < 1000000000000 {
        3
    } else {
        4
    }
}

/// The name of a byte unit.
pub open spec fn unit_name_spec(unit: nat) -> Seq<char> {
    if unit == 0 {
        "B"@
    } else if unit == 1 {
        "KB"@
    } else if unit == 2 {
        "MB"@
    } else if unit == 3 {
        "GB"@
    } else {
        "TB"@
    }
}

/// The name of a byte unit: B, KB, MB, GB or TB.
pub fn unit_name(unit: usize) -> (r: String)
    requires
        unit <= 4,
    ensures
        r@ == unit_name_spec(unit as nat),
{
    if unit == 0 {
        "B".to_string()
    } else if unit == 1 {
        "KB".to_string()
    } else if unit == 2 {
        "MB".to_string()
    } else if unit == 3 {
        "GB".to_string()
    } else {
        "TB".to_string()
    }
}

/// A count below a thousand bytes as shown: the number and ` B`.
pub fn whole_bytes(bytes: u64) -> (r: String)
    ensures
        r@ == dec(bytes as nat) + " B"@,
{
    let mut r = String::new();
    push_decimal(&mut r, bytes);
    crate::text::push_str(&mut r, " B");
    assert(r@ =~= dec(bytes as nat) + " B"@);
    r
}

/// A number in at least two digits, with a leading zero where it has one.
pub open spec fn pad2(s: Seq<char>) -> Seq<char> {
    if s.len() < 2 {
        seq!['0'] + s
    } else {
        s
    }
}

/// `HH:MM:SS` for a number of whole seconds; hours may take more digits.
pub open spec fn hms_spec(total: nat) -> Seq<char> {
    pad2(dec(total / 3600)) + seq![':'] + pad2(dec((total % 3600) / 60)) + seq![':'] + pad2(
        dec(total % 60),
    )
}

fn push_pad2(s: &mut String, n: u64)
    ensures
        final(s)@ == old(s)@ + pad2(dec(n as nat)),
{
    let d = crate::text::decimal(n);
    let cs = crate::text::chars_of(d.as_str());
    if cs.len() < 2 {
        push_char(s, '0');
    }
    crate::text::push_all(s, &cs);
    assert(final(s)@ =~= old(s)@ + pad2(dec(n as nat))) by {
        if cs.len() < 2 {
            assert(s@ =~= old(s)@ + seq!['0'] + cs@);
        }
    }
}

/// Shows a number of whole seconds as `HH:MM:SS`: `3725` gives `01:02:05`.
pub fn format_hms(total: u64) -> (r: String)
    ensures
        r@ == hms_spec(total as nat),
{
    let mut r = String::new();
    push_pad2(&mut r, total / 3600);
    push_char(&mut r, ':');
    push_pad2(&mut r, (total % 3600) / 60);
    push_char(&mut r, ':');
    push_pad2(&mut r, total % 60);
    assert(r@ =~= hms_spec(total as nat));
    r
}

} // verus!
