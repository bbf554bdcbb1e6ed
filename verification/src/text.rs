//! Character-level text utilities shared by the result coercion, the
//! credential store and the sort rewrite: building strings one
//! character at a time, and rendering integers in decimal with a
//! proved parse round-trip.

use vstd::prelude::*;

verus! {

/// Relies on std's `String::push`: appends exactly the given character.
#[verifier::external_body]
pub fn push_char(s: &mut String, c: char)
    ensures
        final(s)@ == old(s)@.push(c),
{
    s.push(c)
}

/// The characters of a string slice, as a vector.
pub fn chars_of(s: &str) -> (r: Vec<char>)
    ensures
        r@ == s@,
{
    let n = s.unicode_len();
    let mut r: Vec<char> = Vec::new();
    let mut i: usize = 0;
    while i < n
        invariant
            n == s@.len(),
            i <= n,
            r@ == s@.subrange(0, i as int),
        decreases n - i,
    {
        r.push(s.get_char(i));
        assert(r@ =~= s@.subrange(0, i + 1 as int));
        i = i + 1;
    }
    assert(r@ =~= s@);
    r
}

/// A string holding exactly the given characters.
pub fn string_of_chars(v: &Vec<char>) -> (r: String)
    ensures
        r@ == v@,
{
    let mut r = String::new();
    let mut i: usize = 0;
    while i < v.len()
        invariant
            i <= v@.len(),
            r@ == v@.subrange(0, i as int),
        decreases v@.len() - i,
    {
        push_char(&mut r, v[i]);
        assert(r@ =~= v@.subrange(0, i + 1 as int));
        i = i + 1;
    }
    assert(r@ =~= v@);
    r
}

/// The decimal digit character for a value below ten.
pub open spec fn digit_char(d: nat) -> char {
    if d == 0 { '0' }
    else if d == 1 { '1' }
    else if d == 2 { '2' }
    else if d == 3 { '3' }
    else if d == 4 { '4' }
    else if d == 5 { '5' }
    else if d == 6 { '6' }
    else if d == 7 { '7' }
    else if d == 8 { '8' }
    else if d == 9 { '9' }
    else { ' ' }
}

/// The numeric value of a decimal digit character.
pub open spec fn digit_val(c: char) -> Option<nat> {
    if c == '0' { Some(0nat) }
    else if c == '1' { Some(1nat) }
    else if c == '2' { Some(2nat) }
    else if c == '3' { Some(3nat) }
    else if c == '4' { Some(4nat) }
    else if c == '5' { Some(5nat) }
    else if c == '6' { Some(6nat) }
    else if c == '7' { Some(7nat) }
    else if c == '8' { Some(8nat) }
    else if c == '9' { Some(9nat) }
    else { None }
}

/// The decimal rendering of a non-negative integer, most significant
/// digit first, with no sign and no leading zero (except for zero
/// itself).
pub open spec fn dec_seq(n: nat) -> Seq<char>
    decreases n,
{
    if n < 10 {
        seq![digit_char(n)]
    } else {
        dec_seq(n / 10).push(digit_char(n % 10))
    }
}

/// The decimal rendering of an integer: a leading minus sign for
/// negative values, then the digits of the magnitude.
pub open spec fn int_str(v: int) -> Seq<char> {
    if v < 0 {
        seq!['-'] + dec_seq((-v) as nat)
    } else {
        dec_seq(v as nat)
    }
}

/// Whether every character of the sequence is a decimal digit, and
/// there is at least one.
pub open spec fn is_digits(s: Seq<char>) -> bool {
    s.len() > 0 && forall|i: int| 0 <= i < s.len() ==> #[trigger] digit_val(s[i]) is Some
}

/// The value of a non-empty digit sequence read in base ten.
pub open spec fn digits_val(s: Seq<char>) -> nat
    decreases s.len(),
{
    if s.len() <= 1 {
        if s.len() == 1 && digit_val(s[0]) is Some { digit_val(s[0])->0 } else { 0 }
    } else {
        digits_val(s.drop_last()) * 10 + (if digit_val(s.last()) is Some { digit_val(s.last())->0 } else { 0 })
    }
}

/// A strict decimal integer parse: an optional minus sign followed by
/// one or more digits, nothing else.
pub open spec fn parse_int(s: Seq<char>) -> Option<int> {
    if s.len() > 0 && s[0] == '-' {
        if is_digits(s.skip(1)) { Some(-(digits_val(s.skip(1)) as int)) } else { None }
    } else {
        if is_digits(s) { Some(digits_val(s) as int) } else { None }
    }
}

/// A decimal rendering consists of digits and reads back as the value
/// it was made from.
pub proof fn lemma_dec_seq_val(n: nat)
    ensures
        is_digits(dec_seq(n)),
        digits_val(dec_seq(n)) == n,
        dec_seq(n)[0] != '-',
    decreases n,
{
    if n < 10 {
        assert(digit_val(digit_char(n)) == Some(n));
    } else {
        lemma_dec_seq_val(n / 10);
        let s = dec_seq(n);
        assert(s == dec_seq(n / 10).push(digit_char(n % 10)));
        assert(s.drop_last() =~= dec_seq(n / 10));
        assert(s.last() == digit_char(n % 10));
        assert(digit_val(digit_char(n % 10)) == Some(n % 10));
        assert(digits_val(s) == digits_val(dec_seq(n / 10)) * 10 + n % 10);
        assert(forall|i: int| 0 <= i < s.len() - 1 ==> s[i] == dec_seq(n / 10)[i]);
    }
}

/// The decimal rendering of any integer parses back to that integer.
pub proof fn lemma_int_str_round_trip(v: int)
    ensures
        parse_int(int_str(v)) == Some(v),
{
    if v < 0 {
        lemma_dec_seq_val((-v) as nat);
        let s = int_str(v);
        assert(s[0] == '-');
        assert(s.skip(1) =~= dec_seq((-v) as nat));
    } else {
        lemma_dec_seq_val(v as nat);
    }
}

/// Appends the decimal digits of `n` to `s`.
fn push_dec(s: &mut String, n: u64)
    ensures
        final(s)@ == old(s)@ + dec_seq(n as nat),
    decreases n,
{
    if n >= 10 {
        push_dec(s, n / 10);
    }
    let d: u64 = n % 10;
    let c: char = if d == 0 { '0' }
        else if d == 1 { '1' }
        else if d == 2 { '2' }
        else if d == 3 { '3' }
        else if d == 4 { '4' }
        else if d == 5 { '5' }
        else if d == 6 { '6' }
        else if d == 7 { '7' }
        else if d == 8 { '8' }
        else { '9' };
    assert(c == digit_char((n % 10) as nat));
    push_char(s, c);
    proof {
        if n >= 10 {
            assert(final(s)@ =~= old(s)@ + dec_seq(n as nat));
        } else {
            assert(final(s)@ =~= old(s)@ + dec_seq(n as nat));
        }
    }
}

/// The decimal rendering of a 64-bit signed integer.
pub fn i64_string(v: i64) -> (r: String)
    ensures
        r@ == int_str(v as int),
{
    let mut r = String::new();
    if v < 0 {
        push_char(&mut r, '-');
        let m: u64 = (0i128 - (v as i128)) as u64;
        assert(m as nat == (-(v as int)) as nat);
        push_dec(&mut r, m);
        assert(r@ =~= int_str(v as int));
    } else {
        push_dec(&mut r, v as u64);
        assert(r@ =~= int_str(v as int));
    }
    r
}

/// The decimal rendering of a 32-bit signed integer.
pub fn i32_string(v: i32) -> (r: String)
    ensures
        r@ == int_str(v as int),
{
    i64_string(v as i64)
}

} // verus!
