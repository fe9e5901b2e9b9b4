use vstd::prelude::*;

verus! {

/// Relies on String::push: appends the given char to the end of the string.
#[verifier::external_body]
pub fn push_char(s: &mut String, c: char)
    ensures
        final(s)@ == old(s)@.push(c),
{
    s.push(c);
}

/// The digit character for a value below ten.
pub open spec fn digit_char(d: nat) -> char
    recommends
        d < 10,
{
    ((48 + d) as u8) as char
}

/// The decimal digit string of a natural number, most significant digit first.
pub open spec fn dec_str_nat(n: nat) -> Seq<char>
    decreases n,
{
    if n < 10 {
        seq![digit_char(n)]
    } else {
        dec_str_nat(n / 10).push(digit_char(n % 10))
    }
}

/// The decimal string of a signed 64-bit value: a minus sign for negative
/// values, then the digits of the magnitude.
pub open spec fn i64_dec_str(v: i64) -> Seq<char> {
    if v >= 0 {
        dec_str_nat(v as nat)
    } else {
        seq!['-'] + dec_str_nat((-(v as int)) as nat)
    }
}

fn push_dec_u64(s: &mut String, n: u64)
    ensures
        final(s)@ == old(s)@ + dec_str_nat(n as nat),
    decreases n,
{
    if n < 10 {
        let c: char = ((48 + n) as u8) as char;
        push_char(s, c);
        assert(s@ =~= old(s)@ + dec_str_nat(n as nat));
    } else {
        push_dec_u64(s, n / 10);
        let c: char = ((48 + n % 10) as u8) as char;
        push_char(s, c);
        assert(s@ =~= old(s)@ + dec_str_nat(n as nat));
    }
}

/// Renders a signed 64-bit value in decimal, as std's formatting would.
pub fn i64_to_string(v: i64) -> (s: String)
    ensures
        s@ == i64_dec_str(v),
{
    let mut s = String::new();
    if v >= 0 {
        push_dec_u64(&mut s, v as u64);
    } else {
        push_char(&mut s, '-');
        let m: u64 = (-(v as i128)) as u64;
        push_dec_u64(&mut s, m);
        assert(s@ =~= i64_dec_str(v));
    }
    s
}

} // verus!
