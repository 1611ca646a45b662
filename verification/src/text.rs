//! Small string helpers shared by the renderers and the standard
//! environment: quoting, number formatting, and the one host-output call.

use vstd::prelude::*;

use std::io::Write;

verus! {

/// `s` wrapped in double quotes.
pub open spec fn quoted(s: Seq<char>) -> Seq<char> {
    "\""@ + s + "\""@
}

/// Wrap a name in double quotes, as the report renderers print it.
pub fn quote(s: &str) -> (out: String)
    ensures
        out@ == quoted(s@),
{
    let mut out = String::new();
    out.append("\"");
    out.append(s);
    out.append("\"");
    proof {
        assert(out@ =~= quoted(s@));
    }
    out
}

/// The decimal rendering of `n`, with a leading `-` for negative values.
pub open spec fn decimal(n: int) -> Seq<char>
    decreases (if n < 0 { 1 - n } else { n }),
{
    if n < 0 {
        "-"@ + decimal(-n)
    } else if n < 10 {
        seq![digit_char(n)]
    } else {
        decimal(n / 10) + seq![digit_char(n % 10)]
    }
}

/// The character for a single decimal digit.
pub open spec fn digit_char(d: int) -> char {
    if d == 0 {
        '0'
    } else if d == 1 {
        '1'
    } else if d == 2 {
        '2'
    } else if d == 3 {
        '3'
    } else if d == 4 {
        '4'
    } else if d == 5 {
        '5'
    } else if d == 6 {
        '6'
    } else if d == 7 {
        '7'
    } else if d == 8 {
        '8'
    } else {
        '9'
    }
}

fn digit_to_char(d: u64) -> (c: char)
    requires
        d < 10,
    ensures
        c == digit_char(d as int),
{
    if d == 0 {
        '0'
    } else if d == 1 {
        '1'
    } else if d == 2 {
        '2'
    } else if d == 3 {
        '3'
    } else if d == 4 {
        '4'
    } else if d == 5 {
        '5'
    } else if d == 6 {
        '6'
    } else if d == 7 {
        '7'
    } else if d == 8 {
        '8'
    } else {
        '9'
    }
}

fn format_u64(n: u64) -> (out: Vec<char>)
    ensures
        out@ == decimal(n as int),
    decreases n,
{
    if n < 10 {
        let mut out: Vec<char> = Vec::new();
        out.push(digit_to_char(n));
        assert(out@ =~= decimal(n as int));
        out
    } else {
        let mut out = format_u64(n / 10);
        out.push(digit_to_char(n % 10));
        assert(out@ =~= decimal(n as int));
        out
    }
}

/// Render a signed 64-bit value in decimal.
pub fn format_i64(n: i64) -> (out: String)
    ensures
        out@ == decimal(n as int),
{
    if n >= 0 {
        let digits = format_u64(n as u64);
        let out = string_from_chars(&digits);
        out
    } else {
        let mag: u64 = if n == i64::MIN {
            9223372036854775808u64
        } else {
            (-n) as u64
        };
        let digits = format_u64(mag);
        let mut out = String::new();
        out.append("-");
        let rest = string_from_chars(&digits);
        out.append(rest.as_str());
        proof {
            assert(out@ =~= decimal(n as int));
        }
        out
    }
}

/// Render a signed 32-bit value in decimal.
pub fn format_i32(n: i32) -> (out: String)
    ensures
        out@ == decimal(n as int),
{
    format_i64(n as i64)
}

/// Render an unsigned machine word in decimal.
pub fn format_usize(n: usize) -> (out: String)
    ensures
        out@ == decimal(n as int),
{
    let digits = format_u64(n as u64);
    string_from_chars(&digits)
}

/// Relies on `<str as PartialEq>::eq`: two string slices compare equal
/// exactly when they hold the same characters.
#[verifier::external_body]
pub fn str_eq(a: &str, b: &str) -> (r: bool)
    ensures
        r == (a@ == b@),
{
    a == b
}

/// Relies on `str::chars`: collecting a string's characters yields exactly
/// the characters of its view, in order.
#[verifier::external_body]
pub fn str_chars(s: &str) -> (out: Vec<char>)
    ensures
        out@ == s@,
{
    s.chars().collect()
}

/// Relies on `String::from_iter` over `char`: collecting characters yields
/// the string of exactly those characters, in order.
#[verifier::external_body]
pub fn string_from_chars(chars: &Vec<char>) -> (out: String)
    ensures
        out@ == chars@,
{
    chars.iter().collect()
}

/// Relies on `std::io::Stdout::write_all` through `writeln!`: prints the line
/// on the host's standard output and returns nothing.
#[verifier::external_body]
pub fn emit_line(s: &str) {
    let _ = writeln!(std::io::stdout(), "{}", s);
}

} // verus!
