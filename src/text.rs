//! Character classes of the HTTP grammar and small string operations.
use vstd::prelude::*;
use vstd::string::StringSliceAdditionalSpecFns;

verus! {

/// Relies on `String::push`: the character is appended at the end.
pub assume_specification[ String::push ](s: &mut String, ch: char)
    ensures
        final(s)@ == old(s)@.push(ch),
;

/// Relies on `str`'s `==`: two string slices are equal when their characters are.
pub assume_specification[ <str as PartialEq>::eq ](a: &str, b: &str) -> (r: bool)
    ensures
        r == (a@ == b@),
;

/// Whether two strings hold the same characters.
pub fn str_eq(a: &str, b: &str) -> (r: bool)
    ensures
        r == (a@ == b@),
{
    <str as PartialEq>::eq(a, b)
}

/// ASCII letter.
pub open spec fn is_alpha(c: char) -> bool {
    ('a' <= c && c <= 'z') || ('A' <= c && c <= 'Z')
}

/// ASCII decimal digit.
pub open spec fn is_digit(c: char) -> bool {
    '0' <= c && c <= '9'
}

/// ASCII control character: 0x00 to 0x1f, and DEL.
pub open spec fn is_control(c: char) -> bool {
    (c as u32) < 32 || (c as u32) == 127
}

/// Visible ASCII character: `!` to `~`.
pub open spec fn is_graphic(c: char) -> bool {
    '!' <= c && c <= '~'
}

/// Separators of RFC 2616, which may not stand in a header name.
pub open spec fn is_separator(c: char) -> bool {
    c == '(' || c == ')' || c == '<' || c == '>' || c == '@' || c == ',' || c == ';' || c == ':'
        || c == '\\' || c == '"' || c == '/' || c == '[' || c == ']' || c == '?' || c == '='
        || c == '{' || c == '}' || c == ' ' || c == '\t'
}

/// Character of an RFC 7230 token.
pub open spec fn is_token_char(c: char) -> bool {
    is_graphic(c) && !is_separator(c)
}

/// Value of a decimal digit.
pub open spec fn digit_value(c: char) -> u8
    recommends
        is_digit(c),
{
    ((c as u32) - ('0' as u32)) as u8
}

pub fn ascii_alphabetic(c: char) -> (r: bool)
    ensures
        r == is_alpha(c),
{
    ('a' <= c && c <= 'z') || ('A' <= c && c <= 'Z')
}

pub fn ascii_digit(c: char) -> (r: bool)
    ensures
        r == is_digit(c),
{
    '0' <= c && c <= '9'
}

pub fn ascii_control(c: char) -> (r: bool)
    ensures
        r == is_control(c),
{
    (c as u32) < 32 || (c as u32) == 127
}

pub fn ascii_graphic(c: char) -> (r: bool)
    ensures
        r == is_graphic(c),
{
    '!' <= c && c <= '~'
}

pub fn is_tspecial(c: char) -> (r: bool)
    ensures
        r == is_separator(c),
{
    match c {
        '(' | ')' | '<' | '>' | '@' | ',' | ';' | ':' | '\\' | '"' | '/' | '[' | ']' | '?' | '='
        | '{' | '}' | ' ' | '\t' => true,
        _ => false,
    }
}

pub fn digit_to_u8(c: char) -> (r: u8)
    requires
        is_digit(c),
    ensures
        r == digit_value(c),
        r < 10,
{
    ((c as u32) - ('0' as u32)) as u8
}

/// Decimal notation of a number, without leading zeros.
pub open spec fn decimal(n: nat) -> Seq<char>
    decreases n,
{
    if n < 10 {
        seq![digit_char(n)]
    } else {
        decimal(n / 10).push(digit_char(n % 10))
    }
}

pub open spec fn digit_char(d: nat) -> char {
    if d == 0 { '0' }
    else if d == 1 { '1' }
    else if d == 2 { '2' }
    else if d == 3 { '3' }
    else if d == 4 { '4' }
    else if d == 5 { '5' }
    else if d == 6 { '6' }
    else if d == 7 { '7' }
    else if d == 8 { '8' }
    else { '9' }
}

fn digit_to_char(d: u8) -> (c: char)
    requires
        d < 10,
    ensures
        c == digit_char(d as nat),
{
    match d {
        0 => '0',
        1 => '1',
        2 => '2',
        3 => '3',
        4 => '4',
        5 => '5',
        6 => '6',
        7 => '7',
        8 => '8',
        _ => '9',
    }
}

/// Appends the decimal notation of `n`.
pub fn push_decimal(s: &mut String, n: u8)
    ensures
        final(s)@ == old(s)@ + decimal(n as nat),
{
    if n >= 100 {
        s.push(digit_to_char(n / 100));
        s.push(digit_to_char((n / 10) % 10));
        s.push(digit_to_char(n % 10));
        assert(decimal(n as nat) =~= seq![
            digit_char((n / 100) as nat),
            digit_char(((n / 10) % 10) as nat),
            digit_char((n % 10) as nat),
        ]) by {
            assert(decimal((n / 100) as nat) == seq![digit_char((n / 100) as nat)]);
            assert((n / 10) / 10 == n / 100);
            assert(decimal((n / 10) as nat) == decimal((n / 100) as nat).push(
                digit_char(((n / 10) % 10) as nat),
            ));
        }
    } else if n >= 10 {
        s.push(digit_to_char(n / 10));
        s.push(digit_to_char(n % 10));
        assert(decimal((n / 10) as nat) == seq![digit_char((n / 10) as nat)]);
        assert(decimal(n as nat) =~= seq![digit_char((n / 10) as nat), digit_char((n % 10) as nat)]);
    } else {
        s.push(digit_to_char(n));
    }
    assert(final(s)@ =~= old(s)@ + decimal(n as nat));
}

/// Appends the characters of `t`.
pub fn push_str(s: &mut String, t: &str)
    ensures
        final(s)@ == old(s)@ + t@,
{
    let ghost start = s@;
    for c in it: t.chars()
        invariant
            it.seq() == t@,
            s@ == start + t@.subrange(0, it.index() as int),
    {
        s.push(c);
        assert(s@ =~= start + t@.subrange(0, it.index() + 1));
    }
    assert(t@.subrange(0, t@.len() as int) =~= t@);
}

/// Appends the UTF-8 encoding of `t`.
pub fn push_utf8(out: &mut Vec<u8>, t: &str)
    ensures
        final(out)@ == old(out)@ + t.spec_bytes(),
{
    let b = t.as_bytes();
    let ghost start = out@;
    let mut i: usize = 0;
    while i < b.len()
        invariant
            b@ == t.spec_bytes(),
            i <= b@.len(),
            out@ == start + b@.subrange(0, i as int),
        decreases b@.len() - i,
    {
        out.push(b[i]);
        i = i + 1;
        assert(out@ =~= start + b@.subrange(0, i as int));
    }
    assert(b@.subrange(0, b@.len() as int) =~= b@);
}

/// Appends bytes.
pub fn push_bytes(out: &mut Vec<u8>, b: &Vec<u8>)
    ensures
        final(out)@ == old(out)@ + b@,
{
    let ghost start = out@;
    let mut i: usize = 0;
    while i < b.len()
        invariant
            i <= b@.len(),
            out@ == start + b@.subrange(0, i as int),
        decreases b@.len() - i,
    {
        out.push(b[i]);
        i = i + 1;
        assert(out@ =~= start + b@.subrange(0, i as int));
    }
    assert(b@.subrange(0, b@.len() as int) =~= b@);
}

} // verus!
