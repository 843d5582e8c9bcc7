//! String helpers shared by the lexer and the parser.

use vstd::prelude::*;
use vstd::string::*;

verus! {

/// Appends `c` to `s` (`String::push`).
///
/// Trusted: the contract says that the new text is the old text followed by `c`,
/// as the standard library documents.
#[verifier::external_body]
pub(crate) fn push_char(s: &mut String, c: char)
    ensures
        final(s)@ == old(s)@.push(c),
{
    s.push(c);
}

/// The text that `{:?}` gives for a string: the string in double quotes, with
/// quotes, backslashes and control characters escaped.
pub uninterp spec fn str_debug_text(s: Seq<char>) -> Seq<char>;

/// The debug form of `s` (`format!("{:?}", s)`).
///
/// Trusted: the contract names the result `str_debug_text(s@)`; it depends on
/// the text alone. The escaping rules (which follow Unicode tables) are not
/// written out.
#[verifier::external_body]
pub(crate) fn debug_quoted(s: &str) -> (r: String)
    ensures
        r@ == str_debug_text(s@),
{
    format!("{:?}", s)
}

/// Appends `t` to `s`.
pub(crate) fn push_str(s: &mut String, t: &str)
    ensures
        final(s)@ == old(s)@ + t@,
{
    s.append(t);
}

/// The decimal digits of `n`, most significant first, without leading zeros
/// (`"0"` for zero).
pub open spec fn decimal(n: nat) -> Seq<char>
    decreases n,
{
    if n < 10 {
        seq![digit_char(n)]
    } else {
        decimal(n / 10).push(digit_char(n % 10))
    }
}

/// The character of a single decimal digit.
pub open spec fn digit_char(d: nat) -> char {
    if d == 0 { '0' }
    else if d == 1 { '1' }
    else if d == 2 { '2' }
    else if d == 3 { '3' }
    else if d == 4 { '4' }
    else if d == 5 { '5' }
    else if d == 6 { '6' }
    else if d == 7 { '7' }
    else if d == 8 { '8' }
    else { '9' }
}

fn exec_digit_char(d: usize) -> (c: char)
    requires
        d < 10,
    ensures
        c == digit_char(d as nat),
{
    if d == 0 { '0' }
    else if d == 1 { '1' }
    else if d == 2 { '2' }
    else if d == 3 { '3' }
    else if d == 4 { '4' }
    else if d == 5 { '5' }
    else if d == 6 { '6' }
    else if d == 7 { '7' }
    else if d == 8 { '8' }
    else { '9' }
}

/// Writes `n` in decimal, as `usize`'s `Display` does.
pub fn usize_to_decimal(n: usize) -> (r: String)
    ensures
        r@ == decimal(n as nat),
    decreases n,
{
    if n < 10 {
        let mut r = String::new();
        push_char(&mut r, exec_digit_char(n));
        r
    } else {
        let mut r = usize_to_decimal(n / 10);
        push_char(&mut r, exec_digit_char(n % 10));
        r
    }
}

/// `s` without its leading run of `c`.
pub open spec fn trim_start_char(s: Seq<char>, c: char) -> Seq<char>
    decreases s.len(),
{
    if s.len() > 0 && s[0] == c {
        trim_start_char(s.subrange(1, s.len() as int), c)
    } else {
        s
    }
}

/// `s` without its trailing run of `c`.
pub open spec fn trim_end_char(s: Seq<char>, c: char) -> Seq<char>
    decreases s.len(),
{
    if s.len() > 0 && s[s.len() - 1] == c {
        trim_end_char(s.subrange(0, s.len() - 1), c)
    } else {
        s
    }
}

/// `s` without its leading and trailing runs of `c`.
pub open spec fn trimmed(s: Seq<char>, c: char) -> Seq<char> {
    trim_end_char(trim_start_char(s, c), c)
}

/// `s` with every leading and trailing `c` removed, as `str::trim_matches(c)`.
pub fn trim_char(s: &String, c: char) -> (r: String)
    ensures
        r@ == trimmed(s@, c),
{
    let t = s.as_str();
    let n = t.unicode_len();
    let ghost sv = s@;
    let mut a: usize = 0;
    assert(sv.subrange(0, n as int) =~= sv);
    while a < n && t.get_char(a) == c
        invariant
            n == sv.len(),
            t@ == sv,
            a <= n,
            trim_start_char(sv, c) == trim_start_char(sv.subrange(a as int, n as int), c),
        decreases n - a,
    {
        assert(sv.subrange(a as int, n as int).subrange(1, n - a) =~= sv.subrange(a + 1, n as int));
        a += 1;
    }
    let ghost front = sv.subrange(a as int, n as int);
    assert(trim_start_char(sv, c) == front);
    let mut b: usize = n;
    while b > a && t.get_char(b - 1) == c
        invariant
            n == sv.len(),
            t@ == sv,
            a <= b <= n,
            front == sv.subrange(a as int, n as int),
            trim_end_char(front, c) == trim_end_char(sv.subrange(a as int, b as int), c),
        decreases b,
    {
        assert(sv.subrange(a as int, b as int).subrange(0, b - a - 1) =~= sv.subrange(a as int, b - 1));
        b -= 1;
    }
    let r = String::from_str(t.substring_char(a, b));
    assert(trim_end_char(sv.subrange(a as int, b as int), c) == sv.subrange(a as int, b as int));
    r
}

} // verus!
