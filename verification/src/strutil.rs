//! Small verified helpers on strings shared by the rest of the crate.

use vstd::prelude::*;

verus! {

/// Character-by-character equality test between two string slices.
pub fn str_eq(a: &str, b: &str) -> (r: bool)
    ensures
        r == (a@ == b@),
{
    let n = a.unicode_len();
    let m = b.unicode_len();
    if n != m {
        return false;
    }
    let mut i: usize = 0;
    while i < n
        invariant
            n == a@.len(),
            n == b@.len(),
            i <= n,
            forall|j: int| 0 <= j < i ==> a@[j] == b@[j],
        decreases n - i,
    {
        if a.get_char(i) != b.get_char(i) {
            return false;
        }
        i = i + 1;
    }
    proof {
        assert(a@ =~= b@);
    }
    true
}

/// Equality between an owned string and a string slice.
pub fn string_eq_str(s: &String, t: &str) -> (r: bool)
    ensures
        r == (s@ == t@),
{
    str_eq(s.as_str(), t)
}

/// The characters of the Unicode `White_Space` property, the set a
/// trimming test recognises as whitespace.
pub open spec fn is_space(c: char) -> bool {
    ||| c == '\t'
    ||| c == '\n'
    ||| c == '\u{000B}'
    ||| c == '\u{000C}'
    ||| c == '\r'
    ||| c == ' '
    ||| c == '\u{0085}'
    ||| c == '\u{00A0}'
    ||| c == '\u{1680}'
    ||| ('\u{2000}' <= c && c <= '\u{200A}')
    ||| c == '\u{2028}'
    ||| c == '\u{2029}'
    ||| c == '\u{202F}'
    ||| c == '\u{205F}'
    ||| c == '\u{3000}'
}

/// A string of nothing but whitespace (or nothing at all).
pub open spec fn is_blank(s: Seq<char>) -> bool {
    forall|i: int| 0 <= i < s.len() ==> is_space(#[trigger] s[i])
}

/// Whether a string consists only of whitespace.
pub fn str_is_blank(s: &str) -> (r: bool)
    ensures
        r == is_blank(s@),
{
    let n = s.unicode_len();
    let mut i: usize = 0;
    while i < n
        invariant
            n == s@.len(),
            i <= n,
            forall|j: int| 0 <= j < i ==> is_space(#[trigger] s@[j]),
        decreases n - i,
    {
        let c = s.get_char(i);
        let space = c == '\t' || c == '\n' || c == '\u{000B}' || c == '\u{000C}' || c == '\r'
            || c == ' ' || c == '\u{0085}' || c == '\u{00A0}' || c == '\u{1680}' || ('\u{2000}'
            <= c && c <= '\u{200A}') || c == '\u{2028}' || c == '\u{2029}' || c == '\u{202F}'
            || c == '\u{205F}' || c == '\u{3000}';
        if !space {
            return false;
        }
        i = i + 1;
    }
    true
}

/// Relies on `String::push`: appends one character at the end.
#[verifier::external_body]
pub(crate) fn push_char(s: &mut String, c: char)
    ensures
        final(s)@ == old(s)@.push(c),
{
    s.push(c)
}

/// The character of one decimal digit.
pub open spec fn dec_char(d: int) -> char {
    if d == 0 {
        '0'
    } else if d == 1 {
        '1'
    } else if d == 2 {
        '2'
    } else if d == 3 {
        '3'
    } else if d == 4 {
        '4'
    } else if d == 5 {
        '5'
    } else if d == 6 {
        '6'
    } else if d == 7 {
        '7'
    } else if d == 8 {
        '8'
    } else {
        '9'
    }
}

/// The decimal digits of a non-negative number.
pub open spec fn dec_digits(n: int) -> Seq<char>
    decreases n,
{
    if n < 10 {
        seq![dec_char(n)]
    } else {
        dec_digits(n / 10).push(dec_char(n % 10))
    }
}

/// The decimal rendering of a number, signed.
pub open spec fn dec_of(n: int) -> Seq<char> {
    if n < 0 {
        seq!['-'] + dec_digits(-n)
    } else {
        dec_digits(n)
    }
}

/// The character of one decimal digit.
fn dec_char_exec(d: u64) -> (c: char)
    requires
        d < 10,
    ensures
        c == dec_char(d as int),
{
    match d {
        0 => '0',
        1 => '1',
        2 => '2',
        3 => '3',
        4 => '4',
        5 => '5',
        6 => '6',
        7 => '7',
        8 => '8',
        _ => '9',
    }
}

/// Render a non-negative number in decimal.
fn u64_to_dec(x: u64) -> (r: String)
    ensures
        r@ =~= dec_digits(x as int),
    decreases x,
{
    if x < 10 {
        let mut s = String::new();
        push_char(&mut s, dec_char_exec(x));
        s
    } else {
        let mut s = u64_to_dec(x / 10);
        push_char(&mut s, dec_char_exec(x % 10));
        s
    }
}

/// Render a number in decimal, with its sign.
pub fn i64_to_dec(n: i64) -> (r: String)
    ensures
        r@ =~= dec_of(n as int),
{
    if n >= 0 {
        u64_to_dec(n as u64)
    } else {
        let magnitude: u64 = ((-(n + 1)) as u64) + 1;
        proof {
            assert(magnitude as int == -(n as int));
        }
        let digits = u64_to_dec(magnitude);
        let r = String::from_str("-").concat(digits.as_str());
        proof {
            reveal_strlit("-");
            assert("-"@ =~= seq!['-']);
        }
        r
    }
}

} // verus!
