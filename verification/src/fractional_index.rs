//! Fractional indexing: deterministic ordering keys for cells.
//!
//! An index is a non-empty string over the 62-character alphabet
//! `0-9 A-Z a-z`, ordered lexicographically.  Between any two adjacent
//! keys a strictly-between key can be generated, so independent clients
//! can insert cells at arbitrary positions without coordination.

use vstd::prelude::*;

verus! {

/// Errors raised by fractional-index operations.
#[derive(Debug, Clone, PartialEq)]
pub enum FractionalIndexError {
    InvalidCharacter(char),
    InvalidIndex(String),
    CannotGenerate(String),
}

/// True for the characters of the index alphabet: `0-9`, `A-Z`, `a-z`.
pub open spec fn is_index_char(c: char) -> bool {
    ('0' <= c && c <= '9') || ('A' <= c && c <= 'Z') || ('a' <= c && c <= 'z')
}

/// Position of an alphabet character: digits map to 0-9, upper case to
/// 10-35, lower case to 36-61.
pub open spec fn char_digit(c: char) -> int {
    if '0' <= c && c <= '9' {
        c as int - '0' as int
    } else if 'A' <= c && c <= 'Z' {
        c as int - 'A' as int + 10
    } else {
        c as int - 'a' as int + 36
    }
}

/// A well-formed index: non-empty, every character from the alphabet.
pub open spec fn valid_index_chars(s: Seq<char>) -> bool {
    s.len() > 0 && forall|i: int| 0 <= i < s.len() ==> is_index_char(#[trigger] s[i])
}

/// The digit positions of an index string.
pub open spec fn digits_of(s: Seq<char>) -> Seq<int> {
    Seq::new(s.len(), |i: int| char_digit(s[i]))
}

/// Lexicographic order on character sequences: a strict prefix comes
/// first; otherwise the first differing character decides.
pub open spec fn str_lt(a: Seq<char>, b: Seq<char>) -> bool
    decreases a.len() + b.len(),
{
    if b.len() == 0 {
        false
    } else if a.len() == 0 {
        true
    } else if a[0] != b[0] {
        (a[0] as int) < (b[0] as int)
    } else {
        str_lt(a.skip(1), b.skip(1))
    }
}

/// Lexicographic order on digit sequences.
pub open spec fn dig_lt(a: Seq<int>, b: Seq<int>) -> bool
    decreases a.len() + b.len(),
{
    if b.len() == 0 {
        false
    } else if a.len() == 0 {
        true
    } else if a[0] != b[0] {
        a[0] < b[0]
    } else {
        dig_lt(a.skip(1), b.skip(1))
    }
}

/// Digit sequences drawn from the alphabet range.
pub open spec fn digits_in_range(d: Seq<int>) -> bool {
    forall|i: int| 0 <= i < d.len() ==> 0 <= #[trigger] d[i] < 62
}

/// Alphabet characters are ordered exactly as their digit positions.
proof fn lemma_char_digit_monotone(c1: char, c2: char)
    requires
        is_index_char(c1),
        is_index_char(c2),
    ensures
        ((c1 as int) < (c2 as int)) == (char_digit(c1) < char_digit(c2)),
        (c1 == c2) == (char_digit(c1) == char_digit(c2)),
{
}

/// On valid indices, string order and digit order coincide.
proof fn lemma_str_dig_order(a: Seq<char>, b: Seq<char>)
    requires
        forall|i: int| 0 <= i < a.len() ==> is_index_char(#[trigger] a[i]),
        forall|i: int| 0 <= i < b.len() ==> is_index_char(#[trigger] b[i]),
    ensures
        str_lt(a, b) == dig_lt(digits_of(a), digits_of(b)),
    decreases a.len() + b.len(),
{
    assert(digits_of(a).len() == a.len());
    assert(digits_of(b).len() == b.len());
    if b.len() == 0 {
    } else if a.len() == 0 {
    } else if a[0] != b[0] {
        lemma_char_digit_monotone(a[0], b[0]);
        assert(digits_of(a)[0] == char_digit(a[0]));
        assert(digits_of(b)[0] == char_digit(b[0]));
    } else {
        lemma_char_digit_monotone(a[0], b[0]);
        lemma_str_dig_order(a.skip(1), b.skip(1));
        assert(digits_of(a.skip(1)) =~= digits_of(a).skip(1));
        assert(digits_of(b.skip(1)) =~= digits_of(b).skip(1));
    }
}

/// Exec comparison of two characters by scalar value.
fn char_lt(c1: char, c2: char) -> (r: bool)
    ensures
        r == ((c1 as int) < (c2 as int)),
{
    (c1 as u32) < (c2 as u32)
}

/// Exec lexicographic comparison of two strings.
pub fn index_lt(a: &str, b: &str) -> (r: bool)
    ensures
        r == str_lt(a@, b@),
{
    let na = a.unicode_len();
    let nb = b.unicode_len();
    let mut i: usize = 0;
    proof {
        assert(a@.skip(0) =~= a@);
        assert(b@.skip(0) =~= b@);
    }
    loop
        invariant
            na == a@.len(),
            nb == b@.len(),
            i <= na,
            i <= nb,
            forall|j: int| 0 <= j < i ==> a@[j] == b@[j],
            str_lt(a@, b@) == str_lt(a@.skip(i as int), b@.skip(i as int)),
        decreases na - i,
    {
        if i == nb {
            proof {
                assert(b@.skip(i as int).len() == 0);
            }
            return false;
        }
        if i == na {
            proof {
                assert(a@.skip(i as int).len() == 0);
                assert(b@.skip(i as int).len() > 0);
            }
            return true;
        }
        let ca = a.get_char(i);
        let cb = b.get_char(i);
        if ca != cb {
            proof {
                assert(a@.skip(i as int)[0] == a@[i as int]);
                assert(b@.skip(i as int)[0] == b@[i as int]);
            }
            return char_lt(ca, cb);
        }
        proof {
            assert(a@.skip(i as int)[0] == a@[i as int]);
            assert(b@.skip(i as int)[0] == b@[i as int]);
            assert(a@.skip(i as int).skip(1) =~= a@.skip(i + 1));
            assert(b@.skip(i as int).skip(1) =~= b@.skip(i + 1));
        }
        i = i + 1;
    }
}

/// Digit position of a character, if it belongs to the alphabet.
pub fn char_pos(c: char) -> (r: Option<usize>)
    ensures
        r is Some <==> is_index_char(c),
        r matches Some(p) ==> p == char_digit(c) && p < 62,
{
    let u = c as u32;
    if 48 <= u && u <= 57 {
        Some((u - 48) as usize)
    } else if 65 <= u && u <= 90 {
        Some((u - 65 + 10) as usize)
    } else if 97 <= u && u <= 122 {
        Some((u - 97 + 36) as usize)
    } else {
        None
    }
}

/// Character standing at a digit position of the alphabet.
pub fn char_at(pos: usize) -> (c: char)
    requires
        pos < 62,
    ensures
        is_index_char(c),
        char_digit(c) == pos,
{
    if pos < 10 {
        (48 + pos as u8) as char
    } else if pos < 36 {
        (65 + (pos as u8 - 10)) as char
    } else {
        (97 + (pos as u8 - 36)) as char
    }
}

/// Whether a character belongs to the index alphabet.
pub fn is_valid_char(c: char) -> (r: bool)
    ensures
        r == is_index_char(c),
{
    char_pos(c).is_some()
}

/// The alphabet predecessor of a character, if any.
pub fn get_previous_char(c: char) -> (r: Option<char>)
    ensures
        r is Some <==> is_index_char(c) && char_digit(c) > 0,
        r matches Some(p) ==> is_index_char(p) && char_digit(p) == char_digit(c) - 1,
{
    match char_pos(c) {
        Some(pos) => {
            if pos > 0 {
                Some(char_at(pos - 1))
            } else {
                None
            }
        },
        None => None,
    }
}

/// The alphabet successor of a character, if any.
pub fn get_next_char(c: char) -> (r: Option<char>)
    ensures
        r is Some <==> is_index_char(c) && char_digit(c) < 61,
        r matches Some(p) ==> is_index_char(p) && char_digit(p) == char_digit(c) + 1,
{
    match char_pos(c) {
        Some(pos) => {
            if pos < 61 {
                Some(char_at(pos + 1))
            } else {
                None
            }
        },
        None => None,
    }
}

/// Tail of a digit sequence; the empty sequence is its own tail.
pub open spec fn tl(s: Seq<int>) -> Seq<int> {
    if s.len() > 0 {
        s.skip(1)
    } else {
        s
    }
}

/// A key strictly above a digit sequence: copy its maximal digits,
/// then raise the first digit that has room (to the middle of the room
/// above it), or extend an exhausted key by the middle digit.
pub open spec fn above_key(s: Seq<int>) -> Seq<int>
    decreases s.len(),
{
    if s.len() == 0 {
        seq![30int]
    } else if s[0] == 61 {
        seq![61int] + above_key(s.skip(1))
    } else {
        seq![(s[0] + 62) / 2]
    }
}

/// The between walk over two digit sequences, `a` virtually padded on
/// the right with `0`s and `b` with `61`s: equal digits are copied; at
/// the first difference either the average digit is emitted, or, for
/// digits one apart, the lower digit followed by a key above the left
/// key's remaining tail.
pub open spec fn between_walk(a: Seq<int>, b: Seq<int>) -> Seq<int>
    decreases a.len() + b.len(),
{
    if a.len() == 0 && b.len() == 0 {
        seq![30int]
    } else {
        let ad = if a.len() > 0 {
            a[0]
        } else {
            0
        };
        let bd = if b.len() > 0 {
            b[0]
        } else {
            61
        };
        if ad == bd {
            seq![ad] + between_walk(tl(a), tl(b))
        } else if ad + 1 == bd {
            seq![ad] + above_key(tl(a))
        } else {
            seq![(ad + bd) / 2]
        }
    }
}

/// Whether `b` is `a` extended by one or more zero digits: the walk
/// finds no difference there, and for a single zero no key fits
/// between at all.
pub open spec fn zero_extension(a: Seq<int>, b: Seq<int>) -> bool {
    a.len() < b.len() && b.take(a.len() as int) == a && (forall|j: int|
        a.len() <= j < b.len() ==> b[j] == 0)
}

/// The digits of the key generated between two keys.
pub open spec fn spec_between_digits(a: Seq<int>, b: Seq<int>) -> Seq<int> {
    if zero_extension(a, b) {
        a.push(0)
    } else {
        between_walk(a, b)
    }
}

/// Digit sequences that agree below position `k` and differ there are
/// ordered by the digits at `k`.
proof fn lemma_dig_lt_diff(a: Seq<int>, b: Seq<int>, k: int)
    requires
        0 <= k < a.len(),
        k < b.len(),
        forall|j: int| 0 <= j < k ==> a[j] == b[j],
        a[k] < b[k],
    ensures
        dig_lt(a, b),
    decreases k,
{
    if k > 0 {
        lemma_dig_lt_diff(a.skip(1), b.skip(1), k - 1);
    }
}

/// A strict prefix comes before any of its extensions.
proof fn lemma_dig_lt_prefix(a: Seq<int>, b: Seq<int>)
    requires
        a.len() < b.len(),
        forall|j: int| 0 <= j < a.len() ==> a[j] == b[j],
    ensures
        dig_lt(a, b),
    decreases a.len(),
{
    if a.len() > 0 {
        lemma_dig_lt_prefix(a.skip(1), b.skip(1));
    }
}

/// A longer key whose prefix is the other key never comes first.
proof fn lemma_not_lt_of_prefix(a: Seq<int>, b: Seq<int>)
    requires
        b.len() <= a.len(),
        forall|j: int| 0 <= j < b.len() ==> a[j] == #[trigger] b[j],
    ensures
        !dig_lt(a, b),
    decreases b.len(),
{
    if b.len() > 0 {
        lemma_not_lt_of_prefix(a.skip(1), b.skip(1));
    }
}

/// The key above a key is a well-formed key strictly above it.
proof fn lemma_above_key(s: Seq<int>)
    requires
        digits_in_range(s),
    ensures
        above_key(s).len() > 0,
        digits_in_range(above_key(s)),
        dig_lt(s, above_key(s)),
    decreases s.len(),
{
    if s.len() == 0 {
    } else if s[0] == 61 {
        assert(digits_in_range(s.skip(1)));
        lemma_above_key(s.skip(1));
        let m = above_key(s);
        assert(m[0] == 61 == s[0]);
        assert(m.skip(1) =~= above_key(s.skip(1)));
    } else {
        assert(s[0] < (s[0] + 62) / 2 <= 61);
    }
}

/// Where the keys are not separated by zero padding alone, the walk
/// yields a well-formed key strictly between them.
proof fn lemma_walk_between(a: Seq<int>, b: Seq<int>)
    requires
        digits_in_range(a),
        digits_in_range(b),
        dig_lt(a, b),
        !zero_extension(a, b),
    ensures
        between_walk(a, b).len() > 0,
        digits_in_range(between_walk(a, b)),
        dig_lt(a, between_walk(a, b)),
        dig_lt(between_walk(a, b), b),
    decreases a.len() + b.len(),
{
    let ad: int = if a.len() > 0 {
        a[0]
    } else {
        0
    };
    let bd: int = if b.len() > 0 {
        b[0]
    } else {
        61
    };
    let m = between_walk(a, b);
    if b.len() == 0 {
        // dig_lt(a, b) cannot hold against an empty right key
        assert(false);
    } else if ad == bd {
        let rec = between_walk(tl(a), tl(b));
        assert(m =~= seq![ad] + rec);
        assert(digits_in_range(tl(a)));
        assert(digits_in_range(tl(b)));
        if a.len() == 0 {
            // left key exhausted: its padding matches b's leading zero
            assert(b[0] == 0);
            // some later digit of b is not zero, so its tail is not
            // exhausted and is no zero extension of the empty key
            assert(a =~= Seq::<int>::empty());
            assert(b.take(0) =~= a);
            assert(exists|j: int| 0 <= j < b.len() && #[trigger] b[j] != 0) by {
                assert(!zero_extension(a, b));
            }
            let w = choose|j: int| 0 <= j < b.len() && #[trigger] b[j] != 0;
            assert(w >= 1);
            assert(tl(b)[w - 1] == b[w]);
            assert(tl(b).len() > 0);
            assert(dig_lt(tl(a), tl(b)));
            assert(!zero_extension(tl(a), tl(b))) by {
                assert(tl(b)[w - 1] != 0);
            }
            lemma_walk_between(tl(a), tl(b));
            assert(m[0] == ad);
            assert(m.skip(1) =~= rec);
            assert(dig_lt(m, b));
        } else {
            assert(dig_lt(a.skip(1), b.skip(1)));
            assert(!zero_extension(tl(a), tl(b))) by {
                if zero_extension(tl(a), tl(b)) {
                    assert forall|j: int|
                        0 <= j < a.len() implies b.take(a.len() as int)[j] == #[trigger] a[j] by {
                        if j >= 1 {
                            assert(tl(b)[j - 1] == b[j]);
                            assert(tl(a)[j - 1] == a[j]);
                            assert(tl(b).take(tl(a).len() as int)[j - 1] == tl(b)[j - 1]);
                        }
                    }
                    assert(b.take(a.len() as int) =~= a);
                    assert forall|j: int| a.len() <= j < b.len() implies #[trigger] b[j]
                        == 0 by {
                        assert(tl(b)[j - 1] == b[j]);
                    }
                }
            }
            lemma_walk_between(tl(a), tl(b));
            assert(m[0] == ad);
            assert(m.skip(1) =~= rec);
            assert(dig_lt(a, m));
            assert(dig_lt(m, b));
        }
    } else if ad + 1 == bd {
        let ta = tl(a);
        assert(digits_in_range(ta));
        lemma_above_key(ta);
        assert(m =~= seq![ad] + above_key(ta));
        assert(m[0] == ad < b[0]);
        assert(dig_lt(m, b));
        if a.len() > 0 {
            assert(m.skip(1) =~= above_key(a.skip(1)));
        }
        assert(dig_lt(a, m));
    } else {
        // the differing digits are at least two apart
        if a.len() > 0 {
            assert(a[0] < b[0]);
        }
        let mid = (ad + bd) / 2;
        assert(ad < mid < bd) by {
            assert(ad + 2 <= bd);
        }
        assert(m =~= seq![mid]);
        assert(dig_lt(a, m));
        assert(dig_lt(m, b));
    }
}

/// Index of the first character outside the alphabet.
pub open spec fn first_invalid(s: Seq<char>) -> int
    decreases s.len(),
{
    if s.len() == 0 {
        0
    } else if !is_index_char(s[0]) {
        0
    } else {
        1 + first_invalid(s.skip(1))
    }
}

/// `first_invalid` names the first position failing the alphabet test.
proof fn lemma_first_invalid(s: Seq<char>, k: int)
    requires
        0 <= k < s.len(),
        forall|j: int| 0 <= j < k ==> is_index_char(#[trigger] s[j]),
        !is_index_char(s[k]),
    ensures
        first_invalid(s) == k,
    decreases k,
{
    if k > 0 {
        lemma_first_invalid(s.skip(1), k - 1);
    }
}

/// The error that `validate_index` reports for a malformed index.
pub open spec fn is_validate_err(s: Seq<char>, e: FractionalIndexError) -> bool {
    if s.len() == 0 {
        e matches FractionalIndexError::InvalidIndex(m) && m@ == "Empty index"@
    } else {
        e matches FractionalIndexError::InvalidCharacter(c) && c == s[first_invalid(s)]
    }
}

/// Validate that an index is non-empty and drawn from the alphabet.
pub fn validate_index(index: &str) -> (r: Result<(), FractionalIndexError>)
    ensures
        r is Ok <==> valid_index_chars(index@),
        r matches Err(e) ==> is_validate_err(index@, e),
{
    let n = index.unicode_len();
    if n == 0 {
        return Err(FractionalIndexError::InvalidIndex(String::from_str("Empty index")));
    }
    let mut i: usize = 0;
    while i < n
        invariant
            n == index@.len(),
            i <= n,
            forall|j: int| 0 <= j < i ==> is_index_char(#[trigger] index@[j]),
        decreases n - i,
    {
        let c = index.get_char(i);
        if !is_valid_char(c) {
            proof {
                lemma_first_invalid(index@, i as int);
            }
            return Err(FractionalIndexError::InvalidCharacter(c));
        }
        i = i + 1;
    }
    Ok(())
}

/// The digit positions of a sequence of bytes.
pub open spec fn ints_of(d: Seq<u8>) -> Seq<int> {
    Seq::new(d.len(), |i: int| d[i] as int)
}

/// Convert a valid index to its digit positions.
pub fn to_digits(index: &str) -> (r: Vec<u8>)
    requires
        valid_index_chars(index@),
    ensures
        ints_of(r@) =~= digits_of(index@),
        forall|i: int| 0 <= i < r@.len() ==> #[trigger] r@[i] < 62,
{
    let n = index.unicode_len();
    let mut r: Vec<u8> = Vec::new();
    let mut i: usize = 0;
    while i < n
        invariant
            n == index@.len(),
            valid_index_chars(index@),
            i <= n,
            r@.len() == i,
            forall|j: int| 0 <= j < i ==> #[trigger] r@[j] < 62,
            forall|j: int| 0 <= j < i ==> #[trigger] r@[j] as int == char_digit(index@[j]),
        decreases n - i,
    {
        let c = index.get_char(i);
        let p = match char_pos(c) {
            Some(p) => p,
            None => {
                proof {
                    assert(is_index_char(index@[i as int]));
                }
                0
            },
        };
        r.push(p as u8);
        i = i + 1;
    }
    r
}

/// Convert digit positions back to an index string.
pub fn from_digits(digits: &Vec<u8>) -> (r: String)
    requires
        forall|i: int| 0 <= i < digits@.len() ==> #[trigger] digits@[i] < 62,
    ensures
        r@.len() == digits@.len(),
        forall|i: int| 0 <= i < r@.len() ==> is_index_char(#[trigger] r@[i]),
        digits_of(r@) =~= ints_of(digits@),
{
    let n = digits.len();
    let mut r = String::new();
    let mut i: usize = 0;
    while i < n
        invariant
            n == digits@.len(),
            forall|k: int| 0 <= k < digits@.len() ==> #[trigger] digits@[k] < 62,
            i <= n,
            r@.len() == i,
            forall|j: int| 0 <= j < i ==> is_index_char(#[trigger] r@[j]),
            forall|j: int| 0 <= j < i ==> char_digit(#[trigger] r@[j]) == digits@[j] as int,
        decreases n - i,
    {
        let c = char_at(digits[i] as usize);
        crate::strutil::push_char(&mut r, c);
        i = i + 1;
    }
    r
}

/// Suffix of a digit sequence from a position, empty beyond the end.
pub open spec fn sfrom(s: Seq<int>, i: int) -> Seq<int> {
    if 0 <= i < s.len() {
        s.skip(i)
    } else {
        Seq::empty()
    }
}

/// A digit at a position, padded with the minimum beyond the end.
pub open spec fn padded_low(s: Seq<int>, k: int) -> int {
    if 0 <= k < s.len() {
        s[k]
    } else {
        0
    }
}

/// A digit at a position, padded with the maximum beyond the end.
pub open spec fn padded_high(s: Seq<int>, k: int) -> int {
    if 0 <= k < s.len() {
        s[k]
    } else {
        61
    }
}

/// One step of the between walk at position `i`, phrased over the
/// suffixes that remain.
proof fn lemma_walk_step(a: Seq<int>, b: Seq<int>, i: int, ad: int, bd: int)
    requires
        0 <= i,
        i < a.len() || i < b.len(),
        ad == padded_low(a, i),
        bd == padded_high(b, i),
    ensures
        ad == bd ==> between_walk(sfrom(a, i), sfrom(b, i)) =~= seq![ad] + between_walk(
            sfrom(a, i + 1),
            sfrom(b, i + 1),
        ),
        ad != bd && ad + 1 == bd ==> between_walk(sfrom(a, i), sfrom(b, i)) =~= seq![ad]
            + above_key(sfrom(a, i + 1)),
        ad != bd && ad + 1 != bd ==> between_walk(sfrom(a, i), sfrom(b, i)) =~= seq![(ad + bd)
            / 2],
{
    let sa = sfrom(a, i);
    let sb = sfrom(b, i);
    assert(sa.len() > 0 ==> sa[0] == a[i]);
    assert(sb.len() > 0 ==> sb[0] == b[i]);
    assert(sa.len() > 0 || sb.len() > 0);
    assert(tl(sa) =~= sfrom(a, i + 1));
    assert(tl(sb) =~= sfrom(b, i + 1));
}

/// One step of the above-key construction at position `j` of the
/// remaining tail.
proof fn lemma_above_step(a: Seq<int>, j: int)
    requires
        0 <= j,
    ensures
        j >= a.len() ==> above_key(sfrom(a, j)) =~= seq![30int],
        j < a.len() && a[j] == 61 ==> above_key(sfrom(a, j)) =~= seq![61int] + above_key(
            sfrom(a, j + 1),
        ),
        j < a.len() && a[j] != 61 ==> above_key(sfrom(a, j)) =~= seq![(a[j] + 62) / 2],
{
    let sa = sfrom(a, j);
    if j < a.len() {
        assert(sa[0] == a[j]);
        assert(sa.skip(1) =~= sfrom(a, j + 1));
    }
}

/// Whether the right digit vector is the left one extended by zeros.
fn is_zero_extension(a: &Vec<u8>, b: &Vec<u8>) -> (r: bool)
    ensures
        r == zero_extension(ints_of(a@), ints_of(b@)),
{
    let ghost ga = ints_of(a@);
    let ghost gb = ints_of(b@);
    if a.len() >= b.len() {
        proof {
            assert(!zero_extension(ga, gb));
        }
        return false;
    }
    let n = a.len();
    let mut i: usize = 0;
    while i < n
        invariant
            ga == ints_of(a@),
            gb == ints_of(b@),
            n == a@.len(),
            a@.len() < b@.len(),
            ga.len() == a@.len(),
            gb.len() == b@.len(),
            i <= n,
            forall|j: int| 0 <= j < i ==> ga[j] == #[trigger] gb[j],
        decreases n - i,
    {
        if a[i] != b[i] {
            proof {
                assert(gb.take(ga.len() as int)[i as int] == gb[i as int]);
                assert(!zero_extension(ga, gb));
            }
            return false;
        }
        i = i + 1;
    }
    let m = b.len();
    let mut j: usize = n;
    while j < m
        invariant
            ga == ints_of(a@),
            gb == ints_of(b@),
            n == a@.len(),
            m == b@.len(),
            a@.len() < b@.len(),
            ga.len() == a@.len(),
            gb.len() == b@.len(),
            n <= j <= m,
            forall|k: int| 0 <= k < n ==> ga[k] == #[trigger] gb[k],
            forall|k: int| n <= k < j ==> #[trigger] gb[k] == 0,
        decreases m - j,
    {
        if b[j] != 0 {
            proof {
                assert(gb[j as int] == b@[j as int] as int);
                assert(gb[j as int] != 0);
                assert(!zero_extension(ga, gb));
            }
            return false;
        }
        j = j + 1;
    }
    proof {
        assert(gb.take(ga.len() as int) =~= ga);
        assert(zero_extension(ga, gb));
    }
    true
}

/// The key the between walk generates for two digit vectors that are
/// not separated by zero padding alone.
fn walk_between(a: &Vec<u8>, b: &Vec<u8>) -> (r: Vec<u8>)
    requires
        forall|i: int| 0 <= i < a@.len() ==> #[trigger] a@[i] < 62,
        forall|i: int| 0 <= i < b@.len() ==> #[trigger] b@[i] < 62,
        dig_lt(ints_of(a@), ints_of(b@)),
        !zero_extension(ints_of(a@), ints_of(b@)),
    ensures
        ints_of(r@) =~= between_walk(ints_of(a@), ints_of(b@)),
        forall|i: int| 0 <= i < r@.len() ==> #[trigger] r@[i] < 62,
{
    let ghost ga = ints_of(a@);
    let ghost gb = ints_of(b@);
    let max_len = if a.len() > b.len() {
        a.len()
    } else {
        b.len()
    };
    let mut result: Vec<u8> = Vec::new();
    let mut i: usize = 0;
    let mut done = false;
    proof {
        assert(sfrom(ga, 0) =~= ga);
        assert(sfrom(gb, 0) =~= gb);
    }
    while i < max_len && !done
        invariant
            ga == ints_of(a@),
            gb == ints_of(b@),
            max_len == if a@.len() > b@.len() {
                a@.len()
            } else {
                b@.len()
            },
            forall|k: int| 0 <= k < a@.len() ==> #[trigger] a@[k] < 62,
            forall|k: int| 0 <= k < b@.len() ==> #[trigger] b@[k] < 62,
            i <= max_len,
            forall|k: int| 0 <= k < result@.len() ==> #[trigger] result@[k] < 62,
            !done ==> between_walk(ga, gb) =~= ints_of(result@) + between_walk(
                sfrom(ga, i as int),
                sfrom(gb, i as int),
            ),
            !done ==> forall|k: int|
                0 <= k < i ==> padded_low(ga, k) == #[trigger] padded_high(gb, k),
            done ==> ints_of(result@) =~= between_walk(ga, gb),
            done ==> result@.len() > 0,
        decreases max_len - i + (if done {
            0int
        } else {
            1int
        }),
    {
        let a_digit: u8 = if i < a.len() {
            a[i]
        } else {
            0
        };
        let b_digit: u8 = if i < b.len() {
            b[i]
        } else {
            61
        };
        proof {
            lemma_walk_step(ga, gb, i as int, a_digit as int, b_digit as int);
        }
        if a_digit == b_digit {
            result.push(a_digit);
            i = i + 1;
        } else if a_digit + 1 == b_digit {
            result.push(a_digit);
            // emit a key strictly above the left key's remaining tail
            let mut j: usize = i + 1;
            let mut stop = false;
            while !stop
                invariant
                    ga == ints_of(a@),
                    gb == ints_of(b@),
                    forall|k: int| 0 <= k < a@.len() ==> #[trigger] a@[k] < 62,
                    i + 1 <= j,
                    forall|k: int| 0 <= k < result@.len() ==> #[trigger] result@[k] < 62,
                    !stop ==> between_walk(ga, gb) =~= ints_of(result@) + above_key(
                        sfrom(ga, j as int),
                    ),
                    stop ==> ints_of(result@) =~= between_walk(ga, gb),
                    stop ==> result@.len() > 0,
                decreases (if stop {
                    0int
                } else {
                    1int
                }) + (if j < a@.len() {
                    a@.len() - j
                } else {
                    0int
                }),
            {
                proof {
                    lemma_above_step(ga, j as int);
                }
                if j < a.len() {
                    let d = a[j];
                    if d == 61 {
                        result.push(61);
                        j = j + 1;
                    } else {
                        result.push((d + 62) / 2);
                        stop = true;
                    }
                } else {
                    result.push(30);
                    stop = true;
                }
            }
            done = true;
        } else {
            result.push((a_digit + b_digit) / 2);
            done = true;
        }
    }
    proof {
        if !done {
            // the walk found nothing but padding: the keys would have
            // to be equal or zero-extended, both excluded
            if ga.len() >= gb.len() {
                assert forall|k: int| 0 <= k < gb.len() implies ga[k] == #[trigger] gb[k] by {
                    assert(padded_low(ga, k) == padded_high(gb, k));
                }
                lemma_not_lt_of_prefix(ga, gb);
                assert(false);
            } else {
                assert forall|k: int| 0 <= k < ga.len() implies #[trigger] gb[k] == ga[k] by {
                    assert(padded_low(ga, k) == padded_high(gb, k));
                }
                assert forall|k: int|
                    ga.len() <= k < gb.len() implies #[trigger] gb[k] == 0 by {
                    assert(padded_low(ga, k) == padded_high(gb, k));
                }
                assert(gb.take(ga.len() as int) =~= ga);
                assert(zero_extension(ga, gb));
                assert(false);
            }
        }
    }
    result
}

/// The first fractional index handed out for a fresh document.
pub fn initial() -> (r: String)
    ensures
        r@ == "a0"@,
        valid_index_chars(r@),
{
    proof {
        reveal_strlit("a0");
    }
    String::from_str("a0")
}

/// Keys between which no key fits: the right key is the left one
/// extended by the single lowest digit.
pub open spec fn adjacent_keys(a: Seq<char>, b: Seq<char>) -> bool {
    b.len() == a.len() + 1 && (forall|j: int| 0 <= j < a.len() ==> b[j] == #[trigger] a[j])
        && b[a.len() as int] == '0'
}

/// Adjacent keys are exactly a single-zero extension at digit level.
proof fn lemma_adjacent_is_zero_ext(a: Seq<char>, b: Seq<char>)
    requires
        adjacent_keys(a, b),
    ensures
        zero_extension(digits_of(a), digits_of(b)),
{
    let da = digits_of(a);
    let db = digits_of(b);
    assert(char_digit('0') == 0);
    assert(db.take(da.len() as int) =~= da);
}

/// The digit rewriting that `before` performs: decrement the last
/// digit, or drop a trailing zero.
pub open spec fn spec_before(d: Seq<int>) -> Seq<int> {
    if d[d.len() - 1] > 0 {
        d.update(d.len() - 1, d[d.len() - 1] - 1)
    } else {
        d.take(d.len() - 1)
    }
}

/// The digit rewriting that `after` performs.
pub open spec fn spec_after(d: Seq<int>) -> Seq<int> {
    if d[d.len() - 1] < 61 {
        d.update(d.len() - 1, d[d.len() - 1] + 1)
    } else {
        d.push(1)
    }
}

/// Generate an index between two given indices.
///
/// Succeeds exactly on valid keys in strict order between which a key
/// exists — every pair except a key and its single-zero extension —
/// and the result then lies strictly between the two keys.
pub fn between(a: &str, b: &str) -> (r: Result<String, FractionalIndexError>)
    ensures
        r is Ok <==> str_lt(a@, b@) && valid_index_chars(a@) && valid_index_chars(b@)
            && !adjacent_keys(a@, b@),
        !str_lt(a@, b@) ==> r matches Err(FractionalIndexError::CannotGenerate(_)),
        str_lt(a@, b@) && !valid_index_chars(a@) ==> (r matches Err(e) && is_validate_err(a@, e)),
        str_lt(a@, b@) && valid_index_chars(a@) && !valid_index_chars(b@) ==> (r matches Err(e)
            && is_validate_err(b@, e)),
        str_lt(a@, b@) && valid_index_chars(a@) && valid_index_chars(b@) && adjacent_keys(a@, b@)
            ==> (r matches Err(e) && e matches FractionalIndexError::CannotGenerate(m) && m@
            == "No index fits between '"@ + a@ + "' and '"@ + b@ + "'"@),
        r matches Ok(m) ==> valid_index_chars(m@) && str_lt(a@, m@) && str_lt(m@, b@)
            && digits_of(m@) =~= spec_between_digits(digits_of(a@), digits_of(b@)),
{
    if !index_lt(a, b) {
        let msg = String::from_str("First index '").concat(a).concat(
            "' must be less than second index '",
        ).concat(b).concat("'");
        return Err(FractionalIndexError::CannotGenerate(msg));
    }
    if let Err(e) = validate_index(a) {
        return Err(e);
    }
    if let Err(e) = validate_index(b) {
        return Err(e);
    }

    let a_digits = to_digits(a);
    let b_digits = to_digits(b);
    let ghost da = digits_of(a@);
    let ghost db = digits_of(b@);
    proof {
        assert(ints_of(a_digits@) =~= da);
        assert(ints_of(b_digits@) =~= db);
        lemma_str_dig_order(a@, b@);
    }

    if is_zero_extension(&a_digits, &b_digits) {
        if b_digits.len() == a_digits.len() + 1 {
            proof {
                // the right key extends the left by one zero: the keys
                // are adjacent, and no key fits between them
                assert forall|j: int| 0 <= j < a@.len() implies b@[j] == #[trigger] a@[j] by {
                    assert(db.take(da.len() as int)[j] == db[j]);
                    assert(char_digit(b@[j]) == char_digit(a@[j]));
                    lemma_char_digit_monotone(a@[j], b@[j]);
                }
                assert(db[da.len() as int] == 0);
                assert(db[da.len() as int] == char_digit(b@[a@.len() as int]));
                assert(char_digit(b@[a@.len() as int]) == 0);
                assert(b@[a@.len() as int] == '0');
                assert(adjacent_keys(a@, b@));
            }
            let msg = String::from_str("No index fits between '").concat(a).concat("' and '")
                .concat(b).concat("'");
            return Err(FractionalIndexError::CannotGenerate(msg));
        }
        // the right key extends the left by several zeros: one fewer
        // zero lies strictly between
        let mut m_digits = a_digits;
        m_digits.push(0);
        let m = from_digits(&m_digits);
        proof {
            assert(digits_of(m@) =~= da.push(0));
            assert(digits_of(m@) =~= spec_between_digits(da, db));
            lemma_dig_lt_prefix(da, da.push(0));
            assert(forall|j: int|
                0 <= j < da.len() ==> da.push(0)[j] == #[trigger] db.take(da.len() as int)[j]);
            assert(forall|j: int| 0 <= j <= da.len() ==> da.push(0)[j] == #[trigger] db[j]);
            lemma_dig_lt_prefix(da.push(0), db);
            lemma_str_dig_order(a@, m@);
            lemma_str_dig_order(m@, b@);
            assert(!adjacent_keys(a@, b@));
        }
        return Ok(m);
    }

    let m_digits = walk_between(&a_digits, &b_digits);
    let m = from_digits(&m_digits);
    proof {
        assert(digits_of(m@) =~= between_walk(da, db));
        assert(digits_of(m@) =~= spec_between_digits(da, db));
        lemma_walk_between(da, db);
        lemma_str_dig_order(a@, m@);
        lemma_str_dig_order(m@, b@);
        if adjacent_keys(a@, b@) {
            lemma_adjacent_is_zero_ext(a@, b@);
        }
    }
    Ok(m)
}

/// Generate an index before the given index.
///
/// Succeeds exactly on valid keys other than the minimal key `"0"`,
/// and the result is then strictly below the input.
pub fn before(index: &str) -> (r: Result<String, FractionalIndexError>)
    ensures
        r is Ok <==> valid_index_chars(index@) && !(index@.len() == 1 && index@[0] == '0'),
        !valid_index_chars(index@) ==> (r matches Err(e) && is_validate_err(index@, e)),
        valid_index_chars(index@) && index@.len() == 1 && index@[0] == '0' ==> (r matches Err(e)
            && e matches FractionalIndexError::CannotGenerate(m) && m@
            == "No index lies before the minimal index"@),
        r matches Ok(m) ==> valid_index_chars(m@) && str_lt(m@, index@) && digits_of(m@)
            =~= spec_before(digits_of(index@)),
{
    if let Err(e) = validate_index(index) {
        return Err(e);
    }
    let mut digits = to_digits(index);
    let n = digits.len();
    proof {
        assert(ints_of(digits@) =~= digits_of(index@));
    }
    let last = digits[n - 1];
    if last > 0 {
        digits.set(n - 1, last - 1);
        let m = from_digits(&digits);
        proof {
            assert(digits_of(m@) =~= spec_before(digits_of(index@)));
            lemma_dig_lt_diff(digits_of(m@), digits_of(index@), n - 1 as int);
            lemma_str_dig_order(m@, index@);
            assert(char_digit(index@[0]) > 0 || index@.len() > 1 || index@[0] != '0');
        }
        return Ok(m);
    }
    if n >= 2 {
        // the last digit is the minimum: the key shortened by it comes
        // just before every extension
        digits.truncate(n - 1);
        let m = from_digits(&digits);
        proof {
            assert(digits_of(m@) =~= digits_of(index@).take(n - 1 as int));
            assert(digits_of(m@) =~= spec_before(digits_of(index@)));
            lemma_dig_lt_prefix(digits_of(m@), digits_of(index@));
            lemma_str_dig_order(m@, index@);
        }
        return Ok(m);
    }
    // the minimal key has nothing before it
    proof {
        assert(char_digit(index@[0]) == 0);
        assert(index@[0] == '0');
    }
    Err(
        FractionalIndexError::CannotGenerate(
            String::from_str("No index lies before the minimal index"),
        ),
    )
}

/// Generate an index after the given index.
///
/// Succeeds exactly on valid keys, and the result is always strictly
/// above the input.
pub fn after(index: &str) -> (r: Result<String, FractionalIndexError>)
    ensures
        r is Ok <==> valid_index_chars(index@),
        r matches Err(e) ==> is_validate_err(index@, e),
        r matches Ok(m) ==> valid_index_chars(m@) && digits_of(m@) =~= spec_after(
            digits_of(index@),
        ) && str_lt(index@, m@),
{
    if let Err(e) = validate_index(index) {
        return Err(e);
    }
    let mut digits = to_digits(index);
    let n = digits.len();
    proof {
        assert(ints_of(digits@) =~= digits_of(index@));
    }
    let last = digits[n - 1];
    if last < 61 {
        digits.set(n - 1, last + 1);
        let m = from_digits(&digits);
        proof {
            assert(digits_of(m@) =~= spec_after(digits_of(index@)));
            lemma_dig_lt_diff(digits_of(index@), digits_of(m@), n - 1 as int);
            lemma_str_dig_order(index@, m@);
        }
        return Ok(m);
    }
    // the last digit is already the maximum: extend the key instead
    digits.push(1);
    let m = from_digits(&digits);
    proof {
        assert(digits_of(m@) =~= spec_after(digits_of(index@)));
        lemma_dig_lt_prefix(digits_of(index@), digits_of(m@));
        lemma_str_dig_order(index@, m@);
    }
    Ok(m)
}

/// Whether a list of indices is in strictly increasing order.
pub fn is_valid_order(indices: &Vec<String>) -> (r: bool)
    ensures
        r == forall|i: int|
            0 <= i && i + 1 < indices@.len() ==> str_lt(#[trigger] indices@[i]@, indices@[i + 1]@),
{
    let n = indices.len();
    if n == 0 {
        return true;
    }
    let mut i: usize = 0;
    while i + 1 < n
        invariant
            n == indices@.len(),
            i < n,
            forall|j: int| 0 <= j && j + 1 <= i ==> str_lt(#[trigger] indices@[j]@, indices@[j + 1]@),
        decreases n - i,
    {
        if !index_lt(indices[i].as_str(), indices[i + 1].as_str()) {
            return false;
        }
        i = i + 1;
    }
    true
}

/// Generate a strictly increasing run of fresh indices.
pub fn generate_sequence(count: usize) -> (r: Vec<String>)
    ensures
        r@.len() == count,
        forall|i: int| 0 <= i < count ==> valid_index_chars(#[trigger] r@[i]@),
        forall|i: int| 0 <= i && i + 1 < count ==> str_lt(#[trigger] r@[i]@, r@[i + 1]@),
        count > 0 ==> r@[0]@ == "a0"@,
{
    let mut result: Vec<String> = Vec::new();
    if count == 0 {
        return result;
    }
    result.push(initial());
    let mut i: usize = 1;
    while i < count
        invariant
            1 <= i <= count,
            result@.len() == i,
            forall|j: int| 0 <= j < i ==> valid_index_chars(#[trigger] result@[j]@),
            forall|j: int| 0 <= j && j + 1 < i ==> str_lt(#[trigger] result@[j]@, result@[j + 1]@),
            result@[0]@ == "a0"@,
        decreases count - i,
    {
        let next = match after(result[i - 1].as_str()) {
            Ok(next) => next,
            Err(_) => {
                proof {
                    assert(false);
                }
                String::new()
            },
        };
        result.push(next);
        i = i + 1;
    }
    result
}

} // verus!
