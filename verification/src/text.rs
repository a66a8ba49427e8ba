//! Small string helpers shared by the library.
use vstd::prelude::*;
use vstd::std_specs::iter::IteratorSpec;
use crate::markup::{char_len_utf8, utf8_len};

verus! {

/// Compares two string slices character by character.
pub fn str_eq(a: &str, b: &str) -> (r: bool)
    ensures
        r == (a@ == b@),
{
    let x = a.to_owned();
    let y = b.to_owned();
    x == y
}

/// ASCII lower-casing of one character; other characters are unchanged.
pub open spec fn ascii_lower(c: char) -> char {
    if 'A' <= c && c <= 'Z' {
        ((c as u32) + 32) as char
    } else {
        c
    }
}

/// The decimal digits of `n`, most significant first, without leading zeros
/// ("0" for zero).
pub open spec fn decimal(n: nat) -> Seq<char>
    decreases n,
{
    if n < 10 {
        seq![digit_char(n)]
    } else {
        decimal(n / 10).push(digit_char(n % 10))
    }
}

/// The character of a decimal digit.
pub open spec fn digit_char(d: nat) -> char {
    if d < 10 {
        ((d + 48) as u32) as char
    } else {
        '?'
    }
}

/// The hexadecimal digits of `n`, lower case, padded with zeros to `width`
/// characters (the `{:0width$x}` rendering for values that fit).
pub open spec fn hex_padded(n: nat, width: nat) -> Seq<char>
    decreases width,
{
    if width == 0 {
        Seq::empty()
    } else {
        hex_padded(n / 16, (width - 1) as nat).push(hex_char(n % 16))
    }
}

/// The character of a hexadecimal digit (lower case).
pub open spec fn hex_char(d: nat) -> char {
    if d < 10 {
        ((d + 48) as u32) as char
    } else if d < 16 {
        ((d + 87) as u32) as char
    } else {
        '?'
    }
}

/// Appends the single character of digit `d` to `s`.
fn push_digit(s: &mut String, d: u64)
    requires
        d < 16,
    ensures
        final(s)@ == old(s)@.push(hex_char(d as nat)),
{
    proof {
        reveal_strlit("0");
        reveal_strlit("1");
        reveal_strlit("2");
        reveal_strlit("3");
        reveal_strlit("4");
        reveal_strlit("5");
        reveal_strlit("6");
        reveal_strlit("7");
        reveal_strlit("8");
        reveal_strlit("9");
        reveal_strlit("a");
        reveal_strlit("b");
        reveal_strlit("c");
        reveal_strlit("d");
        reveal_strlit("e");
        reveal_strlit("f");
    }
    let t = match d {
        0 => "0",
        1 => "1",
        2 => "2",
        3 => "3",
        4 => "4",
        5 => "5",
        6 => "6",
        7 => "7",
        8 => "8",
        9 => "9",
        10 => "a",
        11 => "b",
        12 => "c",
        13 => "d",
        14 => "e",
        _ => "f",
    };
    s.append(t);
}

/// Renders `n` in decimal.
pub fn decimal_string(n: u64) -> (s: String)
    ensures
        s@ == decimal(n as nat),
    decreases n,
{
    if n < 10 {
        let mut s = String::new();
        push_digit(&mut s, n);
        s
    } else {
        let mut s = decimal_string(n / 10);
        push_digit(&mut s, n % 10);
        s
    }
}

/// Renders `n` in lower-case hexadecimal, zero-padded to `width` digits
/// (only the `width` least significant digits are kept).
pub fn hex_string(n: u64, width: u64) -> (s: String)
    ensures
        s@ == hex_padded(n as nat, width as nat),
    decreases width,
{
    if width == 0 {
        String::new()
    } else {
        let mut s = hex_string(n / 16, width - 1);
        push_digit(&mut s, n % 16);
        s
    }
}

/// What `str::to_lowercase` gives for a string: the Unicode lower-case
/// mapping of each character (which may change the number of characters).
pub uninterp spec fn lowercase_of(s: Seq<char>) -> Seq<char>;

/// `str::to_lowercase`; its result is named by `lowercase_of`.
#[verifier::external_body]
pub(crate) fn to_lowercase(s: &str) -> (r: String)
    ensures
        r@ == lowercase_of(s@),
{
    s.to_lowercase()
}

/// What `char::to_lowercase` yields for a character: its Unicode
/// lower-case mapping, one or more characters.
pub uninterp spec fn char_lowercase_of(c: char) -> Seq<char>;

/// `char::to_lowercase`, its characters collected; the result is named by
/// `char_lowercase_of`.
#[verifier::external_body]
pub(crate) fn char_to_lowercase(c: char) -> (r: Vec<char>)
    ensures
        r@ == char_lowercase_of(c),
{
    c.to_lowercase().collect()
}

/// What `str::to_uppercase` gives for a string: the Unicode upper-case
/// mapping of each character.
pub uninterp spec fn uppercase_of(s: Seq<char>) -> Seq<char>;

/// `str::to_uppercase`; its result is named by `uppercase_of`.
#[verifier::external_body]
pub(crate) fn to_uppercase(s: &str) -> (r: String)
    ensures
        r@ == uppercase_of(s@),
{
    s.to_uppercase()
}

/// Whether `char::is_alphanumeric` holds of a character (the Unicode
/// `Alphabetic` or `Numeric` property).
pub uninterp spec fn alphanumeric(c: char) -> bool;

/// `char::is_alphanumeric`; its result is named by `alphanumeric`.
#[verifier::external_body]
pub(crate) fn is_alphanumeric(c: char) -> (b: bool)
    ensures
        b == alphanumeric(c),
{
    c.is_alphanumeric()
}

/// Appends one character: `String::push`.
#[verifier::external_body]
pub(crate) fn push_char(s: &mut String, c: char)
    ensures
        final(s)@ == old(s)@.push(c),
{
    s.push(c)
}

/// Whether a code point is a Unicode scalar value (what a `char` can hold).
pub open spec fn is_scalar_value(code: u32) -> bool {
    code < 0xD800 || (0xE000 <= code && code <= 0x10FFFF)
}

/// `char::from_u32`: the character with code point `code`, if it is one.
#[verifier::external_body]
pub(crate) fn char_from_u32(code: u32) -> (r: Option<char>)
    ensures
        r is Some <==> is_scalar_value(code),
        r matches Some(c) ==> c as u32 == code,
{
    char::from_u32(code)
}

/// The Unicode `White_Space` property, which `char::is_whitespace` and
/// `str::trim` go by.
pub open spec fn white_space(c: char) -> bool {
    let u = c as u32;
    ||| 0x09 <= u && u <= 0x0D
    ||| u == 0x20
    ||| u == 0x85
    ||| u == 0xA0
    ||| u == 0x1680
    ||| 0x2000 <= u && u <= 0x200A
    ||| u == 0x2028
    ||| u == 0x2029
    ||| u == 0x202F
    ||| u == 0x205F
    ||| u == 0x3000
}

/// `char::is_whitespace`.
pub fn is_white_space(c: char) -> (b: bool)
    ensures
        b == white_space(c),
{
    let u = c as u32;
    (0x09 <= u && u <= 0x0D) || u == 0x20 || u == 0x85 || u == 0xA0 || u == 0x1680 || (0x2000 <= u
        && u <= 0x200A) || u == 0x2028 || u == 0x2029 || u == 0x202F || u == 0x205F || u == 0x3000
}

/// The characters of a string, in order.
pub fn chars_of(s: &str) -> (v: Vec<char>)
    ensures
        v@ == s@,
{
    broadcast use vstd::string::group_string_axioms;

    let mut v: Vec<char> = Vec::new();
    for c in iter: s.chars()
        invariant
            v@ == iter.seq().take(iter.index()),
            iter.seq() == s@,
    {
        proof {
            assert(iter.seq().take(iter.index() + 1) =~= iter.seq().take(iter.index()).push(c));
        }
        v.push(c);
    }
    proof {
        assert(s@.take(s@.len() as int) =~= s@);
    }
    v
}

/// A string holding the given characters.
pub fn string_of(v: &[char]) -> (s: String)
    ensures
        s@ == v@,
{
    let mut s = String::new();
    let mut k: usize = 0;
    while k < v.len()
        invariant
            k <= v@.len(),
            s@ == v@.take(k as int),
        decreases v@.len() - k,
    {
        push_char(&mut s, v[k]);
        proof {
            assert(v@.take(k + 1) =~= v@.take(k as int).push(v@[k as int]));
        }
        k = k + 1;
    }
    proof {
        assert(v@.take(v@.len() as int) =~= v@);
    }
    s
}

/// A string holding the characters `v[a..b]`.
pub fn string_of_range(v: &[char], a: usize, b: usize) -> (s: String)
    requires
        a <= b <= v@.len(),
    ensures
        s@ == v@.subrange(a as int, b as int),
{
    let mut s = String::new();
    let mut k: usize = a;
    while k < b
        invariant
            a <= k <= b <= v@.len(),
            s@ == v@.subrange(a as int, k as int),
        decreases b - k,
    {
        push_char(&mut s, v[k]);
        proof {
            assert(v@.subrange(a as int, k + 1) =~= v@.subrange(a as int, k as int).push(
                v@[k as int],
            ));
        }
        k = k + 1;
    }
    s
}

/// Leading `White_Space` characters removed (`str::trim_start`).
pub open spec fn trim_start_ws(s: Seq<char>) -> Seq<char>
    decreases s.len(),
{
    if s.len() > 0 && white_space(s[0]) {
        trim_start_ws(s.drop_first())
    } else {
        s
    }
}

/// Trailing `White_Space` characters removed (`str::trim_end`).
pub open spec fn trim_end_ws(s: Seq<char>) -> Seq<char>
    decreases s.len(),
{
    if s.len() > 0 && white_space(s.last()) {
        trim_end_ws(s.drop_last())
    } else {
        s
    }
}

/// Leading and trailing `White_Space` characters removed (`str::trim`).
pub open spec fn trim_ws(s: Seq<char>) -> Seq<char> {
    trim_end_ws(trim_start_ws(s))
}

proof fn lemma_trim_start_range(s: Seq<char>) -> (a: int)
    ensures
        0 <= a <= s.len(),
        trim_start_ws(s) == s.subrange(a, s.len() as int),
        a < s.len() ==> !white_space(s[a]),
    decreases s.len(),
{
    if s.len() > 0 && white_space(s[0]) {
        let a = lemma_trim_start_range(s.drop_first());
        assert(s.drop_first().subrange(a, s.len() - 1) =~= s.subrange(a + 1, s.len() as int));
        a + 1
    } else {
        assert(s.subrange(0, s.len() as int) =~= s);
        0
    }
}

proof fn lemma_trim_end_range(s: Seq<char>) -> (b: int)
    ensures
        0 <= b <= s.len(),
        trim_end_ws(s) == s.subrange(0, b),
        b > 0 ==> !white_space(s[b - 1]),
    decreases s.len(),
{
    if s.len() > 0 && white_space(s.last()) {
        let b = lemma_trim_end_range(s.drop_last());
        assert(s.drop_last().subrange(0, b) =~= s.subrange(0, b));
        b
    } else {
        assert(s.subrange(0, s.len() as int) =~= s);
        s.len() as int
    }
}

/// Trimming keeps a part `s[a..b]` of the text that neither starts nor
/// ends with white space.
pub proof fn lemma_trim_ws_range(s: Seq<char>) -> (r: (int, int))
    ensures
        0 <= r.0 <= r.1 <= s.len(),
        trim_ws(s) == s.subrange(r.0, r.1),
        r.0 < r.1 ==> !white_space(s[r.0]) && !white_space(s[r.1 - 1]),
{
    let a = lemma_trim_start_range(s);
    let t = s.subrange(a, s.len() as int);
    let b = lemma_trim_end_range(t);
    assert(t.subrange(0, b) =~= s.subrange(a, a + b));
    if b > 0 {
        assert(t[0] == s[a]);
        assert(t[b - 1] == s[a + b - 1]);
    }
    (a, a + b)
}

/// The number of characters of `s` that fill its first `n` bytes, when a
/// character ends there (what makes `&s[..n]` valid).
pub open spec fn char_index_at_byte(s: Seq<char>, n: int) -> Option<int>
    decreases s.len(),
{
    if n == 0 {
        Some(0)
    } else if n < 0 || s.len() == 0 {
        None
    } else {
        match char_index_at_byte(s.drop_first(), n - utf8_len(s[0])) {
            Some(k) => Some(k + 1),
            None => None,
        }
    }
}

/// The number of characters of `v` in its first `n` bytes, when a
/// character ends there.
pub fn char_index_of_byte(v: &Vec<char>, n: u128) -> (r: Option<usize>)
    ensures
        r matches Some(k) ==> char_index_at_byte(v@, n as int) == Some(k as int),
        r is None ==> char_index_at_byte(v@, n as int) is None,
{
    let mut i: usize = 0;
    let mut left: u128 = n;
    proof {
        assert(v@.skip(0) =~= v@);
    }
    while i < v.len()
        invariant
            i <= v@.len(),
            left <= n,
            char_index_at_byte(v@, n as int) == match char_index_at_byte(
                v@.skip(i as int),
                left as int,
            ) {
                Some(k) => Some(k + i),
                None => None,
            },
        decreases v@.len() - i,
    {
        if left == 0 {
            return Some(i);
        }
        let l = char_len_utf8(v[i]) as u128;
        proof {
            assert(v@.skip(i as int).drop_first() =~= v@.skip(i + 1));
            assert(v@.skip(i as int)[0] == v@[i as int]);
        }
        if l > left {
            proof {
                let t = v@.skip(i + 1);
                assert(char_index_at_byte(t, left - l) is None) by {
                    assert(left - l < 0);
                    if t.len() == 0 {
                    } else {
                    }
                }
            }
            return None;
        }
        left = left - l;
        i = i + 1;
    }
    if left == 0 {
        Some(i)
    } else {
        None
    }
}

} // verus!
