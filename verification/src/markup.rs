//! Plain text out of the HTML-like markup of e-book content.
//!
//! Tags are dropped (and `script`/`style` contents with them), block tags
//! start a new line, runs of white space collapse to one space, common
//! character entities are decoded, at most two newlines are kept in a row,
//! and the result is trimmed.  Tag names are recognised in the lower-cased
//! text, at the place where the tag's `<` lies in it.
use vstd::prelude::*;
use crate::text::{
    alphanumeric, char_from_u32, char_lowercase_of, char_to_lowercase, chars_of, is_alphanumeric,
    is_scalar_value, is_white_space, lowercase_of, push_char, str_eq, string_of, to_lowercase,
    trim_ws, white_space,
};

verus! {

/// Number of bytes of `c` in UTF-8 (what `char::len_utf8` gives).
pub open spec fn utf8_len(c: char) -> int {
    let u = c as u32;
    if u < 0x80 {
        1
    } else if u < 0x800 {
        2
    } else if u < 0x10000 {
        3
    } else {
        4
    }
}

/// Number of bytes of `s` in UTF-8.
pub open spec fn utf8_len_of(s: Seq<char>) -> int
    decreases s.len(),
{
    if s.len() == 0 {
        0
    } else {
        utf8_len_of(s.drop_last()) + utf8_len(s.last())
    }
}

pub(crate) fn char_len_utf8(c: char) -> (n: u64)
    ensures
        n == utf8_len(c),
{
    let u = c as u32;
    if u < 0x80 {
        1
    } else if u < 0x800 {
        2
    } else if u < 0x10000 {
        3
    } else {
        4
    }
}

/// The characters of `lower` from `pos` on begin with `pat`.
pub open spec fn chars_start_with(lower: Seq<char>, pos: int, pat: Seq<char>) -> bool {
    &&& 0 <= pos
    &&& pos + pat.len() <= lower.len()
    &&& forall|j: int| 0 <= j < pat.len() ==> lower[pos + j] == #[trigger] pat[j]
}

fn chars_match(lower: &Vec<char>, pos: usize, pat: &str) -> (b: bool)
    ensures
        b == chars_start_with(lower@, pos as int, pat@),
{
    let p = chars_of(pat);
    let n = lower.len();
    let m = p.len();
    if m > n || pos > n - m {
        return false;
    }
    let mut j: usize = 0;
    while j < m
        invariant
            m == p@.len(),
            n == lower@.len(),
            p@ == pat@,
            pos + m <= n,
            j <= m,
            forall|t: int| 0 <= t < j ==> lower@[pos + t] == #[trigger] p@[t],
        decreases m - j,
    {
        if lower[pos + j] != p[j] {
            return false;
        }
        j = j + 1;
    }
    true
}

/// A tag that starts a new line of text.
pub open spec fn starts_block(lower: Seq<char>, pos: int) -> bool {
    ||| chars_start_with(lower, pos, "<p"@)
    ||| chars_start_with(lower, pos, "<br"@)
    ||| chars_start_with(lower, pos, "<div"@)
    ||| chars_start_with(lower, pos, "<h1"@)
    ||| chars_start_with(lower, pos, "<h2"@)
    ||| chars_start_with(lower, pos, "<h3"@)
    ||| chars_start_with(lower, pos, "<h4"@)
    ||| chars_start_with(lower, pos, "<li"@)
    ||| chars_start_with(lower, pos, "<mbp:pagebreak"@)
}

/// The script and style flags after a tag that starts at `pos`.
pub open spec fn tag_flags(lower: Seq<char>, pos: int, in_script: bool, in_style: bool) -> (
    bool,
    bool,
) {
    if chars_start_with(lower, pos, "<script"@) {
        (true, in_style)
    } else if chars_start_with(lower, pos, "</script"@) {
        (false, in_style)
    } else if chars_start_with(lower, pos, "<style"@) {
        (in_script, true)
    } else if chars_start_with(lower, pos, "</style"@) {
        (in_script, false)
    } else {
        (in_script, in_style)
    }
}

/// The characters of an entity that starts with `ent` and goes on at
/// `h[k]`: letters, digits and `#` are taken; a `;`, or any character once
/// the entity is longer than ten bytes, ends it with a `;`.  Gives the
/// entity, the position after it, and how many characters were taken as
/// letters or digits.
pub open spec fn scan_entity(h: Seq<char>, k: int, ent: Seq<char>) -> (Seq<char>, int, int)
    decreases h.len() - k,
{
    if k < 0 || k >= h.len() {
        (ent, k, 0)
    } else if h[k] == ';' || utf8_len_of(ent) > 10 {
        (ent.push(';'), k + 1, 0)
    } else if !alphanumeric(h[k]) && h[k] != '#' {
        (ent, k, 0)
    } else {
        let r = scan_entity(h, k + 1, ent.push(h[k]));
        (r.0, r.1, r.2 + 1)
    }
}

/// An entity scan moves forward and stays within the text.
pub proof fn lemma_scan_entity_advances(h: Seq<char>, k: int, ent: Seq<char>)
    requires
        0 <= k <= h.len(),
    ensures
        k <= scan_entity(h, k, ent).1 <= h.len(),
        0 <= scan_entity(h, k, ent).2 <= scan_entity(h, k, ent).1 - k,
    decreases h.len() - k,
{
    if k < h.len() && !(h[k] == ';' || utf8_len_of(ent) > 10) && !(!alphanumeric(h[k]) && h[k]
        != '#') {
        lemma_scan_entity_advances(h, k + 1, ent.push(h[k]));
    }
}

/// `s` without leading `"&#"` pairs.
pub open spec fn trim_start_pairs(s: Seq<char>) -> Seq<char>
    decreases s.len(),
{
    if s.len() >= 2 && s[0] == '&' && s[1] == '#' {
        trim_start_pairs(s.subrange(2, s.len() as int))
    } else {
        s
    }
}

/// `s` without leading `c`.
pub open spec fn trim_start_char(s: Seq<char>, c: char) -> Seq<char>
    decreases s.len(),
{
    if s.len() > 0 && s[0] == c {
        trim_start_char(s.drop_first(), c)
    } else {
        s
    }
}

/// `s` without trailing `c`.
pub open spec fn trim_end_char(s: Seq<char>, c: char) -> Seq<char>
    decreases s.len(),
{
    if s.len() > 0 && s.last() == c {
        trim_end_char(s.drop_last(), c)
    } else {
        s
    }
}

/// The value of a character as a digit in bases up to 36, 36 when it is none.
pub open spec fn digit_value(c: char) -> int {
    if '0' <= c && c <= '9' {
        c as int - '0' as int
    } else if 'a' <= c && c <= 'z' {
        c as int - 'a' as int + 10
    } else if 'A' <= c && c <= 'Z' {
        c as int - 'A' as int + 10
    } else {
        36
    }
}

/// The value of the digits `s` in base `radix`, none when one is no digit.
pub open spec fn digits_value(s: Seq<char>, radix: int) -> Option<int>
    decreases s.len(),
{
    if s.len() == 0 {
        Some(0)
    } else {
        match digits_value(s.drop_last(), radix) {
            Some(v) => if digit_value(s.last()) < radix {
                Some(v * radix + digit_value(s.last()))
            } else {
                None
            },
            None => None,
        }
    }
}

/// The decimal rendering of a number reads back, digit by digit in base
/// ten, as that number; it is never empty and starts with a zero only for
/// zero itself.
pub proof fn lemma_decimal_reads_back(n: nat)
    ensures
        digits_value(crate::text::decimal(n), 10) == Some(n as int),
        crate::text::decimal(n).len() > 0,
        crate::text::decimal(n)[0] == '0' ==> n == 0,
        forall|i: int|
            0 <= i < crate::text::decimal(n).len() ==> '0' <= #[trigger] crate::text::decimal(n)[i]
                <= '9',
    decreases n,
{
    let d = crate::text::decimal(n);
    let k = n % 10;
    assert(digit_value(crate::text::digit_char(k)) == k as int);
    assert('0' <= crate::text::digit_char(k) <= '9');
    if n < 10 {
        assert(d.drop_last() =~= Seq::<char>::empty());
        assert(digits_value(d.drop_last(), 10) == Some(0int));
        assert(d.last() == crate::text::digit_char(k));
    } else {
        lemma_decimal_reads_back(n / 10);
        assert(d.drop_last() =~= crate::text::decimal(n / 10));
        assert(d.last() == crate::text::digit_char(k));
        assert(d[0] == crate::text::decimal(n / 10)[0]);
        assert((n / 10) * 10 + k == n);
        assert forall|i: int| 0 <= i < d.len() implies '0' <= #[trigger] d[i] <= '9' by {
            if i < d.len() - 1 {
                assert(d[i] == crate::text::decimal(n / 10)[i]);
            }
        }
    }
}

/// The zero-padded hexadecimal rendering of `n` in `width` digits has
/// exactly `width` characters and reads back in base sixteen as `n` modulo
/// sixteen to the power `width` (so as `n` itself when it fits).
pub proof fn lemma_hex_reads_back(n: nat, width: nat)
    ensures
        crate::text::hex_padded(n, width).len() == width,
        digits_value(crate::text::hex_padded(n, width), 16) == Some(
            n as int % vstd::arithmetic::power::pow(16, width),
        ),
        forall|i: int|
            0 <= i < width ==> ('0' <= #[trigger] crate::text::hex_padded(n, width)[i] <= '9') || (
            'a' <= crate::text::hex_padded(n, width)[i] <= 'f'),
    decreases width,
{
    let d = crate::text::hex_padded(n, width);
    reveal(vstd::arithmetic::power::pow);
    vstd::arithmetic::power::lemma_pow_positive(16, width);
    if width == 0 {
        assert(n as int % 1 == 0);
    } else {
        let w1 = (width - 1) as nat;
        lemma_hex_reads_back(n / 16, w1);
        vstd::arithmetic::power::lemma_pow_positive(16, w1);
        let k = n % 16;
        assert(digit_value(crate::text::hex_char(k)) == k as int);
        assert(d.drop_last() =~= crate::text::hex_padded(n / 16, w1));
        assert(d.last() == crate::text::hex_char(k));
        assert(('0' <= d.last() <= '9') || ('a' <= d.last() <= 'f'));
        assert forall|i: int| 0 <= i < width implies ('0' <= #[trigger] d[i] <= '9') || ('a' <= d[i]
            <= 'f') by {
            if i < width - 1 {
                assert(d[i] == crate::text::hex_padded(n / 16, w1)[i]);
            }
        }
        let z = vstd::arithmetic::power::pow(16, w1);
        assert(vstd::arithmetic::power::pow(16, width) == 16 * z);
        vstd::arithmetic::div_mod::lemma_breakdown(n as int, 16, z);
        assert((n / 16) as int == n as int / 16);
    }
}

/// What `u32::from_str_radix` gives: the value of the digits after an
/// optional `+`, when there is at least one digit and it fits in 32 bits.
pub open spec fn parse_u32(s: Seq<char>, radix: int) -> Option<u32> {
    let d = if s.len() > 1 && s[0] == '+' {
        s.drop_first()
    } else {
        s
    };
    if d.len() == 0 {
        None
    } else {
        match digits_value(d, radix) {
            Some(v) => if v <= u32::MAX {
                Some(v as u32)
            } else {
                None
            },
            None => None,
        }
    }
}

/// The code point of a numeric entity (`&#65;`, `&#x41;`), if it is one.
pub open spec fn entity_code(e: Seq<char>) -> Option<u32> {
    if e.len() >= 2 && e[0] == '&' && e[1] == '#' {
        let num = trim_end_char(trim_start_char(trim_start_pairs(e), 'x'), ';');
        let radix = if e.contains('x') {
            16int
        } else {
            10int
        };
        match parse_u32(num, radix) {
            Some(code) => if is_scalar_value(code) {
                Some(code)
            } else {
                None
            },
            None => None,
        }
    } else {
        None
    }
}

/// The text of a named entity; a single space for any other.
pub open spec fn named_entity(e: Seq<char>) -> Seq<char> {
    if e == "&amp;"@ {
        "&"@
    } else if e == "&lt;"@ {
        "<"@
    } else if e == "&gt;"@ {
        ">"@
    } else if e == "&quot;"@ {
        "\""@
    } else if e == "&apos;"@ {
        "'"@
    } else if e == "&nbsp;"@ {
        " "@
    } else if e == "&mdash;"@ {
        "\u{2014}"@
    } else if e == "&ndash;"@ {
        "\u{2013}"@
    } else if e == "&hellip;"@ {
        "\u{2026}"@
    } else if e == "&rsquo;"@ {
        "\u{2019}"@
    } else if e == "&lsquo;"@ {
        "\u{2018}"@
    } else if e == "&rdquo;"@ {
        "\u{201D}"@
    } else if e == "&ldquo;"@ {
        "\u{201C}"@
    } else {
        " "@
    }
}

/// A numeric entity written in decimal (`&#NNN;`) or in hexadecimal
/// (`&#xHHHHHHHH;`) stands for its code when that is a character's code, and
/// for nothing otherwise.
pub proof fn lemma_numeric_entities(code: u32)
    ensures
        entity_code(seq!['&', '#'] + crate::text::decimal(code as nat) + seq![';']) == (if is_scalar_value(code) {
            Some(code)
        } else {
            None::<u32>
        }),
        entity_code(seq!['&', '#', 'x'] + crate::text::hex_padded(code as nat, 8) + seq![';']) == (if is_scalar_value(code) {
            Some(code)
        } else {
            None::<u32>
        }),
{
    let n = code as nat;
    let d = crate::text::decimal(n);
    lemma_decimal_reads_back(n);
    let e = seq!['&', '#'] + d + seq![';'];
    let tail = d + seq![';'];
    assert(e.subrange(2, e.len() as int) =~= tail);
    assert(tail[0] == d[0]);
    assert(trim_start_pairs(tail) == tail);
    assert(trim_start_pairs(e) == tail);
    assert(trim_start_char(tail, 'x') == tail);
    assert(tail.last() == ';' && tail.drop_last() =~= d);
    assert(d.last() == d[d.len() - 1]);
    assert(trim_end_char(d, ';') == d);
    assert(trim_end_char(tail, ';') == d);
    assert(!e.contains('x')) by {
        if e.contains('x') {
            let i = choose|i: int| 0 <= i < e.len() && e[i] == 'x';
            if 2 <= i < e.len() - 1 {
                assert(e[i] == d[i - 2]);
            }
        }
    }
    assert(!(d.len() > 1 && d[0] == '+'));

    let x = crate::text::hex_padded(n, 8);
    lemma_hex_reads_back(n, 8);
    reveal(vstd::arithmetic::power::pow);
    assert(vstd::arithmetic::power::pow(16, 0) == 1);
    assert(vstd::arithmetic::power::pow(16, 1) == 16);
    assert(vstd::arithmetic::power::pow(16, 2) == 0x100);
    assert(vstd::arithmetic::power::pow(16, 3) == 0x1000);
    assert(vstd::arithmetic::power::pow(16, 4) == 0x1_0000);
    assert(vstd::arithmetic::power::pow(16, 5) == 0x10_0000);
    assert(vstd::arithmetic::power::pow(16, 6) == 0x100_0000);
    assert(vstd::arithmetic::power::pow(16, 7) == 0x1000_0000);
    assert(vstd::arithmetic::power::pow(16, 8) == 0x1_0000_0000);
    assert(n as int % 0x1_0000_0000 == n as int);
    let f = seq!['&', '#', 'x'] + x + seq![';'];
    let ft = seq!['x'] + x + seq![';'];
    let xt = x + seq![';'];
    assert(f.subrange(2, f.len() as int) =~= ft);
    assert(ft[0] == 'x');
    assert(trim_start_pairs(ft) == ft);
    assert(trim_start_pairs(f) == ft);
    assert(ft.drop_first() =~= xt);
    assert(xt[0] == x[0]);
    assert(trim_start_char(xt, 'x') == xt);
    assert(trim_start_char(ft, 'x') == xt);
    assert(xt.last() == ';' && xt.drop_last() =~= x);
    assert(x.last() == x[7]);
    assert(trim_end_char(x, ';') == x);
    assert(trim_end_char(xt, ';') == x);
    assert(f[2] == 'x');
    assert(!(x.len() > 1 && x[0] == '+'));
}

/// The named entities that the text keeps: `&amp;`, `&lt;`, `&gt;`,
/// `&quot;`, `&apos;` and `&nbsp;` give `&`, `<`, `>`, a double quote, an
/// apostrophe and a space; `&mdash;`, `&ndash;` and `&hellip;` give an em
/// dash, an en dash and an ellipsis; `&rsquo;`, `&lsquo;`, `&rdquo;` and
/// `&ldquo;` give the right and left single and double quotation marks.
/// Any other entity gives a space.
pub proof fn lemma_named_entities(other: Seq<char>)
    ensures
        named_entity(seq!['&', 'a', 'm', 'p', ';']) == seq!['&'],
        named_entity(seq!['&', 'l', 't', ';']) == seq!['<'],
        named_entity(seq!['&', 'g', 't', ';']) == seq!['>'],
        named_entity(seq!['&', 'q', 'u', 'o', 't', ';']) == seq!['"'],
        named_entity(seq!['&', 'a', 'p', 'o', 's', ';']) == seq!['\''],
        named_entity(seq!['&', 'n', 'b', 's', 'p', ';']) == seq![' '],
        named_entity(seq!['&', 'm', 'd', 'a', 's', 'h', ';']) == seq!['\u{2014}'],
        named_entity(seq!['&', 'n', 'd', 'a', 's', 'h', ';']) == seq!['\u{2013}'],
        named_entity(seq!['&', 'h', 'e', 'l', 'l', 'i', 'p', ';']) == seq!['\u{2026}'],
        named_entity(seq!['&', 'r', 's', 'q', 'u', 'o', ';']) == seq!['\u{2019}'],
        named_entity(seq!['&', 'l', 's', 'q', 'u', 'o', ';']) == seq!['\u{2018}'],
        named_entity(seq!['&', 'r', 'd', 'q', 'u', 'o', ';']) == seq!['\u{201D}'],
        named_entity(seq!['&', 'l', 'd', 'q', 'u', 'o', ';']) == seq!['\u{201C}'],
        (other != seq!['&', 'a', 'm', 'p', ';']
            && other != seq!['&', 'l', 't', ';']
            && other != seq!['&', 'g', 't', ';']
            && other != seq!['&', 'q', 'u', 'o', 't', ';']
            && other != seq!['&', 'a', 'p', 'o', 's', ';']
            && other != seq!['&', 'n', 'b', 's', 'p', ';']
            && other != seq!['&', 'm', 'd', 'a', 's', 'h', ';']
            && other != seq!['&', 'n', 'd', 'a', 's', 'h', ';']
            && other != seq!['&', 'h', 'e', 'l', 'l', 'i', 'p', ';']
            && other != seq!['&', 'r', 's', 'q', 'u', 'o', ';']
            && other != seq!['&', 'l', 's', 'q', 'u', 'o', ';']
            && other != seq!['&', 'r', 'd', 'q', 'u', 'o', ';']
            && other != seq!['&', 'l', 'd', 'q', 'u', 'o', ';']) ==> named_entity(other) == seq![' '],
{
    reveal_strlit("&amp;");
    reveal_strlit("&lt;");
    reveal_strlit("&gt;");
    reveal_strlit("&quot;");
    reveal_strlit("&apos;");
    reveal_strlit("&nbsp;");
    reveal_strlit("&mdash;");
    reveal_strlit("&ndash;");
    reveal_strlit("&hellip;");
    reveal_strlit("&rsquo;");
    reveal_strlit("&lsquo;");
    reveal_strlit("&rdquo;");
    reveal_strlit("&ldquo;");
    reveal_strlit("&");
    reveal_strlit("<");
    reveal_strlit(">");
    reveal_strlit("\"");
    reveal_strlit("'");
    reveal_strlit(" ");
    reveal_strlit("\u{2014}");
    reveal_strlit("\u{2013}");
    reveal_strlit("\u{2026}");
    reveal_strlit("\u{2019}");
    reveal_strlit("\u{2018}");
    reveal_strlit("\u{201D}");
    reveal_strlit("\u{201C}");
    assert("&amp;"@ =~= seq!['&', 'a', 'm', 'p', ';']);
    assert("&lt;"@ =~= seq!['&', 'l', 't', ';']);
    assert("&gt;"@ =~= seq!['&', 'g', 't', ';']);
    assert("&quot;"@ =~= seq!['&', 'q', 'u', 'o', 't', ';']);
    assert("&apos;"@ =~= seq!['&', 'a', 'p', 'o', 's', ';']);
    assert("&nbsp;"@ =~= seq!['&', 'n', 'b', 's', 'p', ';']);
    assert("&mdash;"@ =~= seq!['&', 'm', 'd', 'a', 's', 'h', ';']);
    assert("&ndash;"@ =~= seq!['&', 'n', 'd', 'a', 's', 'h', ';']);
    assert("&hellip;"@ =~= seq!['&', 'h', 'e', 'l', 'l', 'i', 'p', ';']);
    assert("&rsquo;"@ =~= seq!['&', 'r', 's', 'q', 'u', 'o', ';']);
    assert("&lsquo;"@ =~= seq!['&', 'l', 's', 'q', 'u', 'o', ';']);
    assert("&rdquo;"@ =~= seq!['&', 'r', 'd', 'q', 'u', 'o', ';']);
    assert("&ldquo;"@ =~= seq!['&', 'l', 'd', 'q', 'u', 'o', ';']);
    assert("&"@ =~= seq!['&']);
    assert("<"@ =~= seq!['<']);
    assert(">"@ =~= seq!['>']);
    assert("\""@ =~= seq!['"']);
    assert("'"@ =~= seq!['\'']);
    assert(" "@ =~= seq![' ']);
    assert("\u{2014}"@ =~= seq!['\u{2014}']);
    assert("\u{2013}"@ =~= seq!['\u{2013}']);
    assert("\u{2026}"@ =~= seq!['\u{2026}']);
    assert("\u{2019}"@ =~= seq!['\u{2019}']);
    assert("\u{2018}"@ =~= seq!['\u{2018}']);
    assert("\u{201D}"@ =~= seq!['\u{201D}']);
    assert("\u{201C}"@ =~= seq!['\u{201C}']);
}

/// The lower case of `h`, character by character (`char::to_lowercase` of
/// each).  Its bytes are those of `str::to_lowercase`, which differs only
/// in choosing the final form of a Greek sigma, of the same length and
/// never an ASCII letter.
pub open spec fn lowered(h: Seq<char>) -> Seq<char>
    decreases h.len(),
{
    if h.len() == 0 {
        Seq::empty()
    } else {
        lowered(h.drop_last()) + char_lowercase_of(h.last())
    }
}

/// Where character `k` of `h` begins in `lowered(h)`.
pub open spec fn lowered_start(h: Seq<char>, k: int) -> int {
    lowered(h.take(k)).len() as int
}

/// The scan from character `k` of `h` on, in the given state, where
/// `lower` is `lowered(h)`: the text it produces.
pub open spec fn scan_from(
    h: Seq<char>,
    lower: Seq<char>,
    k: int,
    out: Seq<char>,
    in_tag: bool,
    in_script: bool,
    in_style: bool,
    last_space: bool,
) -> Seq<char>
    decreases h.len() - k,
{
    if k < 0 || k >= h.len() {
        out
    } else {
        let c = h[k];
        if c == '<' {
            let pos = lowered_start(h, k);
            let (sc, st) = tag_flags(lower, pos, in_script, in_style);
            let out2 = if starts_block(lower, pos) && out.len() > 0 && out.last() != '\n' {
                out.push('\n')
            } else {
                out
            };
            scan_from(h, lower, k + 1, out2, true, sc, st, last_space)
        } else if c == '>' {
            scan_from(h, lower, k + 1, out, false, in_script, in_style, last_space)
        } else if !in_tag && !in_script && !in_style {
            if c == '&' {
                let (ent, k2, taken) = scan_entity(h, k + 1, seq!['&']);
                proof {
                    lemma_scan_entity_advances(h, k + 1, seq!['&']);
                }
                {
                    match entity_code(ent) {
                        Some(code) => scan_from(
                            h,
                            lower,
                            k2,
                            out.push(code as char),
                            in_tag,
                            in_script,
                            in_style,
                            last_space,
                        ),
                        None => {
                            let d = named_entity(ent);
                            scan_from(h, lower, k2, out + d, in_tag, in_script, in_style, d == " "@)
                        },
                    }
                }
            } else if white_space(c) {
                if !last_space {
                    scan_from(h, lower, k + 1, out.push(' '), in_tag, in_script, in_style, true)
                } else {
                    scan_from(h, lower, k + 1, out, in_tag, in_script, in_style, true)
                }
            } else {
                scan_from(h, lower, k + 1, out.push(c), in_tag, in_script, in_style, false)
            }
        } else {
            scan_from(h, lower, k + 1, out, in_tag, in_script, in_style, last_space)
        }
    }
}

/// The text of `s` with at most two newlines in a row, and the length of
/// the run of newlines it ends with.
pub open spec fn limit_newlines(s: Seq<char>) -> (Seq<char>, nat)
    decreases s.len(),
{
    if s.len() == 0 {
        (Seq::empty(), 0)
    } else {
        let (o, n) = limit_newlines(s.drop_last());
        if s.last() == '\n' {
            if n + 1 <= 2 {
                (o.push('\n'), n + 1)
            } else {
                (o, n + 1)
            }
        } else {
            (o.push(s.last()), 0)
        }
    }
}

/// Plain text of `html`: the scan's text with at most two newlines in a
/// row, trimmed.
pub open spec fn plain_text(html: Seq<char>) -> Seq<char> {
    trim_ws(
        limit_newlines(scan_from(html, lowered(html), 0, Seq::empty(), false, false, false, true)).0,
    )
}

/// The script and style flags after a tag at `pos`, and whether the tag
/// starts a new line.
fn tag_effects(lower: &Vec<char>, pos: usize, in_script: bool, in_style: bool) -> (r: (bool, bool, bool))
    ensures
        (r.0, r.1) == tag_flags(lower@, pos as int, in_script, in_style),
        r.2 == starts_block(lower@, pos as int),
{
    let flags = if chars_match(lower, pos, "<script") {
        (true, in_style)
    } else if chars_match(lower, pos, "</script") {
        (false, in_style)
    } else if chars_match(lower, pos, "<style") {
        (in_script, true)
    } else if chars_match(lower, pos, "</style") {
        (in_script, false)
    } else {
        (in_script, in_style)
    };
    let block = chars_match(lower, pos, "<p") || chars_match(lower, pos, "<br") || chars_match(
        lower,
        pos,
        "<div",
    ) || chars_match(lower, pos, "<h1") || chars_match(lower, pos, "<h2") || chars_match(
        lower,
        pos,
        "<h3",
    ) || chars_match(lower, pos, "<h4") || chars_match(lower, pos, "<li") || chars_match(
        lower,
        pos,
        "<mbp:pagebreak",
    );
    (flags.0, flags.1, block)
}

/// The entity that follows an `&` at `h[k - 1]`, as `scan_entity` takes it.
fn take_entity(h: &Vec<char>, k: usize) -> (r: (String, usize, u64))
    requires
        k <= h@.len(),
    ensures
        (r.0@, r.1 as int, r.2 as int) == scan_entity(h@, k as int, seq!['&']),
{
    let mut ent = String::new();
    push_char(&mut ent, '&');
    let mut ent_bytes: u64 = 1;
    let mut j: usize = k;
    let mut taken: u64 = 0;
    proof {
        assert(ent@ =~= seq!['&']);
        assert(seq!['&'].drop_last() =~= Seq::<char>::empty());
        assert(utf8_len_of(Seq::<char>::empty()) == 0);
        assert(utf8_len('&') == 1);
        assert(utf8_len_of(seq!['&']) == 1);
    }
    while j < h.len()
        invariant
            k <= j <= h@.len(),
            ent_bytes == utf8_len_of(ent@),
            ent_bytes <= 14,
            taken == j - k,
            ({
                let r = scan_entity(h@, j as int, ent@);
                (r.0, r.1, r.2 + taken)
            }) == scan_entity(h@, k as int, seq!['&']),
        decreases h@.len() - j,
    {
        let next = h[j];
        if next == ';' || ent_bytes > 10 {
            push_char(&mut ent, ';');
            return (ent, j + 1, taken);
        }
        if !is_alphanumeric(next) && next != '#' {
            return (ent, j, taken);
        }
        proof {
            assert(ent@.push(next).drop_last() =~= ent@);
        }
        push_char(&mut ent, next);
        ent_bytes = ent_bytes + char_len_utf8(next);
        j = j + 1;
        taken = taken + 1;
    }
    (ent, j, taken)
}

/// The value of a character as a digit, 36 when it is none.
pub(crate) fn digit_of(c: char) -> (d: u64)
    ensures
        d == digit_value(c),
{
    if '0' <= c && c <= '9' {
        (c as u32 - '0' as u32) as u64
    } else if 'a' <= c && c <= 'z' {
        (c as u32 - 'a' as u32 + 10) as u64
    } else if 'A' <= c && c <= 'Z' {
        (c as u32 - 'A' as u32 + 10) as u64
    } else {
        36
    }
}

/// A prefix of digits that is no number makes the whole none; otherwise
/// the whole is at least the prefix's value.
pub(crate) proof fn lemma_digits_prefix(s: Seq<char>, radix: int, k: int)
    requires
        radix >= 1,
        0 <= k <= s.len(),
    ensures
        digits_value(s.take(k), radix) is None ==> digits_value(s, radix) is None,
        digits_value(s.take(k), radix) matches Some(a) ==> (digits_value(s, radix) matches Some(v)
            ==> v >= a),
        digits_value(s, radix) matches Some(v) ==> v >= 0,
    decreases s.len(),
{
    if s.len() == 0 {
        assert(s.take(k) =~= s);
    } else if k == s.len() {
        assert(s.take(k) =~= s);
        lemma_digits_prefix(s.drop_last(), radix, 0);
        match digits_value(s.drop_last(), radix) {
            Some(v) => {
                assert(v * radix >= 0) by (nonlinear_arith)
                    requires
                        v >= 0,
                        radix >= 1,
                ;
            },
            None => {},
        }
    } else {
        assert(s.drop_last().take(k) =~= s.take(k));
        lemma_digits_prefix(s.drop_last(), radix, k);
        match digits_value(s.drop_last(), radix) {
            Some(v) => {
                assert(v * radix >= v) by (nonlinear_arith)
                    requires
                        v >= 0,
                        radix >= 1,
                ;
            },
            None => {},
        }
    }
}

/// `u32::from_str_radix` on the characters `e[a..b]`.
fn parse_u32_range(e: &Vec<char>, a: usize, b: usize, radix: u64) -> (r: Option<u32>)
    requires
        a <= b <= e@.len(),
        2 <= radix <= 36,
    ensures
        r == parse_u32(e@.subrange(a as int, b as int), radix as int),
{
    let ghost s = e@.subrange(a as int, b as int);
    let mut start = a;
    if b - a > 1 && e[a] == '+' {
        start = a + 1;
    }
    let ghost d = e@.subrange(start as int, b as int);
    proof {
        if b - a > 1 && e@[a as int] == '+' {
            assert(d =~= s.drop_first());
        } else {
            assert(d =~= s);
        }
    }
    if start == b {
        return None;
    }
    let mut acc: u64 = 0;
    let mut j: usize = start;
    proof {
        assert(d.take(0) =~= Seq::<char>::empty());
    }
    while j < b
        invariant
            start <= j <= b,
            a <= b <= e@.len(),
            s == e@.subrange(a as int, b as int),
            d == (if s.len() > 1 && s[0] == '+' {
                s.drop_first()
            } else {
                s
            }),
            d == e@.subrange(start as int, b as int),
            2 <= radix <= 36,
            acc <= u32::MAX,
            digits_value(d.take(j - start), radix as int) == Some(acc as int),
        decreases b - j,
    {
        let v = digit_of(e[j]);
        proof {
            assert(d.take(j - start + 1).drop_last() =~= d.take(j - start));
            assert(d.take(j - start + 1).last() == e@[j as int]);
        }
        if v >= radix {
            proof {
                lemma_digits_prefix(d, radix as int, j - start + 1);
            }
            return None;
        }
        proof {
            assert(acc * radix <= 0xFFFF_FFFFu64 * 36) by (nonlinear_arith)
                requires
                    acc <= 0xFFFF_FFFFu64,
                    radix <= 36,
            ;
        }
        acc = acc * radix + v;
        if acc > u32::MAX as u64 {
            proof {
                lemma_digits_prefix(d, radix as int, j - start + 1);
            }
            return None;
        }
        j = j + 1;
    }
    proof {
        assert(d.take(b - start) =~= d);
    }
    Some(acc as u32)
}

/// The character of a numeric entity, as `entity_code` gives it.
fn entity_char(ent: &String) -> (r: Option<char>)
    ensures
        match entity_code(ent@) {
            Some(code) => r matches Some(c) && c as u32 == code,
            None => r is None,
        },
{
    let e = chars_of(ent.as_str());
    let n = e.len();
    if n < 2 || e[0] != '&' || e[1] != '#' {
        return None;
    }
    let mut a: usize = 0;
    proof {
        assert(e@.subrange(0, n as int) =~= e@);
    }
    while n - a >= 2 && e[a] == '&' && e[a + 1] == '#'
        invariant
            n == e@.len(),
            a <= n,
            trim_start_pairs(e@) == trim_start_pairs(e@.subrange(a as int, n as int)),
        decreases n - a,
    {
        proof {
            assert(e@.subrange(a as int, n as int).subrange(2, n - a) =~= e@.subrange(
                a + 2,
                n as int,
            ));
        }
        a = a + 2;
    }
    proof {
        let t = e@.subrange(a as int, n as int);
        assert(trim_start_pairs(t) == t);
    }
    while a < n && e[a] == 'x'
        invariant
            n == e@.len(),
            a <= n,
            trim_start_char(trim_start_pairs(e@), 'x') == trim_start_char(
                e@.subrange(a as int, n as int),
                'x',
            ),
        decreases n - a,
    {
        proof {
            assert(e@.subrange(a as int, n as int).drop_first() =~= e@.subrange(a + 1, n as int));
        }
        a = a + 1;
    }
    let mut b: usize = n;
    proof {
        let t = e@.subrange(a as int, n as int);
        assert(trim_start_char(t, 'x') == t);
    }
    while b > a && e[b - 1] == ';'
        invariant
            n == e@.len(),
            a <= b <= n,
            trim_end_char(e@.subrange(a as int, n as int), ';') == trim_end_char(
                e@.subrange(a as int, b as int),
                ';',
            ),
        decreases b - a,
    {
        proof {
            assert(e@.subrange(a as int, b as int).drop_last() =~= e@.subrange(a as int, b - 1));
        }
        b = b - 1;
    }
    proof {
        let t = e@.subrange(a as int, b as int);
        assert(trim_end_char(t, ';') == t);
    }
    let mut hex = false;
    let mut k: usize = 0;
    while k < n
        invariant
            n == e@.len(),
            k <= n,
            hex == (exists|w: int| 0 <= w < k && #[trigger] e@[w] == 'x'),
        decreases n - k,
    {
        if e[k] == 'x' {
            hex = true;
        }
        k = k + 1;
    }
    proof {
        if hex {
            let w = choose|w: int| 0 <= w < n && #[trigger] e@[w] == 'x';
            assert(e@.contains('x'));
        }
    }
    let radix: u64 = if hex {
        16
    } else {
        10
    };
    match parse_u32_range(&e, a, b, radix) {
        Some(code) => char_from_u32(code),
        None => None,
    }
}

/// The text of a named entity, as `named_entity` gives it.
fn entity_text(ent: &String) -> (d: &'static str)
    ensures
        d@ == named_entity(ent@),
{
    let e = ent.as_str();
    if str_eq(e, "&amp;") {
        "&"
    } else if str_eq(e, "&lt;") {
        "<"
    } else if str_eq(e, "&gt;") {
        ">"
    } else if str_eq(e, "&quot;") {
        "\""
    } else if str_eq(e, "&apos;") {
        "'"
    } else if str_eq(e, "&nbsp;") {
        " "
    } else if str_eq(e, "&mdash;") {
        "\u{2014}"
    } else if str_eq(e, "&ndash;") {
        "\u{2013}"
    } else if str_eq(e, "&hellip;") {
        "\u{2026}"
    } else if str_eq(e, "&rsquo;") {
        "\u{2019}"
    } else if str_eq(e, "&lsquo;") {
        "\u{2018}"
    } else if str_eq(e, "&rdquo;") {
        "\u{201D}"
    } else if str_eq(e, "&ldquo;") {
        "\u{201C}"
    } else {
        " "
    }
}

/// Appends the characters of `s`.
fn append_chars(out: &mut Vec<char>, s: &str)
    ensures
        final(out)@ == old(out)@ + s@,
{
    let cs = chars_of(s);
    let mut k: usize = 0;
    while k < cs.len()
        invariant
            k <= cs@.len(),
            cs@ == s@,
            out@ == old(out)@ + cs@.take(k as int),
        decreases cs@.len() - k,
    {
        proof {
            assert(cs@.take(k + 1) =~= cs@.take(k as int).push(cs@[k as int]));
        }
        out.push(cs[k]);
        k = k + 1;
    }
    proof {
        assert(cs@.take(cs@.len() as int) =~= cs@);
    }
}

/// At most two newlines in a row, as `limit_newlines` gives it.
fn collapse_newlines(t: &Vec<char>) -> (r: Vec<char>)
    ensures
        r@ == limit_newlines(t@).0,
{
    let mut out: Vec<char> = Vec::new();
    let mut run: u64 = 0;
    let mut k: usize = 0;
    proof {
        assert(t@.take(0) =~= Seq::<char>::empty());
    }
    while k < t.len()
        invariant
            k <= t@.len(),
            (out@, run as nat) == limit_newlines(t@.take(k as int)),
            run <= k,
        decreases t@.len() - k,
    {
        proof {
            assert(t@.take(k + 1).drop_last() =~= t@.take(k as int));
        }
        let c = t[k];
        if c == '\n' {
            run = run + 1;
            if run <= 2 {
                out.push(c);
            }
        } else {
            run = 0;
            out.push(c);
        }
        k = k + 1;
    }
    proof {
        assert(t@.take(t@.len() as int) =~= t@);
    }
    out
}

/// The characters of `t` without leading and trailing white space.
fn trim_chars(t: &Vec<char>) -> (r: Vec<char>)
    ensures
        r@ == trim_ws(t@),
{
    let n = t.len();
    let mut a: usize = 0;
    proof {
        assert(t@.subrange(0, n as int) =~= t@);
    }
    while a < n && is_white_space(t[a])
        invariant
            n == t@.len(),
            a <= n,
            crate::text::trim_start_ws(t@) == crate::text::trim_start_ws(
                t@.subrange(a as int, n as int),
            ),
        decreases n - a,
    {
        proof {
            assert(t@.subrange(a as int, n as int).drop_first() =~= t@.subrange(a + 1, n as int));
        }
        a = a + 1;
    }
    let mut b: usize = n;
    proof {
        let u = t@.subrange(a as int, n as int);
        assert(crate::text::trim_start_ws(u) == u);
    }
    while b > a && is_white_space(t[b - 1])
        invariant
            n == t@.len(),
            a <= b <= n,
            crate::text::trim_end_ws(t@.subrange(a as int, n as int)) == crate::text::trim_end_ws(
                t@.subrange(a as int, b as int),
            ),
        decreases b - a,
    {
        proof {
            assert(t@.subrange(a as int, b as int).drop_last() =~= t@.subrange(a as int, b - 1));
        }
        b = b - 1;
    }
    proof {
        let u = t@.subrange(a as int, b as int);
        assert(crate::text::trim_end_ws(u) == u);
    }
    let mut r: Vec<char> = Vec::new();
    let mut k: usize = a;
    while k < b
        invariant
            a <= k <= b <= n,
            n == t@.len(),
            r@ == t@.subrange(a as int, k as int),
        decreases b - k,
    {
        proof {
            assert(t@.subrange(a as int, k + 1) =~= t@.subrange(a as int, k as int).push(
                t@[k as int],
            ));
        }
        r.push(t[k]);
        k = k + 1;
    }
    r
}

/// The lower case of `h` and where each character begins in it.
fn lowered_chars(h: &Vec<char>) -> (r: (Vec<char>, Vec<usize>))
    ensures
        r.0@ == lowered(h@),
        r.1@.len() == h@.len(),
        forall|k: int| 0 <= k < h@.len() ==> #[trigger] r.1@[k] == lowered_start(h@, k),
{
    let mut low: Vec<char> = Vec::new();
    let mut starts: Vec<usize> = Vec::new();
    let n = h.len();
    let mut k: usize = 0;
    proof {
        assert(h@.take(0) =~= Seq::<char>::empty());
    }
    while k < n
        invariant
            n == h@.len(),
            k <= n,
            low@ == lowered(h@.take(k as int)),
            starts@.len() == k,
            forall|j: int| 0 <= j < k ==> #[trigger] starts@[j] == lowered_start(h@, j),
        decreases n - k,
    {
        starts.push(low.len());
        let lc = char_to_lowercase(h[k]);
        let mut j: usize = 0;
        let ghost before = low@;
        while j < lc.len()
            invariant
                j <= lc@.len(),
                low@ == before + lc@.take(j as int),
            decreases lc@.len() - j,
        {
            proof {
                assert(lc@.take(j + 1) =~= lc@.take(j as int).push(lc@[j as int]));
            }
            low.push(lc[j]);
            j = j + 1;
        }
        proof {
            assert(lc@.take(lc@.len() as int) =~= lc@);
            assert(h@.take(k + 1).drop_last() =~= h@.take(k as int));
            assert(h@.take(k + 1).last() == h@[k as int]);
        }
        k = k + 1;
    }
    proof {
        assert(h@.take(n as int) =~= h@);
    }
    (low, starts)
}

/// Plain text of HTML-like e-book markup: tags dropped, script and style
/// contents dropped, block tags on new lines, white space collapsed, common
/// entities decoded, at most two newlines in a row, trimmed (see
/// `plain_text`).
pub fn strip_html(html: &str) -> (r: String)
    ensures
        r@ == plain_text(html@),
{
    let h = chars_of(html);
    let (lower, starts) = lowered_chars(&h);
    let n = h.len();
    let mut out: Vec<char> = Vec::new();
    let mut in_tag = false;
    let mut in_script = false;
    let mut in_style = false;
    let mut last_space = true;
    let mut k: usize = 0;
    let ghost total = scan_from(h@, lower@, 0, Seq::empty(), false, false, false, true);
    while k < n
        invariant
            n == h@.len(),
            h@ == html@,
            lower@ == lowered(h@),
            starts@.len() == n,
            forall|j: int| 0 <= j < n ==> #[trigger] starts@[j] == lowered_start(h@, j),
            k <= n,
            scan_from(h@, lower@, k as int, out@, in_tag, in_script, in_style, last_space) == total,
            total == scan_from(h@, lower@, 0, Seq::empty(), false, false, false, true),
        decreases n - k,
    {
        let c = h[k];
        if c == '<' {
            let pos = starts[k];
            let (sc, st, block) = tag_effects(&lower, pos, in_script, in_style);
            if block && out.len() > 0 && out[out.len() - 1] != '\n' {
                out.push('\n');
            }
            in_tag = true;
            in_script = sc;
            in_style = st;
            k = k + 1;
        } else if c == '>' {
            in_tag = false;
            k = k + 1;
        } else if !in_tag && !in_script && !in_style {
            if c == '&' {
                let (ent, k2, _taken) = take_entity(&h, k + 1);
                proof {
                    lemma_scan_entity_advances(h@, k + 1, seq!['&']);
                }
                match entity_char(&ent) {
                    Some(ch) => {
                        proof {
                            vstd::utf8::char_u32_cast(ch, ch as u32);
                        }
                        out.push(ch);
                    },
                    None => {
                        let d = entity_text(&ent);
                        append_chars(&mut out, d);
                        last_space = str_eq(d, " ");
                    },
                }
                k = k2;
            } else if is_white_space(c) {
                if !last_space {
                    out.push(' ');
                    last_space = true;
                }
                k = k + 1;
            } else {
                out.push(c);
                last_space = false;
                k = k + 1;
            }
        } else {
            k = k + 1;
        }
    }
    let limited = collapse_newlines(&out);
    let trimmed = trim_chars(&limited);
    string_of(trimmed.as_slice())
}

/// The pieces of `s` between the blank-line separators (`"\n\n"`, taken
/// leftmost first and not overlapping, as `str::split` takes them) found
/// so far, and the piece in progress.
pub open spec fn split_blank(s: Seq<char>) -> (Seq<Seq<char>>, Seq<char>)
    decreases s.len(),
{
    if s.len() == 0 {
        (Seq::empty(), Seq::empty())
    } else {
        let (done, cur) = split_blank(s.drop_last());
        if s.last() == '\n' && cur.len() > 0 && cur.last() == '\n' {
            (done.push(cur.drop_last()), Seq::empty())
        } else {
            (done, cur.push(s.last()))
        }
    }
}

/// The paragraphs of `s`: `s.split("\n\n")`.
pub open spec fn paragraphs(s: Seq<char>) -> Seq<Seq<char>> {
    split_blank(s).0.push(split_blank(s).1)
}

/// Pages filled from the paragraphs `paras` (each trimmed, empty ones
/// skipped, joined by a blank line): a page is closed before a paragraph
/// that would take it over `limit` bytes.  Gives the closed pages and the
/// page in progress.
pub open spec fn fill_pages(paras: Seq<Seq<char>>, limit: int) -> (Seq<Seq<char>>, Seq<char>)
    decreases paras.len(),
{
    if paras.len() == 0 {
        (Seq::empty(), Seq::empty())
    } else {
        let (pages, cur) = fill_pages(paras.drop_last(), limit);
        let p = trim_ws(paras.last());
        if p.len() == 0 {
            (pages, cur)
        } else {
            let (pages2, cur2) = if utf8_len_of(cur) + utf8_len_of(p) > limit && cur.len() > 0 {
                (pages.push(trim_ws(cur)), Seq::<char>::empty())
            } else {
                (pages, cur)
            };
            let cur3 = if cur2.len() > 0 {
                cur2 + "\n\n"@
            } else {
                cur2
            };
            (pages2, cur3 + p)
        }
    }
}

/// The pages of `content` for a page size of `limit` bytes; the whole
/// content as one page when no paragraph has any text.
pub open spec fn pages_of(content: Seq<char>, limit: int) -> Seq<Seq<char>> {
    let (pages, cur) = fill_pages(paragraphs(content), limit);
    let all = if trim_ws(cur).len() > 0 {
        pages.push(trim_ws(cur))
    } else {
        pages
    };
    if all.len() == 0 {
        seq![content]
    } else {
        all
    }
}

/// Number of UTF-8 bytes of `v`.
pub(crate) fn chars_byte_len(v: &Vec<char>) -> (n: u128)
    ensures
        n == utf8_len_of(v@),
        n <= 4 * v@.len(),
{
    let mut acc: u128 = 0;
    let mut k: usize = 0;
    proof {
        assert(v@.take(0) =~= Seq::<char>::empty());
    }
    while k < v.len()
        invariant
            k <= v@.len(),
            acc == utf8_len_of(v@.take(k as int)),
            acc <= 4 * k,
        decreases v@.len() - k,
    {
        proof {
            assert(v@.take(k + 1).drop_last() =~= v@.take(k as int));
        }
        acc = acc + char_len_utf8(v[k]) as u128;
        k = k + 1;
    }
    proof {
        assert(v@.take(v@.len() as int) =~= v@);
    }
    acc
}

/// `content.split("\n\n")`.
fn split_paragraphs(content: &Vec<char>) -> (r: Vec<Vec<char>>)
    ensures
        r@.len() == paragraphs(content@).len(),
        forall|i: int| 0 <= i < r@.len() ==> #[trigger] r@[i]@ == paragraphs(content@)[i],
{
    let mut done: Vec<Vec<char>> = Vec::new();
    let mut cur: Vec<char> = Vec::new();
    let mut k: usize = 0;
    proof {
        assert(content@.take(0) =~= Seq::<char>::empty());
    }
    while k < content.len()
        invariant
            k <= content@.len(),
            done@.len() == split_blank(content@.take(k as int)).0.len(),
            forall|i: int|
                0 <= i < done@.len() ==> #[trigger] done@[i]@ == split_blank(
                    content@.take(k as int),
                ).0[i],
            cur@ == split_blank(content@.take(k as int)).1,
        decreases content@.len() - k,
    {
        proof {
            assert(content@.take(k + 1).drop_last() =~= content@.take(k as int));
        }
        let c = content[k];
        if c == '\n' && cur.len() > 0 && cur[cur.len() - 1] == '\n' {
            let mut piece = cur;
            piece.pop();
            done.push(piece);
            cur = Vec::new();
        } else {
            cur.push(c);
        }
        k = k + 1;
    }
    proof {
        assert(content@.take(content@.len() as int) =~= content@);
    }
    done.push(cur);
    done
}

/// `a` followed by the characters of `b`.
fn extend_chars(a: &mut Vec<char>, b: &Vec<char>)
    ensures
        final(a)@ == old(a)@ + b@,
{
    let mut k: usize = 0;
    while k < b.len()
        invariant
            k <= b@.len(),
            a@ == old(a)@ + b@.take(k as int),
        decreases b@.len() - k,
    {
        proof {
            assert(b@.take(k + 1) =~= b@.take(k as int).push(b@[k as int]));
        }
        a.push(b[k]);
        k = k + 1;
    }
    proof {
        assert(b@.take(b@.len() as int) =~= b@);
    }
}

/// Splits text into pages of about `chars_per_page` bytes, at paragraph
/// breaks (blank lines); each page is trimmed.
pub fn paginate(content: &str, chars_per_page: usize) -> (r: Vec<String>)
    ensures
        r@.len() == pages_of(content@, chars_per_page as int).len(),
        forall|i: int|
            0 <= i < r@.len() ==> #[trigger] r@[i]@ == pages_of(content@, chars_per_page as int)[i],
{
    let text = chars_of(content);
    let paras = split_paragraphs(&text);
    let ghost ps = paragraphs(content@);
    let mut pages: Vec<Vec<char>> = Vec::new();
    let mut cur: Vec<char> = Vec::new();
    let mut j: usize = 0;
    proof {
        assert(ps.take(0) =~= Seq::<Seq<char>>::empty());
    }
    while j < paras.len()
        invariant
            text@ == content@,
            ps == paragraphs(content@),
            paras@.len() == ps.len(),
            forall|i: int| 0 <= i < paras@.len() ==> #[trigger] paras@[i]@ == ps[i],
            j <= paras@.len(),
            pages@.len() == fill_pages(ps.take(j as int), chars_per_page as int).0.len(),
            forall|i: int|
                0 <= i < pages@.len() ==> #[trigger] pages@[i]@ == fill_pages(
                    ps.take(j as int),
                    chars_per_page as int,
                ).0[i],
            cur@ == fill_pages(ps.take(j as int), chars_per_page as int).1,
        decreases paras@.len() - j,
    {
        proof {
            assert(ps.take(j + 1).drop_last() =~= ps.take(j as int));
            assert(ps.take(j + 1).last() == ps[j as int]);
        }
        let p = trim_chars(&paras[j]);
        if p.len() > 0 {
            let cb = chars_byte_len(&cur);
            let pb = chars_byte_len(&p);
            let cl = cur.len();
            let pl = p.len();
            assert(cb + pb <= 4 * cl + 4 * pl);
            if cb + pb > chars_per_page as u128 && cur.len() > 0 {
                let closed = trim_chars(&cur);
                pages.push(closed);
                cur = Vec::new();
            }
            if cur.len() > 0 {
                cur.push('\n');
                cur.push('\n');
                proof {
                    reveal_strlit("\n\n");
                }
            }
            extend_chars(&mut cur, &p);
        }
        j = j + 1;
    }
    proof {
        assert(ps.take(ps.len() as int) =~= ps);
    }
    let last = trim_chars(&cur);
    if last.len() > 0 {
        pages.push(last);
    }
    let mut out: Vec<String> = Vec::new();
    if pages.len() == 0 {
        out.push(string_of(text.as_slice()));
        return out;
    }
    let mut i: usize = 0;
    while i < pages.len()
        invariant
            i <= pages@.len(),
            out@.len() == i,
            forall|t: int| 0 <= t < i ==> #[trigger] out@[t]@ == pages@[t]@,
        decreases pages@.len() - i,
    {
        out.push(string_of(pages[i].as_slice()));
        i = i + 1;
    }
    out
}

/// Whether `needle` occurs in `hay` as a run of consecutive characters (the
/// empty text occurs everywhere).
pub open spec fn contains_seq(hay: Seq<char>, needle: Seq<char>) -> bool {
    exists|i: int|
        0 <= i && i + needle.len() <= hay.len() && #[trigger] hay.subrange(i, i + needle.len())
            == needle
}

/// Whether `needle` matches `hay` at position `i`.
fn matches_at(hay: &Vec<char>, needle: &Vec<char>, i: usize) -> (b: bool)
    requires
        i + needle@.len() <= hay@.len(),
    ensures
        b == (hay@.subrange(i as int, i + needle@.len()) == needle@),
{
    let n = needle.len();
    let hl = hay.len();
    let mut j: usize = 0;
    while j < n
        invariant
            n == needle@.len(),
            hl == hay@.len(),
            i + n <= hay@.len(),
            j <= n,
            forall|t: int| 0 <= t < j ==> hay@[i + t] == needle@[t],
        decreases n - j,
    {
        if hay[i + j] != needle[j] {
            proof {
                let sub = hay@.subrange(i as int, i + n);
                assert(sub[j as int] != needle@[j as int]);
            }
            return false;
        }
        j = j + 1;
    }
    proof {
        assert(hay@.subrange(i as int, i + n) =~= needle@);
    }
    true
}

/// Whether `needle` occurs in `hay`.
pub fn contains_chars(hay: &Vec<char>, needle: &Vec<char>) -> (b: bool)
    ensures
        b == contains_seq(hay@, needle@),
{
    let m = needle.len();
    let h = hay.len();
    if m > h {
        return false;
    }
    if m == 0 {
        proof {
            assert(hay@.subrange(0, 0 + needle@.len() as int) =~= needle@);
        }
        return true;
    }
    let mut i: usize = 0;
    while i <= h - m
        invariant
            m == needle@.len(),
            h == hay@.len(),
            1 <= m <= h,
            i <= h - m + 1,
            forall|t: int| 0 <= t < i ==> #[trigger] hay@.subrange(t, t + m) != needle@,
        decreases h - m + 1 - i,
    {
        if matches_at(hay, needle, i) {
            return true;
        }
        i = i + 1;
    }
    false
}

/// Whether page `page` of a paginated text holds `query`, ignoring case
/// (both are lower-cased as `str::to_lowercase` does).  A page index past
/// the end holds nothing.
pub fn page_contains_query(pages: &Vec<String>, page: usize, query: &str) -> (b: bool)
    ensures
        b == (page < pages@.len() && contains_seq(
            lowercase_of(pages@[page as int]@),
            lowercase_of(query@),
        )),
{
    if page >= pages.len() {
        return false;
    }
    let q = to_lowercase(query);
    let t = to_lowercase(pages[page].as_str());
    let qc = chars_of(q.as_str());
    let tc = chars_of(t.as_str());
    contains_chars(&tc, &qc)
}

/// `s` has no three newlines in a row.
pub open spec fn no_triple_newline(s: Seq<char>) -> bool {
    forall|i: int| 0 <= i && i + 2 < s.len() ==> !(#[trigger] s[i] == '\n' && s[i + 1] == '\n' && s[i
        + 2] == '\n')
}

proof fn lemma_limit_newlines(s: Seq<char>)
    ensures
        no_triple_newline(limit_newlines(s).0),
        limit_newlines(s).1 >= 1 ==> limit_newlines(s).0.len() >= 1 && limit_newlines(s).0.last()
            == '\n',
        limit_newlines(s).1 >= 2 ==> limit_newlines(s).0.len() >= 2 && limit_newlines(s).0[limit_newlines(
            s,
        ).0.len() - 2] == '\n',
        limit_newlines(s).1 == 0 ==> limit_newlines(s).0.len() == 0 || limit_newlines(s).0.last()
            != '\n',
        limit_newlines(s).1 == 1 ==> limit_newlines(s).0.len() < 2 || limit_newlines(s).0[limit_newlines(
            s,
        ).0.len() - 2] != '\n',
    decreases s.len(),
{
    if s.len() > 0 {
        lemma_limit_newlines(s.drop_last());
        let (o, n) = limit_newlines(s.drop_last());
        let r = limit_newlines(s).0;
        if s.last() == '\n' && n + 1 <= 2 || s.last() != '\n' {
            assert forall|i: int| 0 <= i && i + 2 < r.len() implies !(#[trigger] r[i] == '\n' && r[i
                + 1] == '\n' && r[i + 2] == '\n') by {
                if i + 2 < o.len() {
                    assert(r[i] == o[i] && r[i + 1] == o[i + 1] && r[i + 2] == o[i + 2]);
                } else {
                    assert(r[i] == o[i] && r[i + 1] == o[i + 1]);
                }
            }
        }
    }
}

/// A sequence of characters that keeps no three newlines in a row keeps
/// none in any part of it.
proof fn lemma_no_triple_subrange(s: Seq<char>, a: int, b: int)
    requires
        no_triple_newline(s),
        0 <= a <= b <= s.len(),
    ensures
        no_triple_newline(s.subrange(a, b)),
{
    let t = s.subrange(a, b);
    assert forall|i: int| 0 <= i && i + 2 < t.len() implies !(#[trigger] t[i] == '\n' && t[i + 1]
        == '\n' && t[i + 2] == '\n') by {
        assert(t[i] == s[a + i] && t[i + 1] == s[a + i + 1] && t[i + 2] == s[a + i + 2]);
    }
}

/// The plain text has no white space at either end and never more than
/// two newlines in a row.
pub proof fn lemma_plain_text_tidy(html: Seq<char>)
    ensures
        plain_text(html).len() > 0 ==> !white_space(plain_text(html)[0]) && !white_space(
            plain_text(html).last(),
        ),
        no_triple_newline(plain_text(html)),
{
    let raw = scan_from(html, lowered(html), 0, Seq::empty(), false, false, false, true);
    let o = limit_newlines(raw).0;
    lemma_limit_newlines(raw);
    let (a, b) = crate::text::lemma_trim_ws_range(o);
    lemma_no_triple_subrange(o, a, b);
}


/// Texts joined with a blank line between each two (`slice.join("\n\n")`).
pub open spec fn join_blank(s: Seq<Seq<char>>) -> Seq<char>
    decreases s.len(),
{
    if s.len() == 0 {
        Seq::empty()
    } else if s.len() == 1 {
        s[0]
    } else {
        join_blank(s.drop_last()) + "\n\n"@ + s.last()
    }
}

/// The trimmed paragraphs that have any text, in order.
pub open spec fn paragraph_texts(paras: Seq<Seq<char>>) -> Seq<Seq<char>>
    decreases paras.len(),
{
    if paras.len() == 0 {
        Seq::empty()
    } else if trim_ws(paras.last()).len() == 0 {
        paragraph_texts(paras.drop_last())
    } else {
        paragraph_texts(paras.drop_last()).push(trim_ws(paras.last()))
    }
}

/// Neither starts nor ends with white space.
pub open spec fn tidy(s: Seq<char>) -> bool {
    s.len() > 0 ==> !white_space(s[0]) && !white_space(s.last())
}

proof fn lemma_tidy_trim(s: Seq<char>)
    requires
        tidy(s),
    ensures
        trim_ws(s) == s,
{
    if s.len() > 0 {
        assert(crate::text::trim_start_ws(s) == s);
        assert(crate::text::trim_end_ws(s) == s);
    }
}

proof fn lemma_trim_is_tidy(s: Seq<char>)
    ensures
        tidy(trim_ws(s)),
{
    let (a, b) = crate::text::lemma_trim_ws_range(s);
    let t = trim_ws(s);
    if t.len() > 0 {
        assert(t[0] == s[a]);
        assert(t.last() == s[b - 1]);
    }
}

proof fn lemma_join_extend(s: Seq<Seq<char>>, a: Seq<char>, b: Seq<char>)
    ensures
        join_blank(s.push(a + "\n\n"@ + b)) == join_blank(s.push(a)) + "\n\n"@ + b,
{
    let l = s.push(a + "\n\n"@ + b);
    let m = s.push(a);
    assert(l.drop_last() =~= s);
    assert(m.drop_last() =~= s);
    if s.len() == 0 {
        assert(l[0] == a + "\n\n"@ + b);
    } else {
        assert(join_blank(l) == join_blank(s) + "\n\n"@ + (a + "\n\n"@ + b));
        assert(join_blank(l) =~= join_blank(s) + "\n\n"@ + a + "\n\n"@ + b);
    }
}

/// What filling pages keeps: the closed pages and the page in progress,
/// joined by blank lines, are the paragraphs' texts joined by blank lines;
/// every closed page and the page in progress are tidy, closed pages are
/// not empty, and there is some page exactly when some paragraph has text.
proof fn lemma_fill_pages_keeps_text(paras: Seq<Seq<char>>, limit: int)
    ensures
        ({
            let (pages, cur) = fill_pages(paras, limit);
            let all = if cur.len() > 0 {
                pages.push(cur)
            } else {
                pages
            };
            &&& join_blank(all) == join_blank(paragraph_texts(paras))
            &&& tidy(cur)
            &&& forall|i: int| 0 <= i < pages.len() ==> #[trigger] pages[i].len() > 0 && tidy(pages[i])
            &&& (all.len() == 0) == (paragraph_texts(paras).len() == 0)
        }),
    decreases paras.len(),
{
    if paras.len() > 0 {
        let prev = paras.drop_last();
        lemma_fill_pages_keeps_text(prev, limit);
        let (pages, cur) = fill_pages(prev, limit);
        let p = trim_ws(paras.last());
        lemma_trim_is_tidy(paras.last());
        let tp = paragraph_texts(prev);
        let all_prev = if cur.len() > 0 {
            pages.push(cur)
        } else {
            pages
        };
        if p.len() > 0 {
            assert(paragraph_texts(paras) == tp.push(p));
            assert(tp.push(p).drop_last() =~= tp);
            if utf8_len_of(cur) + utf8_len_of(p) > limit && cur.len() > 0 {
                lemma_tidy_trim(cur);
                let pages2 = pages.push(cur);
                let all = pages2.push(p);
                assert(all.drop_last() =~= pages2);
                assert(pages2 == all_prev);
                assert(forall|i: int| 0 <= i < pages2.len() ==> #[trigger] pages2[i].len() > 0 && tidy(pages2[i]));
            } else if cur.len() > 0 {
                let c2 = cur + "\n\n"@ + p;
                lemma_join_extend(pages, cur, p);
                assert(c2[0] == cur[0]);
                assert(c2.last() == p.last());
            } else {
                let all = pages.push(p);
                assert(all.drop_last() =~= pages);
                assert(cur + p =~= p);
            }
        }
    }
}

/// The UTF-8 length of a concatenation is the sum of the lengths.
proof fn lemma_utf8_len_concat(a: Seq<char>, b: Seq<char>)
    ensures
        utf8_len_of(a + b) == utf8_len_of(a) + utf8_len_of(b),
    decreases b.len(),
{
    if b.len() > 0 {
        lemma_utf8_len_concat(a, b.drop_last());
        assert((a + b).drop_last() =~= a + b.drop_last());
        assert((a + b).last() == b.last());
    }
}

/// A text has a non-negative UTF-8 length.
proof fn lemma_utf8_len_nonneg(a: Seq<char>)
    ensures
        utf8_len_of(a) >= 0,
    decreases a.len(),
{
    if a.len() > 0 {
        lemma_utf8_len_nonneg(a.drop_last());
    }
}

/// The sizes of the pages built so far (see `lemma_page_sizes`).
proof fn lemma_fill_pages_sizes(paras: Seq<Seq<char>>, limit: int)
    ensures
        ({
            let (pages, cur) = fill_pages(paras, limit);
            let texts = paragraph_texts(paras);
            &&& forall|i: int|
                0 <= i < pages.len() ==> utf8_len_of(#[trigger] pages[i]) <= limit + 2
                    || texts.contains(pages[i])
            &&& cur.len() == 0 || utf8_len_of(cur) <= limit + 2 || texts.contains(cur)
            &&& forall|i: int|
                0 <= i < pages.len() - 1 ==> utf8_len_of(#[trigger] pages[i]) + utf8_len_of(pages[i
                    + 1]) > limit
            &&& pages.len() > 0 && cur.len() > 0 ==> utf8_len_of(pages.last()) + utf8_len_of(cur)
                > limit
            &&& pages.len() > 0 ==> cur.len() > 0
        }),
    decreases paras.len(),
{
    if paras.len() > 0 {
        let prev = paras.drop_last();
        lemma_fill_pages_sizes(prev, limit);
        let (pages, cur) = fill_pages(prev, limit);
        let p = trim_ws(paras.last());
        let tp = paragraph_texts(prev);
        let texts = paragraph_texts(paras);
        if p.len() > 0 {
            assert(texts == tp.push(p));
            assert(texts.contains(p)) by {
                assert(texts[texts.len() - 1] == p);
            }
            assert forall|x: Seq<char>| tp.contains(x) implies texts.contains(x) by {
                let k = choose|k: int| 0 <= k < tp.len() && tp[k] == x;
                assert(texts[k] == x);
            }
            lemma_utf8_len_nonneg(p);
            lemma_utf8_len_nonneg(cur);
            if utf8_len_of(cur) + utf8_len_of(p) > limit && cur.len() > 0 {
                let pages2 = pages.push(cur);
                lemma_fill_pages_keeps_text(prev, limit);
                lemma_tidy_trim(cur);
                assert(Seq::<char>::empty() + p =~= p);
                assert(pages2.last() == cur);
                assert forall|i: int| 0 <= i < pages2.len() implies utf8_len_of(#[trigger] pages2[i])
                    <= limit + 2 || texts.contains(pages2[i]) by {
                    if i < pages.len() {
                        assert(pages2[i] == pages[i]);
                    }
                }
                assert forall|i: int| 0 <= i < pages2.len() - 1 implies utf8_len_of(
                    #[trigger] pages2[i],
                ) + utf8_len_of(pages2[i + 1]) > limit by {
                    assert(pages2[i] == pages[i]);
                    if i + 1 < pages.len() {
                        assert(pages2[i + 1] == pages[i + 1]);
                    }
                }
                assert(fill_pages(paras, limit) == (pages2, p));
            } else if cur.len() > 0 {
                let c2 = cur + "\n\n"@ + p;
                reveal_strlit("\n\n");
                lemma_utf8_len_concat(cur + "\n\n"@, p);
                lemma_utf8_len_concat(cur, "\n\n"@);
                let nn = "\n\n"@;
                assert(nn.len() == 2 && nn[0] == '\n' && nn[1] == '\n');
                assert(('\n' as u32) == 10);
                assert(utf8_len('\n') == 1);
                assert(nn.drop_last().drop_last() =~= Seq::<char>::empty());
                assert(nn.drop_last().last() == '\n');
                assert(utf8_len_of(nn.drop_last().drop_last()) == 0);
                assert(utf8_len_of(nn.drop_last()) == 1);
                assert(utf8_len_of(nn) == 2);
                assert(utf8_len_of(c2) >= utf8_len_of(cur));
                assert(utf8_len_of(c2) <= limit + 2);
                assert(c2.len() > 0);
                assert(fill_pages(paras, limit) == (pages, c2));
                assert forall|i: int| 0 <= i < pages.len() implies utf8_len_of(#[trigger] pages[i])
                    <= limit + 2 || texts.contains(pages[i]) by {
                    if utf8_len_of(pages[i]) > limit + 2 {
                        assert(tp.contains(pages[i]));
                    }
                }
            } else {
                assert(cur + p =~= p);
                assert(fill_pages(paras, limit) == (pages, p));
                assert(pages.len() == 0);
            }
        } else {
            assert(texts == tp);
            assert(fill_pages(paras, limit) == (pages, cur));
        }
    }
}

/// Pages are filled greedily: a page that joins several paragraphs holds
/// at most the page size in bytes plus the two of one blank line (a page
/// over that is a single paragraph), and a page is only closed when the
/// next paragraph would not fit, so no two neighbouring pages would fit
/// together in one page.
pub proof fn lemma_page_sizes(content: Seq<char>, limit: int)
    requires
        paragraph_texts(paragraphs(content)).len() > 0,
    ensures
        forall|i: int|
            0 <= i < pages_of(content, limit).len() ==> utf8_len_of(
                #[trigger] pages_of(content, limit)[i],
            ) <= limit + 2 || paragraph_texts(paragraphs(content)).contains(
                pages_of(content, limit)[i],
            ),
        forall|i: int|
            0 <= i < pages_of(content, limit).len() - 1 ==> utf8_len_of(
                #[trigger] pages_of(content, limit)[i],
            ) + utf8_len_of(pages_of(content, limit)[i + 1]) > limit,
{
    let paras = paragraphs(content);
    lemma_fill_pages_keeps_text(paras, limit);
    lemma_fill_pages_sizes(paras, limit);
    let (pages, cur) = fill_pages(paras, limit);
    lemma_tidy_trim(cur);
    let all = pages_of(content, limit);
    if cur.len() > 0 {
        assert(all == pages.push(cur));
        assert(all.last() == cur);
        assert forall|i: int| 0 <= i < all.len() - 1 implies utf8_len_of(#[trigger] all[i])
            + utf8_len_of(all[i + 1]) > limit by {
            assert(all[i] == pages[i]);
            if i + 1 < pages.len() {
                assert(all[i + 1] == pages[i + 1]);
            }
        }
        assert forall|i: int| 0 <= i < all.len() implies utf8_len_of(#[trigger] all[i]) <= limit
            + 2 || paragraph_texts(paras).contains(all[i]) by {
            if i < pages.len() {
                assert(all[i] == pages[i]);
            }
        }
    } else {
        assert(pages.len() == 0);
    }
}

/// Splitting into pages loses no text: the pages joined by blank lines
/// are the trimmed paragraphs that have text, joined by blank lines.  Each
/// page has text and no white space at either end.
pub proof fn lemma_pages_keep_text(content: Seq<char>, limit: int)
    requires
        paragraph_texts(paragraphs(content)).len() > 0,
    ensures
        join_blank(pages_of(content, limit)) == join_blank(paragraph_texts(paragraphs(content))),
        forall|i: int|
            0 <= i < pages_of(content, limit).len() ==> #[trigger] pages_of(content, limit)[i].len()
                > 0 && tidy(pages_of(content, limit)[i]),
{
    let paras = paragraphs(content);
    lemma_fill_pages_keeps_text(paras, limit);
    let (pages, cur) = fill_pages(paras, limit);
    lemma_tidy_trim(cur);
}


/// The tags that start a new line: `<p`, `<br`, `<div`, the headings `<h1`
/// to `<h4`, `<li` and `<mbp:pagebreak`, looked up in the lower-cased text
/// (so in any case); a tag starting `<script` or `<style` hides the text
/// up to the tag starting `</script` or `</style`.
pub proof fn lemma_tag_kinds(lower: Seq<char>, pos: int, in_script: bool, in_style: bool)
    ensures
        starts_block(lower, pos) <==> (chars_start_with(lower, pos, seq!['<', 'p']) || chars_start_with(lower, pos, seq!['<', 'b', 'r']) || chars_start_with(lower, pos, seq!['<', 'd', 'i', 'v']) || chars_start_with(lower, pos, seq!['<', 'h', '1']) || chars_start_with(lower, pos, seq!['<', 'h', '2']) || chars_start_with(lower, pos, seq!['<', 'h', '3']) || chars_start_with(lower, pos, seq!['<', 'h', '4']) || chars_start_with(lower, pos, seq!['<', 'l', 'i']) || chars_start_with(lower, pos, seq!['<', 'm', 'b', 'p', ':', 'p', 'a', 'g', 'e', 'b', 'r', 'e', 'a', 'k'])),
        tag_flags(lower, pos, in_script, in_style) == if chars_start_with(lower, pos, seq!['<', 's', 'c', 'r', 'i', 'p', 't']) {
            (true, in_style)
        } else if chars_start_with(lower, pos, seq!['<', '/', 's', 'c', 'r', 'i', 'p', 't']) {
            (false, in_style)
        } else if chars_start_with(lower, pos, seq!['<', 's', 't', 'y', 'l', 'e']) {
            (in_script, true)
        } else if chars_start_with(lower, pos, seq!['<', '/', 's', 't', 'y', 'l', 'e']) {
            (in_script, false)
        } else {
            (in_script, in_style)
        },
{
    reveal_strlit("<p");
    reveal_strlit("<br");
    reveal_strlit("<div");
    reveal_strlit("<h1");
    reveal_strlit("<h2");
    reveal_strlit("<h3");
    reveal_strlit("<h4");
    reveal_strlit("<li");
    reveal_strlit("<mbp:pagebreak");
    reveal_strlit("<script");
    reveal_strlit("</script");
    reveal_strlit("<style");
    reveal_strlit("</style");
    assert("<p"@ =~= seq!['<', 'p']);
    assert("<br"@ =~= seq!['<', 'b', 'r']);
    assert("<div"@ =~= seq!['<', 'd', 'i', 'v']);
    assert("<h1"@ =~= seq!['<', 'h', '1']);
    assert("<h2"@ =~= seq!['<', 'h', '2']);
    assert("<h3"@ =~= seq!['<', 'h', '3']);
    assert("<h4"@ =~= seq!['<', 'h', '4']);
    assert("<li"@ =~= seq!['<', 'l', 'i']);
    assert("<mbp:pagebreak"@ =~= seq!['<', 'm', 'b', 'p', ':', 'p', 'a', 'g', 'e', 'b', 'r', 'e', 'a', 'k']);
    assert("<script"@ =~= seq!['<', 's', 'c', 'r', 'i', 'p', 't']);
    assert("</script"@ =~= seq!['<', '/', 's', 'c', 'r', 'i', 'p', 't']);
    assert("<style"@ =~= seq!['<', 's', 't', 'y', 'l', 'e']);
    assert("</style"@ =~= seq!['<', '/', 's', 't', 'y', 'l', 'e']);
}

/// A tag that starts a new line breaks the text: when the text so far is
/// not empty and does not already end a line, a newline is added before
/// what follows the tag (inside or outside script and style alike).
pub proof fn lemma_block_tag_breaks_line(
    h: Seq<char>,
    k: int,
    out: Seq<char>,
    in_tag: bool,
    in_script: bool,
    in_style: bool,
    last_space: bool,
)
    requires
        0 <= k < h.len(),
        h[k] == '<',
        starts_block(lowered(h), lowered_start(h, k)),
        out.len() > 0,
        out.last() != '\n',
    ensures
        ({
            let (sc, st) = tag_flags(lowered(h), lowered_start(h, k), in_script, in_style);
            scan_from(h, lowered(h), k, out, in_tag, in_script, in_style, last_space) == scan_from(
                h,
                lowered(h),
                k + 1,
                out.push('\n'),
                true,
                sc,
                st,
                last_space,
            )
        }),
{
}

} // verus!
