//! Pages of comic book archives: which archive entries are pages, and
//! their natural order ("page2" before "page10").
//!
//! Reading the archives (zip, 7z, tar) happens around the library; it
//! hands over the entries' names and bytes.
use vstd::prelude::*;
use crate::markup::digits_value;
use crate::sorting::{
    chars_le, is_sorted_by, lemma_chars_le_total, lemma_chars_le_transitive, lemma_sorted_by_sorts,
    sorted_by, stable_sort_by, str_le, total_preorder,
};
use crate::text::{chars_of, lowercase_of, string_of, to_lowercase};

verus! {

/// `s` ends with `t`.
pub open spec fn ends_with(s: Seq<char>, t: Seq<char>) -> bool {
    s.len() >= t.len() && s.subrange(s.len() - t.len(), s.len() as int) == t
}

fn ends_with_str(s: &str, t: &str) -> (b: bool)
    ensures
        b == ends_with(s@, t@),
{
    let a = chars_of(s);
    let b = chars_of(t);
    if b.len() > a.len() {
        return false;
    }
    let alen = a.len();
    let off = alen - b.len();
    let mut k: usize = 0;
    while k < b.len()
        invariant
            a@ == s@,
            b@ == t@,
            b@.len() <= a@.len(),
            alen == a@.len(),
            off == a@.len() - b@.len(),
            k <= b@.len(),
            forall|j: int| 0 <= j < k ==> a@[off + j] == #[trigger] b@[j],
        decreases b@.len() - k,
    {
        if a[off + k] != b[k] {
            proof {
                assert(a@.subrange(off as int, a@.len() as int)[k as int] != b@[k as int]);
            }
            return false;
        }
        k = k + 1;
    }
    proof {
        assert(a@.subrange(off as int, a@.len() as int) =~= b@);
    }
    true
}

/// An archive entry is a page when its name ends with an image extension,
/// in any case.
pub open spec fn is_page_name(name: Seq<char>) -> bool {
    let l = lowercase_of(name);
    ||| ends_with(l, ".jpg"@)
    ||| ends_with(l, ".jpeg"@)
    ||| ends_with(l, ".png"@)
    ||| ends_with(l, ".gif"@)
    ||| ends_with(l, ".webp"@)
    ||| ends_with(l, ".bmp"@)
}

/// Check if a filename is an image based on extension.
pub fn is_image_file(name: &str) -> (b: bool)
    ensures
        b == is_page_name(name@),
{
    let lower = to_lowercase(name);
    let l = lower.as_str();
    ends_with_str(l, ".jpg") || ends_with_str(l, ".jpeg") || ends_with_str(l, ".png")
        || ends_with_str(l, ".gif") || ends_with_str(l, ".webp") || ends_with_str(l, ".bmp")
}

/// Part of a natural sort key, as the order sees it.
pub enum KeyPart {
    /// A run of ASCII digits, by its value.
    Num(u64),
    /// A run of other characters, lower-cased.
    Text(Seq<char>),
}

/// Part of a natural sort key.
#[derive(Debug)]
pub enum NaturalSortPart {
    Num(u64),
    Str(String),
}

impl NaturalSortPart {
    /// The part as the order sees it.
    pub open spec fn part(&self) -> KeyPart {
        match self {
            NaturalSortPart::Num(n) => KeyPart::Num(*n),
            NaturalSortPart::Str(s) => KeyPart::Text(s@),
        }
    }
}

/// Whether `c` is an ASCII digit.
pub open spec fn is_digit(c: char) -> bool {
    '0' <= c && c <= '9'
}

/// The value of a run of digits, 0 when it does not fit in 64 bits
/// (`parse().unwrap_or(0)`).
pub open spec fn run_value(digits: Seq<char>) -> u64 {
    match digits_value(digits, 10) {
        Some(v) => if v <= u64::MAX {
            v as u64
        } else {
            0
        },
        None => 0,
    }
}

/// The parts of the key of `s` so far: finished parts, and the digits and
/// other characters of the run in progress.
pub open spec fn key_scan(s: Seq<char>) -> (Seq<KeyPart>, Seq<char>, Seq<char>)
    decreases s.len(),
{
    if s.len() == 0 {
        (Seq::empty(), Seq::empty(), Seq::empty())
    } else {
        let (parts, num, text) = key_scan(s.drop_last());
        let c = s.last();
        if is_digit(c) {
            if text.len() > 0 {
                (parts.push(KeyPart::Text(lowercase_of(text))), num.push(c), Seq::empty())
            } else {
                (parts, num.push(c), text)
            }
        } else {
            if num.len() > 0 {
                (parts.push(KeyPart::Num(run_value(num))), Seq::empty(), text.push(c))
            } else {
                (parts, num, text.push(c))
            }
        }
    }
}

/// The natural sort key of a name: its runs of digits (as numbers) and of
/// other characters (lower-cased), in order.
pub open spec fn natural_key(s: Seq<char>) -> Seq<KeyPart> {
    let (parts, num, text) = key_scan(s);
    let with_num = if num.len() > 0 {
        parts.push(KeyPart::Num(run_value(num)))
    } else {
        parts
    };
    if text.len() > 0 {
        with_num.push(KeyPart::Text(lowercase_of(text)))
    } else {
        with_num
    }
}

/// Parts compare numbers before text, numbers by value, text as strings.
pub open spec fn part_le(a: KeyPart, b: KeyPart) -> bool {
    match (a, b) {
        (KeyPart::Num(x), KeyPart::Num(y)) => x <= y,
        (KeyPart::Num(_), KeyPart::Text(_)) => true,
        (KeyPart::Text(_), KeyPart::Num(_)) => false,
        (KeyPart::Text(x), KeyPart::Text(y)) => chars_le(x, y),
    }
}

/// Keys compare part by part; a key that runs out first comes first.
pub open spec fn key_le(a: Seq<KeyPart>, b: Seq<KeyPart>) -> bool
    decreases a.len(),
{
    if a.len() == 0 {
        true
    } else if b.len() == 0 {
        false
    } else if a[0] == b[0] {
        key_le(a.drop_first(), b.drop_first())
    } else {
        part_le(a[0], b[0])
    }
}

/// The value of a run of ASCII digits, 0 when it overflows.
fn digits_to_u64(d: &Vec<char>) -> (v: u64)
    requires
        forall|i: int| 0 <= i < d@.len() ==> is_digit(#[trigger] d@[i]),
    ensures
        v == run_value(d@),
{
    let mut acc: u64 = 0;
    let mut k: usize = 0;
    proof {
        assert(d@.take(0) =~= Seq::<char>::empty());
    }
    while k < d.len()
        invariant
            k <= d@.len(),
            forall|i: int| 0 <= i < d@.len() ==> is_digit(#[trigger] d@[i]),
            digits_value(d@.take(k as int), 10) == Some(acc as int),
        decreases d@.len() - k,
    {
        proof {
            assert(d@.take(k + 1).drop_last() =~= d@.take(k as int));
            assert(is_digit(d@[k as int]));
        }
        let digit = (d[k] as u32 - '0' as u32) as u64;
        if acc > (u64::MAX - digit) / 10 {
            proof {
                assert(acc * 10 + digit > u64::MAX) by (nonlinear_arith)
                    requires
                        acc > (u64::MAX - digit) / 10,
                        digit <= 9,
                ;
                crate::markup::lemma_digits_prefix(d@, 10, k + 1);
            }
            return 0;
        }
        proof {
            assert(acc * 10 + digit <= u64::MAX) by (nonlinear_arith)
                requires
                    acc <= (u64::MAX - digit) / 10,
                    digit <= 9,
            ;
        }
        acc = acc * 10 + digit;
        k = k + 1;
    }
    proof {
        assert(d@.take(d@.len() as int) =~= d@);
    }
    acc
}

/// The characters of `v` as a lower-cased string.
fn lowered(v: &Vec<char>) -> (s: String)
    ensures
        s@ == lowercase_of(v@),
{
    let t = string_of(v.as_slice());
    to_lowercase(t.as_str())
}

/// Natural sort key for filenames (handles "page1", "page2", "page10").
pub fn natural_sort_key(s: &str) -> (parts: Vec<NaturalSortPart>)
    ensures
        parts@.len() == natural_key(s@).len(),
        forall|i: int| 0 <= i < parts@.len() ==> #[trigger] parts@[i].part() == natural_key(s@)[i],
{
    let cs = chars_of(s);
    let mut parts: Vec<NaturalSortPart> = Vec::new();
    let mut num: Vec<char> = Vec::new();
    let mut text: Vec<char> = Vec::new();
    let mut k: usize = 0;
    proof {
        assert(cs@.take(0) =~= Seq::<char>::empty());
    }
    while k < cs.len()
        invariant
            k <= cs@.len(),
            parts@.len() == key_scan(cs@.take(k as int)).0.len(),
            forall|i: int|
                0 <= i < parts@.len() ==> #[trigger] parts@[i].part() == key_scan(
                    cs@.take(k as int),
                ).0[i],
            num@ == key_scan(cs@.take(k as int)).1,
            text@ == key_scan(cs@.take(k as int)).2,
            forall|i: int| 0 <= i < num@.len() ==> is_digit(#[trigger] num@[i]),
        decreases cs@.len() - k,
    {
        proof {
            assert(cs@.take(k + 1).drop_last() =~= cs@.take(k as int));
        }
        let c = cs[k];
        if '0' <= c && c <= '9' {
            if text.len() > 0 {
                let l = lowered(&text);
                parts.push(NaturalSortPart::Str(l));
                text = Vec::new();
            }
            num.push(c);
        } else {
            if num.len() > 0 {
                let v = digits_to_u64(&num);
                parts.push(NaturalSortPart::Num(v));
                num = Vec::new();
            }
            text.push(c);
        }
        k = k + 1;
    }
    proof {
        assert(cs@.take(cs@.len() as int) =~= cs@);
    }
    if num.len() > 0 {
        let v = digits_to_u64(&num);
        parts.push(NaturalSortPart::Num(v));
    }
    if text.len() > 0 {
        let l = lowered(&text);
        parts.push(NaturalSortPart::Str(l));
    }
    parts
}

fn part_is_le(a: &NaturalSortPart, b: &NaturalSortPart) -> (r: bool)
    ensures
        r == part_le(a.part(), b.part()),
{
    match (a, b) {
        (NaturalSortPart::Num(x), NaturalSortPart::Num(y)) => *x <= *y,
        (NaturalSortPart::Num(_), NaturalSortPart::Str(_)) => true,
        (NaturalSortPart::Str(_), NaturalSortPart::Num(_)) => false,
        (NaturalSortPart::Str(x), NaturalSortPart::Str(y)) => str_le(x.as_str(), y.as_str()),
    }
}

fn part_is_eq(a: &NaturalSortPart, b: &NaturalSortPart) -> (r: bool)
    ensures
        r == (a.part() == b.part()),
{
    match (a, b) {
        (NaturalSortPart::Num(x), NaturalSortPart::Num(y)) => *x == *y,
        (NaturalSortPart::Str(x), NaturalSortPart::Str(y)) => crate::text::str_eq(
            x.as_str(),
            y.as_str(),
        ),
        _ => false,
    }
}

/// Whether the key `a` comes before `b` or ties with it.
pub fn keys_le(a: &Vec<NaturalSortPart>, b: &Vec<NaturalSortPart>) -> (r: bool)
    ensures
        r == key_le(a@.map_values(|p: NaturalSortPart| p.part()), b@.map_values(
            |p: NaturalSortPart| p.part(),
        )),
{
    let ghost ka = a@.map_values(|p: NaturalSortPart| p.part());
    let ghost kb = b@.map_values(|p: NaturalSortPart| p.part());
    let mut k: usize = 0;
    proof {
        assert(ka.skip(0) =~= ka);
        assert(kb.skip(0) =~= kb);
    }
    while k < a.len() && k < b.len() && part_is_eq(&a[k], &b[k])
        invariant
            k <= a@.len(),
            k <= b@.len(),
            ka == a@.map_values(|p: NaturalSortPart| p.part()),
            kb == b@.map_values(|p: NaturalSortPart| p.part()),
            key_le(ka, kb) == key_le(ka.skip(k as int), kb.skip(k as int)),
        decreases a@.len() - k,
    {
        proof {
            assert(ka.skip(k as int).drop_first() =~= ka.skip(k + 1));
            assert(kb.skip(k as int).drop_first() =~= kb.skip(k + 1));
        }
        k = k + 1;
    }
    if k == a.len() {
        true
    } else if k == b.len() {
        false
    } else {
        part_is_le(&a[k], &b[k])
    }
}

/// The order of archive pages: by the natural keys of their names.
pub open spec fn page_order() -> spec_fn((String, Vec<u8>), (String, Vec<u8>)) -> bool {
    |a: (String, Vec<u8>), b: (String, Vec<u8>)| key_le(natural_key(a.0@), natural_key(b.0@))
}

/// The pages of an archive (name and bytes of each image entry) in
/// natural order of their names; entries with equal keys keep their order.
pub fn sort_pages(pages: Vec<(String, Vec<u8>)>) -> (r: Vec<(String, Vec<u8>)>)
    ensures
        r@ == sorted_by(pages@, page_order()),
{
    let le = |a: &(String, Vec<u8>), b: &(String, Vec<u8>)| -> (r: bool)
        ensures
            r == key_le(natural_key(a.0@), natural_key(b.0@)),
        {
            let ka = natural_sort_key(a.0.as_str());
            let kb = natural_sort_key(b.0.as_str());
            proof {
                assert(ka@.map_values(|p: NaturalSortPart| p.part()) =~= natural_key(a.0@));
                assert(kb@.map_values(|p: NaturalSortPart| p.part()) =~= natural_key(b.0@));
            }
            keys_le(&ka, &kb)
        };
    stable_sort_by(pages, le, Ghost(page_order()))
}

proof fn lemma_part_le(a: KeyPart, b: KeyPart, c: KeyPart)
    ensures
        part_le(a, b) || part_le(b, a),
        part_le(a, b) && part_le(b, a) ==> a == b,
        part_le(a, b) && part_le(b, c) ==> part_le(a, c),
{
    match (a, b) {
        (KeyPart::Text(x), KeyPart::Text(y)) => {
            lemma_chars_le_total(x, y);
        },
        _ => {},
    }
    match (a, b, c) {
        (KeyPart::Text(x), KeyPart::Text(y), KeyPart::Text(z)) => {
            if chars_le(x, y) && chars_le(y, z) {
                lemma_chars_le_transitive(x, y, z);
            }
        },
        _ => {},
    }
}

/// The order of keys is total and transitive.
pub proof fn lemma_key_le(a: Seq<KeyPart>, b: Seq<KeyPart>, c: Seq<KeyPart>)
    ensures
        key_le(a, b) || key_le(b, a),
        key_le(a, b) && key_le(b, c) ==> key_le(a, c),
    decreases a.len(),
{
    if a.len() > 0 && b.len() > 0 {
        lemma_part_le(a[0], b[0], b[0]);
        if c.len() > 0 {
            lemma_part_le(a[0], b[0], c[0]);
            lemma_part_le(a[0], c[0], b[0]);
            lemma_part_le(b[0], c[0], a[0]);
            lemma_part_le(c[0], a[0], b[0]);
            lemma_key_le(a.drop_first(), b.drop_first(), c.drop_first());
        } else {
            lemma_key_le(a.drop_first(), b.drop_first(), b.drop_first());
        }
    }
}

/// The page order is a total preorder.
pub proof fn lemma_page_order_total()
    ensures
        total_preorder(page_order()),
{
    let le = page_order();
    assert forall|a: (String, Vec<u8>), b: (String, Vec<u8>)| #[trigger] le(a, b) || #[trigger] le(
        b,
        a,
    ) by {
        lemma_key_le(natural_key(a.0@), natural_key(b.0@), natural_key(b.0@));
    }
    assert forall|a: (String, Vec<u8>), b: (String, Vec<u8>), c: (String, Vec<u8>)| #[trigger] le(
        a,
        b,
    ) && #[trigger] le(b, c) implies le(a, c) by {
        lemma_key_le(natural_key(a.0@), natural_key(b.0@), natural_key(c.0@));
    }
}

/// The pages come out in natural order of their names, every page kept.
pub proof fn lemma_pages_in_natural_order(pages: Seq<(String, Vec<u8>)>)
    ensures
        is_sorted_by(sorted_by(pages, page_order()), page_order()),
        sorted_by(pages, page_order()).to_multiset() == pages.to_multiset(),
{
    lemma_page_order_total();
    lemma_sorted_by_sorts(pages, page_order());
}


/// A number part comes strictly before a text part; numbers compare by
/// value.
pub proof fn lemma_numbers_before_text(n: u64, m: u64, t: Seq<char>)
    ensures
        part_le(KeyPart::Num(n), KeyPart::Text(t)),
        !part_le(KeyPart::Text(t), KeyPart::Num(n)),
        part_le(KeyPart::Num(n), KeyPart::Num(m)) <==> n <= m,
{
}

/// Of two keys whose first parts differ, the one whose first part comes
/// first comes first: a key starting with a number strictly before one
/// starting with text.
pub proof fn lemma_key_starting_with_number_first(a: Seq<KeyPart>, b: Seq<KeyPart>)
    requires
        a.len() > 0,
        b.len() > 0,
        a[0] is Num,
        b[0] is Text,
    ensures
        key_le(a, b),
        !key_le(b, a),
{
}

/// The key scan of a non-empty name: exactly one run is in progress, and
/// the first part (finished, or the run in progress when none is) is a
/// number exactly when the name starts with a digit.
proof fn lemma_key_scan_first(s: Seq<char>)
    requires
        s.len() > 0,
    ensures
        ({
            let (parts, num, text) = key_scan(s);
            &&& (num.len() > 0) != (text.len() > 0)
            &&& parts.len() == 0 ==> (num.len() > 0 <==> is_digit(s[0]))
            &&& parts.len() > 0 ==> (parts[0] is Num <==> is_digit(s[0]))
        }),
    decreases s.len(),
{
    let t = s.drop_last();
    if s.len() == 1 {
        assert(t =~= Seq::<char>::empty());
        assert(key_scan(t) == (Seq::<KeyPart>::empty(), Seq::<char>::empty(), Seq::<char>::empty()));
        assert(s.last() == s[0]);
    } else {
        lemma_key_scan_first(t);
        assert(t[0] == s[0]);
        let (parts, num, text) = key_scan(t);
        let c = s.last();
        if is_digit(c) {
            if text.len() > 0 {
                let np = parts.push(KeyPart::Text(lowercase_of(text)));
                assert(np[0] == if parts.len() > 0 { parts[0] } else { KeyPart::Text(lowercase_of(text)) });
            }
        } else {
            if num.len() > 0 {
                let np = parts.push(KeyPart::Num(run_value(num)));
                assert(np[0] == if parts.len() > 0 { parts[0] } else { KeyPart::Num(run_value(num)) });
            }
        }
    }
}

/// The first part of the key of a non-empty name is a number exactly when
/// the name starts with an ASCII digit.
pub proof fn lemma_natural_key_first(s: Seq<char>)
    requires
        s.len() > 0,
    ensures
        natural_key(s).len() > 0,
        natural_key(s)[0] is Num <==> is_digit(s[0]),
{
    lemma_key_scan_first(s);
}

/// In the sorted pages, no page whose name starts with a digit comes
/// after a page whose name starts with anything else ("01.jpg" and
/// "02.jpg" before "cover.jpg").
pub proof fn lemma_numbered_pages_first(pages: Seq<(String, Vec<u8>)>)
    ensures
        ({
            let r = sorted_by(pages, page_order());
            forall|i: int, j: int|
                0 <= i < j < r.len() && (#[trigger] r[i]).0@.len() > 0 && (#[trigger] r[j]).0@.len()
                    > 0 && is_digit(r[j].0@[0]) ==> is_digit(r[i].0@[0])
        }),
{
    lemma_pages_in_natural_order(pages);
    let r = sorted_by(pages, page_order());
    assert forall|i: int, j: int|
        0 <= i < j < r.len() && (#[trigger] r[i]).0@.len() > 0 && (#[trigger] r[j]).0@.len() > 0
            && is_digit(r[j].0@[0]) implies is_digit(r[i].0@[0]) by {
        lemma_natural_key_first(r[i].0@);
        lemma_natural_key_first(r[j].0@);
        assert(page_order()(r[i], r[j]));
        if !is_digit(r[i].0@[0]) {
            lemma_key_starting_with_number_first(natural_key(r[j].0@), natural_key(r[i].0@));
        }
    }
}


/// An archive entry is a page exactly when its lower-cased name ends with
/// `.jpg`, `.jpeg`, `.png`, `.gif`, `.webp` or `.bmp`.
pub proof fn lemma_page_names(name: Seq<char>)
    ensures
        is_page_name(name) <==> ({
            let l = lowercase_of(name);
            (l.len() >= 4 && l.subrange(l.len() - 4, l.len() as int) == seq!['.', 'j', 'p', 'g']) || (l.len() >= 5 && l.subrange(l.len() - 5, l.len() as int) == seq!['.', 'j', 'p', 'e', 'g']) || (l.len() >= 4 && l.subrange(l.len() - 4, l.len() as int) == seq!['.', 'p', 'n', 'g']) || (l.len() >= 4 && l.subrange(l.len() - 4, l.len() as int) == seq!['.', 'g', 'i', 'f']) || (l.len() >= 5 && l.subrange(l.len() - 5, l.len() as int) == seq!['.', 'w', 'e', 'b', 'p']) || (l.len() >= 4 && l.subrange(l.len() - 4, l.len() as int) == seq!['.', 'b', 'm', 'p'])
        }),
{
    reveal_strlit(".jpg");
    reveal_strlit(".jpeg");
    reveal_strlit(".png");
    reveal_strlit(".gif");
    reveal_strlit(".webp");
    reveal_strlit(".bmp");
    assert(".jpg"@ =~= seq!['.', 'j', 'p', 'g']);
    assert(".jpeg"@ =~= seq!['.', 'j', 'p', 'e', 'g']);
    assert(".png"@ =~= seq!['.', 'p', 'n', 'g']);
    assert(".gif"@ =~= seq!['.', 'g', 'i', 'f']);
    assert(".webp"@ =~= seq!['.', 'w', 'e', 'b', 'p']);
    assert(".bmp"@ =~= seq!['.', 'b', 'm', 'p']);
}

} // verus!
