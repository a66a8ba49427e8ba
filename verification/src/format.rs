//! Human-readable renderings of file sizes and elapsed times.
use vstd::prelude::*;
use crate::text::{decimal, decimal_string};

verus! {

/// The wall-clock time type of std.
#[verifier::external_type_specification]
#[verifier::external_body]
pub struct ExSystemTime(std::time::SystemTime);

/// Cloning a `SystemTime` (a `Copy` type) gives an equal value.
pub assume_specification[ <std::time::SystemTime as Clone>::clone ](t: &std::time::SystemTime) -> (r: std::time::SystemTime)
    ensures
        r == *t,
;

/// Whole seconds elapsed between `time` and now; zero when `time` lies in
/// the future.
///
/// Calls `SystemTime::now` and `SystemTime::duration_since`.  The result
/// depends on the clock, so nothing is stated about it.
#[verifier::external_body]
fn seconds_since(time: std::time::SystemTime) -> u64 {
    std::time::SystemTime::now().duration_since(time).unwrap_or_default().as_secs()
}

/// The "time ago" text for an elapsed time of `secs` seconds.
pub open spec fn time_ago_text(secs: nat) -> Seq<char> {
    if secs < 60 {
        seq!['j', 'u', 's', 't', ' ', 'n', 'o', 'w']
    } else if secs < 3600 {
        decimal(secs / 60) + seq!['m', ' ', 'a', 'g', 'o']
    } else if secs < 86400 {
        decimal(secs / 3600) + seq!['h', ' ', 'a', 'g', 'o']
    } else if secs < 604800 {
        decimal(secs / 86400) + seq!['d', ' ', 'a', 'g', 'o']
    } else {
        decimal(secs / 604800) + seq!['w', ' ', 'a', 'g', 'o']
    }
}

/// Renders an elapsed time of `secs` seconds as "just now", "5m ago", "3h ago",
/// "2d ago" or "1w ago".
pub fn format_elapsed(secs: u64) -> (s: String)
    ensures
        s@ == time_ago_text(secs as nat),
{
    proof {
        reveal_strlit("just now");
        reveal_strlit("m ago");
        reveal_strlit("h ago");
        reveal_strlit("d ago");
        reveal_strlit("w ago");
    }
    if secs < 60 {
        String::from_str("just now")
    } else if secs < 3600 {
        let mut s = decimal_string(secs / 60);
        s.append("m ago");
        s
    } else if secs < 86400 {
        let mut s = decimal_string(secs / 3600);
        s.append("h ago");
        s
    } else if secs < 604800 {
        let mut s = decimal_string(secs / 86400);
        s.append("d ago");
        s
    } else {
        let mut s = decimal_string(secs / 604800);
        s.append("w ago");
        s
    }
}

/// Format a `SystemTime` as a human-readable "time ago" string, measured
/// against the current time.
pub fn format_time_ago(time: std::time::SystemTime) -> (s: String)
    ensures
        exists|secs: u64| s@ == time_ago_text(secs as nat),
{
    let secs = seconds_since(time);
    format_elapsed(secs)
}

/// 2^53: below it every integer converts to `f64` exactly.
pub open spec fn f64_exact_limit() -> nat {
    0x20000000000000
}

/// The power of two that brings `n / p` below 2^53, for `n < 2^64`: the
/// spacing of the `f64` values around `n`.
pub open spec fn f64_scale(n: nat) -> nat {
    if n < 0x20000000000000 {
        1
    } else if n < 0x40000000000000 {
        2
    } else if n < 0x80000000000000 {
        4
    } else if n < 0x100000000000000 {
        8
    } else if n < 0x200000000000000 {
        16
    } else if n < 0x400000000000000 {
        32
    } else if n < 0x800000000000000 {
        64
    } else if n < 0x1000000000000000 {
        128
    } else if n < 0x2000000000000000 {
        256
    } else if n < 0x4000000000000000 {
        512
    } else if n < 0x8000000000000000 {
        1024
    } else {
        2048
    }
}

/// The integer value of `n as f64` for `n < 2^64`: `n` rounded to 53
/// significant bits, ties to even.
pub open spec fn f64_round(n: nat) -> nat {
    let p = f64_scale(n);
    let q = n / p;
    let r = n % p;
    let q2 = if r > p / 2 || (p > 1 && r == p / 2 && q % 2 == 1) {
        q + 1
    } else {
        q
    };
    q2 * p
}

/// `num / den` in tenths, rounded to the nearest tenth, ties to even.
pub open spec fn tenths_rounded(num: nat, den: nat) -> nat {
    let q = (num * 10) / den;
    let r = (num * 10) % den;
    if 2 * r > den || (2 * r == den && q % 2 == 1) {
        q + 1
    } else {
        q
    }
}

/// A number of tenths rendered with one decimal ("12.5").
pub open spec fn one_decimal(tenths: nat) -> Seq<char> {
    decimal(tenths / 10) + seq!['.'] + decimal(tenths % 10)
}

/// The size text of `format_size`.
pub open spec fn size_text(size: nat) -> Seq<char> {
    if size < 1024 {
        decimal(size) + seq![' ', 'B']
    } else if size < 1048576 {
        one_decimal(tenths_rounded(size, 1024)) + seq![' ', 'K', 'B']
    } else {
        one_decimal(tenths_rounded(f64_round(size), 1048576)) + seq![' ', 'M', 'B']
    }
}

/// `n as f64`, as an exact integer.
fn f64_value(n: u64) -> (f: u128)
    ensures
        f == f64_round(n as nat),
        f <= 0x10000000000000000,
{
    let p: u64 = if n < 0x20000000000000 {
        1
    } else if n < 0x40000000000000 {
        2
    } else if n < 0x80000000000000 {
        4
    } else if n < 0x100000000000000 {
        8
    } else if n < 0x200000000000000 {
        16
    } else if n < 0x400000000000000 {
        32
    } else if n < 0x800000000000000 {
        64
    } else if n < 0x1000000000000000 {
        128
    } else if n < 0x2000000000000000 {
        256
    } else if n < 0x4000000000000000 {
        512
    } else if n < 0x8000000000000000 {
        1024
    } else {
        2048
    };
    let q = n / p;
    let r = n % p;
    proof {
        assert(n < p * 0x20000000000000);
        assert(q < 0x20000000000000) by (nonlinear_arith)
            requires
                q == n / p,
                p > 0,
                n < p * 0x20000000000000,
        ;
    }
    let q2 = if r > p / 2 || (p > 1 && r == p / 2 && q % 2 == 1) {
        q + 1
    } else {
        q
    };
    proof {
        assert(q2 as int * p as int <= 0x10000000000000000) by (nonlinear_arith)
            requires
                q2 <= 0x20000000000000,
                p <= 2048,
        ;
    }
    (q2 as u128) * (p as u128)
}

/// Appends the one-decimal rendering of `tenths` to `s`.
fn push_one_decimal(s: &mut String, tenths: u64)
    ensures
        final(s)@ == old(s)@ + one_decimal(tenths as nat),
{
    proof {
        reveal_strlit(".");
    }
    let whole = decimal_string(tenths / 10);
    let frac = decimal_string(tenths % 10);
    s.append(whole.as_str());
    s.append(".");
    s.append(frac.as_str());
}

/// Information about an opened file, for the status bar.
#[derive(Debug, Clone)]
pub struct FileInfo {
    pub filename: String,
    pub width: u32,
    pub height: u32,
    pub file_size: u64,
    pub format: String,
}

impl FileInfo {
    /// The file size in bytes, kilobytes or megabytes ("512 B", "1.5 KB",
    /// "3.2 MB"), rendered as `{:.1}` renders the size divided as an `f64`.
    pub fn format_size(&self) -> (s: String)
        ensures
            s@ == size_text(self.file_size as nat),
    {
        proof {
            reveal_strlit(" B");
            reveal_strlit(" KB");
            reveal_strlit(" MB");
        }
        let size = self.file_size;
        if size < 1024 {
            let mut s = decimal_string(size);
            s.append(" B");
            s
        } else if size < 1048576 {
            let num = size * 10;
            let q = num / 1024;
            let r = num % 1024;
            let t = if 2 * r > 1024 || (2 * r == 1024 && q % 2 == 1) {
                q + 1
            } else {
                q
            };
            let mut s = String::new();
            push_one_decimal(&mut s, t);
            s.append(" KB");
            s
        } else {
            let f = f64_value(size);
            let num = f * 10;
            let q = num / 1048576;
            let r = num % 1048576;
            let t = if 2 * r > 1048576 || (2 * r == 1048576 && q % 2 == 1) {
                q + 1
            } else {
                q
            };
            let mut s = String::new();
            push_one_decimal(&mut s, t as u64);
            s.append(" MB");
            s
        }
    }
}

/// The left-hand status-bar text of a file: "name - WxH - FORMAT - size".
pub open spec fn status_text_of(
    name: Seq<char>,
    width: u32,
    height: u32,
    format: Seq<char>,
    size: u64,
) -> Seq<char> {
    name + " - "@ + decimal(width as nat) + "x"@ + decimal(height as nat) + " - "@ + format
        + " - "@ + size_text(size as nat)
}

impl FileInfo {
    /// The text the status bar shows for this file, its name, dimensions,
    /// format and size joined by " - " (`"photo.png - 800x600 - PNG - 1.5 KB"`).
    pub fn status_text(&self) -> (s: String)
        ensures
            s@ == status_text_of(
                self.filename@,
                self.width,
                self.height,
                self.format@,
                self.file_size,
            ),
    {
        proof {
            reveal_strlit(" - ");
            reveal_strlit("x");
        }
        let mut s = self.filename.clone();
        s.append(" - ");
        let w = decimal_string(self.width as u64);
        s.append(w.as_str());
        s.append("x");
        let h = decimal_string(self.height as u64);
        s.append(h.as_str());
        s.append(" - ");
        s.append(self.format.as_str());
        s.append(" - ");
        let size = self.format_size();
        s.append(size.as_str());
        s
    }
}

/// The status-bar information of the file at `path`, shown at `width` by
/// `height` pixels, `file_size` bytes long: its file name, and its
/// extension in upper case as the format ("Unknown" without one).  `None`
/// when the path has no file name.
pub open spec fn file_info_of(path: Seq<char>, width: u32, height: u32, file_size: u64) -> Option<
    (Seq<char>, u32, u32, u64, Seq<char>),
> {
    match crate::paths::path_file_name(path) {
        Some(name) => Some(
            (
                name,
                width,
                height,
                file_size,
                match crate::paths::path_extension(path) {
                    Some(e) => crate::text::uppercase_of(e),
                    None => "Unknown"@,
                },
            ),
        ),
        None => None,
    }
}

impl FileInfo {
    /// The fields as a tuple: file name, width, height, size, format.
    pub open spec fn parts(&self) -> (Seq<char>, u32, u32, u64, Seq<char>) {
        (self.filename@, self.width, self.height, self.file_size, self.format@)
    }

    /// The information of the file at `path` (see `file_info_of`).
    pub fn describe(path: &str, width: u32, height: u32, file_size: u64) -> (r: Option<FileInfo>)
        ensures
            match file_info_of(path@, width, height, file_size) {
                Some(t) => r matches Some(i) && i.parts() == t,
                None => r is None,
            },
    {
        let name = match crate::paths::file_name_of(path) {
            Some(n) => n.to_owned(),
            None => {
                return None;
            },
        };
        let format = match crate::paths::extension_of(path) {
            Some(e) => crate::text::to_uppercase(e),
            None => "Unknown".to_owned(),
        };
        Some(FileInfo { filename: name, width, height, file_size, format })
    }
}

/// The rows of the properties panel, label and value: the name, the
/// dimensions ("W x H"), the file size, the format, the page count when
/// there is more than one page, and the path when there is one.  Without
/// file information the one row "No file loaded".
pub open spec fn property_rows_of(
    info: Option<(Seq<char>, u32, u32, u64, Seq<char>)>,
    page_count: usize,
    path: Option<Seq<char>>,
) -> Seq<(Seq<char>, Seq<char>)> {
    match info {
        None => seq![("No file loaded"@, Seq::<char>::empty())],
        Some((name, w, h, size, format)) => {
            let base = seq![
                ("Name:"@, name),
                ("Dimensions:"@, decimal(w as nat) + " x "@ + decimal(h as nat)),
                ("File size:"@, size_text(size as nat)),
                ("Format:"@, format),
            ];
            let with_pages = if page_count > 1 {
                base.push(("Pages:"@, decimal(page_count as nat)))
            } else {
                base
            };
            match path {
                Some(p) => with_pages.push(("Path:"@, p)),
                None => with_pages,
            }
        },
    }
}

/// Appends a row to `rows`.
fn push_row(rows: &mut Vec<(String, String)>, label: &str, value: String)
    ensures
        final(rows)@.len() == old(rows)@.len() + 1,
        forall|i: int| 0 <= i < old(rows)@.len() ==> #[trigger] final(rows)@[i] == old(rows)@[i],
        final(rows)@[old(rows)@.len() as int].0@ == label@,
        final(rows)@[old(rows)@.len() as int].1@ == value@,
{
    rows.push((label.to_owned(), value));
}

/// The rows of the properties panel (see `property_rows_of`).
pub fn property_rows(info: Option<&FileInfo>, page_count: usize, path: Option<&str>) -> (r: Vec<
    (String, String),
>)
    ensures
        ({
            let want = property_rows_of(
                match info {
                    Some(i) => Some(i.parts()),
                    None => None,
                },
                page_count,
                match path {
                    Some(p) => Some(p@),
                    None => None,
                },
            );
            &&& r@.len() == want.len()
            &&& forall|i: int|
                0 <= i < r@.len() ==> #[trigger] r@[i].0@ == want[i].0 && r@[i].1@ == want[i].1
        }),
{
    let mut rows: Vec<(String, String)> = Vec::new();
    let info = match info {
        Some(i) => i,
        None => {
            push_row(&mut rows, "No file loaded", String::new());
            return rows;
        },
    };
    push_row(&mut rows, "Name:", info.filename.clone());
    let mut dims = decimal_string(info.width as u64);
    dims.append(" x ");
    let h = decimal_string(info.height as u64);
    dims.append(h.as_str());
    push_row(&mut rows, "Dimensions:", dims);
    push_row(&mut rows, "File size:", info.format_size());
    push_row(&mut rows, "Format:", info.format.clone());
    if page_count > 1 {
        push_row(&mut rows, "Pages:", decimal_string(page_count as u64));
    }
    if let Some(p) = path {
        push_row(&mut rows, "Path:", p.to_owned());
    }
    rows
}

/// A long value as the properties panel shows it: "..." and its last 40
/// characters.
pub open spec fn dotted_tail(s: Seq<char>) -> Seq<char> {
    "..."@ + s.skip(if s.len() > 40 {
        s.len() - 40
    } else {
        0
    })
}

/// "..." and the last 40 characters of `value` (see `dotted_tail`).
pub fn dotted_tail_of(value: &str) -> (s: String)
    ensures
        s@ == dotted_tail(value@),
{
    let v = crate::text::chars_of(value);
    let start = if v.len() > 40 {
        v.len() - 40
    } else {
        0
    };
    let mut s = "...".to_owned();
    let tail = crate::text::string_of_range(v.as_slice(), start, v.len());
    s.append(tail.as_str());
    proof {
        assert(v@.subrange(start as int, v@.len() as int) =~= v@.skip(start as int));
    }
    s
}

/// The elapsed-time text counts whole units: under a minute it is "just now";
/// below an hour it is the number of whole minutes `n` with "m ago", below a
/// day the whole hours with "h ago", below a week the whole days with
/// "d ago", and from a week on the whole weeks with "w ago".
pub proof fn lemma_time_ago_units(secs: nat, n: nat)
    ensures
        secs < 60 ==> time_ago_text(secs) == seq!['j', 'u', 's', 't', ' ', 'n', 'o', 'w'],
        60 <= secs < 3600 && n * 60 <= secs < n * 60 + 60 ==> time_ago_text(secs) == decimal(n)
            + seq!['m', ' ', 'a', 'g', 'o'],
        3600 <= secs < 86400 && n * 3600 <= secs < n * 3600 + 3600 ==> time_ago_text(secs)
            == decimal(n) + seq!['h', ' ', 'a', 'g', 'o'],
        86400 <= secs < 604800 && n * 86400 <= secs < n * 86400 + 86400 ==> time_ago_text(secs)
            == decimal(n) + seq!['d', ' ', 'a', 'g', 'o'],
        604800 <= secs && n * 604800 <= secs < n * 604800 + 604800 ==> time_ago_text(secs)
            == decimal(n) + seq!['w', ' ', 'a', 'g', 'o'],
{
    if n * 60 <= secs < n * 60 + 60 {
        assert(secs / 60 == n) by (nonlinear_arith)
            requires
                n * 60 <= secs < n * 60 + 60,
        ;
    }
    if n * 3600 <= secs < n * 3600 + 3600 {
        assert(secs / 3600 == n) by (nonlinear_arith)
            requires
                n * 3600 <= secs < n * 3600 + 3600,
        ;
    }
    if n * 86400 <= secs < n * 86400 + 86400 {
        assert(secs / 86400 == n) by (nonlinear_arith)
            requires
                n * 86400 <= secs < n * 86400 + 86400,
        ;
    }
    if n * 604800 <= secs < n * 604800 + 604800 {
        assert(secs / 604800 == n) by (nonlinear_arith)
            requires
                n * 604800 <= secs < n * 604800 + 604800,
        ;
    }
}

/// Sizes under 1024 bytes are written in bytes with " B"; below 1024 * 1024
/// bytes in kilobytes with " KB", and above that (for sizes that an `f64`
/// holds exactly) in megabytes with " MB", with the number of tenths `t`
/// that lies nearest the exact quotient.
pub proof fn lemma_size_units(size: nat, t: nat)
    ensures
        size < 1024 ==> size_text(size) == decimal(size) + seq![' ', 'B'],
        1024 <= size < 1048576 && 2 * (size * 10) < (2 * t + 1) * 1024 && (2 * t - 1) * 1024 < 2 * (
        size * 10) ==> size_text(size) == one_decimal(t) + seq![' ', 'K', 'B'],
        1048576 <= size < 0x20000000000000 && 2 * (size * 10) < (2 * t + 1) * 1048576 && (2 * t - 1)
            * 1048576 < 2 * (size * 10) ==> size_text(size) == one_decimal(t) + seq![' ', 'M', 'B'],
{
    lemma_nearest_tenth(size, 1024, t);
    lemma_nearest_tenth(size, 1048576, t);
    if size < 0x20000000000000 {
        assert(f64_scale(size) == 1);
        assert(size / 1 == size && size % 1 == 0) by (nonlinear_arith);
        assert(1nat / 2 == 0);
        assert(f64_round(size) == size);
    }
}

/// Where `t` tenths lie within half a tenth of `num / den`, rounding gives `t`.
proof fn lemma_nearest_tenth(num: nat, den: nat, t: nat)
    requires
        den > 0,
    ensures
        2 * (num * 10) < (2 * t + 1) * den && (2 * t - 1) * den < 2 * (num * 10)
            ==> tenths_rounded(num, den) == t,
{
    if 2 * (num * 10) < (2 * t + 1) * den && (2 * t - 1) * den < 2 * (num * 10) {
        let q = (num * 10) / den;
        let r = (num * 10) % den;
        assert(num * 10 == q * den + r && 0 <= r < den) by (nonlinear_arith)
            requires
                den > 0,
                q == (num * 10) / den,
                r == (num * 10) % den,
        ;
        if 2 * r > den || (2 * r == den && q % 2 == 1) {
            assert(q + 1 == t) by (nonlinear_arith)
                requires
                    num * 10 == q * den + r,
                    0 <= r < den,
                    2 * r >= den,
                    2 * (num * 10) < (2 * t + 1) * den,
                    (2 * t - 1) * den < 2 * (num * 10),
            ;
        } else {
            assert(q == t) by (nonlinear_arith)
                requires
                    num * 10 == q * den + r,
                    0 <= r < den,
                    2 * r <= den,
                    2 * (num * 10) < (2 * t + 1) * den,
                    (2 * t - 1) * den < 2 * (num * 10),
            ;
        }
    }
}

} // verus!
