//! Recently opened files and their viewing sessions.
//!
//! The list is kept most recent first, holds each path at most once, and
//! never grows past its configured maximum.  Paths are absolute paths as
//! text and are compared as text: `/x//a.png` and `/x/a.png` are two
//! entries here, where `std::path::Path` equality (by components) would see
//! one.  The caller hands in canonical paths (`Path::canonicalize`), which
//! have no repeated separators, `.` or `..` components or trailing
//! separator, and for those the two comparisons agree.  Making paths
//! canonical (and reading or writing the list on disk) is left to the
//! caller.  The zoom and scroll position of a session are kept
//! as the bit patterns of their `f64` values (`f64::to_bits`): the list
//! stores them and hands them back unchanged.
use vstd::prelude::*;
use std::collections::VecDeque;
use std::time::SystemTime;
use crate::paths::{file_name_of, parent_of, path_file_name, path_parent};
use crate::markup::utf8_len_of;
use crate::thumbnail::{join_path, join_path_string};
use crate::text::{char_index_at_byte, char_index_of_byte, chars_of, string_of_range};

verus! {

/// Maximum number of recent files to track by default.
pub const DEFAULT_MAX_ENTRIES: usize = 50;

/// The current time of the system clock.
///
/// Calls `SystemTime::now`; nothing is stated about the clock.
#[verifier::external_body]
fn now() -> SystemTime {
    SystemTime::now()
}

/// A recently opened file with session state.
#[derive(Debug, Clone)]
pub struct RecentFile {
    /// Absolute path to the file.
    pub path: String,
    /// Last time this file was opened.
    pub last_opened: SystemTime,
    /// Last viewed page (0-indexed).
    pub page: Option<usize>,
    /// Last zoom level (percentage), as `f64` bits.
    pub zoom: Option<u64>,
    /// Last scroll position (x, y), as `f64` bits.
    pub scroll_position: Option<(u64, u64)>,
}

/// The session state of a file: page, zoom bits, scroll bits.
pub type Session = (usize, u64, (u64, u64));

impl RecentFile {
    /// Create a new recent file entry, opened now, with no session.
    pub fn new(path: String) -> (f: Self)
        ensures
            f.path == path,
            f.page is None,
            f.zoom is None,
            f.scroll_position is None,
    {
        RecentFile { path, last_opened: now(), page: None, zoom: None, scroll_position: None }
    }

    /// Record the session state (and that the file was opened now).
    pub fn update_session(&mut self, page: usize, zoom: u64, scroll: (u64, u64))
        ensures
            final(self).path == old(self).path,
            final(self).page == Some(page),
            final(self).zoom == Some(zoom),
            final(self).scroll_position == Some(scroll),
    {
        self.last_opened = now();
        self.page = Some(page);
        self.zoom = Some(zoom);
        self.scroll_position = Some(scroll);
    }

    /// Whether the file still exists.  What is on disk is not stated.
    pub fn is_on_disk(&self) -> bool {
        crate::paths::file_exists(self.path.as_str())
    }

    /// Get the file name for display ("Unknown" when the path has none).
    pub fn filename(&self) -> (s: &str)
        ensures
            path_file_name(self.path@) matches Some(n) ==> s@ == n,
            path_file_name(self.path@) is None ==> s@ == "Unknown"@,
    {
        match file_name_of(self.path.as_str()) {
            Some(n) => n,
            None => "Unknown",
        }
    }
}

impl RecentFile {
    /// The directory of the file, as shown under its name ("" when the
    /// path has none).
    pub fn directory(&self) -> (s: &str)
        ensures
            path_parent(self.path@) matches Some(p) ==> s@ == p,
            path_parent(self.path@) is None ==> s@ == ""@,
    {
        match parent_of(self.path.as_str()) {
            Some(p) => p,
            None => "",
        }
    }
}

/// A file name as the recent-files panel shows it: one over 50 bytes is
/// cut to its first 47 bytes and "...".  None when byte 47 falls inside a
/// character, where the cut cannot be made.
pub open spec fn shortened_name(name: Seq<char>) -> Option<Seq<char>> {
    if utf8_len_of(name) > 50 {
        match char_index_at_byte(name, 47) {
            Some(k) => Some(name.take(k) + "..."@),
            None => None,
        }
    } else {
        Some(name)
    }
}

/// A directory as the recent-files panel shows it: one over 60 bytes is
/// cut to "..." and its last 57 bytes.  None when that cut falls inside a
/// character.
pub open spec fn shortened_dir(dir: Seq<char>) -> Option<Seq<char>> {
    if utf8_len_of(dir) > 60 {
        match char_index_at_byte(dir, utf8_len_of(dir) - 57) {
            Some(k) => Some("..."@ + dir.skip(k)),
            None => None,
        }
    } else {
        Some(dir)
    }
}

/// The file name shown in the recent-files panel (see `shortened_name`).
pub fn shorten_name(name: &str) -> (r: Option<String>)
    ensures
        r matches Some(s) ==> shortened_name(name@) == Some(s@),
        r is None ==> shortened_name(name@) is None,
{
    let v = chars_of(name);
    let n = crate::markup::chars_byte_len(&v);
    if n <= 50 {
        return Some(name.to_owned());
    }
    match char_index_of_byte(&v, 47) {
        Some(k) => {
            proof {
                lemma_char_index_in_range(v@, 47);
            }
            let mut s = string_of_range(v.as_slice(), 0, k);
            s.append("...");
            proof {
                assert(v@.subrange(0, k as int) =~= v@.take(k as int));
            }
            Some(s)
        },
        None => None,
    }
}

/// The directory shown in the recent-files panel (see `shortened_dir`).
pub fn shorten_dir(dir: &str) -> (r: Option<String>)
    ensures
        r matches Some(s) ==> shortened_dir(dir@) == Some(s@),
        r is None ==> shortened_dir(dir@) is None,
{
    let v = chars_of(dir);
    let n = crate::markup::chars_byte_len(&v);
    if n <= 60 {
        return Some(dir.to_owned());
    }
    match char_index_of_byte(&v, n - 57) {
        Some(k) => {
            proof {
                lemma_char_index_in_range(v@, n - 57);
            }
            let mut s = "...".to_owned();
            let tail = string_of_range(v.as_slice(), k, v.len());
            s.append(tail.as_str());
            proof {
                assert(v@.subrange(k as int, v@.len() as int) =~= v@.skip(k as int));
            }
            Some(s)
        },
        None => None,
    }
}

/// Where a character ends at byte `n`, it is within the text.
proof fn lemma_char_index_in_range(s: Seq<char>, n: int)
    ensures
        char_index_at_byte(s, n) matches Some(k) ==> 0 <= k <= s.len(),
    decreases s.len(),
{
    if n != 0 && n >= 0 && s.len() > 0 {
        lemma_char_index_in_range(s.drop_first(), n - crate::markup::utf8_len(s[0]));
    }
}

/// The session stored in an entry, when all three parts are present.
pub open spec fn entry_session(f: RecentFile) -> Option<Session> {
    match (f.page, f.zoom, f.scroll_position) {
        (Some(page), Some(zoom), Some(scroll)) => Some((page, zoom, scroll)),
        _ => None,
    }
}

/// The session stored for path `p` in `s` (the first entry with that path).
pub open spec fn session_of(s: Seq<RecentFile>, p: Seq<char>) -> Option<Session> {
    match find_path(s, p) {
        Some(f) => entry_session(f),
        None => None,
    }
}

/// `after` is `before` with the session `s` recorded for path `p`: the
/// paths keep their places, the entry of `p` holds `s`, and nothing changes
/// when `p` is not listed.
pub open spec fn session_recorded(
    before: Seq<RecentFile>,
    p: Seq<char>,
    s: Session,
    after: Seq<RecentFile>,
) -> bool {
    &&& after.len() == before.len()
    &&& forall|i: int| 0 <= i < before.len() ==> #[trigger] after[i].path == before[i].path
    &&& find_path(before, p) is Some ==> session_of(after, p) == Some(s)
    &&& find_path(before, p) is None ==> after == before
}

/// The entries of `s` whose mark in `marks` (one per entry) is set, in
/// order.
pub open spec fn marked(s: Seq<RecentFile>, marks: Seq<bool>) -> Seq<RecentFile>
    decreases s.len(),
{
    if s.len() == 0 || marks.len() == 0 {
        Seq::empty()
    } else if marks.last() {
        marked(s.drop_last(), marks.drop_last()).push(s.last())
    } else {
        marked(s.drop_last(), marks.drop_last())
    }
}

/// The entries of `s` whose path is not `p`, in order.
pub open spec fn without_path(s: Seq<RecentFile>, p: Seq<char>) -> Seq<RecentFile>
    decreases s.len(),
{
    if s.len() == 0 {
        Seq::empty()
    } else if s[0].path@ == p {
        without_path(s.drop_first(), p)
    } else {
        seq![s[0]] + without_path(s.drop_first(), p)
    }
}

/// The first entry of `s` whose path is `p`.
pub open spec fn find_path(s: Seq<RecentFile>, p: Seq<char>) -> Option<RecentFile>
    decreases s.len(),
{
    if s.len() == 0 {
        None
    } else if s[0].path@ == p {
        Some(s[0])
    } else {
        find_path(s.drop_first(), p)
    }
}

/// The first `n` entries (all of them when there are fewer).
pub open spec fn keep_first<T>(s: Seq<T>, n: nat) -> Seq<T> {
    if s.len() > n {
        s.take(n as int)
    } else {
        s
    }
}

/// No path occurs twice in `s`.
pub open spec fn paths_distinct(s: Seq<RecentFile>) -> bool {
    forall|i: int, j: int| 0 <= i < j < s.len() ==> s[i].path@ != s[j].path@
}

/// Recent files manager.
#[derive(Debug)]
pub struct RecentFiles {
    /// List of recent files (most recent first).
    files: VecDeque<RecentFile>,
    /// Maximum number of entries to keep.
    max_entries: usize,
}

/// The default maximum number of entries.
pub fn default_max_entries() -> (n: usize)
    ensures
        n == DEFAULT_MAX_ENTRIES,
{
    DEFAULT_MAX_ENTRIES
}

/// Removes the entries whose path is `p`, keeping the order of the others.
fn retain_other_paths(files: &mut VecDeque<RecentFile>, p: &String)
    ensures
        final(files)@ == without_path(old(files)@, p@),
{
    let mut kept: VecDeque<RecentFile> = VecDeque::new();
    let ghost orig = files@;
    while files.len() > 0
        invariant
            kept@ + without_path(files@, p@) == without_path(orig, p@),
        decreases files@.len(),
    {
        let ghost before = files@;
        if let Some(f) = files.pop_front() {
            proof {
                assert(files@ == before.drop_first());
            }
            if f.path == *p {
            } else {
                proof {
                    assert(kept@.push(f) + without_path(files@, p@) =~= kept@ + (seq![f] + without_path(
                        files@,
                        p@,
                    )));
                }
                kept.push_back(f);
            }
        }
    }
    proof {
        assert(kept@ + without_path(files@, p@) =~= kept@);
    }
    *files = kept;
}

/// Drops entries from the back until at most `max` remain.
fn trim_to(files: &mut VecDeque<RecentFile>, max: usize)
    ensures
        final(files)@ == keep_first(old(files)@, max as nat),
{
    let ghost orig = files@;
    while files.len() > max
        invariant
            files@.len() <= orig.len(),
            files@ == orig.take(files@.len() as int),
            files@.len() >= max || files@.len() == orig.len(),
        decreases files@.len(),
    {
        files.pop_back();
    }
    proof {
        if files@.len() == orig.len() {
            assert(files@ =~= orig);
        }
    }
}

proof fn lemma_without_path_member(s: Seq<RecentFile>, p: Seq<char>, i: int)
    requires
        0 <= i < without_path(s, p).len(),
    ensures
        exists|j: int| 0 <= j < s.len() && s[j] == without_path(s, p)[i],
    decreases s.len(),
{
    if s.len() > 0 {
        let t = s.drop_first();
        if s[0].path@ == p {
            lemma_without_path_member(t, p, i);
            let j = choose|j: int| 0 <= j < t.len() && t[j] == without_path(t, p)[i];
            assert(s[j + 1] == without_path(s, p)[i]);
        } else if i == 0 {
            assert(s[0] == without_path(s, p)[0]);
        } else {
            lemma_without_path_member(t, p, i - 1);
            let j = choose|j: int| 0 <= j < t.len() && t[j] == without_path(t, p)[i - 1];
            assert(s[j + 1] == without_path(s, p)[i]);
        }
    }
}

proof fn lemma_without_path_removes(s: Seq<RecentFile>, p: Seq<char>)
    ensures
        forall|i: int| 0 <= i < without_path(s, p).len() ==> #[trigger] without_path(s, p)[i].path@ != p,
        without_path(s, p).len() <= s.len(),
        paths_distinct(s) ==> paths_distinct(without_path(s, p)),
    decreases s.len(),
{
    if s.len() > 0 {
        let t = s.drop_first();
        let rest = without_path(t, p);
        lemma_without_path_removes(t, p);
        if paths_distinct(s) {
            assert(paths_distinct(t));
        }
        if s[0].path@ != p {
            let r = seq![s[0]] + rest;
            assert(r == without_path(s, p));
            if paths_distinct(s) {
                assert forall|i: int, j: int| 0 <= i < j < r.len() implies r[i].path@ != r[j].path@ by {
                    if i == 0 {
                        lemma_without_path_member(t, p, j - 1);
                        let m = choose|m: int| 0 <= m < t.len() && t[m] == rest[j - 1];
                        assert(s[m + 1] == r[j]);
                    } else {
                        assert(rest[i - 1] == r[i] && rest[j - 1] == r[j]);
                    }
                }
            }
        }
    }
}

proof fn lemma_find_path_absent(s: Seq<RecentFile>, p: Seq<char>)
    requires
        forall|i: int| 0 <= i < s.len() ==> #[trigger] s[i].path@ != p,
    ensures
        find_path(s, p) is None,
    decreases s.len(),
{
    if s.len() > 0 {
        assert(s[0].path@ != p);
        assert forall|i: int| 0 <= i < s.drop_first().len() implies #[trigger] s.drop_first()[i].path@ != p by {
            assert(s.drop_first()[i] == s[i + 1]);
        }
        lemma_find_path_absent(s.drop_first(), p);
    }
}

impl RecentFiles {
    /// The entries, most recent first.
    pub closed spec fn entries(&self) -> Seq<RecentFile> {
        self.files@
    }

    /// The maximum number of entries kept.
    pub closed spec fn limit(&self) -> nat {
        self.max_entries as nat
    }

    /// Create a new empty recent files list.
    pub fn new() -> (r: Self)
        ensures
            r.entries() == Seq::<RecentFile>::empty(),
            r.limit() == DEFAULT_MAX_ENTRIES,
    {
        RecentFiles { files: VecDeque::new(), max_entries: DEFAULT_MAX_ENTRIES }
    }

    /// Rebuild a list from stored entries and limit (as read from disk).
    pub fn from_parts(files: VecDeque<RecentFile>, max_entries: usize) -> (r: Self)
        ensures
            r.entries() == files@,
            r.limit() == max_entries,
    {
        RecentFiles { files, max_entries }
    }

    /// The maximum number of entries kept.
    pub fn max_entries(&self) -> (n: usize)
        ensures
            n == self.limit(),
    {
        self.max_entries
    }

    /// Add or update a file in the recent list: the entry for `path` moves
    /// to the front, opened now, keeping the page, zoom and scroll stored
    /// for it (none for a path not listed), and the list is trimmed to the
    /// maximum.
    pub fn add(&mut self, path: String)
        ensures
            final(self).limit() == old(self).limit(),
            old(self).limit() == 0 ==> final(self).entries().len() == 0,
            old(self).limit() > 0 ==> {
                &&& final(self).entries().len() > 0
                &&& final(self).entries()[0].path == path
                &&& match find_path(old(self).entries(), path@) {
                    Some(f) => final(self).entries()[0].page == f.page
                        && final(self).entries()[0].zoom == f.zoom
                        && final(self).entries()[0].scroll_position == f.scroll_position,
                    None => final(self).entries()[0].page is None
                        && final(self).entries()[0].zoom is None
                        && final(self).entries()[0].scroll_position is None,
                }
                &&& final(self).entries() == keep_first(
                    seq![final(self).entries()[0]] + without_path(old(self).entries(), path@),
                    old(self).limit(),
                )
            },
            final(self).entries().len() <= final(self).limit(),
            paths_distinct(old(self).entries()) ==> paths_distinct(final(self).entries()),
    {
        let (page, zoom, scroll) = self.stored_state(&path);
        retain_other_paths(&mut self.files, &path);
        proof {
            lemma_without_path_removes(old(self).files@, path@);
        }
        let ghost rest = self.files@;
        let mut entry = RecentFile::new(path);
        entry.page = page;
        entry.zoom = zoom;
        entry.scroll_position = scroll;
        let ghost e = entry;
        self.files.push_front(entry);
        let ghost pushed = self.files@;
        trim_to(&mut self.files, self.max_entries);
        proof {
            assert(pushed == seq![e] + rest);
            if self.files@.len() > 0 {
                assert(self.files@[0] == e);
            }
            if paths_distinct(rest) {
                assert forall|i: int, j: int| 0 <= i < j < self.files@.len() implies self.files@[i].path@
                    != self.files@[j].path@ by {
                    assert(self.files@[i] == pushed[i] && self.files@[j] == pushed[j]);
                    if i == 0 {
                        assert(pushed[j] == rest[j - 1]);
                    } else {
                        assert(pushed[i] == rest[i - 1] && pushed[j] == rest[j - 1]);
                    }
                }
            }
        }
    }

    /// The stored viewing state (page, zoom, scroll) of the entry for
    /// `path`, all `None` when it is not listed.
    fn stored_state(&self, path: &String) -> (r: (Option<usize>, Option<u64>, Option<(u64, u64)>))
        ensures
            match find_path(self.entries(), path@) {
                Some(f) => r == (f.page, f.zoom, f.scroll_position),
                None => r == (None::<usize>, None::<u64>, None::<(u64, u64)>),
            },
    {
        let n = self.files.len();
        let mut i: usize = 0;
        proof {
            assert(self.files@.subrange(0, n as int) =~= self.files@);
        }
        while i < n
            invariant
                n == self.files@.len(),
                i <= n,
                find_path(self.files@, path@) == find_path(self.files@.subrange(i as int, n as int), path@),
            decreases n - i,
        {
            let f = &self.files[i];
            proof {
                let rest = self.files@.subrange(i as int, n as int);
                assert(rest.drop_first() =~= self.files@.subrange(i + 1, n as int));
            }
            if f.path == *path {
                return (f.page, f.zoom, f.scroll_position);
            }
            i = i + 1;
        }
        (None, None, None)
    }

    /// Record the session state of the entry for `path`, if there is one.
    pub fn update_session(&mut self, path: &String, page: usize, zoom: u64, scroll: (u64, u64))
        ensures
            final(self).limit() == old(self).limit(),
            final(self).entries().len() == old(self).entries().len(),
            forall|i: int|
                0 <= i < old(self).entries().len() ==> #[trigger] final(self).entries()[i].path
                    == old(self).entries()[i].path,
            session_recorded(old(self).entries(), path@, (page, zoom, scroll), final(self).entries()),
    {
        let mut out: VecDeque<RecentFile> = VecDeque::new();
        let mut found = false;
        let ghost orig = self.files@;
        while self.files.len() > 0
            invariant
                self.max_entries == old(self).max_entries,
                orig == old(self).files@,
                out@.len() + self.files@.len() == orig.len(),
                self.files@ == orig.subrange(out@.len() as int, orig.len() as int),
                forall|i: int| 0 <= i < out@.len() ==> #[trigger] out@[i].path == orig[i].path,
                !found ==> out@ == orig.take(out@.len() as int),
                !found ==> forall|i: int| 0 <= i < out@.len() ==> #[trigger] out@[i].path@ != path@,
                found ==> find_path(orig, path@) is Some,
                found ==> session_of(out@ + self.files@, path@) == Some((page, zoom, scroll)),
            decreases self.files@.len(),
        {
            let ghost before = self.files@;
            let ghost out_before = out@;
            if let Some(mut f) = self.files.pop_front() {
                proof {
                    assert(self.files@ =~= orig.subrange(out@.len() as int + 1, orig.len() as int));
                    assert(before[0] == f);
                    assert(orig[out@.len() as int] == f);
                }
                if !found && f.path == *path {
                    f.update_session(page, zoom, scroll);
                    found = true;
                    proof {
                        lemma_find_path_prefix(out_before, f, self.files@, path@);
                        lemma_find_path_prefix(orig.take(out_before.len() as int), orig[out_before.len() as int], orig.subrange(out_before.len() as int + 1, orig.len() as int), path@);
                        assert(orig.take(out_before.len() as int).push(orig[out_before.len() as int]) + orig.subrange(out_before.len() as int + 1, orig.len() as int) =~= orig);
                    }
                    out.push_back(f);
                    proof {
                        assert(out@ + self.files@ =~= out_before.push(f) + self.files@);
                    }
                } else {
                    out.push_back(f);
                    proof {
                        if found {
                            assert(out@ + self.files@ =~= out_before + before);
                        } else {
                            assert(out@ =~= orig.take(out@.len() as int));
                        }
                    }
                }
            }
        }
        proof {
            if !found {
                assert(out@ =~= orig);
                lemma_find_path_absent(orig, path@);
            } else {
                assert(out@ + self.files@ =~= out@);
            }
        }
        self.files = out;
    }

    /// Get the session state stored for `path`.
    pub fn get_session(&self, path: &String) -> (r: Option<Session>)
        ensures
            r == session_of(self.entries(), path@),
    {
        let n = self.files.len();
        let mut i: usize = 0;
        proof {
            assert(self.files@.subrange(0, n as int) =~= self.files@);
        }
        while i < n
            invariant
                n == self.files@.len(),
                i <= n,
                find_path(self.files@, path@) == find_path(self.files@.subrange(i as int, n as int), path@),
            decreases n - i,
        {
            let f = &self.files[i];
            proof {
                let rest = self.files@.subrange(i as int, n as int);
                assert(rest.drop_first() =~= self.files@.subrange(i + 1, n as int));
            }
            if f.path == *path {
                return match (f.page, f.zoom, f.scroll_position) {
                    (Some(page), Some(zoom), Some(scroll)) => Some((page, zoom, scroll)),
                    _ => None,
                };
            }
            i = i + 1;
        }
        None
    }

    /// Drop the files that no longer exist.  What is on disk is not
    /// stated: the entries kept are those whose file was found, in order.
    pub fn retain_present(&mut self)
        ensures
            final(self).limit() == old(self).limit(),
            exists|marks: Seq<bool>|
                marks.len() == old(self).entries().len() && #[trigger] marked(
                    old(self).entries(),
                    marks,
                ) == final(self).entries(),
    {
        let n = self.files.len();
        let mut marks: Vec<bool> = Vec::new();
        let mut i: usize = 0;
        while i < n
            invariant
                n == self.files@.len(),
                i <= n,
                marks@.len() == i,
            decreases n - i,
        {
            marks.push(self.files[i].is_on_disk());
            i = i + 1;
        }
        self.retain_marked(&marks);
    }

    /// Keep the entries whose mark is set, in order (`marks` has one mark
    /// per entry, most recent first).
    pub fn retain_marked(&mut self, marks: &Vec<bool>)
        requires
            marks@.len() == old(self).entries().len(),
        ensures
            final(self).limit() == old(self).limit(),
            final(self).entries() == marked(old(self).entries(), marks@),
    {
        let mut kept: VecDeque<RecentFile> = VecDeque::new();
        let ghost orig = self.files@;
        let n = self.files.len();
        let mut taken: usize = 0;
        proof {
            assert(orig.take(0) =~= Seq::<RecentFile>::empty());
            assert(marks@.take(0) =~= Seq::<bool>::empty());
        }
        while self.files.len() > 0
            invariant
                self.max_entries == old(self).max_entries,
                orig == old(self).files@,
                n == orig.len(),
                marks@.len() == orig.len(),
                taken + self.files@.len() == orig.len(),
                self.files@ == orig.subrange(taken as int, orig.len() as int),
                kept@ == marked(orig.take(taken as int), marks@.take(taken as int)),
            decreases self.files@.len(),
        {
            if let Some(f) = self.files.pop_front() {
                proof {
                    assert(f == orig[taken as int]);
                    assert(self.files@ =~= orig.subrange(taken + 1, orig.len() as int));
                    assert(orig.take(taken + 1).drop_last() =~= orig.take(taken as int));
                    assert(marks@.take(taken + 1).drop_last() =~= marks@.take(taken as int));
                    assert(orig.take(taken + 1).last() == orig[taken as int]);
                    assert(marks@.take(taken + 1).last() == marks@[taken as int]);
                }
                if marks[taken] {
                    kept.push_back(f);
                }
                taken = taken + 1;
            }
        }
        proof {
            assert(orig.take(orig.len() as int) =~= orig);
            assert(marks@.take(marks@.len() as int) =~= marks@);
        }
        self.files = kept;
    }

    /// Remove a file from the recent list.
    pub fn remove(&mut self, path: &String)
        ensures
            final(self).limit() == old(self).limit(),
            final(self).entries() == without_path(old(self).entries(), path@),
    {
        retain_other_paths(&mut self.files, path);
    }

    /// Remove the entry at `index`, if there is one.
    pub fn remove_index(&mut self, index: usize)
        ensures
            final(self).limit() == old(self).limit(),
            index < old(self).entries().len() ==> final(self).entries() == old(self).entries().remove(
                index as int,
            ),
            index >= old(self).entries().len() ==> final(self).entries() == old(self).entries(),
    {
        if index < self.files.len() {
            self.files.remove(index);
        }
    }

    /// Get all recent files, most recent first.
    pub fn files(&self) -> (f: &VecDeque<RecentFile>)
        ensures
            f@ == self.entries(),
    {
        &self.files
    }

    /// Get number of recent files.
    pub fn len(&self) -> (n: usize)
        ensures
            n == self.entries().len(),
    {
        self.files.len()
    }

    /// Check if empty.
    pub fn is_empty(&self) -> (b: bool)
        ensures
            b == (self.entries().len() == 0),
    {
        self.files.len() == 0
    }

    /// Clear all recent files.
    pub fn clear(&mut self)
        ensures
            final(self).limit() == old(self).limit(),
            final(self).entries() == Seq::<RecentFile>::empty(),
    {
        self.files.clear();
    }

    /// Set the maximum number of entries, dropping the oldest beyond it.
    pub fn set_max_entries(&mut self, max: usize)
        ensures
            final(self).limit() == max,
            final(self).entries() == keep_first(old(self).entries(), max as nat),
    {
        self.max_entries = max;
        trim_to(&mut self.files, max);
    }
}

proof fn lemma_find_path_prefix(pre: Seq<RecentFile>, f: RecentFile, post: Seq<RecentFile>, p: Seq<char>)
    requires
        forall|i: int| 0 <= i < pre.len() ==> #[trigger] pre[i].path@ != p,
        f.path@ == p,
    ensures
        find_path(pre.push(f) + post, p) == Some(f),
    decreases pre.len(),
{
    if pre.len() > 0 {
        let s = pre.push(f) + post;
        assert(s.drop_first() =~= pre.drop_first().push(f) + post);
        lemma_find_path_prefix(pre.drop_first(), f, post, p);
    } else {
        assert((pre.push(f) + post)[0] == f);
    }
}

/// After adding a path, it is the most recent entry (when the list may hold
/// any entry at all) and it occurs once.
pub proof fn lemma_add_puts_path_first(before: Seq<RecentFile>, after: Seq<RecentFile>, fresh: RecentFile, p: Seq<char>, limit: nat)
    requires
        limit > 0,
        fresh.path@ == p,
        after == keep_first(seq![fresh] + without_path(before, p), limit),
    ensures
        after.len() > 0,
        after[0].path@ == p,
        forall|i: int| 1 <= i < after.len() ==> #[trigger] after[i].path@ != p,
        after.len() <= limit,
{
    lemma_without_path_removes(before, p);
    let full = seq![fresh] + without_path(before, p);
    assert forall|i: int| 1 <= i < after.len() implies #[trigger] after[i].path@ != p by {
        assert(after[i] == full[i]);
        assert(full[i] == without_path(before, p)[i - 1]);
    }
}

/// A session recorded for a listed path is the one read back for it.
pub proof fn lemma_session_round_trip(before: Seq<RecentFile>, p: Seq<char>, s: Session, after: Seq<RecentFile>)
    requires
        find_path(before, p) is Some,
        session_recorded(before, p, s, after),
    ensures
        session_of(after, p) == Some(s),
{
}

/// Opening a listed file again keeps its viewing state: after `add`, the
/// session stored for the path is the one stored before.
pub proof fn lemma_add_keeps_session(
    before: Seq<RecentFile>,
    after: Seq<RecentFile>,
    p: Seq<char>,
    limit: nat,
)
    requires
        limit > 0,
        after.len() > 0,
        after[0].path@ == p,
        match find_path(before, p) {
            Some(f) => after[0].page == f.page && after[0].zoom == f.zoom
                && after[0].scroll_position == f.scroll_position,
            None => after[0].page is None && after[0].zoom is None
                && after[0].scroll_position is None,
        },
    ensures
        session_of(after, p) == session_of(before, p),
{
}

/// Recording a session keeps the listed paths, so the path stays listed.
pub proof fn lemma_session_keeps_paths(before: Seq<RecentFile>, p: Seq<char>, s: Session, after: Seq<RecentFile>)
    requires
        session_recorded(before, p, s, after),
    ensures
        forall|q: Seq<char>| (find_path(before, q) is Some) == (find_path(after, q) is Some),
{
    assert forall|q: Seq<char>| (find_path(before, q) is Some) == (find_path(after, q) is Some) by {
        lemma_find_path_same_paths(before, after, q);
    }
}

proof fn lemma_find_path_same_paths(a: Seq<RecentFile>, b: Seq<RecentFile>, q: Seq<char>)
    requires
        a.len() == b.len(),
        forall|i: int| 0 <= i < a.len() ==> #[trigger] b[i].path == a[i].path,
    ensures
        (find_path(a, q) is Some) == (find_path(b, q) is Some),
    decreases a.len(),
{
    if a.len() > 0 {
        assert(b[0].path == a[0].path);
        assert forall|i: int| 0 <= i < a.drop_first().len() implies #[trigger] b.drop_first()[i].path
            == a.drop_first()[i].path by {
            assert(b[i + 1].path == a[i + 1].path);
        }
        lemma_find_path_same_paths(a.drop_first(), b.drop_first(), q);
    }
}

/// After a path is removed it is no longer listed, and the others keep
/// their order and stay distinct.
pub proof fn lemma_remove_drops_path(before: Seq<RecentFile>, p: Seq<char>)
    ensures
        find_path(without_path(before, p), p) is None,
        without_path(before, p).len() <= before.len(),
        paths_distinct(before) ==> paths_distinct(without_path(before, p)),
{
    lemma_without_path_removes(before, p);
    lemma_find_path_absent(without_path(before, p), p);
}


/// Where the list is stored: `garview/recent.json` in the user's local
/// data directory, or under `~/.local/share` when there is none.
pub open spec fn storage_file_path(data_dir: Option<Seq<char>>) -> Seq<char> {
    join_path(
        match data_dir {
            Some(d) => d,
            None => "~/.local/share"@,
        },
        "garview/recent.json"@,
    )
}

/// The storage path of the list, given the user's local data directory if
/// there is one (see `storage_file_path`).
pub fn storage_path(data_dir: Option<&str>) -> (p: String)
    ensures
        p@ == storage_file_path(
            match data_dir {
                Some(d) => Some(d@),
                None => None,
            },
        ),
{
    let dir = match data_dir {
        Some(d) => d,
        None => "~/.local/share",
    };
    join_path_string(dir, "garview/recent.json")
}

} // verus!
