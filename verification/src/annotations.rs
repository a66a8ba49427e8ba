//! The record of annotations drawn on a document: one entry per committed
//! shape, the undo history of the annotation layer's snapshots, and the
//! sidecar file the layer is saved to.
//!
//! Drawing on the layers happens around the library; it hands over the
//! layer's snapshot (its RGBA bytes) wherever the history needs one.  Each
//! record carries the shape's colour `C`, which the library keeps unread.
use vstd::prelude::*;
use crate::history::{keep_last, pushed, redone, undone, History};
use crate::imaging::{all_transparent, is_fully_transparent, rgba_to_png, ImagingError};
use crate::shapes::Rect;
use crate::text::{decimal, decimal_string};
use crate::tools::{spec_name, ToolType};

verus! {

/// A committed annotation.
#[derive(Debug, Clone)]
pub struct AnnotationRecord<C> {
    /// Unique identifier.
    pub id: u64,
    /// Tool used.
    pub tool: ToolType,
    /// Bounding box in image coordinates.
    pub bounds: Rect,
    /// Colour used.
    pub color: C,
    /// Page number (for multi-page documents).
    pub page: usize,
}

impl<C> AnnotationRecord<C> {
    /// Create a new annotation record.
    pub fn new(id: u64, tool: ToolType, bounds: Rect, color: C, page: usize) -> (r: Self)
        ensures
            r.id == id,
            r.tool == tool,
            r.bounds == bounds,
            r.color == color,
            r.page == page,
    {
        AnnotationRecord { id, tool, bounds, color, page }
    }

    /// A short description for display: "Arrow on page 3" (pages counted
    /// from one).
    pub fn description(&self) -> (s: String)
        requires
            self.page < usize::MAX,
        ensures
            s@ == spec_name(self.tool) + " on page "@ + decimal((self.page + 1) as nat),
    {
        let mut s = self.tool.name().to_owned();
        s.append(" on page ");
        let n = decimal_string((self.page + 1) as u64);
        s.append(n.as_str());
        s
    }
}

/// What `PathBuf::set_file_name` makes of `path` with the file name `name`:
/// when the path has a final component, it is cut back to its parent
/// (`PathBuf::pop`); then `name` is pushed (`PathBuf::push`, which is
/// `join_path` on text).
pub open spec fn with_file_name(path: Seq<char>, name: Seq<char>) -> Seq<char> {
    match crate::paths::path_file_name(path) {
        Some(_) => match crate::paths::path_parent(path) {
            Some(parent) => crate::thumbnail::join_path(parent, name),
            None => crate::thumbnail::join_path(path, name),
        },
        None => crate::thumbnail::join_path(path, name),
    }
}

/// `PathBuf::set_file_name` on a copy of `path` (see `with_file_name`).
#[verifier::external_body]
fn set_file_name(path: &str, name: &str) -> (r: String)
    ensures
        r@ == with_file_name(path@, name@),
{
    let mut p = std::path::PathBuf::from(path);
    p.set_file_name(name);
    p.to_string_lossy().into_owned()
}

/// The sidecar file that holds the annotations of the file at `path`: its
/// file name with `.annotations.png` added, in the same directory.
pub open spec fn sidecar_path(path: Seq<char>) -> Seq<char> {
    let name = match crate::paths::path_file_name(path) {
        Some(n) => n,
        None => Seq::empty(),
    };
    with_file_name(path, name + ".annotations.png"@)
}

/// Get the sidecar annotation file path for a given file.
pub fn annotation_path(file_path: &str) -> (p: String)
    ensures
        p@ == sidecar_path(file_path@),
{
    let mut name = match crate::paths::file_name_of(file_path) {
        Some(n) => n.to_owned(),
        None => String::new(),
    };
    name.append(".annotations.png");
    set_file_name(file_path, name.as_str())
}

/// What to do with the sidecar file when saving a layer: remove it when
/// nothing is drawn, otherwise write the PNG bytes.
pub enum SidecarAction {
    Remove,
    Write(Vec<u8>),
}

/// The sidecar action for a layer of `width` by `height` RGBA pixels: an
/// empty (fully transparent) layer removes the file, another is encoded as
/// PNG.
pub fn sidecar_action(layer: &[u8], width: u32, height: u32) -> (r: Result<
    SidecarAction,
    ImagingError,
>)
    requires
        layer@.len() % 4 == 0,
    ensures
        all_transparent(layer@) ==> r matches Ok(SidecarAction::Remove),
        !all_transparent(layer@) ==> match rgba_png(layer@, width, height) {
            Ok(p) => r matches Ok(SidecarAction::Write(q)) && q@ == p,
            Err(e) => r == Err::<SidecarAction, ImagingError>(e),
        },
{
    if is_fully_transparent(layer) {
        return Ok(SidecarAction::Remove);
    }
    match rgba_to_png(layer, width, height) {
        Ok(p) => Ok(SidecarAction::Write(p)),
        Err(e) => Err(e),
    }
}

/// What `rgba_to_png` gives for a layer.
pub open spec fn rgba_png(data: Seq<u8>, width: u32, height: u32) -> Result<Seq<u8>, ImagingError> {
    if (data.len() as int) < width as int * height as int * 4 {
        Err(ImagingError::BufferTooSmall)
    } else {
        match crate::imaging::png_encoding(data.take(width * height * 4), width, height) {
            Some(p) => Ok(p),
            None => Err(ImagingError::Encode),
        }
    }
}

/// The annotations of a document and the undo history of its layer.
pub struct AnnotationLog<C> {
    /// Undo/redo history of layer snapshots.
    history: History,
    /// Whether annotations have been modified since last save.
    modified: bool,
    /// The annotation records, oldest first.
    annotations: Vec<AnnotationRecord<C>>,
    /// Next annotation ID.
    next_id: u64,
    /// Current page (for multi-page documents).
    current_page: usize,
}

impl<C> AnnotationLog<C> {
    /// The records.
    pub closed spec fn records(&self) -> Seq<AnnotationRecord<C>> {
        self.annotations@
    }

    /// The undo history.
    pub closed spec fn snapshots(&self) -> History {
        self.history
    }

    /// Whether there are unsaved changes.
    pub closed spec fn dirty(&self) -> bool {
        self.modified
    }

    /// The identifier the next record gets.
    pub closed spec fn next(&self) -> u64 {
        self.next_id
    }

    /// The page new records go on.
    pub closed spec fn page(&self) -> usize {
        self.current_page
    }

    /// Nothing recorded, a history of 50 snapshots, page 0.
    pub fn new() -> (l: Self)
        ensures
            l.records() == Seq::<AnnotationRecord<C>>::empty(),
            l.snapshots().undo_states() == Seq::<Vec<u8>>::empty(),
            l.snapshots().redo_states() == Seq::<Vec<u8>>::empty(),
            l.snapshots().capacity() == 50,
            !l.dirty(),
            l.next() == 1,
            l.page() == 0,
    {
        AnnotationLog {
            history: History::new(50),
            modified: false,
            annotations: Vec::new(),
            next_id: 1,
            current_page: 0,
        }
    }

    /// Set the current page for new annotations.
    pub fn set_page(&mut self, page: usize)
        ensures
            final(self).page() == page,
            final(self).records() == old(self).records(),
            final(self).snapshots() == old(self).snapshots(),
            final(self).dirty() == old(self).dirty(),
            final(self).next() == old(self).next(),
    {
        self.current_page = page;
    }

    /// Commit a drawing: a record of it (when it has bounds) with the next
    /// identifier on the current page, and the layer as it was before it
    /// (`snapshot`) pushed on the history.
    pub fn commit(&mut self, tool: ToolType, bounds: Option<Rect>, color: C, snapshot: Vec<u8>)
        requires
            bounds is Some ==> old(self).next() < u64::MAX,
        ensures
            match bounds {
                Some(b) => {
                    &&& final(self).records() == old(self).records().push(
                        AnnotationRecord { id: old(self).next(), tool, bounds: b, color, page: old(self).page() },
                    )
                    &&& final(self).next() == old(self).next() + 1
                },
                None => final(self).records() == old(self).records() && final(self).next() == old(
                    self,
                ).next(),
            },
            pushed(old(self).snapshots(), snapshot, final(self).snapshots()),
            final(self).dirty(),
            final(self).page() == old(self).page(),
    {
        match bounds {
            Some(b) => {
                let record = AnnotationRecord::new(self.next_id, tool, b, color, self.current_page);
                self.annotations.push(record);
                self.next_id = self.next_id + 1;
            },
            None => {},
        }
        self.history.push(snapshot);
        self.modified = true;
    }

    /// Undo the last change to the layer, whose contents are now `current`:
    /// returns the snapshot to restore (the last record goes), or `None`
    /// when there is nothing to undo.
    pub fn undo(&mut self, current: Vec<u8>) -> (r: Option<Vec<u8>>)
        ensures
            undone(old(self).snapshots(), current, final(self).snapshots(), r),
            r is Some ==> final(self).records() == (if old(self).records().len() > 0 {
                old(self).records().drop_last()
            } else {
                old(self).records()
            }) && final(self).dirty(),
            r is None ==> final(self).records() == old(self).records() && final(self).dirty()
                == old(self).dirty(),
            final(self).next() == old(self).next(),
            final(self).page() == old(self).page(),
    {
        let r = self.history.undo(current);
        if r.is_some() {
            self.annotations.pop();
            self.modified = true;
        }
        r
    }

    /// Redo the last undone change, the layer's contents being `current`:
    /// returns the snapshot to restore, or `None` when there is nothing to
    /// redo.  The records are left as they are.
    pub fn redo(&mut self, current: Vec<u8>) -> (r: Option<Vec<u8>>)
        ensures
            redone(old(self).snapshots(), current, final(self).snapshots(), r),
            final(self).records() == old(self).records(),
            r is Some ==> final(self).dirty(),
            r is None ==> final(self).dirty() == old(self).dirty(),
            final(self).next() == old(self).next(),
            final(self).page() == old(self).page(),
    {
        let r = self.history.redo(current);
        if r.is_some() {
            self.modified = true;
        }
        r
    }

    /// Clear all annotations, the layer being `snapshot` before clearing.
    pub fn clear_all(&mut self, snapshot: Vec<u8>)
        ensures
            pushed(old(self).snapshots(), snapshot, final(self).snapshots()),
            final(self).records() == Seq::<AnnotationRecord<C>>::empty(),
            final(self).dirty(),
            final(self).next() == old(self).next(),
            final(self).page() == old(self).page(),
    {
        self.history.push(snapshot);
        self.annotations.clear();
        self.modified = true;
    }

    /// The layer was saved.
    pub fn mark_saved(&mut self)
        ensures
            !final(self).dirty(),
            final(self).records() == old(self).records(),
            final(self).snapshots() == old(self).snapshots(),
            final(self).next() == old(self).next(),
            final(self).page() == old(self).page(),
    {
        self.modified = false;
    }

    /// Whether there are unsaved changes.
    pub fn is_modified(&self) -> (b: bool)
        ensures
            b == self.dirty(),
    {
        self.modified
    }

    /// Get the list of annotation records.
    pub fn annotations(&self) -> (a: &[AnnotationRecord<C>])
        ensures
            a@ == self.records(),
    {
        self.annotations.as_slice()
    }

    /// Get annotations for a specific page.
    pub fn annotations_for_page(&self, page: usize) -> (r: Vec<&AnnotationRecord<C>>)
        ensures
            r@.len() == self.records().filter(|a: AnnotationRecord<C>| a.page == page).len(),
            forall|i: int|
                0 <= i < r@.len() ==> *(#[trigger] r@[i]) == self.records().filter(
                    |a: AnnotationRecord<C>| a.page == page,
                )[i],
    {
        let mut out: Vec<&AnnotationRecord<C>> = Vec::new();
        let mut k: usize = 0;
        let ghost pred = |a: AnnotationRecord<C>| a.page == page;
        proof {
            assert(self.annotations@.take(0) =~= Seq::<AnnotationRecord<C>>::empty());
            reveal(Seq::filter);
        }
        while k < self.annotations.len()
            invariant
                k <= self.annotations@.len(),
                pred == (|a: AnnotationRecord<C>| a.page == page),
                out@.len() == self.annotations@.take(k as int).filter(pred).len(),
                forall|i: int|
                    0 <= i < out@.len() ==> *(#[trigger] out@[i]) == self.annotations@.take(
                        k as int,
                    ).filter(pred)[i],
            decreases self.annotations@.len() - k,
        {
            proof {
                assert(self.annotations@.take(k + 1).drop_last() =~= self.annotations@.take(
                    k as int,
                ));
                reveal(Seq::filter);
            }
            if self.annotations[k].page == page {
                out.push(&self.annotations[k]);
            }
            k = k + 1;
        }
        proof {
            assert(self.annotations@.take(self.annotations@.len() as int) =~= self.annotations@);
        }
        out
    }

    /// Get number of annotations.
    pub fn annotation_count(&self) -> (n: usize)
        ensures
            n == self.records().len(),
    {
        self.annotations.len()
    }

    /// Check if undo is available.
    pub fn can_undo(&self) -> (b: bool)
        ensures
            b == (self.snapshots().undo_states().len() > 0),
    {
        self.history.can_undo()
    }

    /// Check if redo is available.
    pub fn can_redo(&self) -> (b: bool)
        ensures
            b == (self.snapshots().redo_states().len() > 0),
    {
        self.history.can_redo()
    }
}

/// Undoing right after committing a drawing takes its record out again
/// and gives back the layer as it was before the drawing.
pub proof fn lemma_undo_after_commit<C>(
    l0: AnnotationLog<C>,
    tool: ToolType,
    b: Rect,
    color: C,
    snapshot: Vec<u8>,
    l1: AnnotationLog<C>,
    current: Vec<u8>,
    l2: AnnotationLog<C>,
    r: Option<Vec<u8>>,
)
    requires
        l0.snapshots().capacity() > 0,
        l1.records() == l0.records().push(
            AnnotationRecord { id: l0.next(), tool, bounds: b, color, page: l0.page() },
        ),
        pushed(l0.snapshots(), snapshot, l1.snapshots()),
        undone(l1.snapshots(), current, l2.snapshots(), r),
        r is Some ==> l2.records() == (if l1.records().len() > 0 {
            l1.records().drop_last()
        } else {
            l1.records()
        }),
    ensures
        r == Some(snapshot),
        l2.records() == l0.records(),
{
    crate::history::lemma_undo_after_push(
        l0.snapshots(),
        snapshot,
        l1.snapshots(),
        current,
        l2.snapshots(),
        r,
    );
    assert(l0.records().push(
        AnnotationRecord { id: l0.next(), tool, bounds: b, color, page: l0.page() },
    ).drop_last() =~= l0.records());
}

} // verus!
