//! Form fields of a PDF document and their editing state: which field has
//! the focus, the text being edited and its cursor, and the changes to hand
//! back to the document.
//!
//! Each field carries its geometry `G` (its rectangle on the page and font
//! size), which the library keeps for the caller and never reads: hit
//! testing and the reading order of fields, which compare coordinates, are
//! the caller's.
use vstd::prelude::*;
use crate::markup::utf8_len_of;

verus! {

/// Form field type with associated data.
#[derive(Debug, Clone)]
pub enum FormFieldType {
    /// Text input field.
    Text {
        /// Current text value.
        value: String,
        /// Maximum length in bytes.
        max_len: Option<i32>,
        /// Is this a multiline field.
        multiline: bool,
        /// Is this a password field.
        password: bool,
    },
    /// Checkbox field.
    Checkbox {
        /// Current checked state.
        checked: bool,
    },
    /// Radio button field.
    RadioButton {
        /// Radio group name.
        group: String,
        /// Current selected state.
        selected: bool,
    },
    /// Dropdown/combo box field.
    Dropdown {
        /// Available options.
        items: Vec<String>,
        /// Currently selected item index.
        selected: Option<i32>,
        /// Is the dropdown editable (combo box).
        editable: bool,
    },
    /// Signature field (display only).
    Signature,
    /// Unknown/unsupported field type.
    Unknown,
}

/// Information about a form field.
#[derive(Debug, Clone)]
pub struct FormFieldInfo<G> {
    /// Unique field ID from the document.
    pub id: i32,
    /// Page number (0-indexed).
    pub page: usize,
    /// Rectangle and font size on the page, kept for the caller.
    pub geometry: G,
    /// Field type and current value.
    pub field_type: FormFieldType,
    /// Field name (optional).
    pub name: Option<String>,
    /// Is this field read-only.
    pub read_only: bool,
}

/// Value that can be set on a form field.
#[derive(Debug, Clone)]
pub enum FormFieldValue {
    /// Text value for text fields.
    Text(String),
    /// Boolean value for checkboxes/radio buttons.
    Boolean(bool),
    /// Index value for dropdown selection.
    ChoiceIndex(i32),
}

/// The position of the first field with id `id`.
pub open spec fn index_of_id<G>(fields: Seq<FormFieldInfo<G>>, id: i32) -> Option<int>
    decreases fields.len(),
{
    if fields.len() == 0 {
        None
    } else if fields[0].id == id {
        Some(0)
    } else {
        match index_of_id(fields.drop_first(), id) {
            Some(i) => Some(i + 1),
            None => None,
        }
    }
}

/// The position of the first occurrence of `id` in `ids`.
pub open spec fn position_in(ids: Seq<i32>, id: i32) -> Option<int>
    decreases ids.len(),
{
    if ids.len() == 0 {
        None
    } else if ids[0] == id {
        Some(0)
    } else {
        match position_in(ids.drop_first(), id) {
            Some(i) => Some(i + 1),
            None => None,
        }
    }
}

/// The field Tab moves to in reading order `order`: the one after the
/// focused field (the first after the last), or the first when no field of
/// `order` has the focus.
pub open spec fn tab_target(order: Seq<i32>, focus: Option<i32>) -> i32 {
    match focus {
        Some(cur) => match position_in(order, cur) {
            Some(p) => order[(p + 1) % (order.len() as int)],
            None => order[0],
        },
        None => order[0],
    }
}

/// The field Shift+Tab moves to: the one before the focused field (the
/// last before the first), the last without a focus, and the first when
/// the focused field is not in `order`.
pub open spec fn back_tab_target(order: Seq<i32>, focus: Option<i32>) -> i32 {
    match focus {
        Some(cur) => match position_in(order, cur) {
            Some(p) => if p == 0 {
                order[order.len() - 1]
            } else {
                order[p - 1]
            },
            None => order[0],
        },
        None => order[order.len() - 1],
    }
}

proof fn lemma_position_found(ids: Seq<i32>, id: i32)
    ensures
        position_in(ids, id) matches Some(p) ==> 0 <= p < ids.len() && ids[p] == id,
    decreases ids.len(),
{
    if ids.len() > 0 && ids[0] != id {
        lemma_position_found(ids.drop_first(), id);
    }
}

/// Tab and then Shift+Tab come back to the field that had the focus,
/// when the reading order lists each field once.
pub proof fn lemma_tab_then_back_tab(order: Seq<i32>, cur: i32)
    requires
        forall|i: int, j: int| 0 <= i < j < order.len() ==> order[i] != order[j],
        position_in(order, cur) is Some,
    ensures
        back_tab_target(order, Some(tab_target(order, Some(cur)))) == cur,
{
    lemma_position_found(order, cur);
    let p = position_in(order, cur)->0;
    let n = order.len() as int;
    let q = (p + 1) % n;
    assert(q == if p + 1 == n { 0 } else { p + 1 }) by (nonlinear_arith)
        requires
            q == (p + 1) % n,
            0 <= p < n,
    ;
    let next = order[q];
    assert forall|j: int| 0 <= j < q implies order[j] != next by {
    }
    lemma_position_in(order, next, q);
}

/// Shift+Tab undoes Tab: when Tab has moved the focus from field `id` to
/// the next field and Shift+Tab has moved it on, the form is focused on
/// `id` again, as `focus_field(id)` would leave it (its page shown, its
/// text being edited), with the fields and modified flag of the start.
pub proof fn lemma_back_tab_undoes_tab<G>(
    order: Seq<i32>,
    id: i32,
    s0: FormState<G>,
    s1: FormState<G>,
    s2: FormState<G>,
)
    requires
        forall|i: int, j: int| 0 <= i < j < order.len() ==> order[i] != order[j],
        position_in(order, id) is Some,
        s0.focus() == Some(id),
        s1.focused_from(&s0, tab_target(order, s0.focus())),
        s2.focused_from(&s1, back_tab_target(order, s1.focus())),
    ensures
        s2.focused_from(&s0, id),
{
    lemma_tab_then_back_tab(order, id);
}

proof fn lemma_position_in(ids: Seq<i32>, id: i32, k: int)
    requires
        0 <= k <= ids.len(),
        forall|j: int| 0 <= j < k ==> ids[j] != id,
    ensures
        k < ids.len() && ids[k] == id ==> position_in(ids, id) == Some(k),
        k == ids.len() ==> position_in(ids, id) is None,
    decreases ids.len(),
{
    if k > 0 {
        lemma_position_in(ids.drop_first(), id, k - 1);
    } else if ids.len() > 0 && ids[0] != id {
        lemma_position_in(ids.drop_first(), id, 0);
    }
}

proof fn lemma_index_of_id<G>(fields: Seq<FormFieldInfo<G>>, id: i32, k: int)
    requires
        0 <= k <= fields.len(),
        forall|j: int| 0 <= j < k ==> fields[j].id != id,
    ensures
        k < fields.len() && fields[k].id == id ==> index_of_id(fields, id) == Some(k),
        k == fields.len() ==> index_of_id(fields, id) is None,
    decreases fields.len(),
{
    if k > 0 {
        lemma_index_of_id(fields.drop_first(), id, k - 1);
    } else if fields.len() > 0 && fields[0].id != id {
        lemma_index_of_id(fields.drop_first(), id, 0);
    }
}

/// `f` with another type and value.
pub open spec fn with_type<G>(f: FormFieldInfo<G>, t: FormFieldType) -> FormFieldInfo<G> {
    FormFieldInfo {
        id: f.id,
        page: f.page,
        geometry: f.geometry,
        field_type: t,
        name: f.name,
        read_only: f.read_only,
    }
}

/// Form state manager.
pub struct FormState<G> {
    /// All form fields across all pages.
    fields: Vec<FormFieldInfo<G>>,
    /// Currently focused field ID.
    focused_field: Option<i32>,
    /// Page of the focused field.
    focused_page: usize,
    /// Text being edited, as characters.
    text: Vec<char>,
    /// Cursor position, in characters.
    cursor: usize,
    /// Has the form been modified.
    modified: bool,
    /// Is dropdown picker open.
    dropdown_open: bool,
    /// Selected item in dropdown picker.
    dropdown_selection: usize,
}

/// What a form operation hands back: the field changed and its new value.
pub type FieldChange = Option<(i32, FormFieldValue)>;

impl<G> FormState<G> {
    /// All form fields.
    pub closed spec fn all_fields(&self) -> Seq<FormFieldInfo<G>> {
        self.fields@
    }

    /// The focused field's id.
    pub closed spec fn focus(&self) -> Option<i32> {
        self.focused_field
    }

    /// The page of the focused field.
    pub closed spec fn focus_page(&self) -> usize {
        self.focused_page
    }

    /// The text being edited.
    pub closed spec fn buffer(&self) -> Seq<char> {
        self.text@
    }

    /// The cursor, as a number of characters before it.
    pub closed spec fn cursor(&self) -> nat {
        self.cursor as nat
    }

    /// Whether a value was changed since the fields were loaded.
    pub closed spec fn is_dirty(&self) -> bool {
        self.modified
    }

    /// Whether the dropdown picker is open.
    pub closed spec fn picker_open(&self) -> bool {
        self.dropdown_open
    }

    /// The picker's highlighted item.
    pub closed spec fn picker_selection(&self) -> usize {
        self.dropdown_selection
    }

    /// The cursor lies within the text.
    pub open spec fn well_formed(&self) -> bool {
        self.cursor() <= self.buffer().len()
    }

    /// The focused field, when it exists.
    pub open spec fn focused_spec(&self) -> Option<FormFieldInfo<G>> {
        match self.focus() {
            Some(id) => match index_of_id(self.all_fields(), id) {
                Some(i) => Some(self.all_fields()[i]),
                None => None,
            },
            None => None,
        }
    }

    /// Everything but the text and its cursor is as in `other`.
    pub open spec fn same_but_text(&self, other: &Self) -> bool {
        &&& self.all_fields() == other.all_fields()
        &&& self.focus() == other.focus()
        &&& self.focus_page() == other.focus_page()
        &&& self.is_dirty() == other.is_dirty()
        &&& self.picker_open() == other.picker_open()
        &&& self.picker_selection() == other.picker_selection()
    }

    /// Create new empty form state.
    pub fn new() -> (s: Self)
        ensures
            s.well_formed(),
            s.all_fields() == Seq::<FormFieldInfo<G>>::empty(),
            s.focus() is None,
            s.focus_page() == 0,
            s.buffer() == Seq::<char>::empty(),
            s.cursor() == 0,
            !s.is_dirty(),
            !s.picker_open(),
            s.picker_selection() == 0,
    {
        FormState {
            fields: Vec::new(),
            focused_field: None,
            focused_page: 0,
            text: Vec::new(),
            cursor: 0,
            modified: false,
            dropdown_open: false,
            dropdown_selection: 0,
        }
    }

    /// Add the fields of a page.
    pub fn add_fields(&mut self, fields: Vec<FormFieldInfo<G>>)
        ensures
            final(self).all_fields() == old(self).all_fields() + fields@,
            final(self).focus() == old(self).focus(),
            final(self).buffer() == old(self).buffer(),
            final(self).cursor() == old(self).cursor(),
            final(self).is_dirty() == old(self).is_dirty(),
            final(self).picker_open() == old(self).picker_open(),
    {
        let mut more = fields;
        self.fields.append(&mut more);
    }

    /// All form fields.
    pub fn fields(&self) -> (f: &Vec<FormFieldInfo<G>>)
        ensures
            f@ == self.all_fields(),
    {
        &self.fields
    }

    /// Check if any form fields exist.
    pub fn has_fields(&self) -> (b: bool)
        ensures
            b == (self.all_fields().len() > 0),
    {
        self.fields.len() > 0
    }

    /// The focused field's id.
    pub fn focused_field(&self) -> (f: Option<i32>)
        ensures
            f == self.focus(),
    {
        self.focused_field
    }

    /// Has the form been modified.
    pub fn is_modified(&self) -> (b: bool)
        ensures
            b == self.is_dirty(),
    {
        self.modified
    }

    /// Is the dropdown picker open.
    pub fn is_dropdown_open(&self) -> (b: bool)
        ensures
            b == self.picker_open(),
    {
        self.dropdown_open
    }

    /// The text being edited.
    pub fn text_buffer(&self) -> (s: String)
        ensures
            s@ == self.buffer(),
    {
        crate::text::string_of(self.text.as_slice())
    }

    /// The cursor position, in bytes of the text before it.
    pub fn cursor_pos(&self) -> (n: u128)
        requires
            self.well_formed(),
        ensures
            n == utf8_len_of(self.buffer().take(self.cursor() as int)),
    {
        let mut acc: u128 = 0;
        let mut k: usize = 0;
        proof {
            assert(self.text@.take(0) =~= Seq::<char>::empty());
        }
        while k < self.cursor
            invariant
                self.cursor <= self.text@.len(),
                k <= self.cursor,
                acc == utf8_len_of(self.text@.take(k as int)),
                acc <= 4 * k,
            decreases self.cursor - k,
        {
            proof {
                assert(self.text@.take(k + 1).drop_last() =~= self.text@.take(k as int));
            }
            acc = acc + crate::markup::char_len_utf8(self.text[k]) as u128;
            k = k + 1;
        }
        acc
    }

    /// Position of the first field with id `id`.
    fn find(&self, id: i32) -> (r: Option<usize>)
        ensures
            r is Some <==> index_of_id(self.all_fields(), id) is Some,
            r matches Some(i) ==> index_of_id(self.all_fields(), id) == Some(i as int) && i
                < self.all_fields().len() && self.all_fields()[i as int].id == id,
    {
        let mut k: usize = 0;
        while k < self.fields.len()
            invariant
                k <= self.fields@.len(),
                forall|j: int| 0 <= j < k ==> self.fields@[j].id != id,
            decreases self.fields@.len() - k,
        {
            if self.fields[k].id == id {
                proof {
                    lemma_index_of_id(self.fields@, id, k as int);
                }
                return Some(k);
            }
            k = k + 1;
        }
        proof {
            lemma_index_of_id(self.fields@, id, k as int);
        }
        None
    }

    /// Find a field by ID.
    pub fn field_by_id(&self, id: i32) -> (r: Option<&FormFieldInfo<G>>)
        ensures
            match index_of_id(self.all_fields(), id) {
                Some(i) => r == Some(&self.all_fields()[i]),
                None => r is None,
            },
    {
        match self.find(id) {
            Some(i) => Some(&self.fields[i]),
            None => None,
        }
    }

    /// Get the currently focused field.
    pub fn focused(&self) -> (r: Option<&FormFieldInfo<G>>)
        ensures
            match self.focused_spec() {
                Some(f) => r == Some(&f),
                None => r is None,
            },
    {
        match self.focused_field {
            Some(id) => self.field_by_id(id),
            None => None,
        }
    }

    /// Get fields on a specific page.
    pub fn fields_on_page(&self, page: usize) -> (r: Vec<&FormFieldInfo<G>>)
        ensures
            r@.len() == self.all_fields().filter(|f: FormFieldInfo<G>| f.page == page).len(),
            forall|i: int|
                0 <= i < r@.len() ==> *(#[trigger] r@[i]) == self.all_fields().filter(
                    |f: FormFieldInfo<G>| f.page == page,
                )[i],
    {
        let mut out: Vec<&FormFieldInfo<G>> = Vec::new();
        let mut k: usize = 0;
        let ghost pred = |f: FormFieldInfo<G>| f.page == page;
        proof {
            assert(self.fields@.take(0) =~= Seq::<FormFieldInfo<G>>::empty());
            reveal(Seq::filter);
        }
        while k < self.fields.len()
            invariant
                k <= self.fields@.len(),
                pred == (|f: FormFieldInfo<G>| f.page == page),
                out@.len() == self.fields@.take(k as int).filter(pred).len(),
                forall|i: int|
                    0 <= i < out@.len() ==> *(#[trigger] out@[i]) == self.fields@.take(
                        k as int,
                    ).filter(pred)[i],
            decreases self.fields@.len() - k,
        {
            proof {
                assert(self.fields@.take(k + 1).drop_last() =~= self.fields@.take(k as int));
                reveal(Seq::filter);
            }
            if self.fields[k].page == page {
                out.push(&self.fields[k]);
            }
            k = k + 1;
        }
        proof {
            assert(self.fields@.take(self.fields@.len() as int) =~= self.fields@);
        }
        out
    }

    /// `self` is `before` with the listed field `id` focused: that field's
    /// page is shown, a text field's value is the text being edited with
    /// the cursor at its end (nothing is edited for other fields), the
    /// picker is closed, and the fields and the modified flag are as before.
    pub open spec fn focused_from(&self, before: &Self, id: i32) -> bool {
        let f = before.all_fields()[index_of_id(before.all_fields(), id)->0];
        &&& self.focus() == Some(id)
        &&& self.focus_page() == f.page
        &&& self.buffer() == match f.field_type {
            FormFieldType::Text { value, .. } => value@,
            _ => Seq::<char>::empty(),
        }
        &&& self.cursor() == self.buffer().len()
        &&& !self.picker_open()
        &&& self.picker_selection() == 0
        &&& self.all_fields() == before.all_fields()
        &&& self.is_dirty() == before.is_dirty()
        &&& self.well_formed()
    }

    /// The page of the focused field (the page shown for editing).
    pub fn focused_page(&self) -> (p: usize)
        ensures
            p == self.focus_page(),
    {
        self.focused_page
    }

    /// Focus a field by ID.  A read-only or unknown field takes no focus;
    /// otherwise a text field's value becomes the text being edited, with
    /// the cursor at its end.
    pub fn focus_field(&mut self, id: i32) -> (ok: bool)
        ensures
            ok == (match index_of_id(old(self).all_fields(), id) {
                Some(i) => !old(self).all_fields()[i].read_only,
                None => false,
            }),
            !ok ==> *final(self) == *old(self),
            ok ==> final(self).focused_from(&*old(self), id),
            final(self).well_formed() || *final(self) == *old(self),
    {
        let i = match self.find(id) {
            Some(i) => i,
            None => {
                return false;
            },
        };
        if self.fields[i].read_only {
            return false;
        }
        self.focused_field = Some(id);
        self.focused_page = self.fields[i].page;
        let text = match &self.fields[i].field_type {
            FormFieldType::Text { value, .. } => crate::text::chars_of(value.as_str()),
            _ => Vec::new(),
        };
        self.cursor = text.len();
        self.text = text;
        self.dropdown_open = false;
        self.dropdown_selection = 0;
        true
    }

    /// Commit the text being edited to the focused text field, when it
    /// differs from the field's value; returns the change.
    pub fn commit_current(&mut self) -> (r: FieldChange)
        ensures
            match (old(self).focus(), old(self).focused_spec()) {
                (Some(id), Some(f)) => match f.field_type {
                    FormFieldType::Text { value, max_len, multiline, password } => if value@
                        != old(self).buffer() {
                        let i = index_of_id(old(self).all_fields(), id)->0;
                        &&& r matches Some((rid, FormFieldValue::Text(t))) && rid == id && t@
                            == old(self).buffer()
                        &&& final(self).all_fields().len() == old(self).all_fields().len()
                        &&& final(self).all_fields()[i].field_type matches FormFieldType::Text {
                            value: v2,
                            max_len: m2,
                            multiline: ml2,
                            password: p2,
                        } && v2@ == old(self).buffer() && m2 == max_len && ml2 == multiline && p2
                            == password
                        &&& final(self).all_fields()[i].id == f.id
                        &&& final(self).all_fields()[i].page == f.page
                        &&& final(self).all_fields()[i].geometry == f.geometry
                        &&& final(self).all_fields()[i].name == f.name
                        &&& final(self).all_fields()[i].read_only == f.read_only
                        &&& forall|j: int|
                            0 <= j < old(self).all_fields().len() && j != i
                                ==> final(self).all_fields()[j] == old(self).all_fields()[j]
                        &&& final(self).is_dirty()
                        &&& final(self).focus() == old(self).focus()
                        &&& final(self).buffer() == old(self).buffer()
                        &&& final(self).cursor() == old(self).cursor()
                        &&& final(self).picker_open() == old(self).picker_open()
                    } else {
                        r is None && *final(self) == *old(self)
                    },
                    _ => r is None && *final(self) == *old(self),
                },
                _ => r is None && *final(self) == *old(self),
            },
    {
        let id = match self.focused_field {
            Some(id) => id,
            None => {
                return None;
            },
        };
        let i = match self.find(id) {
            Some(i) => i,
            None => {
                return None;
            },
        };
        let current = self.text_buffer();
        let needs_update = match &self.fields[i].field_type {
            FormFieldType::Text { value, .. } => !crate::text::str_eq(value.as_str(), current.as_str()),
            _ => false,
        };
        if !needs_update {
            return None;
        }
        let mut f = self.fields.remove(i);
        let mut t = FormFieldType::Unknown;
        std::mem::swap(&mut t, &mut f.field_type);
        let updated = match t {
            FormFieldType::Text { value: _, max_len, multiline, password } => FormFieldType::Text {
                value: self.text_buffer(),
                max_len,
                multiline,
                password,
            },
            other => other,
        };
        f.field_type = updated;
        self.fields.insert(i, f);
        self.modified = true;
        Some((id, FormFieldValue::Text(current)))
    }

    /// Unfocus the current field, committing the text first when `commit`.
    pub fn unfocus(&mut self, commit: bool) -> (r: FieldChange)
        ensures
            final(self).focus() is None,
            final(self).buffer() == Seq::<char>::empty(),
            final(self).cursor() == 0,
            !final(self).picker_open(),
            !commit ==> r is None && final(self).all_fields() == old(self).all_fields()
                && final(self).is_dirty() == old(self).is_dirty(),
            final(self).well_formed(),
    {
        let result = if commit {
            self.commit_current()
        } else {
            None
        };
        self.focused_field = None;
        self.text = Vec::new();
        self.cursor = 0;
        self.dropdown_open = false;
        result
    }

    /// Focus the next field in reading order (Tab).  `order` lists the ids
    /// of the editable fields in reading order; after the last comes the
    /// first, and without a focused field (or one not in `order`) the first
    /// is focused.
    pub fn focus_next(&mut self, order: &Vec<i32>) -> (ok: bool)
        ensures
            order@.len() == 0 ==> !ok && *final(self) == *old(self),
            order@.len() > 0 ==> {
                let target = tab_target(order@, old(self).focus());
                ok == (match index_of_id(old(self).all_fields(), target) {
                    Some(i) => !old(self).all_fields()[i].read_only,
                    None => false,
                }) && (ok ==> final(self).focused_from(&*old(self), target)) && (!ok ==> *final(self) == *old(self))
            },
    {
        let n = order.len();
        if n == 0 {
            return false;
        }
        let target = match self.focused_field {
            Some(cur) => match find_id(order, cur) {
                Some(p) => order[(p + 1) % n],
                None => order[0],
            },
            None => order[0],
        };
        self.focus_field(target)
    }

    /// Focus the previous field in reading order (Shift+Tab).  Before the
    /// first comes the last; without a focused field the last is focused,
    /// and with one not in `order` the first.
    pub fn focus_prev(&mut self, order: &Vec<i32>) -> (ok: bool)
        ensures
            order@.len() == 0 ==> !ok && *final(self) == *old(self),
            order@.len() > 0 ==> {
                let target = back_tab_target(order@, old(self).focus());
                ok == (match index_of_id(old(self).all_fields(), target) {
                    Some(i) => !old(self).all_fields()[i].read_only,
                    None => false,
                }) && (ok ==> final(self).focused_from(&*old(self), target)) && (!ok ==> *final(self) == *old(self))
            },
    {
        let n = order.len();
        if n == 0 {
            return false;
        }
        let target = match self.focused_field {
            Some(cur) => match find_id(order, cur) {
                Some(p) => if p == 0 {
                    order[n - 1]
                } else {
                    order[p - 1]
                },
                None => order[0],
            },
            None => order[n - 1],
        };
        self.focus_field(target)
    }

    /// Insert a character at the cursor of a focused text field, unless the
    /// text already has its maximum length in bytes.  Returns whether it
    /// was inserted.
    pub fn insert_char(&mut self, c: char) -> (ok: bool)
        requires
            old(self).well_formed(),
        ensures
            ok == (match old(self).focused_spec() {
                Some(f) => match f.field_type {
                    FormFieldType::Text { max_len, .. } => match max_len {
                        Some(m) => utf8_len_of(old(self).buffer()) < (m as usize),
                        None => true,
                    },
                    _ => false,
                },
                None => false,
            }),
            ok ==> final(self).buffer() == old(self).buffer().insert(old(self).cursor() as int, c)
                && final(self).cursor() == old(self).cursor() + 1,
            !ok ==> *final(self) == *old(self),
            final(self).same_but_text(old(self)),
            final(self).well_formed(),
    {
        let limit = match self.focused() {
            Some(field) => match &field.field_type {
                FormFieldType::Text { max_len, .. } => match max_len {
                    Some(m) => Some(*m as usize),
                    None => None,
                },
                _ => {
                    return false;
                },
            },
            None => {
                return false;
            },
        };
        match limit {
            Some(m) => {
                let len = crate::markup::chars_byte_len(&self.text);
                if len >= m as u128 {
                    return false;
                }
            },
            None => {},
        }
        self.text.insert(self.cursor, c);
        let n = self.text.len();
        assert(self.cursor < n);
        self.cursor = self.cursor + 1;
        true
    }

    /// Delete the character before the cursor.  Returns whether one was.
    pub fn backspace(&mut self) -> (ok: bool)
        requires
            old(self).well_formed(),
        ensures
            ok == (old(self).cursor() > 0),
            ok ==> final(self).buffer() == old(self).buffer().remove(old(self).cursor() - 1)
                && final(self).cursor() == old(self).cursor() - 1,
            !ok ==> *final(self) == *old(self),
            final(self).same_but_text(old(self)),
            final(self).well_formed(),
    {
        if self.cursor > 0 && self.text.len() > 0 {
            self.text.remove(self.cursor - 1);
            self.cursor = self.cursor - 1;
            true
        } else {
            false
        }
    }

    /// Delete the character after the cursor.  Returns whether one was.
    pub fn delete(&mut self) -> (ok: bool)
        requires
            old(self).well_formed(),
        ensures
            ok == (old(self).cursor() < old(self).buffer().len()),
            ok ==> final(self).buffer() == old(self).buffer().remove(old(self).cursor() as int)
                && final(self).cursor() == old(self).cursor(),
            !ok ==> *final(self) == *old(self),
            final(self).same_but_text(old(self)),
            final(self).well_formed(),
    {
        if self.cursor < self.text.len() {
            self.text.remove(self.cursor);
            true
        } else {
            false
        }
    }

    /// Move cursor left by one character.
    pub fn cursor_left(&mut self)
        requires
            old(self).well_formed(),
        ensures
            final(self).cursor() == if old(self).cursor() > 0 {
                old(self).cursor() - 1
            } else {
                0
            },
            final(self).buffer() == old(self).buffer(),
            final(self).same_but_text(old(self)),
            final(self).well_formed(),
    {
        if self.cursor > 0 {
            self.cursor = self.cursor - 1;
        }
    }

    /// Move cursor right by one character.
    pub fn cursor_right(&mut self)
        requires
            old(self).well_formed(),
        ensures
            final(self).cursor() == if old(self).cursor() < old(self).buffer().len() {
                old(self).cursor() + 1
            } else {
                old(self).cursor()
            },
            final(self).buffer() == old(self).buffer(),
            final(self).same_but_text(old(self)),
            final(self).well_formed(),
    {
        if self.cursor < self.text.len() {
            self.cursor = self.cursor + 1;
        }
    }

    /// Move cursor to start.
    pub fn cursor_home(&mut self)
        ensures
            final(self).cursor() == 0,
            final(self).buffer() == old(self).buffer(),
            final(self).same_but_text(old(self)),
            final(self).well_formed(),
    {
        self.cursor = 0;
    }

    /// Move cursor to end.
    pub fn cursor_end(&mut self)
        ensures
            final(self).cursor() == final(self).buffer().len(),
            final(self).buffer() == old(self).buffer(),
            final(self).same_but_text(old(self)),
            final(self).well_formed(),
    {
        self.cursor = self.text.len();
    }

    /// Toggle the focused checkbox, or select the focused radio button;
    /// returns the change.
    pub fn toggle_checkbox(&mut self) -> (r: FieldChange)
        ensures
            match (old(self).focus(), old(self).focused_spec()) {
                (Some(id), Some(f)) => {
                    let i = index_of_id(old(self).all_fields(), id)->0;
                    match f.field_type {
                        FormFieldType::Checkbox { checked } => {
                            &&& r matches Some((rid, FormFieldValue::Boolean(b))) && rid == id && b
                                == !checked
                            &&& final(self).all_fields() == old(self).all_fields().update(
                                i,
                                with_type(f, FormFieldType::Checkbox { checked: !checked }),
                            )
                            &&& final(self).is_dirty()
                        },
                        FormFieldType::RadioButton { group, selected } => {
                            &&& r matches Some((rid, FormFieldValue::Boolean(b))) && rid == id && b
                            &&& final(self).all_fields().len() == old(self).all_fields().len()
                            &&& final(self).all_fields()[i].field_type matches FormFieldType::RadioButton {
                                group: g2,
                                selected: s2,
                            } && g2 == group && s2
                            &&& final(self).is_dirty()
                        },
                        _ => r is None && *final(self) == *old(self),
                    }
                },
                _ => r is None && *final(self) == *old(self),
            },
            final(self).focus() == old(self).focus(),
            final(self).buffer() == old(self).buffer(),
            final(self).cursor() == old(self).cursor(),
            final(self).picker_open() == old(self).picker_open(),
    {
        let id = match self.focused_field {
            Some(id) => id,
            None => {
                return None;
            },
        };
        let i = match self.find(id) {
            Some(i) => i,
            None => {
                return None;
            },
        };
        let is_toggle = match &self.fields[i].field_type {
            FormFieldType::Checkbox { .. } => true,
            FormFieldType::RadioButton { .. } => true,
            _ => false,
        };
        if !is_toggle {
            return None;
        }
        let mut f = self.fields.remove(i);
        let mut t = FormFieldType::Unknown;
        std::mem::swap(&mut t, &mut f.field_type);
        let (updated, value) = match t {
            FormFieldType::Checkbox { checked } => (FormFieldType::Checkbox { checked: !checked }, !checked),
            FormFieldType::RadioButton { group, selected: _ } => (
                FormFieldType::RadioButton { group, selected: true },
                true,
            ),
            other => (other, false),
        };
        f.field_type = updated;
        self.fields.insert(i, f);
        self.modified = true;
        Some((id, FormFieldValue::Boolean(value)))
    }

    /// Select item `index` of the focused dropdown; returns the change.
    pub fn select_dropdown_item(&mut self, index: i32) -> (r: FieldChange)
        ensures
            match (old(self).focus(), old(self).focused_spec()) {
                (Some(id), Some(f)) => match f.field_type {
                    FormFieldType::Dropdown { items, selected, editable } => if 0 <= index
                        < items@.len() {
                        let i = index_of_id(old(self).all_fields(), id)->0;
                        &&& r matches Some((rid, FormFieldValue::ChoiceIndex(k))) && rid == id && k
                            == index
                        &&& final(self).all_fields().len() == old(self).all_fields().len()
                        &&& final(self).all_fields()[i].field_type matches FormFieldType::Dropdown {
                            items: it2,
                            selected: s2,
                            editable: e2,
                        } && it2@ == items@ && s2 == Some(index) && e2 == editable
                        &&& final(self).is_dirty()
                        &&& !final(self).picker_open()
                    } else {
                        r is None && *final(self) == *old(self)
                    },
                    _ => r is None && *final(self) == *old(self),
                },
                _ => r is None && *final(self) == *old(self),
            },
            final(self).focus() == old(self).focus(),
            final(self).buffer() == old(self).buffer(),
            final(self).cursor() == old(self).cursor(),
    {
        let id = match self.focused_field {
            Some(id) => id,
            None => {
                return None;
            },
        };
        let i = match self.find(id) {
            Some(i) => i,
            None => {
                return None;
            },
        };
        let ok = match &self.fields[i].field_type {
            FormFieldType::Dropdown { items, .. } => index >= 0 && (index as usize) < items.len(),
            _ => false,
        };
        if !ok {
            return None;
        }
        let mut f = self.fields.remove(i);
        let mut t = FormFieldType::Unknown;
        std::mem::swap(&mut t, &mut f.field_type);
        let updated = match t {
            FormFieldType::Dropdown { items, selected: _, editable } => FormFieldType::Dropdown {
                items,
                selected: Some(index),
                editable,
            },
            other => other,
        };
        f.field_type = updated;
        self.fields.insert(i, f);
        self.modified = true;
        self.dropdown_open = false;
        Some((id, FormFieldValue::ChoiceIndex(index)))
    }

    /// Open or close the picker of the focused dropdown.
    pub fn toggle_dropdown(&mut self)
        ensures
            (old(self).focused_spec() matches Some(f) && f.field_type is Dropdown) ==> {
                &&& final(self).picker_open() == !old(self).picker_open()
                &&& final(self).picker_selection() == 0
            },
            !(old(self).focused_spec() matches Some(f) && f.field_type is Dropdown) ==> *final(self)
                == *old(self),
            final(self).all_fields() == old(self).all_fields(),
            final(self).focus() == old(self).focus(),
            final(self).buffer() == old(self).buffer(),
            final(self).cursor() == old(self).cursor(),
            final(self).is_dirty() == old(self).is_dirty(),
    {
        let is_dropdown = match self.focused() {
            Some(field) => match &field.field_type {
                FormFieldType::Dropdown { .. } => true,
                _ => false,
            },
            None => false,
        };
        if is_dropdown {
            self.dropdown_open = !self.dropdown_open;
            self.dropdown_selection = 0;
        }
    }
}

/// Position of the first occurrence of `id` in `ids`.
fn find_id(ids: &Vec<i32>, id: i32) -> (r: Option<usize>)
    ensures
        r is Some <==> position_in(ids@, id) is Some,
        r matches Some(p) ==> position_in(ids@, id) == Some(p as int) && p < ids@.len(),
{
    let mut k: usize = 0;
    while k < ids.len()
        invariant
            k <= ids@.len(),
            forall|j: int| 0 <= j < k ==> ids@[j] != id,
        decreases ids@.len() - k,
    {
        if ids[k] == id {
            proof {
                lemma_position_in(ids@, id, k as int);
            }
            return Some(k);
        }
        k = k + 1;
    }
    proof {
        lemma_position_in(ids@, id, k as int);
    }
    None
}

/// A backspace right after typing a character takes it out again: the
/// text and the cursor are as before.
pub proof fn lemma_backspace_undoes_insert<G>(s0: FormState<G>, c: char, s1: FormState<G>, s2: FormState<G>)
    requires
        s0.well_formed(),
        s1.buffer() == s0.buffer().insert(s0.cursor() as int, c),
        s1.cursor() == s0.cursor() + 1,
        s2.buffer() == s1.buffer().remove(s1.cursor() - 1),
        s2.cursor() == s1.cursor() - 1,
    ensures
        s2.buffer() == s0.buffer(),
        s2.cursor() == s0.cursor(),
{
    assert(s0.buffer().insert(s0.cursor() as int, c).remove(s0.cursor() as int) =~= s0.buffer());
}

/// A delete right after moving left over a typed character takes it out
/// again: the text is as before and the cursor where the character went.
pub proof fn lemma_delete_undoes_insert<G>(s0: FormState<G>, c: char, s1: FormState<G>, s2: FormState<G>)
    requires
        s0.well_formed(),
        s1.buffer() == s0.buffer().insert(s0.cursor() as int, c),
        s2.buffer() == s1.buffer().remove(s0.cursor() as int),
    ensures
        s2.buffer() == s0.buffer(),
{
    assert(s0.buffer().insert(s0.cursor() as int, c).remove(s0.cursor() as int) =~= s0.buffer());
}

/// Committing a text field right after focusing it, with nothing typed,
/// changes nothing: the text being edited is the field's value.
pub proof fn lemma_commit_after_focus_is_noop<G>(s0: FormState<G>, id: i32, s1: FormState<G>)
    requires
        index_of_id(s0.all_fields(), id) matches Some(i) && !s0.all_fields()[i].read_only,
        s1.focus() == Some(id),
        s1.all_fields() == s0.all_fields(),
        s1.buffer() == match s0.all_fields()[index_of_id(s0.all_fields(), id)->0].field_type {
            FormFieldType::Text { value, .. } => value@,
            _ => Seq::<char>::empty(),
        },
    ensures
        s1.focused_spec() matches Some(f) && (f.field_type matches FormFieldType::Text { value, .. }
            ==> value@ == s1.buffer()),
{
}

} // verus!
