//! What a key press does in the viewer window.
//!
//! Keys go to the first layer that takes them: annotation mode, a focused
//! form field, the search bar, the recent-files panel, the properties
//! panel, the go-to-page dialog, then the window-wide shortcuts, and last
//! the keys of the image view or of the gallery.  The dialogs' own state
//! (what is typed, which entry is selected) lives here; everything else is
//! described to the decision by `KeyFacts` and carried out by the caller
//! from the `KeyAction` it gets back.
use vstd::prelude::*;
use crate::gallery::ViewMode;
use crate::markup::{digit_of, digits_value, lemma_digits_prefix};
use crate::text::string_of;
use crate::tools::ToolType;
use crate::viewer::DocumentViewMode;

verus! {

/// A key as the window reports it.
#[derive(Debug, Clone, Copy, PartialEq, Eq, Structural)]
pub enum KeyInput {
    Return,
    Escape,
    Backspace,
    Delete,
    Left,
    Right,
    Home,
    End,
    Space,
    Char(char),
    Tab,
    Up,
    Down,
    PageUp,
    PageDown,
    F3,
    F7,
    F11,
    Other,
}

/// The modifier keys held with a key.
#[derive(Debug, Clone, Copy, PartialEq, Eq, Structural)]
pub struct Modifiers {
    pub ctrl: bool,
    pub shift: bool,
    pub alt: bool,
    pub logo: bool,
}

impl Modifiers {
    /// No modifier held.
    pub open spec fn none_held(&self) -> bool {
        !self.ctrl && !self.shift && !self.alt && !self.logo
    }

    /// Whether no modifier is held.
    pub fn is_empty(&self) -> (b: bool)
        ensures
            b == self.none_held(),
    {
        !self.ctrl && !self.shift && !self.alt && !self.logo
    }
}

/// What the rest of the window tells the key decision.
#[derive(Debug, Clone, Copy, PartialEq, Eq, Structural)]
pub struct KeyFacts {
    /// Annotation mode is on.
    pub annotation_mode: bool,
    /// A form field has the focus.
    pub form_focused: bool,
    /// Text is selected, or a selection is being made.
    pub has_selection: bool,
    /// The last search found something.
    pub has_search_results: bool,
    /// The document can be searched.
    pub supports_search: bool,
    /// The document has several pages.
    pub multipage: bool,
    /// Its number of pages.
    pub page_count: usize,
    /// The number of recent files.
    pub recent_count: usize,
    /// A form field was changed since the document was saved.
    pub form_modified: bool,
    /// The image view or the gallery is shown.
    pub mode: ViewMode,
}

/// A key in annotation mode.
#[derive(Debug, Clone, Copy, PartialEq, Eq, Structural)]
pub enum AnnotationCommand {
    /// Leave annotation mode, dropping what was drawn.
    Exit,
    SelectTool(ToolType),
    /// Pick preset color `0..=8`.
    ColorPreset(usize),
    WiderLine,
    NarrowerLine,
    ToggleFill,
    Undo,
    Redo,
    /// Save the annotated image.
    Save,
    ClearAll,
    /// Nothing but a redraw.
    Nothing,
}

/// A key for the focused form field.
#[derive(Debug, Clone, Copy, PartialEq, Eq, Structural)]
pub enum FormCommand {
    /// Leave the field, keeping (`true`) or dropping the edit.
    Unfocus(bool),
    /// Commit the field and focus the previous (`true`) or next field.
    Advance(bool),
    Backspace,
    Delete,
    CursorLeft,
    CursorRight,
    CursorHome,
    CursorEnd,
    /// Toggle a check box or radio button, or type a space.
    Space,
    Insert(char),
}

/// A key in the image view.
#[derive(Debug, Clone, Copy, PartialEq, Eq, Structural)]
pub enum ImageCommand {
    ZoomIn,
    ZoomOut,
    ZoomActual,
    ZoomFit,
    ZoomFill,
    NextImage,
    PrevImage,
    RotateCw,
    RotateCcw,
    FlipHorizontal,
    FlipVertical,
    CycleViewMode,
    ScrollUp,
    ScrollDown,
    ToggleSlideshow,
    ShorterInterval,
    LongerInterval,
    NextPage,
    PrevPage,
    FirstPage,
    LastPage,
    SetViewMode(DocumentViewMode),
}

/// A key in the gallery.
#[derive(Debug, Clone, Copy, PartialEq, Eq, Structural)]
pub enum GalleryCommand {
    SelectNext,
    SelectPrev,
    SelectDown,
    SelectUp,
    OpenSelected,
    CycleSort,
    ReverseSort,
}

/// What the caller does after a key.
#[derive(Debug, Clone, Copy, PartialEq, Eq, Structural)]
pub enum KeyAction {
    /// The key is ignored.
    Nothing,
    /// Only the window is redrawn.
    Redraw,
    /// Save the session and close.
    Quit,
    ClearSelection,
    ClearSearch,
    /// Search for the text typed in the search bar.
    RunSearch,
    /// Ask for a file to open (the recent-files panel was closed).
    OpenFileDialog,
    /// Open recent file number `i`, most recent first.
    OpenRecent(usize),
    /// Forget recent file number `i`.
    RemoveRecent(usize),
    /// Show page `i`, counted from 0.
    GotoPage(usize),
    CopyText,
    CopyImage,
    SaveDocument,
    ToggleFullscreen,
    ToggleSidebar,
    ToggleAnnotation,
    ToggleViewMode,
    SearchNext,
    SearchPrev,
    Annotation(AnnotationCommand),
    Form(FormCommand),
    Image(ImageCommand),
    Gallery(GalleryCommand),
}

/// The dialogs' state as values.
pub struct DialogState {
    pub search_active: bool,
    pub search_input: Seq<char>,
    pub recent_active: bool,
    pub recent_selected: usize,
    pub properties_active: bool,
    pub goto_active: bool,
    pub goto_input: Seq<char>,
}

/// The tool a key selects in annotation mode.
pub open spec fn tool_for_key(c: char) -> Option<ToolType> {
    if c == 'b' {
        Some(ToolType::Brush)
    } else if c == 'l' {
        Some(ToolType::Line)
    } else if c == 'a' {
        Some(ToolType::Arrow)
    } else if c == 'r' {
        Some(ToolType::Rectangle)
    } else if c == 'e' {
        Some(ToolType::Ellipse)
    } else if c == 't' {
        Some(ToolType::Text)
    } else if c == 'x' {
        Some(ToolType::Blur)
    } else if c == 'h' {
        Some(ToolType::Highlight)
    } else {
        None
    }
}

/// What a key does in annotation mode.
pub open spec fn annotation_key(k: KeyInput, m: Modifiers) -> AnnotationCommand {
    match k {
        KeyInput::Escape => AnnotationCommand::Exit,
        KeyInput::Char(c) => if tool_for_key(c) is Some {
            AnnotationCommand::SelectTool(tool_for_key(c)->0)
        } else if '1' <= c && c <= '9' {
            AnnotationCommand::ColorPreset((c as int - '1' as int) as usize)
        } else if c == '+' || c == '=' {
            AnnotationCommand::WiderLine
        } else if c == '-' {
            AnnotationCommand::NarrowerLine
        } else if c == 'f' {
            AnnotationCommand::ToggleFill
        } else if c == 'z' && m.ctrl {
            if m.shift {
                AnnotationCommand::Redo
            } else {
                AnnotationCommand::Undo
            }
        } else if c == 'y' && m.ctrl {
            AnnotationCommand::Redo
        } else if c == 's' && m.ctrl {
            AnnotationCommand::Save
        } else if c == 'c' && m.ctrl && m.shift {
            AnnotationCommand::ClearAll
        } else {
            AnnotationCommand::Nothing
        },
        KeyInput::Delete => if m.ctrl && m.shift {
            AnnotationCommand::ClearAll
        } else {
            AnnotationCommand::Nothing
        },
        _ => AnnotationCommand::Nothing,
    }
}

/// What a key does to the focused form field (`None`: ignored).
pub open spec fn form_key(k: KeyInput, m: Modifiers) -> Option<FormCommand> {
    match k {
        KeyInput::Escape => Some(FormCommand::Unfocus(false)),
        KeyInput::Return => Some(FormCommand::Unfocus(true)),
        KeyInput::Tab => Some(FormCommand::Advance(m.shift)),
        KeyInput::Backspace => Some(FormCommand::Backspace),
        KeyInput::Delete => Some(FormCommand::Delete),
        KeyInput::Left => Some(FormCommand::CursorLeft),
        KeyInput::Right => Some(FormCommand::CursorRight),
        KeyInput::Home => Some(FormCommand::CursorHome),
        KeyInput::End => Some(FormCommand::CursorEnd),
        KeyInput::Space => Some(FormCommand::Space),
        KeyInput::Char(c) => Some(FormCommand::Insert(c)),
        _ => None,
    }
}

/// What a key does in the image view (`None`: ignored).
pub open spec fn image_key(k: KeyInput, m: Modifiers, multipage: bool) -> Option<ImageCommand> {
    match k {
        KeyInput::Char(c) => if c == '+' || c == '=' {
            Some(ImageCommand::ZoomIn)
        } else if c == '-' {
            Some(ImageCommand::ZoomOut)
        } else if c == '0' {
            Some(ImageCommand::ZoomActual)
        } else if c == 'f' {
            Some(ImageCommand::ZoomFit)
        } else if c == 'F' {
            Some(ImageCommand::ZoomFill)
        } else if c == 'n' {
            Some(ImageCommand::NextImage)
        } else if c == 'p' {
            Some(ImageCommand::PrevImage)
        } else if c == 'r' {
            Some(ImageCommand::RotateCw)
        } else if c == 'R' {
            Some(ImageCommand::RotateCcw)
        } else if c == 'h' {
            Some(ImageCommand::FlipHorizontal)
        } else if c == 'v' {
            Some(ImageCommand::FlipVertical)
        } else if c == 'V' {
            if multipage {
                Some(ImageCommand::CycleViewMode)
            } else {
                None
            }
        } else if c == 's' {
            Some(ImageCommand::ToggleSlideshow)
        } else if c == '[' {
            Some(ImageCommand::ShorterInterval)
        } else if c == ']' {
            Some(ImageCommand::LongerInterval)
        } else if c == '1' {
            Some(ImageCommand::SetViewMode(DocumentViewMode::SinglePage))
        } else if c == '2' {
            Some(ImageCommand::SetViewMode(DocumentViewMode::Continuous))
        } else if c == '3' {
            Some(ImageCommand::SetViewMode(DocumentViewMode::DualPage))
        } else {
            None
        },
        KeyInput::Right | KeyInput::Space => Some(ImageCommand::NextImage),
        KeyInput::Left => Some(ImageCommand::PrevImage),
        KeyInput::Up => if m.none_held() {
            Some(ImageCommand::ScrollUp)
        } else {
            None
        },
        KeyInput::Down => if m.none_held() {
            Some(ImageCommand::ScrollDown)
        } else {
            None
        },
        KeyInput::PageDown => Some(ImageCommand::NextPage),
        KeyInput::PageUp => Some(ImageCommand::PrevPage),
        KeyInput::Home => Some(ImageCommand::FirstPage),
        KeyInput::End => Some(ImageCommand::LastPage),
        _ => None,
    }
}

/// What a key does in the gallery (`None`: ignored).
pub open spec fn gallery_key(k: KeyInput) -> Option<GalleryCommand> {
    match k {
        KeyInput::Right => Some(GalleryCommand::SelectNext),
        KeyInput::Left => Some(GalleryCommand::SelectPrev),
        KeyInput::Down => Some(GalleryCommand::SelectDown),
        KeyInput::Up => Some(GalleryCommand::SelectUp),
        KeyInput::Return | KeyInput::Space => Some(GalleryCommand::OpenSelected),
        KeyInput::Char(c) => if c == 'l' {
            Some(GalleryCommand::SelectNext)
        } else if c == 'h' {
            Some(GalleryCommand::SelectPrev)
        } else if c == 'j' {
            Some(GalleryCommand::SelectDown)
        } else if c == 'k' {
            Some(GalleryCommand::SelectUp)
        } else if c == 's' {
            Some(GalleryCommand::CycleSort)
        } else if c == 'S' {
            Some(GalleryCommand::ReverseSort)
        } else {
            None
        },
        _ => None,
    }
}

/// The page the go-to dialog's input names, counted from 0, when it is a
/// number from 1 to `page_count`.
pub open spec fn goto_target(input: Seq<char>, page_count: usize) -> Option<usize> {
    if input.len() == 0 {
        None
    } else {
        match digits_value(input, 10) {
            Some(v) => if 1 <= v && v <= page_count {
                Some((v - 1) as usize)
            } else {
                None
            },
            None => None,
        }
    }
}

/// The recent-files panel's selection once entry `index` is gone from a
/// list of `count` entries.
pub open spec fn selection_after_removal(selected: usize, index: usize, count: usize) -> usize {
    let left: usize = if index < count {
        (count - 1) as usize
    } else {
        count
    };
    if selected > left {
        left
    } else {
        selected
    }
}

/// A key that no dialog takes: the window-wide shortcuts, then the keys
/// of the current view.
pub open spec fn window_key(s: DialogState, k: KeyInput, m: Modifiers, f: KeyFacts) -> (
    DialogState,
    KeyAction,
) {
    let view_key = match f.mode {
        ViewMode::Image => match image_key(k, m, f.multipage) {
            Some(c) => KeyAction::Image(c),
            None => KeyAction::Nothing,
        },
        ViewMode::Gallery => match gallery_key(k) {
            Some(c) => KeyAction::Gallery(c),
            None => KeyAction::Nothing,
        },
    };
    match k {
        KeyInput::Escape => (s, if f.has_selection {
            KeyAction::ClearSelection
        } else if f.has_search_results {
            KeyAction::ClearSearch
        } else {
            KeyAction::Quit
        }),
        KeyInput::F11 => (s, KeyAction::ToggleFullscreen),
        KeyInput::F7 => (s, KeyAction::ToggleSidebar),
        KeyInput::Tab => (s, KeyAction::ToggleViewMode),
        KeyInput::F3 => if f.has_search_results {
            (s, if m.shift {
                KeyAction::SearchPrev
            } else {
                KeyAction::SearchNext
            })
        } else {
            (s, view_key)
        },
        KeyInput::Char(c) => if c == 'q' {
            (s, KeyAction::Quit)
        } else if c == 'c' && m.ctrl && !m.shift {
            (s, KeyAction::CopyText)
        } else if c == 'C' && m.ctrl && m.shift {
            (s, KeyAction::CopyImage)
        } else if c == 's' && m.ctrl {
            (s, if f.form_modified {
                KeyAction::SaveDocument
            } else {
                KeyAction::Nothing
            })
        } else if c == 'f' && m.ctrl {
            if f.supports_search {
                (DialogState { search_active: true, search_input: Seq::empty(), ..s }, KeyAction::Redraw)
            } else {
                (s, KeyAction::Nothing)
            }
        } else if c == 'g' && m.ctrl {
            if f.multipage {
                (DialogState { goto_active: true, goto_input: Seq::empty(), ..s }, KeyAction::Redraw)
            } else {
                (s, KeyAction::Nothing)
            }
        } else if c == 'r' && m.ctrl {
            (
                DialogState { recent_active: !s.recent_active, recent_selected: 0, ..s },
                KeyAction::Redraw,
            )
        } else if c == 'i' && m.ctrl {
            (DialogState { properties_active: !s.properties_active, ..s }, KeyAction::Redraw)
        } else if c == 'a' && m.ctrl {
            (s, KeyAction::ToggleAnnotation)
        } else if c == 'g' {
            (s, KeyAction::ToggleViewMode)
        } else if c == 'n' && f.has_search_results {
            (s, if m.shift {
                KeyAction::SearchPrev
            } else {
                KeyAction::SearchNext
            })
        } else if c == 'N' && f.has_search_results {
            (s, KeyAction::SearchPrev)
        } else {
            (s, view_key)
        },
        _ => (s, view_key),
    }
}

/// What a key does: the dialogs' new state and the caller's action.
pub open spec fn key_step(s: DialogState, k: KeyInput, m: Modifiers, f: KeyFacts) -> (
    DialogState,
    KeyAction,
) {
    if f.annotation_mode {
        (s, KeyAction::Annotation(annotation_key(k, m)))
    } else if f.form_focused {
        (s, match form_key(k, m) {
            Some(c) => KeyAction::Form(c),
            None => KeyAction::Nothing,
        })
    } else if s.search_active {
        match k {
            KeyInput::Escape => (DialogState { search_active: false, ..s }, KeyAction::ClearSearch),
            KeyInput::Return => (DialogState { search_active: false, ..s }, KeyAction::RunSearch),
            KeyInput::Backspace => (
                DialogState {
                    search_input: if s.search_input.len() > 0 {
                        s.search_input.drop_last()
                    } else {
                        s.search_input
                    },
                    ..s
                },
                KeyAction::Redraw,
            ),
            KeyInput::Char(c) => (
                DialogState { search_input: s.search_input.push(c), ..s },
                KeyAction::Redraw,
            ),
            _ => (s, KeyAction::Nothing),
        }
    } else if s.recent_active {
        match k {
            KeyInput::Escape => (DialogState { recent_active: false, ..s }, KeyAction::Redraw),
            KeyInput::Return => (
                DialogState { recent_active: false, ..s },
                if s.recent_selected == 0 {
                    KeyAction::OpenFileDialog
                } else {
                    KeyAction::OpenRecent((s.recent_selected - 1) as usize)
                },
            ),
            KeyInput::Up | KeyInput::Char('k') => (
                DialogState {
                    recent_selected: if s.recent_selected > 0 {
                        (s.recent_selected - 1) as usize
                    } else {
                        s.recent_selected
                    },
                    ..s
                },
                KeyAction::Redraw,
            ),
            KeyInput::Down | KeyInput::Char('j') => (
                DialogState {
                    recent_selected: if s.recent_selected < f.recent_count {
                        (s.recent_selected + 1) as usize
                    } else {
                        s.recent_selected
                    },
                    ..s
                },
                KeyAction::Redraw,
            ),
            KeyInput::Backspace | KeyInput::Char('d') => if s.recent_selected > 0 {
                let i = (s.recent_selected - 1) as usize;
                (
                    DialogState {
                        recent_selected: selection_after_removal(
                            s.recent_selected,
                            i,
                            f.recent_count,
                        ),
                        ..s
                    },
                    KeyAction::RemoveRecent(i),
                )
            } else {
                (s, KeyAction::Redraw)
            },
            _ => (s, KeyAction::Nothing),
        }
    } else if s.properties_active {
        if m.ctrl && (k == KeyInput::Escape || k == KeyInput::Return || k == KeyInput::Char('i')) {
            (DialogState { properties_active: false, ..s }, KeyAction::Redraw)
        } else {
            (s, KeyAction::Nothing)
        }
    } else if s.goto_active {
        match k {
            KeyInput::Escape => (DialogState { goto_active: false, ..s }, KeyAction::Redraw),
            KeyInput::Return => (
                DialogState { goto_active: false, ..s },
                match goto_target(s.goto_input, f.page_count) {
                    Some(p) => KeyAction::GotoPage(p),
                    None => KeyAction::Redraw,
                },
            ),
            KeyInput::Backspace => (
                DialogState {
                    goto_input: if s.goto_input.len() > 0 {
                        s.goto_input.drop_last()
                    } else {
                        s.goto_input
                    },
                    ..s
                },
                KeyAction::Redraw,
            ),
            KeyInput::Char(c) => if '0' <= c && c <= '9' {
                (DialogState { goto_input: s.goto_input.push(c), ..s }, KeyAction::Redraw)
            } else {
                (s, KeyAction::Nothing)
            },
            _ => (s, KeyAction::Nothing),
        }
    } else {
        window_key(s, k, m, f)
    }
}


/// In annotation mode every key goes to the annotation tools: the dialogs
/// stay as they are.
pub proof fn lemma_annotation_mode_takes_keys(s: DialogState, k: KeyInput, m: Modifiers, f: KeyFacts)
    requires
        f.annotation_mode,
    ensures
        key_step(s, k, m, f).0 == s,
        key_step(s, k, m, f).1 is Annotation,
{
}

/// The recent-files selection stays on a line of the panel ("Open
/// File..." and one line per recent file), also after a file is removed,
/// and a file opened from the panel is one of the recent files.
pub proof fn lemma_recent_selection_in_range(s: DialogState, k: KeyInput, m: Modifiers, f: KeyFacts)
    requires
        s.recent_selected <= f.recent_count,
    ensures
        ({
            let (t, a) = key_step(s, k, m, f);
            &&& t.recent_selected <= (if a is RemoveRecent {
                f.recent_count - 1
            } else {
                f.recent_count as int
            })
            &&& (a matches KeyAction::OpenRecent(i) ==> i < f.recent_count)
            &&& (a matches KeyAction::RemoveRecent(i) ==> i < f.recent_count)
        }),
{
}

/// The go-to-page dialog only ever names an existing page, and Return
/// closes it whatever was typed.
pub proof fn lemma_goto_names_existing_page(s: DialogState, k: KeyInput, m: Modifiers, f: KeyFacts)
    ensures
        key_step(s, k, m, f).1 matches KeyAction::GotoPage(p) ==> p < f.page_count,
        (!f.annotation_mode && !f.form_focused && !s.search_active && !s.recent_active
            && !s.properties_active && s.goto_active && k == KeyInput::Return) ==> !key_step(
            s,
            k,
            m,
            f,
        ).0.goto_active,
{
}

/// Typing the number `n` in the go-to dialog names page `n` counted from
/// one (so index `n - 1`) when the document has that page, and no page
/// for 0 or past the last page.
pub proof fn lemma_goto_target_numbers(n: nat, page_count: usize)
    ensures
        1 <= n <= page_count ==> goto_target(crate::text::decimal(n), page_count) == Some(
            (n - 1) as usize,
        ),
        (n == 0 || n > page_count) ==> goto_target(crate::text::decimal(n), page_count) is None,
{
    crate::markup::lemma_decimal_reads_back(n);
}

/// A character typed in the search bar and then erased with Backspace
/// leaves the search bar as it was.
pub proof fn lemma_search_backspace_undoes_char(s: DialogState, c: char, m: Modifiers, f: KeyFacts)
    requires
        !f.annotation_mode,
        !f.form_focused,
        s.search_active,
    ensures
        key_step(key_step(s, KeyInput::Char(c), m, f).0, KeyInput::Backspace, m, f).0 == s,
{
    let t = key_step(s, KeyInput::Char(c), m, f).0;
    assert(t.search_input.drop_last() =~= s.search_input);
}

/// Ctrl+I opens the properties panel and Ctrl+I closes it again.
pub proof fn lemma_properties_toggle(s: DialogState, m: Modifiers, f: KeyFacts)
    requires
        !f.annotation_mode,
        !f.form_focused,
        !s.search_active,
        !s.recent_active,
        !s.properties_active,
        !s.goto_active,
        m.ctrl,
    ensures
        key_step(s, KeyInput::Char('i'), m, f).0.properties_active,
        key_step(key_step(s, KeyInput::Char('i'), m, f).0, KeyInput::Char('i'), m, f).0 == s,
{
}


/// The keys of the image view: `+`/`=` zoom in, `-` out, `0` to one to one,
/// `f` fit, `F` fill; Right, Space and `n` the next image, Left and `p` the
/// previous; `r` turns clockwise, `R` back; `h` and `v` mirror; `V` cycles
/// the view mode of a multi-page document; Up and Down without modifiers
/// scroll; `s` starts or stops the slideshow, `[` and `]` shorten and
/// lengthen its interval; Page Down and Page Up go to the next and previous
/// page, Home and End to the first and last; `1`, `2`, `3` pick single
/// page, continuous and dual page.  No other key does anything there.
pub proof fn lemma_image_keys(m: Modifiers, mp: bool)
    ensures
        image_key(KeyInput::Char('+'), m, mp) == Some(ImageCommand::ZoomIn),
        image_key(KeyInput::Char('='), m, mp) == Some(ImageCommand::ZoomIn),
        image_key(KeyInput::Char('-'), m, mp) == Some(ImageCommand::ZoomOut),
        image_key(KeyInput::Char('0'), m, mp) == Some(ImageCommand::ZoomActual),
        image_key(KeyInput::Char('f'), m, mp) == Some(ImageCommand::ZoomFit),
        image_key(KeyInput::Char('F'), m, mp) == Some(ImageCommand::ZoomFill),
        image_key(KeyInput::Right, m, mp) == Some(ImageCommand::NextImage),
        image_key(KeyInput::Space, m, mp) == Some(ImageCommand::NextImage),
        image_key(KeyInput::Char('n'), m, mp) == Some(ImageCommand::NextImage),
        image_key(KeyInput::Left, m, mp) == Some(ImageCommand::PrevImage),
        image_key(KeyInput::Char('p'), m, mp) == Some(ImageCommand::PrevImage),
        image_key(KeyInput::Char('r'), m, mp) == Some(ImageCommand::RotateCw),
        image_key(KeyInput::Char('R'), m, mp) == Some(ImageCommand::RotateCcw),
        image_key(KeyInput::Char('h'), m, mp) == Some(ImageCommand::FlipHorizontal),
        image_key(KeyInput::Char('v'), m, mp) == Some(ImageCommand::FlipVertical),
        image_key(KeyInput::Char('V'), m, mp) == if mp {
            Some(ImageCommand::CycleViewMode)
        } else {
            None
        },
        image_key(KeyInput::Up, m, mp) == if !m.ctrl && !m.shift && !m.alt && !m.logo {
            Some(ImageCommand::ScrollUp)
        } else {
            None
        },
        image_key(KeyInput::Down, m, mp) == if !m.ctrl && !m.shift && !m.alt && !m.logo {
            Some(ImageCommand::ScrollDown)
        } else {
            None
        },
        image_key(KeyInput::Char('s'), m, mp) == Some(ImageCommand::ToggleSlideshow),
        image_key(KeyInput::Char('['), m, mp) == Some(ImageCommand::ShorterInterval),
        image_key(KeyInput::Char(']'), m, mp) == Some(ImageCommand::LongerInterval),
        image_key(KeyInput::PageDown, m, mp) == Some(ImageCommand::NextPage),
        image_key(KeyInput::PageUp, m, mp) == Some(ImageCommand::PrevPage),
        image_key(KeyInput::Home, m, mp) == Some(ImageCommand::FirstPage),
        image_key(KeyInput::End, m, mp) == Some(ImageCommand::LastPage),
        image_key(KeyInput::Char('1'), m, mp) == Some(
            ImageCommand::SetViewMode(DocumentViewMode::SinglePage),
        ),
        image_key(KeyInput::Char('2'), m, mp) == Some(
            ImageCommand::SetViewMode(DocumentViewMode::Continuous),
        ),
        image_key(KeyInput::Char('3'), m, mp) == Some(
            ImageCommand::SetViewMode(DocumentViewMode::DualPage),
        ),
        forall|c: char|
            (#[trigger] image_key(KeyInput::Char(c), m, mp)) is Some ==> c == '+' || c == '=' || c
                == '-' || c == '0' || c == 'f' || c == 'F' || c == 'n' || c == 'p' || c == 'r' || c
                == 'R' || c == 'h' || c == 'v' || c == 'V' || c == 's' || c == '[' || c == ']' || c
                == '1' || c == '2' || c == '3',
        image_key(KeyInput::Return, m, mp) is None,
        image_key(KeyInput::Escape, m, mp) is None,
        image_key(KeyInput::Tab, m, mp) is None,
        image_key(KeyInput::Backspace, m, mp) is None,
        image_key(KeyInput::Delete, m, mp) is None,
{
}

/// The keys of the gallery: Right and `l` select the next file, Left and
/// `h` the previous, Down and `j` the one below, Up and `k` the one above;
/// Return and Space open the selection; `s` switches to the next kind of
/// order and `S` reverses the order.  No other key does anything there.
pub proof fn lemma_gallery_keys()
    ensures
        gallery_key(KeyInput::Right) == Some(GalleryCommand::SelectNext),
        gallery_key(KeyInput::Char('l')) == Some(GalleryCommand::SelectNext),
        gallery_key(KeyInput::Left) == Some(GalleryCommand::SelectPrev),
        gallery_key(KeyInput::Char('h')) == Some(GalleryCommand::SelectPrev),
        gallery_key(KeyInput::Down) == Some(GalleryCommand::SelectDown),
        gallery_key(KeyInput::Char('j')) == Some(GalleryCommand::SelectDown),
        gallery_key(KeyInput::Up) == Some(GalleryCommand::SelectUp),
        gallery_key(KeyInput::Char('k')) == Some(GalleryCommand::SelectUp),
        gallery_key(KeyInput::Return) == Some(GalleryCommand::OpenSelected),
        gallery_key(KeyInput::Space) == Some(GalleryCommand::OpenSelected),
        gallery_key(KeyInput::Char('s')) == Some(GalleryCommand::CycleSort),
        gallery_key(KeyInput::Char('S')) == Some(GalleryCommand::ReverseSort),
        forall|c: char|
            (#[trigger] gallery_key(KeyInput::Char(c))) is Some ==> c == 'l' || c == 'h' || c == 'j'
                || c == 'k' || c == 's' || c == 'S',
        gallery_key(KeyInput::PageDown) is None,
        gallery_key(KeyInput::PageUp) is None,
        gallery_key(KeyInput::Home) is None,
        gallery_key(KeyInput::End) is None,
        gallery_key(KeyInput::Escape) is None,
{
}

/// The keys of a focused form field: Escape leaves it dropping the edit,
/// Return leaves it keeping the edit, Tab commits and moves on (Shift+Tab
/// back); Backspace and Delete erase before and after the cursor, Left,
/// Right, Home and End move the cursor, Space toggles or types a space,
/// and a character is typed.  Other keys are ignored.
pub proof fn lemma_form_keys(m: Modifiers, c: char)
    ensures
        form_key(KeyInput::Escape, m) == Some(FormCommand::Unfocus(false)),
        form_key(KeyInput::Return, m) == Some(FormCommand::Unfocus(true)),
        form_key(KeyInput::Tab, m) == Some(FormCommand::Advance(m.shift)),
        form_key(KeyInput::Backspace, m) == Some(FormCommand::Backspace),
        form_key(KeyInput::Delete, m) == Some(FormCommand::Delete),
        form_key(KeyInput::Left, m) == Some(FormCommand::CursorLeft),
        form_key(KeyInput::Right, m) == Some(FormCommand::CursorRight),
        form_key(KeyInput::Home, m) == Some(FormCommand::CursorHome),
        form_key(KeyInput::End, m) == Some(FormCommand::CursorEnd),
        form_key(KeyInput::Space, m) == Some(FormCommand::Space),
        form_key(KeyInput::Char(c), m) == Some(FormCommand::Insert(c)),
        form_key(KeyInput::Up, m) is None,
        form_key(KeyInput::Down, m) is None,
        form_key(KeyInput::PageUp, m) is None,
        form_key(KeyInput::PageDown, m) is None,
{
}

/// In annotation mode a letter selects the tool whose shortcut it is
/// (b brush, l line, a arrow, r rectangle, e ellipse, t text, x blur,
/// h highlight), `1` to `9` pick the preset colors 0 to 8, `+`/`=` and `-`
/// widen and narrow the line, `f` toggles filling, Ctrl+Z undoes
/// (Ctrl+Shift+Z redoes), Ctrl+Y redoes, Ctrl+S saves, Ctrl+Shift+C and
/// Ctrl+Shift+Delete clear all, and Escape leaves annotation mode.
pub proof fn lemma_annotation_keys(m: Modifiers, t: ToolType, d: char)
    ensures
        annotation_key(KeyInput::Char(crate::tools::spec_shortcut(t)), m)
            == AnnotationCommand::SelectTool(t),
        annotation_key(KeyInput::Char('b'), m) == AnnotationCommand::SelectTool(ToolType::Brush),
        annotation_key(KeyInput::Char('l'), m) == AnnotationCommand::SelectTool(ToolType::Line),
        annotation_key(KeyInput::Char('a'), m) == AnnotationCommand::SelectTool(ToolType::Arrow),
        annotation_key(KeyInput::Char('r'), m) == AnnotationCommand::SelectTool(
            ToolType::Rectangle,
        ),
        annotation_key(KeyInput::Char('e'), m) == AnnotationCommand::SelectTool(ToolType::Ellipse),
        annotation_key(KeyInput::Char('t'), m) == AnnotationCommand::SelectTool(ToolType::Text),
        annotation_key(KeyInput::Char('x'), m) == AnnotationCommand::SelectTool(ToolType::Blur),
        annotation_key(KeyInput::Char('h'), m) == AnnotationCommand::SelectTool(
            ToolType::Highlight,
        ),
        '1' <= d <= '9' ==> annotation_key(KeyInput::Char(d), m) == AnnotationCommand::ColorPreset(
            (d as int - '1' as int) as usize,
        ),
        annotation_key(KeyInput::Char('1'), m) == AnnotationCommand::ColorPreset(0),
        annotation_key(KeyInput::Char('9'), m) == AnnotationCommand::ColorPreset(8),
        annotation_key(KeyInput::Char('+'), m) == AnnotationCommand::WiderLine,
        annotation_key(KeyInput::Char('='), m) == AnnotationCommand::WiderLine,
        annotation_key(KeyInput::Char('-'), m) == AnnotationCommand::NarrowerLine,
        annotation_key(KeyInput::Char('f'), m) == AnnotationCommand::ToggleFill,
        annotation_key(KeyInput::Char('z'), m) == if m.ctrl {
            if m.shift {
                AnnotationCommand::Redo
            } else {
                AnnotationCommand::Undo
            }
        } else {
            AnnotationCommand::Nothing
        },
        annotation_key(KeyInput::Char('y'), m) == if m.ctrl {
            AnnotationCommand::Redo
        } else {
            AnnotationCommand::Nothing
        },
        annotation_key(KeyInput::Char('s'), m) == if m.ctrl {
            AnnotationCommand::Save
        } else {
            AnnotationCommand::Nothing
        },
        annotation_key(KeyInput::Char('c'), m) == if m.ctrl && m.shift {
            AnnotationCommand::ClearAll
        } else {
            AnnotationCommand::Nothing
        },
        annotation_key(KeyInput::Delete, m) == if m.ctrl && m.shift {
            AnnotationCommand::ClearAll
        } else {
            AnnotationCommand::Nothing
        },
        annotation_key(KeyInput::Escape, m) == AnnotationCommand::Exit,
        annotation_key(KeyInput::Return, m) == AnnotationCommand::Nothing,
{
}

/// The window-wide keys when no dialog takes them: Escape clears the
/// selection, else the search results, else quits; `q` quits; F11 toggles
/// full screen, F7 the sidebar, Tab and `g` the gallery; Ctrl+C copies the
/// selected text, Ctrl+Shift+C the image; Ctrl+A toggles annotation mode;
/// with search results `n`/F3 go to the next (with Shift the previous) and
/// `N` to the previous.
pub proof fn lemma_window_keys(s: DialogState, m: Modifiers, f: KeyFacts)
    requires
        !f.annotation_mode,
        !f.form_focused,
        !s.search_active,
        !s.recent_active,
        !s.properties_active,
        !s.goto_active,
    ensures
        key_step(s, KeyInput::Escape, m, f).1 == if f.has_selection {
            KeyAction::ClearSelection
        } else if f.has_search_results {
            KeyAction::ClearSearch
        } else {
            KeyAction::Quit
        },
        key_step(s, KeyInput::Char('q'), m, f).1 == KeyAction::Quit,
        key_step(s, KeyInput::F11, m, f).1 == KeyAction::ToggleFullscreen,
        key_step(s, KeyInput::F7, m, f).1 == KeyAction::ToggleSidebar,
        key_step(s, KeyInput::Tab, m, f).1 == KeyAction::ToggleViewMode,
        !m.ctrl ==> key_step(s, KeyInput::Char('g'), m, f).1 == KeyAction::ToggleViewMode,
        m.ctrl && !m.shift ==> key_step(s, KeyInput::Char('c'), m, f).1 == KeyAction::CopyText,
        m.ctrl && m.shift ==> key_step(s, KeyInput::Char('C'), m, f).1 == KeyAction::CopyImage,
        m.ctrl ==> key_step(s, KeyInput::Char('a'), m, f).1 == KeyAction::ToggleAnnotation,
        m.ctrl ==> key_step(s, KeyInput::Char('s'), m, f).1 == if f.form_modified {
            KeyAction::SaveDocument
        } else {
            KeyAction::Nothing
        },
        f.has_search_results ==> key_step(s, KeyInput::Char('n'), m, f).1 == if m.shift {
            KeyAction::SearchPrev
        } else {
            KeyAction::SearchNext
        },
        f.has_search_results ==> key_step(s, KeyInput::F3, m, f).1 == if m.shift {
            KeyAction::SearchPrev
        } else {
            KeyAction::SearchNext
        },
        f.has_search_results ==> key_step(s, KeyInput::Char('N'), m, f).1 == KeyAction::SearchPrev,
        m.ctrl && f.supports_search ==> key_step(s, KeyInput::Char('f'), m, f).0.search_active,
        m.ctrl && f.multipage ==> key_step(s, KeyInput::Char('g'), m, f).0.goto_active,
        m.ctrl ==> key_step(s, KeyInput::Char('r'), m, f).0.recent_active
            && key_step(s, KeyInput::Char('r'), m, f).0.recent_selected == 0,
        f.mode == ViewMode::Image && !f.has_search_results ==> key_step(s, KeyInput::PageDown, m, f).1
            == KeyAction::Image(ImageCommand::NextPage),
        f.mode == ViewMode::Gallery ==> key_step(s, KeyInput::Char('l'), m, f).1
            == KeyAction::Gallery(GalleryCommand::SelectNext),
{
}
/// Only ASCII digits.
pub open spec fn all_digits(s: Seq<char>) -> bool {
    forall|i: int| 0 <= i < s.len() ==> '0' <= #[trigger] s[i] && s[i] <= '9'
}

/// The state of the window's dialogs that keys drive.
pub struct Dialogs {
    search_active: bool,
    search_input: Vec<char>,
    recent_active: bool,
    recent_selected: usize,
    properties_active: bool,
    goto_active: bool,
    goto_input: Vec<char>,
}

impl View for Dialogs {
    type V = DialogState;

    closed spec fn view(&self) -> DialogState {
        DialogState {
            search_active: self.search_active,
            search_input: self.search_input@,
            recent_active: self.recent_active,
            recent_selected: self.recent_selected,
            properties_active: self.properties_active,
            goto_active: self.goto_active,
            goto_input: self.goto_input@,
        }
    }
}

/// The tool a key selects in annotation mode.
fn tool_of_char(c: char) -> (r: Option<ToolType>)
    ensures
        r == tool_for_key(c),
{
    match c {
        'b' => Some(ToolType::Brush),
        'l' => Some(ToolType::Line),
        'a' => Some(ToolType::Arrow),
        'r' => Some(ToolType::Rectangle),
        'e' => Some(ToolType::Ellipse),
        't' => Some(ToolType::Text),
        'x' => Some(ToolType::Blur),
        'h' => Some(ToolType::Highlight),
        _ => None,
    }
}

/// What a key does in annotation mode (see `annotation_key`).
pub fn annotation_command(k: KeyInput, m: Modifiers) -> (r: AnnotationCommand)
    ensures
        r == annotation_key(k, m),
{
    match k {
        KeyInput::Escape => AnnotationCommand::Exit,
        KeyInput::Char(c) => {
            if let Some(t) = tool_of_char(c) {
                AnnotationCommand::SelectTool(t)
            } else if '1' <= c && c <= '9' {
                AnnotationCommand::ColorPreset((c as u32 - '1' as u32) as usize)
            } else if c == '+' || c == '=' {
                AnnotationCommand::WiderLine
            } else if c == '-' {
                AnnotationCommand::NarrowerLine
            } else if c == 'f' {
                AnnotationCommand::ToggleFill
            } else if c == 'z' && m.ctrl {
                if m.shift {
                    AnnotationCommand::Redo
                } else {
                    AnnotationCommand::Undo
                }
            } else if c == 'y' && m.ctrl {
                AnnotationCommand::Redo
            } else if c == 's' && m.ctrl {
                AnnotationCommand::Save
            } else if c == 'c' && m.ctrl && m.shift {
                AnnotationCommand::ClearAll
            } else {
                AnnotationCommand::Nothing
            }
        },
        KeyInput::Delete => {
            if m.ctrl && m.shift {
                AnnotationCommand::ClearAll
            } else {
                AnnotationCommand::Nothing
            }
        },
        _ => AnnotationCommand::Nothing,
    }
}

/// What a key does to the focused form field (see `form_key`).
pub fn form_command(k: KeyInput, m: Modifiers) -> (r: Option<FormCommand>)
    ensures
        r == form_key(k, m),
{
    match k {
        KeyInput::Escape => Some(FormCommand::Unfocus(false)),
        KeyInput::Return => Some(FormCommand::Unfocus(true)),
        KeyInput::Tab => Some(FormCommand::Advance(m.shift)),
        KeyInput::Backspace => Some(FormCommand::Backspace),
        KeyInput::Delete => Some(FormCommand::Delete),
        KeyInput::Left => Some(FormCommand::CursorLeft),
        KeyInput::Right => Some(FormCommand::CursorRight),
        KeyInput::Home => Some(FormCommand::CursorHome),
        KeyInput::End => Some(FormCommand::CursorEnd),
        KeyInput::Space => Some(FormCommand::Space),
        KeyInput::Char(c) => Some(FormCommand::Insert(c)),
        _ => None,
    }
}

/// What a key does in the image view (see `image_key`).
pub fn image_command(k: KeyInput, m: Modifiers, multipage: bool) -> (r: Option<ImageCommand>)
    ensures
        r == image_key(k, m, multipage),
{
    match k {
        KeyInput::Char(c) => {
            if c == '+' || c == '=' {
                Some(ImageCommand::ZoomIn)
            } else if c == '-' {
                Some(ImageCommand::ZoomOut)
            } else if c == '0' {
                Some(ImageCommand::ZoomActual)
            } else if c == 'f' {
                Some(ImageCommand::ZoomFit)
            } else if c == 'F' {
                Some(ImageCommand::ZoomFill)
            } else if c == 'n' {
                Some(ImageCommand::NextImage)
            } else if c == 'p' {
                Some(ImageCommand::PrevImage)
            } else if c == 'r' {
                Some(ImageCommand::RotateCw)
            } else if c == 'R' {
                Some(ImageCommand::RotateCcw)
            } else if c == 'h' {
                Some(ImageCommand::FlipHorizontal)
            } else if c == 'v' {
                Some(ImageCommand::FlipVertical)
            } else if c == 'V' {
                if multipage {
                    Some(ImageCommand::CycleViewMode)
                } else {
                    None
                }
            } else if c == 's' {
                Some(ImageCommand::ToggleSlideshow)
            } else if c == '[' {
                Some(ImageCommand::ShorterInterval)
            } else if c == ']' {
                Some(ImageCommand::LongerInterval)
            } else if c == '1' {
                Some(ImageCommand::SetViewMode(DocumentViewMode::SinglePage))
            } else if c == '2' {
                Some(ImageCommand::SetViewMode(DocumentViewMode::Continuous))
            } else if c == '3' {
                Some(ImageCommand::SetViewMode(DocumentViewMode::DualPage))
            } else {
                None
            }
        },
        KeyInput::Right | KeyInput::Space => Some(ImageCommand::NextImage),
        KeyInput::Left => Some(ImageCommand::PrevImage),
        KeyInput::Up => {
            if m.is_empty() {
                Some(ImageCommand::ScrollUp)
            } else {
                None
            }
        },
        KeyInput::Down => {
            if m.is_empty() {
                Some(ImageCommand::ScrollDown)
            } else {
                None
            }
        },
        KeyInput::PageDown => Some(ImageCommand::NextPage),
        KeyInput::PageUp => Some(ImageCommand::PrevPage),
        KeyInput::Home => Some(ImageCommand::FirstPage),
        KeyInput::End => Some(ImageCommand::LastPage),
        _ => None,
    }
}

/// What a key does in the gallery (see `gallery_key`).
pub fn gallery_command(k: KeyInput) -> (r: Option<GalleryCommand>)
    ensures
        r == gallery_key(k),
{
    match k {
        KeyInput::Right => Some(GalleryCommand::SelectNext),
        KeyInput::Left => Some(GalleryCommand::SelectPrev),
        KeyInput::Down => Some(GalleryCommand::SelectDown),
        KeyInput::Up => Some(GalleryCommand::SelectUp),
        KeyInput::Return | KeyInput::Space => Some(GalleryCommand::OpenSelected),
        KeyInput::Char(c) => {
            if c == 'l' {
                Some(GalleryCommand::SelectNext)
            } else if c == 'h' {
                Some(GalleryCommand::SelectPrev)
            } else if c == 'j' {
                Some(GalleryCommand::SelectDown)
            } else if c == 'k' {
                Some(GalleryCommand::SelectUp)
            } else if c == 's' {
                Some(GalleryCommand::CycleSort)
            } else if c == 'S' {
                Some(GalleryCommand::ReverseSort)
            } else {
                None
            }
        },
        _ => None,
    }
}

/// The page the go-to input names (see `goto_target`): the digits are
/// read as `str::parse::<usize>` reads them.
fn goto_page_of(input: &Vec<char>, page_count: usize) -> (r: Option<usize>)
    ensures
        r == goto_target(input@, page_count),
{
    let n = input.len();
    if n == 0 {
        return None;
    }
    let mut acc: u128 = 0;
    let mut i: usize = 0;
    proof {
        assert(input@.take(0) =~= Seq::<char>::empty());
    }
    while i < n
        invariant
            n == input@.len(),
            i <= n,
            acc <= page_count,
            digits_value(input@.take(i as int), 10) == Some(acc as int),
        decreases n - i,
    {
        let d = digit_of(input[i]);
        proof {
            assert(input@.take(i + 1).drop_last() =~= input@.take(i as int));
            assert(input@.take(i + 1).last() == input@[i as int]);
        }
        if d >= 10 {
            proof {
                lemma_digits_prefix(input@, 10, i + 1);
            }
            return None;
        }
        acc = acc * 10 + d as u128;
        if acc > page_count as u128 {
            proof {
                lemma_digits_prefix(input@, 10, i + 1);
            }
            return None;
        }
        i = i + 1;
    }
    proof {
        assert(input@.take(n as int) =~= input@);
    }
    if acc == 0 {
        None
    } else {
        Some((acc - 1) as usize)
    }
}

/// The recent-files selection once entry `index` is gone (see
/// `selection_after_removal`).
fn selection_after(selected: usize, index: usize, count: usize) -> (r: usize)
    ensures
        r == selection_after_removal(selected, index, count),
{
    let left = if index < count {
        count - 1
    } else {
        count
    };
    if selected > left {
        left
    } else {
        selected
    }
}

impl Dialogs {
    /// No dialog open, nothing typed.
    pub fn new() -> (d: Self)
        ensures
            !d@.search_active,
            d@.search_input == Seq::<char>::empty(),
            !d@.recent_active,
            d@.recent_selected == 0,
            !d@.properties_active,
            !d@.goto_active,
            d@.goto_input == Seq::<char>::empty(),
    {
        Dialogs {
            search_active: false,
            search_input: Vec::new(),
            recent_active: false,
            recent_selected: 0,
            properties_active: false,
            goto_active: false,
            goto_input: Vec::new(),
        }
    }

    /// Whether the search bar takes keys.
    pub fn search_active(&self) -> (b: bool)
        ensures
            b == self@.search_active,
    {
        self.search_active
    }

    /// The text typed in the search bar.
    pub fn search_input(&self) -> (s: String)
        ensures
            s@ == self@.search_input,
    {
        string_of(self.search_input.as_slice())
    }

    /// Whether the recent-files panel is shown.
    pub fn recent_active(&self) -> (b: bool)
        ensures
            b == self@.recent_active,
    {
        self.recent_active
    }

    /// The selected line of the recent-files panel (0 is "Open File...").
    pub fn recent_selected(&self) -> (i: usize)
        ensures
            i == self@.recent_selected,
    {
        self.recent_selected
    }

    /// Shows the recent-files panel again, as after a file dialog that was
    /// cancelled or failed.
    pub fn reopen_recent_panel(&mut self)
        ensures
            final(self)@ == (DialogState { recent_active: true, ..old(self)@ }),
    {
        self.recent_active = true;
    }

    /// Whether the properties panel is shown.
    pub fn properties_active(&self) -> (b: bool)
        ensures
            b == self@.properties_active,
    {
        self.properties_active
    }

    /// Whether the go-to-page dialog takes keys.
    pub fn goto_active(&self) -> (b: bool)
        ensures
            b == self@.goto_active,
    {
        self.goto_active
    }

    /// The digits typed in the go-to-page dialog.
    pub fn goto_input(&self) -> (s: String)
        ensures
            s@ == self@.goto_input,
    {
        string_of(self.goto_input.as_slice())
    }

    /// Takes a key pressed in the window: updates the dialogs and says what
    /// the caller does (see `key_step`).
    pub fn handle_key(&mut self, k: KeyInput, m: Modifiers, f: KeyFacts) -> (a: KeyAction)
        ensures
            key_step(old(self)@, k, m, f) == (final(self)@, a),
    {
        if f.annotation_mode {
            return KeyAction::Annotation(annotation_command(k, m));
        }
        if f.form_focused {
            return match form_command(k, m) {
                Some(c) => KeyAction::Form(c),
                None => KeyAction::Nothing,
            };
        }
        if self.search_active {
            return match k {
                KeyInput::Escape => {
                    self.search_active = false;
                    KeyAction::ClearSearch
                },
                KeyInput::Return => {
                    self.search_active = false;
                    KeyAction::RunSearch
                },
                KeyInput::Backspace => {
                    if self.search_input.len() > 0 {
                        self.search_input.pop();
                    }
                    KeyAction::Redraw
                },
                KeyInput::Char(c) => {
                    self.search_input.push(c);
                    KeyAction::Redraw
                },
                _ => KeyAction::Nothing,
            };
        }
        if self.recent_active {
            return match k {
                KeyInput::Escape => {
                    self.recent_active = false;
                    KeyAction::Redraw
                },
                KeyInput::Return => {
                    self.recent_active = false;
                    if self.recent_selected == 0 {
                        KeyAction::OpenFileDialog
                    } else {
                        KeyAction::OpenRecent(self.recent_selected - 1)
                    }
                },
                KeyInput::Up | KeyInput::Char('k') => {
                    if self.recent_selected > 0 {
                        self.recent_selected = self.recent_selected - 1;
                    }
                    KeyAction::Redraw
                },
                KeyInput::Down | KeyInput::Char('j') => {
                    if self.recent_selected < f.recent_count {
                        self.recent_selected = self.recent_selected + 1;
                    }
                    KeyAction::Redraw
                },
                KeyInput::Backspace | KeyInput::Char('d') => {
                    if self.recent_selected > 0 {
                        let i = self.recent_selected - 1;
                        self.recent_selected = selection_after(
                            self.recent_selected,
                            i,
                            f.recent_count,
                        );
                        KeyAction::RemoveRecent(i)
                    } else {
                        KeyAction::Redraw
                    }
                },
                _ => KeyAction::Nothing,
            };
        }
        if self.properties_active {
            let closing = match k {
                KeyInput::Escape | KeyInput::Return | KeyInput::Char('i') => m.ctrl,
                _ => false,
            };
            if closing {
                self.properties_active = false;
                return KeyAction::Redraw;
            }
            return KeyAction::Nothing;
        }
        if self.goto_active {
            return match k {
                KeyInput::Escape => {
                    self.goto_active = false;
                    KeyAction::Redraw
                },
                KeyInput::Return => {
                    self.goto_active = false;
                    match goto_page_of(&self.goto_input, f.page_count) {
                        Some(p) => KeyAction::GotoPage(p),
                        None => KeyAction::Redraw,
                    }
                },
                KeyInput::Backspace => {
                    if self.goto_input.len() > 0 {
                        self.goto_input.pop();
                    }
                    KeyAction::Redraw
                },
                KeyInput::Char(c) => {
                    if '0' <= c && c <= '9' {
                        self.goto_input.push(c);
                        KeyAction::Redraw
                    } else {
                        KeyAction::Nothing
                    }
                },
                _ => KeyAction::Nothing,
            };
        }
        self.window_key(k, m, f)
    }

    /// A key that no dialog takes (see `window_key`).
    fn window_key(&mut self, k: KeyInput, m: Modifiers, f: KeyFacts) -> (a: KeyAction)
        ensures
            window_key(old(self)@, k, m, f) == (final(self)@, a),
    {
        let view_key = match f.mode {
            ViewMode::Image => match image_command(k, m, f.multipage) {
                Some(c) => KeyAction::Image(c),
                None => KeyAction::Nothing,
            },
            ViewMode::Gallery => match gallery_command(k) {
                Some(c) => KeyAction::Gallery(c),
                None => KeyAction::Nothing,
            },
        };
        match k {
            KeyInput::Escape => {
                if f.has_selection {
                    KeyAction::ClearSelection
                } else if f.has_search_results {
                    KeyAction::ClearSearch
                } else {
                    KeyAction::Quit
                }
            },
            KeyInput::F11 => KeyAction::ToggleFullscreen,
            KeyInput::F7 => KeyAction::ToggleSidebar,
            KeyInput::Tab => KeyAction::ToggleViewMode,
            KeyInput::F3 => {
                if f.has_search_results {
                    if m.shift {
                        KeyAction::SearchPrev
                    } else {
                        KeyAction::SearchNext
                    }
                } else {
                    view_key
                }
            },
            KeyInput::Char(c) => {
                if c == 'q' {
                    KeyAction::Quit
                } else if c == 'c' && m.ctrl && !m.shift {
                    KeyAction::CopyText
                } else if c == 'C' && m.ctrl && m.shift {
                    KeyAction::CopyImage
                } else if c == 's' && m.ctrl {
                    if f.form_modified {
                        KeyAction::SaveDocument
                    } else {
                        KeyAction::Nothing
                    }
                } else if c == 'f' && m.ctrl {
                    if f.supports_search {
                        self.search_active = true;
                        self.search_input = Vec::new();
                        KeyAction::Redraw
                    } else {
                        KeyAction::Nothing
                    }
                } else if c == 'g' && m.ctrl {
                    if f.multipage {
                        self.goto_active = true;
                        self.goto_input = Vec::new();
                        KeyAction::Redraw
                    } else {
                        KeyAction::Nothing
                    }
                } else if c == 'r' && m.ctrl {
                    self.recent_active = !self.recent_active;
                    self.recent_selected = 0;
                    KeyAction::Redraw
                } else if c == 'i' && m.ctrl {
                    self.properties_active = !self.properties_active;
                    KeyAction::Redraw
                } else if c == 'a' && m.ctrl {
                    KeyAction::ToggleAnnotation
                } else if c == 'g' {
                    KeyAction::ToggleViewMode
                } else if c == 'n' && f.has_search_results {
                    if m.shift {
                        KeyAction::SearchPrev
                    } else {
                        KeyAction::SearchNext
                    }
                } else if c == 'N' && f.has_search_results {
                    KeyAction::SearchPrev
                } else {
                    view_key
                }
            },
            _ => view_key,
        }
    }
}

} // verus!
