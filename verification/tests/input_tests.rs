use garview::gallery::ViewMode;
use garview::slideshow::{Slideshow, DEFAULT_INTERVAL_NS, MAX_INTERVAL_NS, MIN_INTERVAL_NS};
use garview::input::{
    annotation_command, form_command, gallery_command, image_command, AnnotationCommand, Dialogs,
    FormCommand, GalleryCommand, ImageCommand, KeyAction, KeyFacts, KeyInput, Modifiers,
};
use garview::tools::ToolType;
use garview::viewer::DocumentViewMode;

fn plain() -> Modifiers {
    Modifiers { ctrl: false, shift: false, alt: false, logo: false }
}

fn ctrl() -> Modifiers {
    Modifiers { ctrl: true, shift: false, alt: false, logo: false }
}

fn ctrl_shift() -> Modifiers {
    Modifiers { ctrl: true, shift: true, alt: false, logo: false }
}

fn shift() -> Modifiers {
    Modifiers { ctrl: false, shift: true, alt: false, logo: false }
}

fn facts() -> KeyFacts {
    KeyFacts {
        annotation_mode: false,
        form_focused: false,
        has_selection: false,
        has_search_results: false,
        supports_search: true,
        multipage: true,
        page_count: 10,
        recent_count: 3,
        form_modified: false,
        mode: ViewMode::Image,
    }
}

#[test]
fn annotation_keys_pick_tools_and_colors() {
    assert_eq!(annotation_command(KeyInput::Char('b'), plain()), AnnotationCommand::SelectTool(ToolType::Brush));
    assert_eq!(annotation_command(KeyInput::Char('x'), ctrl()), AnnotationCommand::SelectTool(ToolType::Blur));
    assert_eq!(annotation_command(KeyInput::Char('1'), plain()), AnnotationCommand::ColorPreset(0));
    assert_eq!(annotation_command(KeyInput::Char('9'), plain()), AnnotationCommand::ColorPreset(8));
    assert_eq!(annotation_command(KeyInput::Char('='), plain()), AnnotationCommand::WiderLine);
    assert_eq!(annotation_command(KeyInput::Char('-'), plain()), AnnotationCommand::NarrowerLine);
    assert_eq!(annotation_command(KeyInput::Char('f'), plain()), AnnotationCommand::ToggleFill);
    assert_eq!(annotation_command(KeyInput::Char('z'), ctrl()), AnnotationCommand::Undo);
    assert_eq!(annotation_command(KeyInput::Char('z'), ctrl_shift()), AnnotationCommand::Redo);
    assert_eq!(annotation_command(KeyInput::Char('z'), plain()), AnnotationCommand::Nothing);
    assert_eq!(annotation_command(KeyInput::Char('y'), ctrl()), AnnotationCommand::Redo);
    assert_eq!(annotation_command(KeyInput::Char('s'), ctrl()), AnnotationCommand::Save);
    assert_eq!(annotation_command(KeyInput::Delete, ctrl_shift()), AnnotationCommand::ClearAll);
    assert_eq!(annotation_command(KeyInput::Delete, ctrl()), AnnotationCommand::Nothing);
    assert_eq!(annotation_command(KeyInput::Escape, plain()), AnnotationCommand::Exit);
}

#[test]
fn annotation_mode_takes_every_key() {
    let mut d = Dialogs::new();
    let f = KeyFacts { annotation_mode: true, ..facts() };
    assert_eq!(d.handle_key(KeyInput::Char('q'), plain(), f), KeyAction::Annotation(AnnotationCommand::Nothing));
    assert_eq!(d.handle_key(KeyInput::Char('i'), ctrl(), f), KeyAction::Annotation(AnnotationCommand::Nothing));
    assert!(!d.properties_active());
}

#[test]
fn form_keys_edit_the_focused_field() {
    assert_eq!(form_command(KeyInput::Escape, plain()), Some(FormCommand::Unfocus(false)));
    assert_eq!(form_command(KeyInput::Return, plain()), Some(FormCommand::Unfocus(true)));
    assert_eq!(form_command(KeyInput::Tab, shift()), Some(FormCommand::Advance(true)));
    assert_eq!(form_command(KeyInput::Char('q'), plain()), Some(FormCommand::Insert('q')));
    assert_eq!(form_command(KeyInput::F7, plain()), None);
    let mut d = Dialogs::new();
    let f = KeyFacts { form_focused: true, ..facts() };
    assert_eq!(d.handle_key(KeyInput::Space, plain(), f), KeyAction::Form(FormCommand::Space));
    assert_eq!(d.handle_key(KeyInput::PageUp, plain(), f), KeyAction::Nothing);
}

#[test]
fn search_bar_collects_text() {
    let mut d = Dialogs::new();
    assert_eq!(d.handle_key(KeyInput::Char('f'), ctrl(), facts()), KeyAction::Redraw);
    assert!(d.search_active());
    for c in "cats".chars() {
        d.handle_key(KeyInput::Char(c), plain(), facts());
    }
    assert_eq!(d.handle_key(KeyInput::Backspace, plain(), facts()), KeyAction::Redraw);
    assert_eq!(d.search_input(), "cat");
    assert_eq!(d.handle_key(KeyInput::Return, plain(), facts()), KeyAction::RunSearch);
    assert!(!d.search_active());
    assert_eq!(d.search_input(), "cat");
    let no_search = KeyFacts { supports_search: false, ..facts() };
    assert_eq!(d.handle_key(KeyInput::Char('f'), ctrl(), no_search), KeyAction::Nothing);
    assert!(!d.search_active());
}

#[test]
fn search_escape_clears() {
    let mut d = Dialogs::new();
    d.handle_key(KeyInput::Char('f'), ctrl(), facts());
    assert_eq!(d.handle_key(KeyInput::Escape, plain(), facts()), KeyAction::ClearSearch);
    assert!(!d.search_active());
}

#[test]
fn recent_panel_moves_within_its_lines() {
    let mut d = Dialogs::new();
    assert_eq!(d.handle_key(KeyInput::Char('r'), ctrl(), facts()), KeyAction::Redraw);
    assert!(d.recent_active());
    assert_eq!(d.recent_selected(), 0);
    d.handle_key(KeyInput::Up, plain(), facts());
    assert_eq!(d.recent_selected(), 0);
    for _ in 0..5 {
        d.handle_key(KeyInput::Char('j'), plain(), facts());
    }
    assert_eq!(d.recent_selected(), 3);
    d.handle_key(KeyInput::Char('k'), plain(), facts());
    assert_eq!(d.recent_selected(), 2);
    assert_eq!(d.handle_key(KeyInput::Return, plain(), facts()), KeyAction::OpenRecent(1));
    assert!(!d.recent_active());
}

#[test]
fn recent_panel_removal_keeps_selection_on_a_line() {
    let mut d = Dialogs::new();
    d.handle_key(KeyInput::Char('r'), ctrl(), facts());
    for _ in 0..3 {
        d.handle_key(KeyInput::Down, plain(), facts());
    }
    assert_eq!(d.handle_key(KeyInput::Char('d'), plain(), facts()), KeyAction::RemoveRecent(2));
    assert_eq!(d.recent_selected(), 2);
    let one_left = KeyFacts { recent_count: 1, ..facts() };
    assert_eq!(d.handle_key(KeyInput::Backspace, plain(), one_left), KeyAction::RemoveRecent(1));
    assert_eq!(d.recent_selected(), 1);
    let mut e = Dialogs::new();
    e.handle_key(KeyInput::Char('r'), ctrl(), facts());
    assert_eq!(e.handle_key(KeyInput::Char('d'), plain(), facts()), KeyAction::Redraw);
    assert_eq!(e.handle_key(KeyInput::Return, plain(), facts()), KeyAction::OpenFileDialog);
    e.reopen_recent_panel();
    assert!(e.recent_active());
    assert_eq!(e.handle_key(KeyInput::Escape, plain(), facts()), KeyAction::Redraw);
    assert!(!e.recent_active());
}

#[test]
fn properties_panel_closes_with_ctrl() {
    let mut d = Dialogs::new();
    d.handle_key(KeyInput::Char('i'), ctrl(), facts());
    assert!(d.properties_active());
    assert_eq!(d.handle_key(KeyInput::Escape, plain(), facts()), KeyAction::Nothing);
    assert!(d.properties_active());
    assert_eq!(d.handle_key(KeyInput::Escape, ctrl(), facts()), KeyAction::Redraw);
    assert!(!d.properties_active());
}

#[test]
fn goto_dialog_reads_page_numbers() {
    let mut d = Dialogs::new();
    d.handle_key(KeyInput::Char('g'), ctrl(), facts());
    assert!(d.goto_active());
    assert_eq!(d.handle_key(KeyInput::Char('x'), plain(), facts()), KeyAction::Nothing);
    d.handle_key(KeyInput::Char('1'), plain(), facts());
    d.handle_key(KeyInput::Char('0'), plain(), facts());
    assert_eq!(d.goto_input(), "10");
    assert_eq!(d.handle_key(KeyInput::Return, plain(), facts()), KeyAction::GotoPage(9));
    assert!(!d.goto_active());

    d.handle_key(KeyInput::Char('g'), ctrl(), facts());
    assert_eq!(d.goto_input(), "");
    for c in "011".chars() {
        d.handle_key(KeyInput::Char(c), plain(), facts());
    }
    assert_eq!(d.handle_key(KeyInput::Return, plain(), facts()), KeyAction::Redraw);

    d.handle_key(KeyInput::Char('g'), ctrl(), facts());
    d.handle_key(KeyInput::Char('0'), plain(), facts());
    assert_eq!(d.handle_key(KeyInput::Return, plain(), facts()), KeyAction::Redraw);

    d.handle_key(KeyInput::Char('g'), ctrl(), facts());
    for c in "99999999999999999999999".chars() {
        d.handle_key(KeyInput::Char(c), plain(), facts());
    }
    assert_eq!(d.handle_key(KeyInput::Return, plain(), facts()), KeyAction::Redraw);

    d.handle_key(KeyInput::Char('g'), ctrl(), facts());
    d.handle_key(KeyInput::Char('0'), plain(), facts());
    d.handle_key(KeyInput::Char('7'), plain(), facts());
    assert_eq!(d.handle_key(KeyInput::Return, plain(), facts()), KeyAction::GotoPage(6));

    let single = KeyFacts { multipage: false, ..facts() };
    assert_eq!(d.handle_key(KeyInput::Char('g'), ctrl(), single), KeyAction::Nothing);
    assert!(!d.goto_active());
}

#[test]
fn escape_clears_then_quits() {
    let mut d = Dialogs::new();
    let selected = KeyFacts { has_selection: true, has_search_results: true, ..facts() };
    assert_eq!(d.handle_key(KeyInput::Escape, plain(), selected), KeyAction::ClearSelection);
    let found = KeyFacts { has_search_results: true, ..facts() };
    assert_eq!(d.handle_key(KeyInput::Escape, plain(), found), KeyAction::ClearSearch);
    assert_eq!(d.handle_key(KeyInput::Escape, plain(), facts()), KeyAction::Quit);
    assert_eq!(d.handle_key(KeyInput::Char('q'), plain(), facts()), KeyAction::Quit);
}

#[test]
fn window_shortcuts() {
    let mut d = Dialogs::new();
    assert_eq!(d.handle_key(KeyInput::Char('c'), ctrl(), facts()), KeyAction::CopyText);
    assert_eq!(d.handle_key(KeyInput::Char('C'), ctrl_shift(), facts()), KeyAction::CopyImage);
    assert_eq!(d.handle_key(KeyInput::Char('s'), ctrl(), facts()), KeyAction::Nothing);
    let modified = KeyFacts { form_modified: true, ..facts() };
    assert_eq!(d.handle_key(KeyInput::Char('s'), ctrl(), modified), KeyAction::SaveDocument);
    assert_eq!(d.handle_key(KeyInput::F11, plain(), facts()), KeyAction::ToggleFullscreen);
    assert_eq!(d.handle_key(KeyInput::F7, plain(), facts()), KeyAction::ToggleSidebar);
    assert_eq!(d.handle_key(KeyInput::Char('a'), ctrl(), facts()), KeyAction::ToggleAnnotation);
    assert_eq!(d.handle_key(KeyInput::Tab, plain(), facts()), KeyAction::ToggleViewMode);
    assert_eq!(d.handle_key(KeyInput::Char('g'), plain(), facts()), KeyAction::ToggleViewMode);
    let found = KeyFacts { has_search_results: true, ..facts() };
    assert_eq!(d.handle_key(KeyInput::Char('n'), plain(), found), KeyAction::SearchNext);
    assert_eq!(d.handle_key(KeyInput::Char('n'), shift(), found), KeyAction::SearchPrev);
    assert_eq!(d.handle_key(KeyInput::Char('N'), plain(), found), KeyAction::SearchPrev);
    assert_eq!(d.handle_key(KeyInput::F3, shift(), found), KeyAction::SearchPrev);
    assert_eq!(d.handle_key(KeyInput::Char('n'), plain(), facts()), KeyAction::Image(ImageCommand::NextImage));
}

#[test]
fn image_view_keys() {
    assert_eq!(image_command(KeyInput::Char('+'), plain(), false), Some(ImageCommand::ZoomIn));
    assert_eq!(image_command(KeyInput::Char('0'), plain(), false), Some(ImageCommand::ZoomActual));
    assert_eq!(image_command(KeyInput::Char('F'), plain(), false), Some(ImageCommand::ZoomFill));
    assert_eq!(image_command(KeyInput::Space, plain(), false), Some(ImageCommand::NextImage));
    assert_eq!(image_command(KeyInput::Char('p'), plain(), false), Some(ImageCommand::PrevImage));
    assert_eq!(image_command(KeyInput::Char('R'), plain(), false), Some(ImageCommand::RotateCcw));
    assert_eq!(image_command(KeyInput::Char('v'), plain(), false), Some(ImageCommand::FlipVertical));
    assert_eq!(image_command(KeyInput::Char('V'), plain(), false), None);
    assert_eq!(image_command(KeyInput::Char('V'), plain(), true), Some(ImageCommand::CycleViewMode));
    assert_eq!(image_command(KeyInput::Up, plain(), true), Some(ImageCommand::ScrollUp));
    assert_eq!(image_command(KeyInput::Down, shift(), true), None);
    assert_eq!(image_command(KeyInput::Char('['), plain(), true), Some(ImageCommand::ShorterInterval));
    assert_eq!(image_command(KeyInput::End, plain(), true), Some(ImageCommand::LastPage));
    assert_eq!(
        image_command(KeyInput::Char('2'), plain(), true),
        Some(ImageCommand::SetViewMode(DocumentViewMode::Continuous))
    );
    assert_eq!(image_command(KeyInput::Char('z'), plain(), true), None);
    let mut d = Dialogs::new();
    assert_eq!(d.handle_key(KeyInput::Char('f'), plain(), facts()), KeyAction::Image(ImageCommand::ZoomFit));
    assert_eq!(d.handle_key(KeyInput::Char('s'), plain(), facts()), KeyAction::Image(ImageCommand::ToggleSlideshow));
}

#[test]
fn gallery_keys() {
    assert_eq!(gallery_command(KeyInput::Char('l')), Some(GalleryCommand::SelectNext));
    assert_eq!(gallery_command(KeyInput::Left), Some(GalleryCommand::SelectPrev));
    assert_eq!(gallery_command(KeyInput::Char('j')), Some(GalleryCommand::SelectDown));
    assert_eq!(gallery_command(KeyInput::Up), Some(GalleryCommand::SelectUp));
    assert_eq!(gallery_command(KeyInput::Return), Some(GalleryCommand::OpenSelected));
    assert_eq!(gallery_command(KeyInput::Char('S')), Some(GalleryCommand::ReverseSort));
    assert_eq!(gallery_command(KeyInput::Char('z')), None);
    let mut d = Dialogs::new();
    let gallery = KeyFacts { mode: ViewMode::Gallery, ..facts() };
    assert_eq!(d.handle_key(KeyInput::Char('s'), plain(), gallery), KeyAction::Gallery(GalleryCommand::CycleSort));
    assert_eq!(d.handle_key(KeyInput::Char('h'), plain(), gallery), KeyAction::Gallery(GalleryCommand::SelectPrev));
}

#[test]
fn slideshow_interval_steps_and_clamps() {
    let mut s = Slideshow::new(false, 0);
    assert_eq!(s.interval_ns, DEFAULT_INTERVAL_NS);
    s.shorter();
    assert_eq!(s.interval_ns, 2_500_000_000);
    for _ in 0..10 {
        s.shorter();
    }
    assert_eq!(s.interval_ns, MIN_INTERVAL_NS);
    for _ in 0..100 {
        s.longer();
    }
    assert_eq!(s.interval_ns, MAX_INTERVAL_NS);
    s.set_interval(1_200_000_000);
    s.shorter();
    assert_eq!(s.interval_ns, MIN_INTERVAL_NS);
    s.set_interval(29_800_000_000);
    s.longer();
    assert_eq!(s.interval_ns, MAX_INTERVAL_NS);
}

#[test]
fn slideshow_advances_after_interval() {
    let mut s = Slideshow::new(false, 0);
    assert!(!s.due(10_000_000_000, true));
    s.toggle(1_000_000_000);
    assert!(s.active);
    assert!(!s.due(3_999_999_999, true));
    assert!(s.due(4_000_000_000, true));
    assert!(!s.due(4_000_000_000, false));
    s.advanced(4_000_000_000);
    assert!(!s.due(5_000_000_000, true));
    s.image_shown(6_000_000_000);
    assert_eq!(s.last_advance_ns, 6_000_000_000);
    assert!(!s.due(5_000_000_000, true));
    s.stop();
    s.image_shown(9_000_000_000);
    assert_eq!(s.last_advance_ns, 6_000_000_000);
    s.start(7);
    assert!(s.active && s.last_advance_ns == 7);
}
