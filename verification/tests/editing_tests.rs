use garview::annotations::{annotation_path, sidecar_action, AnnotationLog, AnnotationRecord, SidecarAction};
use garview::forms::{FormFieldInfo, FormFieldType, FormFieldValue, FormState};
use garview::history::History;
use garview::shapes::{
    arrow_can_commit, blur_bounds, line_can_commit, rect_can_commit, DragState, HighlightStroke,
    KeyInput, Point, Rect, TextTool, ToolEvent,
};
use garview::tools::ToolType;

#[test]
fn history_undo_redo_round_trip() {
    let mut h = History::new(10);
    assert!(!h.can_undo());
    h.push(vec![1]);
    h.push(vec![2]);
    assert_eq!(h.undo_count(), 2);
    assert_eq!(h.undo(vec![3]), Some(vec![2]));
    assert!(h.can_redo());
    assert_eq!(h.redo(vec![2]), Some(vec![3]));
    assert_eq!(h.undo_count(), 2);
    assert_eq!(h.redo_count(), 0);
    assert_eq!(h.redo(vec![9]), None);
}

#[test]
fn history_push_clears_redo_and_trims() {
    let mut h = History::new(2);
    h.push(vec![1]);
    h.push(vec![2]);
    h.push(vec![3]);
    assert_eq!(h.undo_count(), 2);
    assert_eq!(h.undo(vec![4]), Some(vec![3]));
    assert_eq!(h.undo(vec![3]), Some(vec![2]));
    assert_eq!(h.undo(vec![2]), None);
    h.push(vec![5]);
    assert_eq!(h.redo_count(), 0);
    h.clear();
    assert!(!h.can_undo() && !h.can_redo());
}

#[test]
fn history_zero_capacity_keeps_nothing() {
    let mut h = History::new(0);
    h.push(vec![1]);
    assert_eq!(h.undo(vec![2]), None);
    let d = History::default();
    assert_eq!(d.undo_count(), 0);
}

#[test]
fn tool_shortcuts_and_names() {
    for t in ToolType::all() {
        assert_eq!(ToolType::from_shortcut(t.shortcut()), Some(*t));
        assert_eq!(ToolType::from_shortcut(t.shortcut().to_ascii_uppercase()), Some(*t));
        assert_eq!(ToolType::from_name(t.name()), Some(*t));
    }
    assert_eq!(ToolType::all().len(), 8);
    assert_eq!(ToolType::from_shortcut('z'), None);
    assert_eq!(ToolType::from_name("arrow"), None);
    assert_eq!(ToolType::Blur.shortcut(), 'x');
    assert_eq!(ToolType::Highlight.name(), "Highlight");
    assert_eq!(ToolType::default(), ToolType::Arrow);
}

fn pt(x: i32, y: i32) -> Point {
    Point { x, y }
}

#[test]
fn drag_tools() {
    let mut d = DragState::new();
    assert_eq!(d.bounds(), None);
    assert!(!d.handle_event(ToolEvent::Move(pt(1, 1))));
    assert!(d.handle_event(ToolEvent::Press(pt(10, 20))));
    assert!(d.is_drawing());
    assert!(!line_can_commit(&d));
    assert!(d.handle_event(ToolEvent::Move(pt(12, 30))));
    assert!(d.handle_event(ToolEvent::Release(pt(4, 26))));
    assert!(!d.is_drawing());
    assert!(!d.handle_event(ToolEvent::Release(pt(0, 0))));
    assert_eq!(d.bounds(), Some(Rect { x: 4, y: 20, width: 6, height: 6 }));
    assert!(line_can_commit(&d));
    assert!(arrow_can_commit(&d));
    assert!(rect_can_commit(&d));
    assert_eq!(blur_bounds(&d), Some((4, 20, 6, 6)));
    d.reset();
    assert_eq!(blur_bounds(&d), None);
}

#[test]
fn small_drags_are_not_committed() {
    let mut d = DragState::new();
    d.handle_event(ToolEvent::Press(pt(0, 0)));
    d.handle_event(ToolEvent::Release(pt(2, 5)));
    assert!(line_can_commit(&d));
    assert!(!arrow_can_commit(&d));
    assert!(!rect_can_commit(&d));
    assert_eq!(blur_bounds(&d), None);
    assert_eq!(d.bounds(), Some(Rect { x: 0, y: 0, width: 2, height: 5 }));
    let mut z = DragState::new();
    z.handle_event(ToolEvent::Press(pt(3, 3)));
    assert_eq!(z.bounds(), Some(Rect { x: 3, y: 3, width: 1, height: 1 }));
}

#[test]
fn highlight_stroke() {
    let mut h = HighlightStroke::new();
    assert_eq!(h.bounds(), None);
    h.handle_event(ToolEvent::Press(pt(5, 5)));
    assert!(!h.can_commit());
    h.handle_event(ToolEvent::Move(pt(9, 2)));
    h.handle_event(ToolEvent::Release(pt(7, 8)));
    assert!(h.can_commit());
    assert!(!h.handle_event(ToolEvent::Move(pt(100, 100))));
    assert_eq!(h.bounds(), Some(Rect { x: 5, y: 2, width: 4, height: 6 }));
    h.reset();
    assert!(!h.can_commit());
}

#[test]
fn text_tool_typing() {
    let mut t = TextTool::new();
    assert!(!t.handle_event(ToolEvent::Key(KeyInput::Char('a'))));
    assert!(t.handle_event(ToolEvent::Press(pt(10, 50))));
    assert!(t.is_drawing());
    for c in ['h', 'i'] {
        t.handle_event(ToolEvent::Key(KeyInput::Char(c)));
    }
    t.handle_event(ToolEvent::Key(KeyInput::Space));
    t.handle_event(ToolEvent::Key(KeyInput::Home));
    t.handle_event(ToolEvent::Key(KeyInput::Char('>')));
    assert_eq!(t.text(), ">hi ");
    t.handle_event(ToolEvent::Key(KeyInput::End));
    t.handle_event(ToolEvent::Key(KeyInput::Backspace));
    t.handle_event(ToolEvent::Key(KeyInput::Left));
    t.handle_event(ToolEvent::Key(KeyInput::Delete));
    assert_eq!(t.text(), ">h");
    assert_eq!(t.typing_cursor(), Some(2));
    assert!(!t.handle_event(ToolEvent::Key(KeyInput::Other)));
    assert!(!t.can_commit());
    assert!(t.handle_event(ToolEvent::Key(KeyInput::Return)));
    assert!(t.can_commit());
    assert_eq!(t.bounds(), Some(Rect { x: 10, y: 30, width: 20, height: 20 }));
    assert_eq!(t.position(), Some(pt(10, 50)));
}

#[test]
fn text_tool_press_while_typing_ends_it_and_escape_drops_text() {
    let mut t = TextTool::new();
    t.handle_event(ToolEvent::Press(pt(0, 30)));
    t.handle_event(ToolEvent::Key(KeyInput::Char('x')));
    assert!(!t.handle_event(ToolEvent::Press(pt(5, 5))));
    assert!(!t.is_drawing());
    assert!(t.can_commit());
    assert_eq!(t.position(), Some(pt(0, 30)));
    t.handle_event(ToolEvent::Press(pt(1, 40)));
    t.handle_event(ToolEvent::Key(KeyInput::Char('y')));
    t.handle_event(ToolEvent::Key(KeyInput::Escape));
    assert!(!t.can_commit());
    assert_eq!(t.position(), None);
    assert_eq!(t.bounds(), None);
    assert_eq!(t.text(), "");
}

fn text_field(id: i32, value: &str, max: Option<i32>) -> FormFieldInfo<u8> {
    FormFieldInfo {
        id,
        page: 0,
        geometry: 0,
        field_type: FormFieldType::Text {
            value: value.to_string(),
            max_len: max,
            multiline: false,
            password: false,
        },
        name: None,
        read_only: false,
    }
}

fn form() -> FormState<u8> {
    let mut f: FormState<u8> = FormState::new();
    f.add_fields(vec![
        text_field(1, "abc", Some(4)),
        FormFieldInfo {
            id: 2,
            page: 1,
            geometry: 0,
            field_type: FormFieldType::Checkbox { checked: false },
            name: Some("agree".to_string()),
            read_only: false,
        },
        FormFieldInfo {
            id: 3,
            page: 1,
            geometry: 0,
            field_type: FormFieldType::Dropdown {
                items: vec!["x".to_string(), "y".to_string()],
                selected: None,
                editable: false,
            },
            name: None,
            read_only: false,
        },
        FormFieldInfo { id: 4, page: 0, geometry: 0, field_type: FormFieldType::Signature, name: None, read_only: true },
    ]);
    f
}

#[test]
fn form_text_editing_and_commit() {
    let mut f = form();
    assert!(f.has_fields());
    assert!(!f.focus_field(4));
    assert!(!f.focus_field(99));
    assert!(f.focus_field(1));
    assert_eq!(f.text_buffer(), "abc");
    assert_eq!(f.cursor_pos(), 3);
    assert!(f.insert_char('é'));
    assert_eq!(f.cursor_pos(), 5);
    assert!(!f.insert_char('z'));
    f.cursor_home();
    assert!(f.delete());
    f.cursor_right();
    assert!(f.backspace());
    f.cursor_end();
    assert!(!f.delete());
    assert_eq!(f.text_buffer(), "cé");
    match f.commit_current() {
        Some((1, FormFieldValue::Text(t))) => assert_eq!(t, "cé"),
        _ => panic!("expected a text change"),
    }
    assert!(f.is_modified());
    assert!(f.commit_current().is_none());
    assert!(f.unfocus(true).is_none());
    assert_eq!(f.focused_field(), None);
    assert!(f.focused().is_none());
}

#[test]
fn form_checkbox_and_dropdown() {
    let mut f = form();
    assert!(f.toggle_checkbox().is_none());
    f.focus_field(2);
    assert!(!f.insert_char('q'));
    match f.toggle_checkbox() {
        Some((2, FormFieldValue::Boolean(true))) => {},
        _ => panic!("expected the box checked"),
    }
    match f.toggle_checkbox() {
        Some((2, FormFieldValue::Boolean(false))) => {},
        _ => panic!("expected the box cleared"),
    }
    f.focus_field(3);
    f.toggle_dropdown();
    assert!(f.is_dropdown_open());
    assert!(f.select_dropdown_item(2).is_none());
    assert!(f.select_dropdown_item(-1).is_none());
    match f.select_dropdown_item(1) {
        Some((3, FormFieldValue::ChoiceIndex(1))) => {},
        _ => panic!("expected item 1"),
    }
    assert!(!f.is_dropdown_open());
    assert_eq!(f.fields_on_page(1).len(), 2);
    assert_eq!(f.field_by_id(3).map(|x| x.page), Some(1));
}

#[test]
fn form_tab_order() {
    let mut f = form();
    let order = vec![3, 1, 2];
    assert!(f.focus_next(&order));
    assert_eq!(f.focused_field(), Some(3));
    assert!(f.focus_next(&order));
    assert_eq!(f.focused_field(), Some(1));
    assert!(f.focus_prev(&order));
    assert_eq!(f.focused_field(), Some(3));
    assert!(f.focus_prev(&order));
    assert_eq!(f.focused_field(), Some(2));
    assert!(!f.focus_next(&vec![]));
    let mut g = form();
    assert!(g.focus_prev(&order));
    assert_eq!(g.focused_field(), Some(2));
}

#[test]
fn annotation_records_and_undo() {
    let mut log: AnnotationLog<u32> = AnnotationLog::new();
    log.set_page(2);
    log.commit(ToolType::Rectangle, Some(Rect { x: 0, y: 0, width: 5, height: 5 }), 7, vec![0]);
    log.commit(ToolType::Blur, None, 7, vec![1]);
    assert_eq!(log.annotation_count(), 1);
    assert_eq!(log.annotations()[0].id, 1);
    assert_eq!(log.annotations()[0].description(), "Rectangle on page 3");
    assert!(log.is_modified());
    assert_eq!(log.undo(vec![2]), Some(vec![1]));
    assert_eq!(log.annotation_count(), 0);
    assert!(log.can_redo());
    assert_eq!(log.redo(vec![1]), Some(vec![2]));
    log.mark_saved();
    assert!(!log.is_modified());
    log.clear_all(vec![3]);
    assert_eq!(log.annotations_for_page(2).len(), 0);
    assert!(log.can_undo());
}

#[test]
fn annotation_description_and_sidecar() {
    let r = AnnotationRecord::new(9, ToolType::Text, Rect { x: 1, y: 2, width: 3, height: 4 }, (), 0);
    assert_eq!(r.description(), "Text on page 1");
    assert_eq!(annotation_path("/a/b.png"), "/a/b.png.annotations.png");
    match sidecar_action(&[0, 0, 0, 0, 9, 9, 9, 0], 2, 1) {
        Ok(SidecarAction::Remove) => {},
        _ => panic!("an empty layer removes the sidecar"),
    }
    match sidecar_action(&[0, 0, 0, 255], 1, 1) {
        Ok(SidecarAction::Write(png)) => assert_eq!(&png[1..4], b"PNG"),
        _ => panic!("a drawn layer is written"),
    }
}

#[test]
fn form_tab_then_back_tab_returns() {
    let order = vec![3, 1, 2];
    for (start, page, text) in [(3, 1, ""), (1, 0, "abc"), (2, 1, "")] {
        let mut f = form();
        assert!(f.focus_field(start));
        assert!(f.focus_next(&order));
        assert!(f.focus_prev(&order));
        assert_eq!(f.focused_field(), Some(start));
        assert_eq!(f.focused_page(), page);
        assert_eq!(f.text_buffer(), text);
        assert_eq!(f.fields().len(), 4);
        assert!(!f.is_modified());
    }
    let mut g = form();
    assert!(g.focus_field(2));
    assert!(g.focus_next(&order));
    assert_eq!((g.focused_field(), g.focused_page(), g.text_buffer()), (Some(3), 1, String::new()));
    assert!(g.focus_next(&order));
    assert_eq!((g.focused_field(), g.focused_page(), g.text_buffer()), (Some(1), 0, "abc".to_string()));
    assert_eq!(g.cursor_pos(), 3);
}

#[test]
fn annotation_sidecar_next_to_file() {
    assert_eq!(annotation_path("/pics/cat.png"), "/pics/cat.png.annotations.png");
    assert_eq!(annotation_path("cat.png"), "cat.png.annotations.png");
    assert_eq!(annotation_path("/pics/sub/"), "/pics/sub.annotations.png");
}
