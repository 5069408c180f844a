use sixtyfps_corelib::graphics::{canvas_window_size, LogicalSize, Point, Rect, Vector2D};
use sixtyfps_corelib::input::key_codes;
use sixtyfps_corelib::input::{
    filter_answered, is_offered, leaves, Filtered, FocusEvent, FocusEventResult, GrabStep,
    GrabWalk, InputEventFilterResult, InputEventResult, KeyEvent, KeyEventResult, KeyEventType,
    KeyboardModifiers, MouseEvent, MouseInputState, PointerEventButton, StandardShortcut,
    TargetOs, TextCursorDirection, TextShortcut,
};

fn key(text: &str, modifiers: KeyboardModifiers) -> KeyEvent {
    KeyEvent { modifiers, text: text.to_string(), event_type: KeyEventType::KeyPressed }
}

fn control() -> KeyboardModifiers {
    KeyboardModifiers { control: true, ..KeyboardModifiers::default() }
}

fn control_shift() -> KeyboardModifiers {
    KeyboardModifiers { control: true, shift: true, ..KeyboardModifiers::default() }
}

fn alt() -> KeyboardModifiers {
    KeyboardModifiers { alt: true, ..KeyboardModifiers::default() }
}

#[test]
fn mouse_event_position() {
    let p = Point::new(3, -4);
    let d = Point::new(0, 10);
    assert_eq!(
        MouseEvent::Pressed { position: p, button: PointerEventButton::Left }.position(),
        Some(p)
    );
    assert_eq!(
        MouseEvent::Released { position: p, button: PointerEventButton::Right }.position(),
        Some(p)
    );
    assert_eq!(MouseEvent::Moved { position: p }.position(), Some(p));
    assert_eq!(MouseEvent::Wheel { position: p, delta: d }.position(), Some(p));
    assert_eq!(MouseEvent::Exit.position(), None);
}

#[test]
fn mouse_event_translate() {
    let v = Vector2D::new(10, -20);
    let mut e = MouseEvent::Pressed { position: Point::new(1, 2), button: PointerEventButton::Middle };
    e.translate(v);
    assert_eq!(
        e,
        MouseEvent::Pressed { position: Point::new(11, -18), button: PointerEventButton::Middle }
    );
    let mut e = MouseEvent::Released { position: Point::new(0, 0), button: PointerEventButton::Other };
    e.translate(v);
    assert_eq!(
        e,
        MouseEvent::Released { position: Point::new(10, -20), button: PointerEventButton::Other }
    );
    let mut e = MouseEvent::Moved { position: Point::new(-10, 20) };
    e.translate(v);
    assert_eq!(e, MouseEvent::Moved { position: Point::new(0, 0) });
    let mut e = MouseEvent::Wheel { position: Point::new(5, 5), delta: Point::new(1, 1) };
    e.translate(v);
    assert_eq!(e, MouseEvent::Wheel { position: Point::new(15, -15), delta: Point::new(1, 1) });
    let mut e = MouseEvent::Exit;
    e.translate(v);
    assert_eq!(e, MouseEvent::Exit);
    // The largest step that stays in range.
    let mut e = MouseEvent::Moved { position: Point::new(i32::MAX - 10, i32::MIN + 20) };
    e.translate(v);
    assert_eq!(e, MouseEvent::Moved { position: Point::new(i32::MAX, i32::MIN) });
}

#[test]
fn defaults() {
    assert_eq!(InputEventResult::default(), InputEventResult::EventIgnored);
    assert_eq!(InputEventFilterResult::default(), InputEventFilterResult::ForwardEvent);
    assert_eq!(KeyEventType::default(), KeyEventType::KeyPressed);
    assert_eq!(
        KeyboardModifiers::default(),
        KeyboardModifiers { alt: false, control: false, meta: false, shift: false }
    );
    let e = KeyEvent::default();
    assert_eq!(e.text, "");
    assert_eq!(e.modifiers, KeyboardModifiers::default());
    assert_eq!(e.event_type, KeyEventType::KeyPressed);
    assert_ne!(KeyEventResult::EventAccepted, KeyEventResult::EventIgnored);
    assert_ne!(FocusEventResult::FocusAccepted, FocusEventResult::FocusIgnored);
    assert_ne!(FocusEvent::FocusIn, FocusEvent::WindowLostFocus);
}

#[test]
fn standard_shortcuts() {
    let table = [
        ("c", StandardShortcut::Copy),
        ("x", StandardShortcut::Cut),
        ("v", StandardShortcut::Paste),
        ("a", StandardShortcut::SelectAll),
        ("f", StandardShortcut::Find),
        ("s", StandardShortcut::Save),
        ("p", StandardShortcut::Print),
        ("z", StandardShortcut::Undo),
        ("r", StandardShortcut::Refresh),
    ];
    for os in [TargetOs::MacOs, TargetOs::Windows, TargetOs::Other] {
        for (text, shortcut) in table {
            assert_eq!(key(text, control()).shortcut(os), Some(shortcut));
            // Without control there is no shortcut.
            assert_eq!(key(text, KeyboardModifiers::default()).shortcut(os), None);
            assert_eq!(key(text, alt()).shortcut(os), None);
        }
        assert_eq!(key("q", control()).shortcut(os), None);
        assert_eq!(key("", control()).shortcut(os), None);
        assert_eq!(key("cc", control()).shortcut(os), None);
        assert_eq!(key("C", control()).shortcut(os), None);
        assert_eq!(key("c", control_shift()).shortcut(os), None);
    }
}

#[test]
fn redo_depends_on_the_platform() {
    assert_eq!(key("y", control()).shortcut(TargetOs::Windows), Some(StandardShortcut::Redo));
    assert_eq!(key("y", control()).shortcut(TargetOs::Other), None);
    assert_eq!(key("y", control()).shortcut(TargetOs::MacOs), None);
    assert_eq!(key("z", control_shift()).shortcut(TargetOs::Other), Some(StandardShortcut::Redo));
    assert_eq!(key("z", control_shift()).shortcut(TargetOs::MacOs), Some(StandardShortcut::Redo));
    assert_eq!(key("z", control_shift()).shortcut(TargetOs::Windows), None);
    assert_eq!(key("y", control_shift()).shortcut(TargetOs::Windows), None);
}

fn code(c: char) -> String {
    c.to_string()
}

#[test]
fn key_codes_are_those_of_the_platform_layers() {
    assert_eq!(key_codes::Backspace as u32, 0x08);
    assert_eq!(key_codes::Tab as u32, 0x09);
    assert_eq!(key_codes::Return as u32, 0x0a);
    assert_eq!(key_codes::Escape as u32, 0x1b);
    assert_eq!(key_codes::Delete as u32, 0x7f);
    assert_eq!(key_codes::UpArrow as u32, 0xf700);
    assert_eq!(key_codes::DownArrow as u32, 0xf701);
    assert_eq!(key_codes::LeftArrow as u32, 0xf702);
    assert_eq!(key_codes::RightArrow as u32, 0xf703);
    assert_eq!(key_codes::Home as u32, 0xf729);
    assert_eq!(key_codes::End as u32, 0xf72b);
    assert_eq!(key_codes::PageUp as u32, 0xf72c);
    assert_eq!(key_codes::PageDown as u32, 0xf72d);
}

#[test]
fn text_cursor_direction_of_keys() {
    for os in [TargetOs::MacOs, TargetOs::Windows, TargetOs::Other] {
        assert_eq!(
            TextCursorDirection::try_from(key_codes::LeftArrow, os),
            Ok(TextCursorDirection::Backward)
        );
        assert_eq!(
            TextCursorDirection::try_from(key_codes::RightArrow, os),
            Ok(TextCursorDirection::Forward)
        );
        assert_eq!(
            TextCursorDirection::try_from(key_codes::UpArrow, os),
            Ok(TextCursorDirection::PreviousLine)
        );
        assert_eq!(
            TextCursorDirection::try_from(key_codes::DownArrow, os),
            Ok(TextCursorDirection::NextLine)
        );
        assert_eq!(TextCursorDirection::try_from('a', os), Err(()));
        assert_eq!(TextCursorDirection::try_from(key_codes::Backspace, os), Err(()));
    }
    for os in [TargetOs::Windows, TargetOs::Other] {
        assert_eq!(
            TextCursorDirection::try_from(key_codes::Home, os),
            Ok(TextCursorDirection::StartOfLine)
        );
        assert_eq!(
            TextCursorDirection::try_from(key_codes::End, os),
            Ok(TextCursorDirection::EndOfLine)
        );
    }
    assert_eq!(TextCursorDirection::try_from(key_codes::Home, TargetOs::MacOs), Err(()));
    assert_eq!(TextCursorDirection::try_from(key_codes::End, TargetOs::MacOs), Err(()));
}

#[test]
fn text_shortcuts_of_plain_keys() {
    let none = KeyboardModifiers::default();
    for os in [TargetOs::MacOs, TargetOs::Windows, TargetOs::Other] {
        assert_eq!(key("", none).text_shortcut(os), None);
        assert_eq!(key("a", none).text_shortcut(os), None);
        assert_eq!(
            key(&code(key_codes::LeftArrow), none).text_shortcut(os),
            Some(TextShortcut::Move(TextCursorDirection::Backward))
        );
        assert_eq!(
            key(&code(key_codes::RightArrow), none).text_shortcut(os),
            Some(TextShortcut::Move(TextCursorDirection::Forward))
        );
        assert_eq!(
            key(&code(key_codes::UpArrow), none).text_shortcut(os),
            Some(TextShortcut::Move(TextCursorDirection::PreviousLine))
        );
        assert_eq!(
            key(&code(key_codes::DownArrow), none).text_shortcut(os),
            Some(TextShortcut::Move(TextCursorDirection::NextLine))
        );
        assert_eq!(
            key(&code(key_codes::Backspace), none).text_shortcut(os),
            Some(TextShortcut::DeleteBackward)
        );
        assert_eq!(
            key(&code(key_codes::Delete), none).text_shortcut(os),
            Some(TextShortcut::DeleteForward)
        );
        // Only the first character counts.
        let mut two = code(key_codes::Delete);
        two.push('x');
        assert_eq!(key(&two, none).text_shortcut(os), Some(TextShortcut::DeleteForward));
    }
    assert_eq!(
        key(&code(key_codes::Home), none).text_shortcut(TargetOs::Other),
        Some(TextShortcut::Move(TextCursorDirection::StartOfLine))
    );
    assert_eq!(key(&code(key_codes::Home), none).text_shortcut(TargetOs::MacOs), None);
}

#[test]
fn text_shortcuts_by_word() {
    let table = [
        (key_codes::LeftArrow, TextShortcut::Move(TextCursorDirection::BackwardByWord)),
        (key_codes::RightArrow, TextShortcut::Move(TextCursorDirection::ForwardByWord)),
        (key_codes::UpArrow, TextShortcut::Move(TextCursorDirection::StartOfParagraph)),
        (key_codes::DownArrow, TextShortcut::Move(TextCursorDirection::EndOfParagraph)),
        (key_codes::Backspace, TextShortcut::DeleteWordBackward),
        (key_codes::Delete, TextShortcut::DeleteWordForward),
    ];
    for (c, shortcut) in table {
        assert_eq!(key(&code(c), control()).text_shortcut(TargetOs::Other), Some(shortcut));
        assert_eq!(key(&code(c), control()).text_shortcut(TargetOs::Windows), Some(shortcut));
        assert_eq!(key(&code(c), alt()).text_shortcut(TargetOs::MacOs), Some(shortcut));
    }
    // With a second modifier the word shortcuts do not apply.
    let control_alt = KeyboardModifiers { control: true, alt: true, ..KeyboardModifiers::default() };
    assert_eq!(
        key(&code(key_codes::LeftArrow), control_alt).text_shortcut(TargetOs::Other),
        Some(TextShortcut::Move(TextCursorDirection::Backward))
    );
    let control_meta =
        KeyboardModifiers { control: true, meta: true, ..KeyboardModifiers::default() };
    assert_eq!(
        key(&code(key_codes::Backspace), control_meta).text_shortcut(TargetOs::Other),
        Some(TextShortcut::DeleteBackward)
    );
    // Alt moves by word on macOS only.
    assert_eq!(
        key(&code(key_codes::LeftArrow), alt()).text_shortcut(TargetOs::Other),
        Some(TextShortcut::Move(TextCursorDirection::Backward))
    );
}

#[test]
fn text_shortcuts_with_control() {
    assert_eq!(
        key(&code(key_codes::Home), control()).text_shortcut(TargetOs::Other),
        Some(TextShortcut::Move(TextCursorDirection::StartOfText))
    );
    assert_eq!(
        key(&code(key_codes::End), control()).text_shortcut(TargetOs::Windows),
        Some(TextShortcut::Move(TextCursorDirection::EndOfText))
    );
    // On macOS control and an arrow go to the ends of the line and the text.
    let table = [
        (key_codes::LeftArrow, TextCursorDirection::StartOfLine),
        (key_codes::RightArrow, TextCursorDirection::EndOfLine),
        (key_codes::UpArrow, TextCursorDirection::StartOfText),
        (key_codes::DownArrow, TextCursorDirection::EndOfText),
    ];
    for (c, direction) in table {
        assert_eq!(
            key(&code(c), control()).text_shortcut(TargetOs::MacOs),
            Some(TextShortcut::Move(direction))
        );
    }
    assert_eq!(key(&code(key_codes::Home), control()).text_shortcut(TargetOs::MacOs), None);
    assert_eq!(
        key(&code(key_codes::Backspace), control()).text_shortcut(TargetOs::MacOs),
        Some(TextShortcut::DeleteBackward)
    );
}

#[test]
fn canvas_keeps_its_size_where_it_has_one() {
    let default_size = LogicalSize { width: 1024, height: 768 };
    assert_eq!(
        canvas_window_size(LogicalSize { width: 300, height: 150 }, default_size),
        LogicalSize { width: 300, height: 150 }
    );
    assert_eq!(
        canvas_window_size(LogicalSize { width: 0, height: 150 }, default_size),
        LogicalSize { width: 1024, height: 150 }
    );
    assert_eq!(
        canvas_window_size(LogicalSize { width: 300, height: 0 }, default_size),
        LogicalSize { width: 300, height: 768 }
    );
    assert_eq!(canvas_window_size(LogicalSize { width: 0, height: 0 }, default_size), default_size);
}

fn rect(x: i32, y: i32, width: i32, height: i32) -> Rect {
    Rect { origin: Point::new(x, y), width, height }
}

fn moved(x: i32, y: i32) -> MouseEvent {
    MouseEvent::Moved { position: Point::new(x, y) }
}

#[test]
fn rectangle_holds_its_left_and_top_edge_only() {
    let r = rect(10, 20, 5, 3);
    assert!(r.contains(Point::new(10, 20)));
    assert!(r.contains(Point::new(14, 22)));
    assert!(!r.contains(Point::new(15, 22)));
    assert!(!r.contains(Point::new(14, 23)));
    assert!(!r.contains(Point::new(9, 20)));
    assert!(!r.contains(Point::new(10, 19)));
    assert!(!rect(0, 0, 0, 10).contains(Point::new(0, 0)));
    assert!(!rect(0, 0, -4, 10).contains(Point::new(-1, 0)));
    // The far edge may lie beyond the range of the coordinates.
    let wide = rect(i32::MAX - 1, 0, i32::MAX, 1);
    assert!(wide.contains(Point::new(i32::MAX, 0)));
    assert_eq!(r.translate(Vector2D::new(-10, 5)), rect(0, 25, 5, 3));
}

#[test]
fn positions_relative_to_an_item() {
    assert_eq!(Point::new(7, 9).relative_to(Point::new(2, 10)), Point::new(5, -1));
    assert_eq!(moved(7, 9).relative_to(Point::new(2, 10)), moved(5, -1));
    assert_eq!(MouseEvent::Exit.relative_to(Point::new(2, 10)), MouseEvent::Exit);
    let wheel = MouseEvent::Wheel { position: Point::new(1, 1), delta: Point::new(0, 8) };
    assert_eq!(
        wheel.relative_to(Point::new(1, 2)),
        MouseEvent::Wheel { position: Point::new(0, -1), delta: Point::new(0, 8) }
    );
}

#[test]
fn grab_needs_an_item() {
    let mut state: MouseInputState<u8> = MouseInputState::default();
    assert!(!state.has_grab());
    state.grabbed = true;
    assert!(!state.has_grab());
    state.item_stack.push((1, InputEventFilterResult::ForwardEvent));
    assert!(state.has_grab());
    state.grabbed = false;
    assert!(!state.has_grab());
}

#[test]
fn walk_down_to_the_grabber() {
    let mut walk = GrabWalk::new(moved(50, 60));
    assert_eq!(walk.meet(true), GrabStep::Enter);
    assert!(!walk.enter(InputEventFilterResult::ForwardEvent, Point::new(10, 10)));
    assert_eq!(walk.event, moved(40, 50));
    assert_eq!(walk.meet(true), GrabStep::Enter);
    assert!(walk.enter(InputEventFilterResult::ForwardAndInterceptGrab, Point::new(5, 5)));
    assert_eq!(walk.event, moved(35, 45));
    // The item does not intercept: the walk goes on.
    walk.filtered(InputEventFilterResult::ForwardEvent);
    assert!(!walk.intercept);
    assert_eq!(walk.meet(true), GrabStep::Enter);
    assert!(walk.enter(InputEventFilterResult::ForwardAndInterceptGrab, Point::new(0, 0)));
    walk.filtered(InputEventFilterResult::Intercept);
    assert!(walk.intercept && !walk.invalid);
    // The items below lose the grab.
    assert_eq!(walk.meet(true), GrabStep::Exit);
    assert_eq!(walk.meet(true), GrabStep::Exit);
    // An item that is gone cuts the stack off.
    assert_eq!(walk.meet(false), GrabStep::Forget);
    assert!(walk.invalid);
    assert_eq!(walk.meet(true), GrabStep::Forget);
    assert_eq!(walk.event, moved(35, 45));
}

#[test]
fn the_grab_ends_unless_it_is_asked_for_again() {
    for (answer, released) in [
        (InputEventResult::GrabMouse, false),
        (InputEventResult::EventAccepted, true),
        (InputEventResult::EventIgnored, true),
    ] {
        let mut state = MouseInputState { item_stack: vec![(7u8, InputEventFilterResult::ForwardEvent)], grabbed: true };
        assert_eq!(state.grabber_answered(answer), released);
        assert_eq!(state.grabbed, !released);
        assert_eq!(state.item_stack.len(), 1);
    }
}

#[test]
fn mouse_leaves_the_items_it_is_not_in() {
    let mut position = Some(Point::new(15, 15));
    assert!(!leaves(&mut position, rect(10, 10, 10, 10)));
    assert_eq!(position, Some(Point::new(5, 5)));
    assert!(leaves(&mut position, rect(6, 0, 10, 10)));
    assert_eq!(position, Some(Point::new(-1, 5)));
    let mut nowhere = None;
    assert!(leaves(&mut nowhere, rect(0, 0, 100, 100)));
    assert_eq!(nowhere, None);
}

#[test]
fn event_is_offered_to_items_it_lies_in() {
    let r = rect(10, 10, 10, 10);
    assert!(is_offered(&moved(10, 19), &r, false));
    assert!(!is_offered(&moved(20, 19), &r, false));
    assert!(is_offered(&moved(20, 19), &r, true));
    assert!(!is_offered(&MouseEvent::Exit, &r, false));
    assert!(is_offered(&MouseEvent::Exit, &r, true));
}

#[test]
fn what_the_filter_answers_means() {
    let event = moved(30, 40);
    let origin = Point::new(10, 20);
    assert_eq!(
        filter_answered(InputEventFilterResult::ForwardAndIgnore, event, origin),
        Filtered { deliver: false, intercept: false, skip_children: false, event }
    );
    for answer in [InputEventFilterResult::ForwardEvent, InputEventFilterResult::ForwardAndInterceptGrab] {
        assert_eq!(
            filter_answered(answer, event, origin),
            Filtered { deliver: true, intercept: false, skip_children: false, event }
        );
    }
    assert_eq!(
        filter_answered(InputEventFilterResult::Intercept, event, origin),
        Filtered { deliver: true, intercept: true, skip_children: true, event }
    );
    // The event that the item dispatches is told in its own coordinates.
    assert_eq!(
        filter_answered(InputEventFilterResult::InterceptAndDispatch(moved(1, 2)), event, origin),
        Filtered { deliver: true, intercept: true, skip_children: false, event: moved(11, 22) }
    );
    assert_eq!(
        filter_answered(InputEventFilterResult::InterceptAndDispatch(MouseEvent::Exit), event, origin),
        Filtered { deliver: true, intercept: true, skip_children: false, event: MouseEvent::Exit }
    );
}

#[test]
fn the_deepest_item_that_accepts_counts() {
    let deep = vec![(1u8, InputEventFilterResult::ForwardEvent), (2, InputEventFilterResult::ForwardEvent)];
    let shallow = vec![(1u8, InputEventFilterResult::ForwardEvent)];
    let mut result: MouseInputState<u8> = MouseInputState::default();
    assert!(!result.delivered(deep.clone(), InputEventResult::EventIgnored));
    assert!(result.item_stack.is_empty());
    assert!(result.delivered(deep.clone(), InputEventResult::EventAccepted));
    assert_eq!(result.item_stack, deep);
    assert!(!result.grabbed);
    assert!(result.delivered(shallow.clone(), InputEventResult::EventAccepted));
    assert_eq!(result.item_stack, deep);
    // An item that grabs the mouse takes the stack, and is asked from now on
    // whether it intercepts.
    assert!(result.delivered(shallow.clone(), InputEventResult::GrabMouse));
    assert!(result.grabbed);
    assert_eq!(result.item_stack, vec![(1, InputEventFilterResult::ForwardAndInterceptGrab)]);
    assert!(result.delivered(deep.clone(), InputEventResult::GrabMouse));
    assert_eq!(
        result.item_stack,
        vec![(1, InputEventFilterResult::ForwardEvent), (2, InputEventFilterResult::ForwardAndInterceptGrab)]
    );
}
