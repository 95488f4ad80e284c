use std::cell::Cell;
use std::rc::Rc;

use tui_tree::{
    Action, ButtonObject, ContainerObject, Flow, FlowDirection, Handle, HandleReturn, InputEvent, KeyInput,
    MouseAction, MouseTriggers, Object, ObjectCommand, ObjectError, SelectionDirection,
    TextObject, Trigger, TuiHandler, Widget,
};

fn handle(indexes: &[usize]) -> Handle {
    Handle { indexes: indexes.to_vec() }
}

struct Nothing;

impl Action for Nothing {
    fn activate(&mut self) {}
}

struct Counter(Rc<Cell<u32>>);

impl Action for Counter {
    fn activate(&mut self) {
        self.0.set(self.0.get() + 1);
    }
}

fn button(text: &str) -> Widget {
    Widget::Button(ButtonObject::new(text, Box::new(Nothing)))
}

fn text(content: &str) -> Widget {
    Widget::Text(TextObject::new(content))
}

fn box_of(w: &Widget) -> ((usize, usize), (usize, usize)) {
    match w {
        Widget::Container(c) => (c.size, c.position),
        Widget::Text(t) => (t.size, t.position),
        Widget::Button(b) => (b.size, b.position),
    }
}

fn is_marked(w: &Widget) -> bool {
    matches!(w, Widget::Button(b) if b.is_selected)
}

fn count_marked(w: &Widget) -> usize {
    match w {
        Widget::Container(c) => c.content.iter().map(count_marked).sum(),
        other => usize::from(is_marked(other)),
    }
}

/// A handler of 80 by 24 cells whose root holds `children`.
fn handler_with(children: Vec<Widget>) -> TuiHandler {
    let mut h = TuiHandler::from_dimensions(Some((80, 24)));
    for child in children {
        h.add_object(child).unwrap();
    }
    h
}

#[test]
fn two_children_share_a_bordered_row() {
    let mut root = ContainerObject::new();
    root.size = (80, 24);
    root.spacing = vec![1, 1];
    root.add_object(text("left"));
    root.add_object(text("right"));
    root.update_sizes();
    assert_eq!(box_of(&root.content[0]), ((39, 22), (1, 1)));
    assert_eq!(box_of(&root.content[1]), ((38, 22), (41, 1)));
}

#[test]
fn column_flow_shares_the_height() {
    let mut root = ContainerObject::new();
    root.size = (20, 10);
    root.border = false;
    root.flow = Flow::Column;
    root.spacing = vec![1, 1];
    root.add_object(text("top"));
    root.add_object(text("bottom"));
    root.update_sizes();
    assert_eq!(box_of(&root.content[0]), ((20, 5), (0, 0)));
    // The last child ends one cell short of the edge, so it gains that cell.
    assert_eq!(box_of(&root.content[1]), ((20, 5), (0, 5)));
}

#[test]
fn borderless_row_widths_stay_within_one_cell_per_child() {
    let mut root = ContainerObject::new();
    root.size = (10, 3);
    root.border = false;
    root.spacing = vec![1, 1, 1];
    for _ in 0..3 {
        root.add_object(text("x"));
    }
    root.update_sizes();
    let total: usize = root.content.iter().map(|w| box_of(w).0 .0).sum();
    assert_eq!(total, 9);
    assert!(total <= 10 && total + 3 >= 10);
    assert_eq!(box_of(&root.content[2]).1, (6, 0));
}

#[test]
fn short_spacing_repeats_its_last_weight() {
    let mut root = ContainerObject::new();
    root.size = (12, 4);
    root.border = false;
    root.spacing = vec![2];
    for _ in 0..3 {
        root.add_object(text("x"));
    }
    root.update_sizes();
    assert_eq!(root.spacing, vec![2, 2, 2]);
    assert_eq!(box_of(&root.content[1]), ((4, 4), (4, 0)));
}

#[test]
fn zero_weights_count_as_ones() {
    let mut root = ContainerObject::new();
    root.size = (10, 2);
    root.border = false;
    root.spacing = vec![0, 0];
    root.add_object(text("a"));
    root.add_object(text("b"));
    root.update_sizes();
    assert_eq!(root.spacing, vec![1, 1]);
    assert_eq!(box_of(&root.content[0]), ((5, 2), (0, 0)));
    assert_eq!(box_of(&root.content[1]), ((5, 2), (5, 0)));
}

#[test]
fn nested_containers_are_laid_out_in_their_own_box() {
    let mut inner = ContainerObject::new();
    inner.border = false;
    inner.add_object(text("inside"));
    let mut root = ContainerObject::new();
    root.size = (80, 24);
    root.add_object(Widget::Container(inner));
    root.update_sizes();
    let inner = match &root.content[0] {
        Widget::Container(c) => c,
        _ => panic!("the child is a container"),
    };
    assert_eq!((inner.size, inner.position), ((78, 22), (1, 1)));
    assert_eq!(box_of(&inner.content[0]), ((78, 22), (1, 1)));
}

#[test]
fn empty_container_lays_out_nothing() {
    let mut root = ContainerObject::new();
    root.size = (5, 5);
    root.update_sizes();
    assert!(root.content.is_empty());
    assert!(root.spacing.is_empty());
}

#[test]
fn added_object_is_found_by_its_handle() {
    let mut h = handler_with(vec![Widget::Container(ContainerObject::new())]);
    let r = h.command(&handle(&[0]), ObjectCommand::SetIndexes(vec![0])).unwrap();
    assert!(matches!(r, HandleReturn::Empty));
    let added = h
        .command(&handle(&[0]), ObjectCommand::AddObject(button("ok")))
        .unwrap()
        .unwrap_handle();
    assert_eq!(added.indexes, vec![0, 0]);
    match h.with(&added).unwrap() {
        Widget::Button(b) => assert_eq!(b.text, "ok"),
        _ => panic!("the handle leads to the new button"),
    }
}

#[test]
fn add_object_returns_the_child_index() {
    let mut h = handler_with(vec![text("a")]);
    assert_eq!(h.add_object(button("b")), Ok(1));
    assert_eq!(h.add_object(Widget::Container(ContainerObject::new())), Ok(2));
    match h.with(&handle(&[2])).unwrap() {
        Widget::Container(c) => {
            assert_eq!(c.size, (80, 24));
            assert_eq!(c.index, vec![2]);
        },
        _ => panic!("the third child is a container"),
    }
}

#[test]
fn commands_read_back_what_they_set() {
    let mut h = handler_with(vec![text("a")]);
    let at = handle(&[0]);
    h.command(&at, ObjectCommand::SetSize((7, 2))).unwrap();
    h.command(&at, ObjectCommand::SetPosition((3, 4))).unwrap();
    let size = h.command(&at, ObjectCommand::GetSize()).unwrap().unwrap_size();
    let pos = h.command(&at, ObjectCommand::GetPosition()).unwrap().unwrap_position();
    assert_eq!((size, pos), ((7, 2), (3, 4)));
    let count = h.command(&handle(&[]), ObjectCommand::GetObjectCount()).unwrap().unwrap_count();
    assert_eq!(count, 1);
}

#[test]
fn toggle_flips_the_flow() {
    let mut c = ContainerObject::new();
    c.handle(ObjectCommand::SetFlow(FlowDirection::Toggle)).unwrap();
    assert_eq!(c.flow, Flow::Column);
    c.handle(ObjectCommand::SetFlow(FlowDirection::Toggle)).unwrap();
    assert_eq!(c.flow, Flow::Row);
    c.handle(ObjectCommand::SetFlow(FlowDirection::Column)).unwrap();
    assert_eq!(c.flow, Flow::Column);
    c.handle(ObjectCommand::SetFlow(FlowDirection::Row)).unwrap();
    let flow = c.handle(ObjectCommand::GetFlow()).unwrap().unwrap_flow();
    assert_eq!(flow, FlowDirection::Row);
}

#[test]
fn unknown_handles_fail_to_resolve() {
    let mut h = handler_with(vec![text("a")]);
    assert_eq!(h.with(&handle(&[3])).err(), Some(ObjectError::LookupFailure));
    assert_eq!(h.with(&handle(&[0, 0])).err(), Some(ObjectError::LookupFailure));
    let r = h.command(&handle(&[1]), ObjectCommand::GetSize());
    assert!(matches!(r, Err(ObjectError::LookupFailure)));
}

#[test]
fn text_does_not_know_selection() {
    let mut t = TextObject::new("a");
    assert!(matches!(t.handle(ObjectCommand::GetSelected()), Err(ObjectError::UnsupportedCommand)));
    assert!(!t.is_selectable());
    assert!(ButtonObject::new("b", Box::new(Nothing)).is_selectable());
}

#[test]
fn set_selected_keeps_a_single_focus() {
    let mut h = handler_with(vec![button("a"), button("b"), text("c")]);
    assert_eq!(count_marked(&h.objects), 0);
    h.set_selected(&handle(&[0])).unwrap();
    assert_eq!(count_marked(&h.objects), 1);
    h.set_selected(&handle(&[1])).unwrap();
    h.set_selected(&handle(&[1])).unwrap();
    assert_eq!(count_marked(&h.objects), 1);
    assert!(is_marked(h.with(&handle(&[1])).unwrap()));
    assert_eq!(h.selected.indexes, vec![1]);
}

#[test]
fn set_selected_refuses_what_cannot_hold_focus() {
    let mut h = handler_with(vec![button("a"), text("b")]);
    h.set_selected(&handle(&[0])).unwrap();
    assert_eq!(h.set_selected(&handle(&[1])), Err(ObjectError::UnsupportedCommand));
    assert_eq!(h.set_selected(&handle(&[5])), Err(ObjectError::LookupFailure));
    assert_eq!(h.selected.indexes, vec![0]);
    assert_eq!(count_marked(&h.objects), 1);
}

#[test]
fn down_then_up_returns_to_the_start() {
    // Every child of the root is a button, so each one is reachable both ways.
    let mut h = handler_with(vec![button("a"), button("b"), button("c")]);
    h.set_selected(&handle(&[1])).unwrap();
    h.selectable_movement(SelectionDirection::Down);
    assert_eq!(h.selected.indexes, vec![2]);
    h.selectable_movement(SelectionDirection::Up);
    assert_eq!(h.selected.indexes, vec![1]);
    assert_eq!(count_marked(&h.objects), 1);
}

#[test]
fn up_from_the_first_child_does_nothing() {
    let mut h = handler_with(vec![button("a"), button("b")]);
    h.set_selected(&handle(&[0])).unwrap();
    h.selectable_movement(SelectionDirection::Up);
    assert_eq!(h.selected.indexes, vec![0]);
    assert!(is_marked(h.with(&handle(&[0])).unwrap()));
}

#[test]
fn down_from_the_last_child_does_nothing() {
    let mut h = handler_with(vec![button("a"), button("b")]);
    h.set_selected(&handle(&[1])).unwrap();
    h.selectable_movement(SelectionDirection::Down);
    assert_eq!(h.selected.indexes, vec![1]);
}

#[test]
fn down_enters_containers_and_skips_text() {
    let mut inner = ContainerObject::new();
    inner.add_object(text("label"));
    inner.add_object(button("inner"));
    let mut h = handler_with(vec![button("a"), Widget::Container(inner), button("b")]);
    h.set_selected(&handle(&[0])).unwrap();
    h.selectable_movement(SelectionDirection::Down);
    assert_eq!(h.selected.indexes, vec![1, 1]);
    h.selectable_movement(SelectionDirection::Left);
    assert_eq!(h.selected.indexes, vec![1, 1]);
    // Up passes the text and climbs out of the container to the first button.
    h.selectable_movement(SelectionDirection::Up);
    assert_eq!(h.selected.indexes, vec![0]);
    assert_eq!(count_marked(&h.objects), 1);
}

#[test]
fn up_enters_containers_at_their_last_child() {
    let mut inner = ContainerObject::new();
    inner.add_object(button("first"));
    inner.add_object(button("last"));
    let mut h = handler_with(vec![button("a"), Widget::Container(inner), button("b")]);
    h.set_selected(&handle(&[2])).unwrap();
    h.selectable_movement(SelectionDirection::Up);
    assert_eq!(h.selected.indexes, vec![1, 1]);
}

#[test]
fn movement_without_focus_does_nothing() {
    let mut h = handler_with(vec![button("a")]);
    h.selectable_movement(SelectionDirection::Down);
    assert!(h.selected.indexes.is_empty());
    assert_eq!(count_marked(&h.objects), 0);
}

#[test]
fn region_trigger_fires_inside_only() {
    let mut h = handler_with(vec![]);
    h.changed = false;
    let region = MouseTriggers::Region { x_range: (5, 10), y_range: (5, 10) };
    assert_eq!(h.add_trigger(Trigger::MouseClick(region)), 0);
    let inside = InputEvent::Mouse { kind: MouseAction::Down, column: 7, row: 7 };
    let outside = InputEvent::Mouse { kind: MouseAction::Down, column: 11, row: 7 };
    assert_eq!(h.handle_event(outside), Ok(vec![]));
    assert!(!h.changed);
    assert_eq!(h.handle_event(inside), Ok(vec![0]));
    assert!(h.changed);
    let release = InputEvent::Mouse { kind: MouseAction::Other, column: 7, row: 7 };
    assert_eq!(h.handle_event(release), Ok(vec![]));
}

#[test]
fn key_trigger_fires_once_and_marks_the_screen() {
    let mut h = handler_with(vec![]);
    h.changed = false;
    h.add_trigger(Trigger::KeyPress('q'));
    h.add_trigger(Trigger::KeyPress('x'));
    let fired = h.handle_event(InputEvent::Key { code: KeyInput::Char('q') }).unwrap();
    assert_eq!(fired, vec![0]);
    assert!(h.changed);
    let other = h.handle_event(InputEvent::Key { code: KeyInput::Other }).unwrap();
    assert!(other.is_empty());
}

#[test]
fn object_trigger_uses_the_node_box() {
    let mut h = handler_with(vec![button("a")]);
    h.command(&handle(&[0]), ObjectCommand::SetPosition((2, 3))).unwrap();
    h.command(&handle(&[0]), ObjectCommand::SetSize((4, 1))).unwrap();
    h.add_trigger(Trigger::MouseClick(MouseTriggers::Object { object_handle: handle(&[0]) }));
    let hit = InputEvent::Mouse { kind: MouseAction::Down, column: 5, row: 3 };
    let edge = InputEvent::Mouse { kind: MouseAction::Down, column: 6, row: 3 };
    assert_eq!(h.handle_event(hit), Ok(vec![0]));
    assert_eq!(h.handle_event(edge), Ok(vec![]));
}

#[test]
fn object_trigger_with_a_stale_handle_fails() {
    let mut h = handler_with(vec![]);
    h.add_trigger(Trigger::MouseClick(MouseTriggers::Object { object_handle: handle(&[4]) }));
    let click = InputEvent::Mouse { kind: MouseAction::Down, column: 0, row: 0 };
    assert_eq!(h.handle_event(click), Err(ObjectError::LookupFailure));
}

#[test]
fn radius_trigger_is_not_implemented() {
    let mut h = handler_with(vec![]);
    h.changed = false;
    h.add_trigger(Trigger::KeyPress('a'));
    h.add_trigger(Trigger::MouseClick(MouseTriggers::Radius { x: 1, y: 1, radius: 2 }));
    let click = InputEvent::Mouse { kind: MouseAction::Down, column: 1, row: 1 };
    assert_eq!(h.handle_event(click), Err(ObjectError::NotImplemented));
    assert!(!h.changed);
    let key = InputEvent::Key { code: KeyInput::Char('a') };
    assert_eq!(h.handle_event(key), Ok(vec![0]));
}

#[test]
fn resize_sets_the_root_size() {
    let mut h = handler_with(vec![]);
    h.changed = false;
    assert_eq!(h.handle_event(InputEvent::Resize { width: 100, height: 30 }), Ok(vec![]));
    assert!(h.changed);
    assert_eq!(h.terminal_size, Some((100, 30)));
    assert_eq!(box_of(&h.objects).0, (100, 30));
}

#[test]
fn missing_terminal_size_falls_back_to_80_by_24() {
    let h = TuiHandler::from_dimensions(None);
    assert_eq!(box_of(&h.objects).0, (80, 24));
    assert!(h.changed);
    assert!(h.selected.indexes.is_empty());
}

#[test]
fn new_handler_fills_the_terminal() {
    let h = TuiHandler::new();
    let expected = h.terminal_size.unwrap_or((80, 24));
    assert_eq!(box_of(&h.objects).0, expected);
    if let Some((w, rows)) = h.terminal_size {
        assert!(w > 0 && rows > 0);
    }
}

#[test]
fn update_container_sizes_lays_out_the_root() {
    let mut h = handler_with(vec![text("a"), text("b")]);
    h.changed = false;
    h.update_container_sizes();
    assert!(h.changed);
    assert_eq!(box_of(h.with(&handle(&[0])).unwrap()), ((39, 22), (1, 1)));
}

#[test]
fn down_climbs_past_exhausted_containers() {
    let mut deep = ContainerObject::new();
    deep.add_object(button("deep"));
    let mut first = ContainerObject::new();
    first.add_object(Widget::Container(deep));
    let mut second = ContainerObject::new();
    second.add_object(button("later"));
    let mut h = handler_with(vec![Widget::Container(first), Widget::Container(second)]);
    h.set_selected(&handle(&[0, 0, 0])).unwrap();
    h.selectable_movement(SelectionDirection::Down);
    assert_eq!(h.selected.indexes, vec![1, 0]);
    h.selectable_movement(SelectionDirection::Up);
    assert_eq!(h.selected.indexes, vec![0, 0, 0]);
    assert_eq!(count_marked(&h.objects), 1);
}

#[test]
fn down_stops_on_a_button_reached_by_climbing() {
    let mut inner = ContainerObject::new();
    inner.add_object(button("inner"));
    let mut h = handler_with(vec![Widget::Container(inner), button("after")]);
    h.set_selected(&handle(&[0, 0])).unwrap();
    h.selectable_movement(SelectionDirection::Down);
    assert_eq!(h.selected.indexes, vec![1]);
    h.selectable_movement(SelectionDirection::Down);
    assert_eq!(h.selected.indexes, vec![1]);
    h.selectable_movement(SelectionDirection::Up);
    assert_eq!(h.selected.indexes, vec![0, 0]);
}

#[test]
fn up_stops_on_a_button_reached_by_climbing() {
    let mut inner = ContainerObject::new();
    inner.add_object(button("inner"));
    let mut h = handler_with(vec![button("before"), Widget::Container(inner)]);
    h.set_selected(&handle(&[1, 0])).unwrap();
    h.selectable_movement(SelectionDirection::Up);
    assert_eq!(h.selected.indexes, vec![0]);
}

#[test]
fn activating_a_button_runs_its_action() {
    let hits = Rc::new(Cell::new(0));
    let mut b = ButtonObject::new("go", Box::new(Counter(hits.clone())));
    assert_eq!(hits.get(), 0);
    b.activate();
    b.activate();
    assert_eq!(hits.get(), 2);
    assert_eq!(b.text, "go");
}
