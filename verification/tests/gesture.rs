use resonance::gesture::{cursor_is_over, Outcome, Runtime};
use resonance::messages::{EndpointState, EndpointView, Snapshot};
use resonance::widget::{Area, ANIMATION_STEPS, PANEL_PADDING, ROW_HEIGHT};

const AREA: Option<Area> = Some(Area { left: 0, top: 0, right: 1920, bottom: 1040 });

fn snapshot() -> Snapshot {
    let endpoint = |id: &str| EndpointView {
        id: id.to_string(),
        friendly_name: id.to_uppercase(),
        state: EndpointState::Active,
    };
    Snapshot {
        endpoints: vec![endpoint("a"), endpoint("b")],
        default_endpoint: Some("a".to_string()),
        live_sessions: vec![],
        revision: 1,
    }
}

/// A widget whose list is open.
fn open_widget(snapshot: Option<&Snapshot>) -> Runtime {
    let mut runtime = Runtime::new((800, 700));
    let effects = runtime.on_mouse_move(5, Some((805, 705)), AREA);
    assert!(effects.arm_tracking && effects.start_dwell);
    let effects = runtime.on_dwell_elapsed(snapshot);
    assert!(effects.stop_dwell && effects.start_animation);
    for step in 1..=ANIMATION_STEPS {
        let effects = runtime.on_animation_tick();
        assert!(effects.repaint);
        assert_eq!(effects.stop_animation, step == ANIMATION_STEPS);
    }
    assert!(runtime.fully_grown());
    runtime
}

#[test]
fn a_press_that_hardly_moves_is_a_click() {
    let mut runtime = Runtime::new((800, 700));
    let effects = runtime.on_button_down(Some((810, 710)));
    assert!(effects.capture && effects.stop_dwell);
    let effects = runtime.on_mouse_move(14, Some((814, 706)), AREA);
    assert!(!effects.repaint);
    let (outcome, effects) = runtime.on_button_up(14);
    assert!(matches!(outcome, Outcome::Click));
    assert!(effects.release_capture);
    assert_eq!(runtime.origin(), (800, 700));
}

#[test]
fn a_press_that_moves_is_a_drag_inside_the_work_area() {
    let mut runtime = Runtime::new((800, 700));
    runtime.on_button_down(Some((810, 710)));
    let effects = runtime.on_mouse_move(0, Some((830, 690)), AREA);
    assert!(effects.repaint);
    assert_eq!(runtime.origin(), (820, 680));
    // Going back to where the press was does not make it a click again.
    runtime.on_mouse_move(0, Some((810, 710)), AREA);
    let (outcome, _) = runtime.on_button_up(0);
    match outcome {
        Outcome::Dropped(place) => assert_eq!(place, (800, 700)),
        _ => panic!("expected a drop"),
    }

    runtime.on_button_down(Some((810, 710)));
    runtime.on_mouse_move(0, Some((9000, -9000)), AREA);
    let (outcome, _) = runtime.on_button_up(0);
    match outcome {
        Outcome::Dropped(place) => assert_eq!(place, (1920 - 56, 0)),
        _ => panic!("expected a drop"),
    }
}

#[test]
fn the_open_list_marks_and_chooses_rows() {
    let snapshot = snapshot();
    let mut runtime = open_widget(Some(&snapshot));
    let second = PANEL_PADDING + ROW_HEIGHT + 3;
    let effects = runtime.on_mouse_move(second, None, AREA);
    assert!(effects.repaint);
    assert_eq!(runtime.hovered_row(), Some(1));
    let effects = runtime.on_mouse_move(second + 1, None, AREA);
    assert!(!effects.repaint, "nothing changed");

    // A press on the open list starts no drag.
    let effects = runtime.on_button_down(Some((700, 700)));
    assert!(!effects.capture);
    let (outcome, _) = runtime.on_button_up(second);
    match outcome {
        Outcome::Chose(id) => assert_eq!(id, "b"),
        _ => panic!("expected a choice"),
    }
    let (outcome, effects) = runtime.on_button_up(0);
    assert!(matches!(outcome, Outcome::Nothing));
    assert!(!effects.release_capture);
}

#[test]
fn the_placeholder_can_not_be_chosen() {
    let mut runtime = open_widget(None);
    assert_eq!(runtime.rows().len(), 1);
    runtime.on_mouse_move(PANEL_PADDING + 1, None, AREA);
    assert_eq!(runtime.hovered_row(), None);
    let (outcome, _) = runtime.on_button_up(PANEL_PADDING + 1);
    assert!(matches!(outcome, Outcome::Nothing));
}

#[test]
fn leaving_closes_the_list_from_wherever_it_is() {
    let snapshot = snapshot();
    let mut runtime = open_widget(Some(&snapshot));
    let effects = runtime.on_mouse_leave();
    assert!(effects.start_animation && effects.repaint);
    runtime.on_animation_tick();
    assert_eq!(runtime.progress(), ANIMATION_STEPS - 1);
    // Coming back reverses the animation without a jump.
    runtime.on_mouse_move(5, None, AREA);
    let effects = runtime.on_dwell_elapsed(Some(&snapshot));
    assert!(effects.start_animation);
    assert_eq!(runtime.progress(), ANIMATION_STEPS - 1);
    runtime.on_animation_tick();
    assert!(runtime.fully_grown());

    runtime.on_mouse_leave();
    for _ in 0..ANIMATION_STEPS {
        runtime.on_animation_tick();
    }
    assert!(runtime.at_rest());
    // A tick too many changes nothing.
    assert!(runtime.on_animation_tick().stop_animation);
    assert!(runtime.at_rest());
}

#[test]
fn the_context_menu_keeps_the_list_open() {
    let snapshot = snapshot();
    let mut runtime = open_widget(Some(&snapshot));
    runtime.on_menu_shown();
    let effects = runtime.on_mouse_leave();
    assert!(!effects.start_animation && !effects.repaint && effects.stop_dwell);
    let effects = runtime.on_menu_closed(true);
    assert!(!effects.start_animation);
    runtime.on_menu_shown();
    let effects = runtime.on_menu_closed(false);
    assert!(effects.start_animation && effects.repaint);
}

#[test]
fn a_drag_holds_off_the_list() {
    let snapshot = snapshot();
    let mut runtime = Runtime::new((800, 700));
    runtime.on_button_down(Some((810, 710)));
    let effects = runtime.on_dwell_elapsed(Some(&snapshot));
    assert!(effects.stop_dwell && !effects.start_animation);
    let effects = runtime.on_mouse_leave();
    assert!(!effects.start_animation);
    runtime.on_button_up(0);
    // The next movement starts over.
    assert!(runtime.on_mouse_move(0, None, AREA).start_dwell);
}

#[test]
fn an_unknown_pointer_is_not_over_the_window() {
    let bounds = Area { left: 10, top: 10, right: 20, bottom: 20 };
    assert!(cursor_is_over(Some((10, 19)), Some(bounds)));
    assert!(!cursor_is_over(Some((20, 19)), Some(bounds)));
    assert!(!cursor_is_over(None, Some(bounds)));
    assert!(!cursor_is_over(Some((15, 15)), None));
}

#[test]
fn a_drag_cannot_follow_past_the_last_coordinate() {
    let mut runtime = Runtime::new((800, 700));
    assert!(runtime.can_follow(Some((i32::MAX, i32::MIN))));
    runtime.on_button_down(Some((810, 710)));
    assert!(runtime.can_follow(None));
    assert!(runtime.can_follow(Some((i32::MAX, 0))));
    assert!(!runtime.can_follow(Some((i32::MIN, 0))));
    assert!(!runtime.can_follow(Some((0, i32::MIN + 9))));
    assert!(runtime.can_follow(Some((0, i32::MIN + 10))));
}
