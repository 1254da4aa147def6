use resonance::interface::{
    after_overlay, click_signal, end_frame, menu_signal, ready_result, waiting, while_open,
    widget_menu_signal, AfterOverlay, LoopStep, UiSignal,
};
use resonance::messages::UiCommand;
use resonance::overlay::OverlayState;

#[test]
fn tray_items_raise_their_signals() {
    assert_eq!(menu_signal("resonance.toggle-overlay"), Some(UiSignal::ToggleOverlay));
    assert_eq!(menu_signal("resonance.show-widget"), Some(UiSignal::ShowWidget));
    assert_eq!(menu_signal("resonance.quit"), Some(UiSignal::Quit));
    assert_eq!(menu_signal("resonance"), None);
    assert_eq!(click_signal(true, true), Some(UiSignal::ToggleOverlay));
    assert_eq!(click_signal(true, false), None);
    assert_eq!(click_signal(false, true), None);
    assert_eq!(widget_menu_signal(1), Some(UiSignal::HideWidget));
    assert_eq!(widget_menu_signal(0), None);
}

#[test]
fn the_waiting_loop_follows_the_signals() {
    assert!(matches!(waiting(None), LoopStep::Stop));
    assert!(matches!(waiting(Some(UiSignal::Quit)), LoopStep::Quit(UiCommand::Quit)));
    assert!(matches!(waiting(Some(UiSignal::ToggleOverlay)), LoopStep::ShowOverlay));
    assert!(matches!(
        waiting(Some(UiSignal::HideWidget)),
        LoopStep::SetWidget { visible: false, save: UiCommand::SetWidgetVisible(false) }
    ));
    assert!(matches!(
        waiting(Some(UiSignal::ShowWidget)),
        LoopStep::SetWidget { visible: true, save: UiCommand::SetWidgetVisible(true) }
    ));
}

#[test]
fn while_the_overlay_is_open_the_widget_is_left_alone() {
    for signal in [UiSignal::ShowWidget, UiSignal::HideWidget] {
        let step = while_open(signal);
        assert!(step.send.is_none() && !step.quit && !step.close);
    }
    let step = while_open(UiSignal::ToggleOverlay);
    assert!(step.send.is_none() && !step.quit && step.close);
    let step = while_open(UiSignal::Quit);
    assert!(matches!(step.send, Some(UiCommand::Quit)) && step.quit && step.close);
}

#[test]
fn a_rebuilt_window_closes_first() {
    let mut state = OverlayState::new();
    let end = end_frame(&mut state);
    assert!(!end.restart && !end.close);
    state.set_opaque_mode(true);
    let end = end_frame(&mut state);
    assert!(end.restart && end.close);
    state.request_close();
    let end = end_frame(&mut state);
    assert!(!end.restart && end.close);
    assert!(!end_frame(&mut state).close);

    assert_eq!(after_overlay(true, true), AfterOverlay::Rebuild);
    assert_eq!(after_overlay(false, true), AfterOverlay::Stop);
    assert_eq!(after_overlay(false, false), AfterOverlay::Wait);
}

#[test]
fn a_thread_that_never_reports_is_an_error() {
    assert_eq!(ready_result(Some(Ok(7)), "tray"), Ok(7));
    assert_eq!(ready_result(Some(Err("no icon".to_string())), "tray"), Err("no icon".to_string()));
    assert_eq!(
        ready_result(None, "widget"),
        Err("the widget thread stopped before it was ready".to_string())
    );
}
