//! The loop around the interface: what the tray icon, the shortcut and the
//! overlay ask of it, and when the overlay window is built and torn down.
//!
//! The windowing stack runs only while the overlay is on screen. Otherwise the
//! loop sleeps until a signal arrives.

use crate::messages::UiCommand;
use crate::overlay::OverlayState;
use crate::text::same;
use vstd::prelude::*;
use vstd::string::*;

verus! {

/// Something that asks the interface to change, raised from the tray icon, the
/// corner widget or the keyboard shortcut.
#[derive(Debug, Clone, Copy, PartialEq, Eq, Structural)]
pub enum UiSignal {
    ToggleOverlay,
    ShowWidget,
    HideWidget,
    Quit,
}

/// The number of the "Hide" item in the widget's context menu.
pub const HIDE_COMMAND_ID: i32 = 1;

/// The signal of an item of the tray menu.
pub open spec fn signal_of(id: Seq<char>) -> Option<UiSignal> {
    if id == "resonance.toggle-overlay"@ {
        Some(UiSignal::ToggleOverlay)
    } else if id == "resonance.show-widget"@ {
        Some(UiSignal::ShowWidget)
    } else if id == "resonance.quit"@ {
        Some(UiSignal::Quit)
    } else {
        None
    }
}

/// The signal that choosing an item of the tray menu raises; none for an item
/// that is not known.
pub fn menu_signal(id: &str) -> (signal: Option<UiSignal>)
    ensures
        signal == signal_of(id@),
{
    if same(id, "resonance.toggle-overlay") {
        Some(UiSignal::ToggleOverlay)
    } else if same(id, "resonance.show-widget") {
        Some(UiSignal::ShowWidget)
    } else if same(id, "resonance.quit") {
        Some(UiSignal::Quit)
    } else {
        None
    }
}

/// The signal that a click on the tray icon raises. Only a completed left click
/// toggles: the right button belongs to the menu, and a button that goes down
/// would count twice.
pub fn click_signal(left: bool, up: bool) -> (signal: Option<UiSignal>)
    ensures
        signal == if left && up {
            Some(UiSignal::ToggleOverlay)
        } else {
            None
        },
{
    if left && up {
        Some(UiSignal::ToggleOverlay)
    } else {
        None
    }
}

/// The signal that the widget's context menu raises, where its one item was
/// chosen. The widget is hidden by the loop, which records that too.
pub fn widget_menu_signal(chosen: i32) -> (signal: Option<UiSignal>)
    ensures
        signal == if chosen == HIDE_COMMAND_ID {
            Some(UiSignal::HideWidget)
        } else {
            None
        },
{
    if chosen == HIDE_COMMAND_ID {
        Some(UiSignal::HideWidget)
    } else {
        None
    }
}

/// What a thread that serves a window reported once it was ready: its
/// identifier, or why it stopped.
pub fn ready_result(reply: Option<Result<u32, String>>, thread: &str) -> (result: Result<u32, String>)
    ensures
        match reply {
            Some(Ok(id)) => result == Ok::<u32, String>(id),
            Some(Err(e)) => result == Err::<u32, String>(e),
            None => result matches Err(e) && e@ == "the "@ + thread@
                + " thread stopped before it was ready"@,
        },
{
    match reply {
        Some(result) => result,
        None => {
            let mut text = String::from_str("the ");
            text.append(thread);
            text.append(" thread stopped before it was ready");
            Err(text)
        },
    }
}

/// What the loop does about a signal.
#[derive(Debug)]
pub enum LoopStep {
    /// Show the overlay, and come back when it is dismissed.
    ShowOverlay,
    /// Make the corner widget visible or not, and have that saved.
    SetWidget { visible: bool, save: UiCommand },
    /// End, after sending this to the backend.
    Quit(UiCommand),
    /// End: nothing can ask for the overlay any more.
    Stop,
}

/// What the waiting loop does about the next signal. There is none once every
/// sender is gone.
pub fn waiting(signal: Option<UiSignal>) -> (step: LoopStep)
    ensures
        step == match signal {
            None => LoopStep::Stop,
            Some(UiSignal::Quit) => LoopStep::Quit(UiCommand::Quit),
            Some(UiSignal::ToggleOverlay) => LoopStep::ShowOverlay,
            Some(UiSignal::ShowWidget) => LoopStep::SetWidget {
                visible: true,
                save: UiCommand::SetWidgetVisible(true),
            },
            Some(UiSignal::HideWidget) => LoopStep::SetWidget {
                visible: false,
                save: UiCommand::SetWidgetVisible(false),
            },
        },
{
    match signal {
        None => LoopStep::Stop,
        Some(UiSignal::Quit) => LoopStep::Quit(UiCommand::Quit),
        Some(UiSignal::ToggleOverlay) => LoopStep::ShowOverlay,
        Some(UiSignal::ShowWidget) => LoopStep::SetWidget {
            visible: true,
            save: UiCommand::SetWidgetVisible(true),
        },
        Some(UiSignal::HideWidget) => LoopStep::SetWidget {
            visible: false,
            save: UiCommand::SetWidgetVisible(false),
        },
    }
}

/// What the open overlay does about a signal.
#[derive(Debug)]
pub struct OpenStep {
    /// Sent to the backend.
    pub send: Option<UiCommand>,
    /// Whether the program ends once the window is gone.
    pub quit: bool,
    /// Whether the window closes.
    pub close: bool,
}

/// What the open overlay does about a signal. Toggling dismisses it, and the
/// corner widget is left as it is until the overlay is closed.
pub fn while_open(signal: UiSignal) -> (step: OpenStep)
    ensures
        step == match signal {
            UiSignal::ToggleOverlay => OpenStep { send: None, quit: false, close: true },
            UiSignal::Quit => OpenStep { send: Some(UiCommand::Quit), quit: true, close: true },
            UiSignal::ShowWidget | UiSignal::HideWidget => OpenStep {
                send: None,
                quit: false,
                close: false,
            },
        },
{
    match signal {
        UiSignal::ToggleOverlay => OpenStep { send: None, quit: false, close: true },
        UiSignal::Quit => OpenStep { send: Some(UiCommand::Quit), quit: true, close: true },
        UiSignal::ShowWidget | UiSignal::HideWidget => OpenStep {
            send: None,
            quit: false,
            close: false,
        },
    }
}

/// What follows the drawing of a frame.
#[derive(Debug, Clone, Copy, PartialEq, Eq, Structural)]
pub struct FrameEnd {
    /// Whether a new window is wanted in place of this one.
    pub restart: bool,
    /// Whether this window closes.
    pub close: bool,
}

/// Takes what the drawing of a frame asked for. A window that is to be rebuilt
/// closes too.
pub fn end_frame(state: &mut OverlayState) -> (end: FrameEnd)
    ensures
        end.restart == old(state).restart_requested,
        end.close == (old(state).close_requested || old(state).restart_requested),
        *final(state) == (OverlayState {
            close_requested: false,
            restart_requested: false,
            ..*old(state)
        }),
{
    let close = state.take_close_request();
    let restart = state.take_restart_request();
    FrameEnd { restart, close: close || restart }
}

/// What follows once the overlay window is gone.
#[derive(Debug, Clone, Copy, PartialEq, Eq, Structural)]
pub enum AfterOverlay {
    /// Build a new window at once.
    Rebuild,
    /// End.
    Stop,
    /// Wait for the next signal.
    Wait,
}

/// What follows once the overlay window is gone: a rebuild that was asked for
/// comes before everything else.
pub fn after_overlay(restart: bool, quit: bool) -> (next: AfterOverlay)
    ensures
        next == if restart {
            AfterOverlay::Rebuild
        } else if quit {
            AfterOverlay::Stop
        } else {
            AfterOverlay::Wait
        },
{
    if restart {
        AfterOverlay::Rebuild
    } else if quit {
        AfterOverlay::Stop
    } else {
        AfterOverlay::Wait
    }
}

/// Each item of the tray menu raises its own signal, and nothing else raises one.
pub proof fn menu_items_raise_their_signals(id: Seq<char>)
    ensures
        signal_of(id) == Some(UiSignal::ToggleOverlay) <==> id == "resonance.toggle-overlay"@,
        signal_of(id) == Some(UiSignal::ShowWidget) <==> id == "resonance.show-widget"@,
        signal_of(id) == Some(UiSignal::Quit) <==> id == "resonance.quit"@,
        signal_of(id) != Some(UiSignal::HideWidget),
{
    reveal_strlit("resonance.toggle-overlay");
    reveal_strlit("resonance.show-widget");
    reveal_strlit("resonance.quit");
    assert("resonance.toggle-overlay"@.len() != "resonance.show-widget"@.len());
    assert("resonance.toggle-overlay"@.len() != "resonance.quit"@.len());
    assert("resonance.show-widget"@.len() != "resonance.quit"@.len());
}

/// While no overlay is open, asking to quit tells the backend so, a toggle opens the
/// overlay, the widget goes as it was asked for, which is also saved, and the end of the
/// signals ends the loop.
pub proof fn each_signal_is_answered_while_waiting(signal: Option<UiSignal>, step: LoopStep)
    requires
        call_ensures(waiting, (signal,), step),
    ensures
        step is Stop <==> signal is None,
        step is Quit <==> signal == Some(UiSignal::Quit),
        step is Quit ==> step->Quit_0 is Quit,
        step is ShowOverlay <==> signal == Some(UiSignal::ToggleOverlay),
        step matches LoopStep::SetWidget { visible, save } ==> {
            &&& visible == (signal == Some(UiSignal::ShowWidget))
            &&& !visible == (signal == Some(UiSignal::HideWidget))
            &&& save matches UiCommand::SetWidgetVisible(saved) && saved == visible
        },
{
}

/// While the overlay is open, it closes when it is toggled and when the program is to
/// quit, which alone is passed on; the widget is left as it is.
pub proof fn open_overlay_closes_or_stays(signal: UiSignal, step: OpenStep)
    requires
        call_ensures(while_open, (signal,), step),
    ensures
        step.close <==> signal == UiSignal::ToggleOverlay || signal == UiSignal::Quit,
        step.quit <==> signal == UiSignal::Quit,
        step.send is Some <==> signal == UiSignal::Quit,
        step.send matches Some(command) ==> command is Quit,
{
}

/// A window that is to be rebuilt is; otherwise the program ends where it was asked to,
/// and waits where it was not.
pub proof fn rebuilding_comes_before_the_end(restart: bool, quit: bool, next: AfterOverlay)
    requires
        call_ensures(after_overlay, (restart, quit), next),
    ensures
        next is Rebuild <==> restart,
        next is Stop <==> quit && !restart,
        next is Wait <==> !quit && !restart,
{
}

} // verus!
