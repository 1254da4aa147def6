//! What the corner widget does when the pointer moves over it.
//!
//! The pointer has to settle on the badge before the list opens; leaving closes
//! it again. From the resting badge a press may become a drag. Each function
//! takes one message of the window and says what the window has to do about it:
//! the timers, the pointer and the screen are the caller's.

use crate::messages;
use crate::messages::{EndpointId, Snapshot};
use crate::widget;
use crate::widget::{
    clamp_to_work_area, panel_height, read_rows, row_at, Area, Row, RowModel, ANIMATION_STEPS,
    REST_SIZE,
};
use vstd::prelude::*;

verus! {

/// How far the pointer has to travel before a press becomes a drag.
pub const DRAG_THRESHOLD: i32 = 4;

/// How long the pointer has to stay before the list opens, in milliseconds.
pub const HOVER_DWELL_MS: u32 = 250;

/// The time between two steps of the animation, in milliseconds.
pub const ANIMATION_TICK_MS: u32 = 25;

/// A drag in progress.
#[derive(Debug, Clone, Copy)]
pub struct Drag {
    /// Where the pointer was when the button went down.
    pub press: (i32, i32),
    /// Where the window was at that moment.
    pub origin: (i32, i32),
    /// Whether the pointer has since travelled past [`DRAG_THRESHOLD`].
    pub moved: bool,
}

/// Everything about the widget that changes while it runs.
#[derive(Debug)]
pub struct Runtime {
    origin: (i32, i32),
    progress: i32,
    target: i32,
    rows: Vec<Row>,
    hovered_row: Option<usize>,
    drag: Option<Drag>,
    tracking: bool,
    menu_open: bool,
}

/// What a [`Runtime`] holds.
pub struct RuntimeModel {
    /// The window's top left corner at rest.
    pub origin: (i32, i32),
    /// How far the widget has grown, up to [`ANIMATION_STEPS`].
    pub progress: int,
    /// Where `progress` is heading.
    pub target: int,
    pub rows: Seq<RowModel>,
    pub hovered_row: Option<int>,
    pub drag: Option<Drag>,
    /// Whether the window will be told when the pointer leaves.
    pub tracking: bool,
    /// Whether the context menu is up. The pointer moving onto the menu leaves
    /// the window, which is no reason to close the list.
    pub menu_open: bool,
}

/// What the window has to do after a message.
#[derive(Debug, Clone, Copy, PartialEq, Eq, Structural)]
pub struct Effects {
    /// Ask to be told when the pointer leaves.
    pub arm_tracking: bool,
    pub start_dwell: bool,
    pub stop_dwell: bool,
    pub start_animation: bool,
    pub stop_animation: bool,
    pub capture: bool,
    pub release_capture: bool,
    pub repaint: bool,
}

/// Nothing to do.
pub open spec fn nothing() -> Effects {
    Effects {
        arm_tracking: false,
        start_dwell: false,
        stop_dwell: false,
        start_animation: false,
        stop_animation: false,
        capture: false,
        release_capture: false,
        repaint: false,
    }
}

fn no_effects() -> (effects: Effects)
    ensures
        effects == nothing(),
{
    Effects {
        arm_tracking: false,
        start_dwell: false,
        stop_dwell: false,
        start_animation: false,
        stop_animation: false,
        capture: false,
        release_capture: false,
        repaint: false,
    }
}

/// What the user meant by releasing the button.
#[derive(Debug)]
pub enum Outcome {
    Nothing,
    /// A click on the badge: show or hide the overlay.
    Click,
    /// The badge came to rest here.
    Dropped((i32, i32)),
    /// Switch to this endpoint.
    Chose(EndpointId),
}

/// What an [`Outcome`] holds.
pub enum OutcomeModel {
    Nothing,
    Click,
    Dropped((i32, i32)),
    Chose(Seq<char>),
}

impl View for Outcome {
    type V = OutcomeModel;

    open spec fn view(&self) -> OutcomeModel {
        match self {
            Outcome::Nothing => OutcomeModel::Nothing,
            Outcome::Click => OutcomeModel::Click,
            Outcome::Dropped(place) => OutcomeModel::Dropped(*place),
            Outcome::Chose(id) => OutcomeModel::Chose(id@),
        }
    }
}

/// A step of the widget: its state after a message, and what the window does.
pub struct Step {
    pub state: RuntimeModel,
    pub effects: Effects,
}

/// The widget as it starts.
pub open spec fn started(origin: (i32, i32)) -> RuntimeModel {
    RuntimeModel {
        origin,
        progress: 0,
        target: 0,
        rows: Seq::empty(),
        hovered_row: None,
        drag: None,
        tracking: false,
        menu_open: false,
    }
}

/// A state that the widget can be in.
pub open spec fn is_valid(m: RuntimeModel) -> bool {
    &&& 0 <= m.progress <= ANIMATION_STEPS
    &&& m.target == 0 || m.target == ANIMATION_STEPS
    &&& m.hovered_row matches Some(i) ==> 0 <= i < m.rows.len() && m.rows[i].id is Some
    &&& m.rows.len() <= widget::MAX_ROWS
}

/// Sends the animation towards an end. Only the target moves, so a reversal
/// carries on from the size on screen.
pub open spec fn animated(m: RuntimeModel, target: int) -> RuntimeModel {
    RuntimeModel { target, ..m }
}

/// Whether a press that began at `press` has become a drag with the pointer at
/// `cursor`.
pub open spec fn is_drag(drag: Drag, cursor: (i32, i32)) -> bool {
    ||| drag.moved
    ||| DRAG_THRESHOLD < cursor.0 - drag.press.0
    ||| DRAG_THRESHOLD < drag.press.0 - cursor.0
    ||| DRAG_THRESHOLD < cursor.1 - drag.press.1
    ||| DRAG_THRESHOLD < drag.press.1 - cursor.1
}

/// The row at a height of the open list that can be chosen.
pub open spec fn choice(m: RuntimeModel, y: int) -> Option<int> {
    match widget::row_of(m.rows.len() as int, widget::height_for(m.rows.len() as int), y) {
        Some(i) => if m.rows[i].id is Some {
            Some(i)
        } else {
            None
        },
        None => None,
    }
}

/// The pointer moved: to `cursor` on the screen, and to the height `y` of the
/// window.
pub open spec fn moved(
    m: RuntimeModel,
    y: int,
    cursor: Option<(i32, i32)>,
    area: Option<Area>,
) -> Step {
    match m.drag {
        Some(drag) => match cursor {
            Some(c) if is_drag(drag, c) => {
                let x = drag.origin.0 + (c.0 - drag.press.0);
                let y = drag.origin.1 + (c.1 - drag.press.1);
                Step {
                    state: RuntimeModel {
                        origin: (
                            widget::fitted(x, REST_SIZE as int, widget::across(area)) as i32,
                            widget::fitted(y, REST_SIZE as int, widget::down(area)) as i32,
                        ),
                        drag: Some(Drag { moved: true, ..drag }),
                        ..m
                    },
                    effects: Effects { repaint: true, ..nothing() },
                }
            },
            _ => Step { state: m, effects: nothing() },
        },
        None => {
            let grown = m.progress == ANIMATION_STEPS;
            let hovered = if grown {
                choice(m, y)
            } else {
                m.hovered_row
            };
            Step {
                state: RuntimeModel { tracking: true, hovered_row: hovered, ..m },
                effects: Effects {
                    arm_tracking: !m.tracking,
                    start_dwell: !m.tracking,
                    repaint: hovered != m.hovered_row,
                    ..nothing()
                },
            }
        },
    }
}

/// The pointer left the window.
pub open spec fn left(m: RuntimeModel) -> Step {
    let out = RuntimeModel { tracking: false, hovered_row: None, ..m };
    if m.drag is None && !m.menu_open {
        Step {
            state: animated(out, 0),
            effects: Effects {
                stop_dwell: true,
                start_animation: m.target != 0,
                repaint: true,
                ..nothing()
            },
        }
    } else {
        Step { state: out, effects: Effects { stop_dwell: true, ..nothing() } }
    }
}

/// The pointer has stayed long enough, and these are the rows to list.
pub open spec fn dwelt(m: RuntimeModel, rows: Seq<RowModel>) -> Step {
    if m.drag is Some {
        Step { state: m, effects: Effects { stop_dwell: true, ..nothing() } }
    } else {
        Step {
            state: animated(RuntimeModel { rows, hovered_row: None, ..m }, ANIMATION_STEPS as int),
            effects: Effects {
                stop_dwell: true,
                start_animation: m.target != ANIMATION_STEPS,
                ..nothing()
            },
        }
    }
}

/// The progress one step closer to the target.
pub open spec fn closer(m: RuntimeModel) -> int {
    if m.progress < m.target {
        m.progress + 1
    } else if m.progress > m.target {
        m.progress - 1
    } else {
        m.progress
    }
}

/// The animation took a step.
pub open spec fn ticked(m: RuntimeModel) -> Step {
    Step {
        state: RuntimeModel { progress: closer(m), ..m },
        effects: Effects { stop_animation: closer(m) == m.target, repaint: true, ..nothing() },
    }
}

/// The button went down with the pointer at `cursor`. A drag is offered from
/// the resting badge alone: while the list is open a press belongs to a row.
pub open spec fn pressed(m: RuntimeModel, cursor: Option<(i32, i32)>) -> Step {
    match cursor {
        Some(press) if m.progress == 0 => Step {
            state: RuntimeModel {
                drag: Some(Drag { press, origin: m.origin, moved: false }),
                ..m
            },
            effects: Effects { stop_dwell: true, capture: true, ..nothing() },
        },
        _ => Step { state: m, effects: nothing() },
    }
}

/// What a release at the height `y` of the window means.
pub open spec fn meant(m: RuntimeModel, y: int) -> OutcomeModel {
    match m.drag {
        Some(drag) => if drag.moved {
            OutcomeModel::Dropped(m.origin)
        } else {
            OutcomeModel::Click
        },
        None => if m.progress == ANIMATION_STEPS {
            match choice(m, y) {
                Some(i) => OutcomeModel::Chose(m.rows[i].id->0),
                None => OutcomeModel::Nothing,
            }
        } else if m.progress == 0 {
            OutcomeModel::Click
        } else {
            OutcomeModel::Nothing
        },
    }
}

/// The button went up at the height `y` of the window.
pub open spec fn released(m: RuntimeModel, y: int) -> Step {
    Step {
        state: RuntimeModel { drag: None, tracking: false, ..m },
        effects: Effects { release_capture: meant(m, y) !is Nothing, ..nothing() },
    }
}

/// The context menu went up.
pub open spec fn menu_shown(m: RuntimeModel) -> RuntimeModel {
    RuntimeModel { menu_open: true, ..m }
}

/// The context menu closed, with the pointer over the window or not.
pub open spec fn menu_closed(m: RuntimeModel, over: bool) -> Step {
    let closed = RuntimeModel { menu_open: false, ..m };
    if over {
        Step { state: closed, effects: nothing() }
    } else {
        Step {
            state: animated(closed, 0),
            effects: Effects { start_animation: m.target != 0, repaint: true, ..nothing() },
        }
    }
}

/// Whether a drag to `cursor` stays within the numbers of the machine.
pub open spec fn drag_fits(m: RuntimeModel, cursor: Option<(i32, i32)>) -> bool {
    match (m.drag, cursor) {
        (Some(drag), Some(c)) => {
            &&& i32::MIN <= drag.origin.0 + (c.0 - drag.press.0) <= i32::MAX
            &&& i32::MIN <= drag.origin.1 + (c.1 - drag.press.1) <= i32::MAX
        },
        _ => true,
    }
}

impl View for Runtime {
    type V = RuntimeModel;

    closed spec fn view(&self) -> RuntimeModel {
        RuntimeModel {
            origin: self.origin,
            progress: self.progress as int,
            target: self.target as int,
            rows: widget::row_models(self.rows@),
            hovered_row: widget::index_of(self.hovered_row),
            drag: self.drag,
            tracking: self.tracking,
            menu_open: self.menu_open,
        }
    }
}

/// Whether the two optional indices are the same.
fn same_index(a: Option<usize>, b: Option<usize>) -> (yes: bool)
    ensures
        yes == (widget::index_of(a) == widget::index_of(b)),
{
    match (a, b) {
        (Some(i), Some(j)) => i == j,
        (None, None) => true,
        _ => false,
    }
}

impl Runtime {
    /// A widget at rest.
    pub fn new(origin: (i32, i32)) -> (runtime: Self)
        ensures
            runtime@ == started(origin),
            is_valid(runtime@),
    {
        let runtime = Runtime {
            origin,
            progress: 0,
            target: 0,
            rows: Vec::new(),
            hovered_row: None,
            drag: None,
            tracking: false,
            menu_open: false,
        };
        assert(runtime@.rows =~= Seq::empty());
        runtime
    }

    /// The window's top left corner at rest.
    pub fn origin(&self) -> (origin: (i32, i32))
        ensures
            origin == self@.origin,
    {
        self.origin
    }

    /// How far the widget has grown.
    pub fn progress(&self) -> (progress: i32)
        ensures
            progress == self@.progress,
    {
        self.progress
    }

    /// The rows of the list.
    pub fn rows(&self) -> (rows: &Vec<Row>)
        ensures
            widget::row_models(rows@) == self@.rows,
    {
        &self.rows
    }

    /// The row under the pointer.
    pub fn hovered_row(&self) -> (row: Option<usize>)
        ensures
            widget::index_of(row) == self@.hovered_row,
    {
        self.hovered_row
    }

    /// Whether the widget shows its resting badge and nothing else.
    pub fn at_rest(&self) -> (yes: bool)
        ensures
            yes == (self@.progress == 0),
    {
        self.progress == 0
    }

    /// Whether the widget shows its list.
    pub fn fully_grown(&self) -> (yes: bool)
        ensures
            yes == (self@.progress == ANIMATION_STEPS),
    {
        self.progress == ANIMATION_STEPS
    }

    /// Starts a grow or a shrink; says whether the animation has to run.
    pub fn animate_to(&mut self, target: i32) -> (changed: bool)
        requires
            is_valid(old(self)@),
            target == 0 || target == ANIMATION_STEPS,
        ensures
            final(self)@ == animated(old(self)@, target as int),
            changed == (old(self)@.target != target),
            is_valid(final(self)@),
    {
        if self.target == target {
            return false;
        }
        self.target = target;
        true
    }

    /// The row at a height of the open list that can be chosen.
    fn choice_at(&self, y: i32) -> (row: Option<usize>)
        ensures
            widget::index_of(row) == choice(self@, y as int),
            row matches Some(index) ==> index < self@.rows.len(),
    {
        let height: i32 = panel_height(self.rows.len());
        match row_at(self.rows.len(), height, y) {
            Some(index) => {
                assert(self@.rows[index as int] == self.rows@[index as int]@);
                if self.rows[index].id.is_some() {
                    Some(index)
                } else {
                    None
                }
            },
            None => None,
        }
    }

    /// Whether a drag, if there is one, can follow the pointer to `cursor`.
    pub fn can_follow(&self, cursor: Option<(i32, i32)>) -> (yes: bool)
        ensures
            yes == drag_fits(self@, cursor),
    {
        match (self.drag, cursor) {
            (Some(drag), Some((x, y))) => {
                let to_x: i64 = drag.origin.0 as i64 + x as i64 - drag.press.0 as i64;
                let to_y: i64 = drag.origin.1 as i64 + y as i64 - drag.press.1 as i64;
                i32::MIN as i64 <= to_x && to_x <= i32::MAX as i64 && i32::MIN as i64 <= to_y
                    && to_y <= i32::MAX as i64
            },
            _ => true,
        }
    }

    /// Moves the badge with the pointer once the press has become a drag.
    fn continue_drag(
        &mut self,
        drag: Drag,
        cursor: Option<(i32, i32)>,
        area: Option<Area>,
    ) -> (effects: Effects)
        requires
            is_valid(old(self)@),
            old(self)@.drag == Some(drag),
            drag_fits(old(self)@, cursor),
        ensures
            (Step { state: final(self)@, effects }) == moved(old(self)@, 0, cursor, area),
            is_valid(final(self)@),
    {
        let mut effects = no_effects();
        let (x, y) = match cursor {
            Some(c) => c,
            None => {
                return effects;
            },
        };
        let dx: i64 = x as i64 - drag.press.0 as i64;
        let dy: i64 = y as i64 - drag.press.1 as i64;
        let threshold: i64 = DRAG_THRESHOLD as i64;
        let far = dx > threshold || -dx > threshold || dy > threshold || -dy > threshold;
        if !drag.moved && !far {
            return effects;
        }
        self.origin = clamp_to_work_area(
            drag.origin.0 as i64 + dx,
            drag.origin.1 as i64 + dy,
            REST_SIZE,
            REST_SIZE,
            area,
        );
        self.drag = Some(Drag { press: drag.press, origin: drag.origin, moved: true });
        effects.repaint = true;
        effects
    }

    /// The pointer moved: to `cursor` on the screen, where that is known, and to
    /// the height `y` of the window.
    pub fn on_mouse_move(
        &mut self,
        y: i32,
        cursor: Option<(i32, i32)>,
        area: Option<Area>,
    ) -> (effects: Effects)
        requires
            is_valid(old(self)@),
            drag_fits(old(self)@, cursor),
        ensures
            (Step { state: final(self)@, effects }) == moved(old(self)@, y as int, cursor, area),
            is_valid(final(self)@),
    {
        if let Some(drag) = self.drag {
            return self.continue_drag(drag, cursor, area);
        }
        let mut effects = no_effects();
        if !self.tracking {
            self.tracking = true;
            effects.arm_tracking = true;
            effects.start_dwell = true;
        }
        if self.fully_grown() {
            let hovered = self.choice_at(y);
            if !same_index(hovered, self.hovered_row) {
                self.hovered_row = hovered;
                effects.repaint = true;
            }
        }
        effects
    }

    /// The pointer left the window.
    pub fn on_mouse_leave(&mut self) -> (effects: Effects)
        requires
            is_valid(old(self)@),
        ensures
            (Step { state: final(self)@, effects }) == left(old(self)@),
            is_valid(final(self)@),
    {
        let mut effects = no_effects();
        self.tracking = false;
        self.hovered_row = None;
        effects.stop_dwell = true;
        if self.drag.is_none() && !self.menu_open {
            effects.start_animation = self.animate_to(0);
            effects.repaint = true;
        }
        effects
    }

    /// The pointer has stayed long enough: reads the endpoints and opens the
    /// list.
    pub fn on_dwell_elapsed(&mut self, snapshot: Option<&Snapshot>) -> (effects: Effects)
        requires
            is_valid(old(self)@),
        ensures
            (Step { state: final(self)@, effects }) == dwelt(
                old(self)@,
                match snapshot {
                    Some(s) => widget::listed(
                        messages::endpoint_models(s.endpoints@),
                        messages::optional_text(s.default_endpoint),
                    ),
                    None => seq![widget::placeholder()],
                },
            ),
            is_valid(final(self)@),
    {
        let mut effects = no_effects();
        effects.stop_dwell = true;
        if self.drag.is_some() {
            return effects;
        }
        self.rows = read_rows(snapshot);
        self.hovered_row = None;
        effects.start_animation = self.animate_to(ANIMATION_STEPS);
        effects
    }

    /// The animation takes a step.
    pub fn on_animation_tick(&mut self) -> (effects: Effects)
        requires
            is_valid(old(self)@),
        ensures
            (Step { state: final(self)@, effects }) == ticked(old(self)@),
            is_valid(final(self)@),
    {
        let mut effects = no_effects();
        if self.progress < self.target {
            self.progress = self.progress + 1;
        } else if self.progress > self.target {
            self.progress = self.progress - 1;
        }
        effects.stop_animation = self.progress == self.target;
        effects.repaint = true;
        effects
    }

    /// The button went down with the pointer at `cursor`.
    pub fn on_button_down(&mut self, cursor: Option<(i32, i32)>) -> (effects: Effects)
        requires
            is_valid(old(self)@),
        ensures
            (Step { state: final(self)@, effects }) == pressed(old(self)@, cursor),
            is_valid(final(self)@),
    {
        let mut effects = no_effects();
        if let Some(press) = cursor {
            if self.at_rest() {
                self.drag = Some(Drag { press, origin: self.origin, moved: false });
                effects.stop_dwell = true;
                effects.capture = true;
            }
        }
        effects
    }

    /// The button went up at the height `y` of the window. After a drag the
    /// pointer is still on the badge, so the next movement has to start over.
    pub fn on_button_up(&mut self, y: i32) -> (answer: (Outcome, Effects))
        requires
            is_valid(old(self)@),
        ensures
            answer.0@ == meant(old(self)@, y as int),
            (Step { state: final(self)@, effects: answer.1 }) == released(old(self)@, y as int),
            is_valid(final(self)@),
    {
        let outcome = match self.drag {
            Some(drag) => if drag.moved {
                Outcome::Dropped(self.origin)
            } else {
                Outcome::Click
            },
            None => if self.fully_grown() {
                match self.choice_at(y) {
                    Some(index) => {
                        assert(self@.rows[index as int] == self.rows@[index as int]@);
                        match &self.rows[index].id {
                            Some(id) => Outcome::Chose(id.clone()),
                            None => Outcome::Nothing,
                        }
                    },
                    None => Outcome::Nothing,
                }
            } else if self.at_rest() {
                Outcome::Click
            } else {
                Outcome::Nothing
            },
        };
        let mut effects = no_effects();
        effects.release_capture = !matches!(outcome, Outcome::Nothing);
        self.drag = None;
        self.tracking = false;
        (outcome, effects)
    }

    /// The context menu is about to go up.
    pub fn on_menu_shown(&mut self)
        requires
            is_valid(old(self)@),
        ensures
            final(self)@ == menu_shown(old(self)@),
            is_valid(final(self)@),
    {
        self.menu_open = true;
    }

    /// The context menu closed, with the pointer over the window or not.
    pub fn on_menu_closed(&mut self, over: bool) -> (effects: Effects)
        requires
            is_valid(old(self)@),
        ensures
            (Step { state: final(self)@, effects }) == menu_closed(old(self)@, over),
            is_valid(final(self)@),
    {
        let mut effects = no_effects();
        self.menu_open = false;
        if !over {
            effects.start_animation = self.animate_to(0);
            effects.repaint = true;
        }
        effects
    }
}

/// Whether a point is inside a window's bounds. A point or bounds that are not
/// known count as outside: a widget that shrinks once too often is a smaller
/// mistake than one that is stuck open.
pub fn cursor_is_over(cursor: Option<(i32, i32)>, bounds: Option<Area>) -> (over: bool)
    ensures
        over == match (cursor, bounds) {
            (Some((x, y)), Some(b)) => b.left <= x < b.right && b.top <= y < b.bottom,
            _ => false,
        },
{
    match (cursor, bounds) {
        (Some((x, y)), Some(b)) => b.left <= x && x < b.right && b.top <= y && y < b.bottom,
        _ => false,
    }
}

/// The widget after a number of steps of the animation.
pub open spec fn after_ticks(m: RuntimeModel, ticks: nat) -> RuntimeModel
    decreases ticks,
{
    if ticks == 0 {
        m
    } else {
        ticked(after_ticks(m, (ticks - 1) as nat)).state
    }
}

proof fn ticks_close_the_distance(m: RuntimeModel, ticks: nat)
    requires
        is_valid(m),
    ensures
        after_ticks(m, ticks) == (RuntimeModel { progress: after_ticks(m, ticks).progress, ..m }),
        m.progress <= m.target ==> after_ticks(m, ticks).progress == if m.progress + ticks
            < m.target {
            m.progress + ticks
        } else {
            m.target
        },
        m.target <= m.progress ==> after_ticks(m, ticks).progress == if m.target < m.progress
            - ticks {
            m.progress - ticks
        } else {
            m.target
        },
    decreases ticks,
{
    if ticks > 0 {
        ticks_close_the_distance(m, (ticks - 1) as nat);
    }
}

/// The animation ends: after as many steps as it has, the widget has reached
/// the size that it was sent to, from wherever it was, and nothing else about
/// it has changed.
pub proof fn animation_arrives(m: RuntimeModel)
    requires
        is_valid(m),
    ensures
        after_ticks(m, ANIMATION_STEPS as nat) == (RuntimeModel { progress: m.target, ..m }),
{
    ticks_close_the_distance(m, ANIMATION_STEPS as nat);
}

/// The animation is stopped exactly by the step that arrives.
pub proof fn animation_stops_on_arrival(m: RuntimeModel)
    requires
        is_valid(m),
    ensures
        ticked(m).effects.stop_animation <==> ticked(m).state.progress == m.target,
        m.progress != m.target ==> ticked(m).state.progress != m.progress,
        is_valid(ticked(m).state),
{
}

/// A reversal carries on from the size on screen.
pub proof fn reversal_keeps_the_size(m: RuntimeModel, target: int)
    ensures
        animated(m, target).progress == m.progress,
        animated(animated(m, target), m.target) == m,
{
}

/// A press on the resting badge that is released without moving past the
/// threshold is a click, and leaves the badge where it was.
pub proof fn press_and_release_is_a_click(
    m: RuntimeModel,
    press: (i32, i32),
    cursor: (i32, i32),
    area: Option<Area>,
    y: int,
    up: int,
)
    requires
        is_valid(m),
        m.progress == 0,
        -DRAG_THRESHOLD <= cursor.0 - press.0 <= DRAG_THRESHOLD,
        -DRAG_THRESHOLD <= cursor.1 - press.1 <= DRAG_THRESHOLD,
    ensures
        ({
            let down = pressed(m, Some(press)).state;
            let held = moved(down, y, Some(cursor), area).state;
            &&& meant(held, up) == OutcomeModel::Click
            &&& released(held, up).state.origin == m.origin
            &&& released(held, up).state.drag is None
        }),
{
}

/// A press on the resting badge that moves past the threshold drops the badge
/// where it was taken, inside the work area.
pub proof fn drag_drops_where_it_was_taken(
    m: RuntimeModel,
    press: (i32, i32),
    cursor: (i32, i32),
    area: Area,
    y: int,
    up: int,
)
    requires
        is_valid(m),
        m.progress == 0,
        DRAG_THRESHOLD < cursor.0 - press.0 || DRAG_THRESHOLD < press.0 - cursor.0
            || DRAG_THRESHOLD < cursor.1 - press.1 || DRAG_THRESHOLD < press.1 - cursor.1,
        REST_SIZE <= area.right - area.left,
        REST_SIZE <= area.bottom - area.top,
    ensures
        ({
            let down = pressed(m, Some(press)).state;
            let held = moved(down, y, Some(cursor), Some(area)).state;
            let place = held.origin;
            &&& meant(held, up) == OutcomeModel::Dropped(place)
            &&& area.left <= place.0 && place.0 + REST_SIZE <= area.right
            &&& area.top <= place.1 && place.1 + REST_SIZE <= area.bottom
            &&& area.left <= m.origin.0 + (cursor.0 - press.0) && m.origin.0 + (cursor.0 - press.0)
                + REST_SIZE <= area.right ==> place.0 == m.origin.0 + (cursor.0 - press.0)
            &&& area.top <= m.origin.1 + (cursor.1 - press.1) && m.origin.1 + (cursor.1 - press.1)
                + REST_SIZE <= area.bottom ==> place.1 == m.origin.1 + (cursor.1 - press.1)
        }),
{
}

/// Once a press has become a drag it stays one, however little the pointer
/// moves from there, and also back at the place of the press.
pub proof fn drag_stays_a_drag(
    m: RuntimeModel,
    cursor: Option<(i32, i32)>,
    area: Option<Area>,
    y: int,
    up: int,
)
    requires
        m.drag is Some,
        (m.drag->0).moved,
    ensures
        meant(moved(m, y, cursor, area).state, up) is Dropped,
{
}

/// While the list is open, a press never moves the widget.
pub proof fn open_list_is_not_dragged(m: RuntimeModel, cursor: Option<(i32, i32)>)
    requires
        m.progress != 0,
    ensures
        pressed(m, cursor).state == m,
{
}

/// The row shown when there is nothing to list can neither be chosen nor marked
/// as under the pointer.
pub proof fn placeholder_cannot_be_chosen(m: RuntimeModel, y: int)
    requires
        m.rows == seq![widget::placeholder()],
        m.drag is None,
        m.progress == ANIMATION_STEPS,
    ensures
        meant(m, y) == OutcomeModel::Nothing,
        moved(m, y, None, None).state.hovered_row is None,
{
}

/// What is chosen is what is under the pointer: the row that a movement marks
/// is the row that a release there chooses.
pub proof fn marked_row_is_chosen(
    m: RuntimeModel,
    y: int,
    cursor: Option<(i32, i32)>,
    area: Option<Area>,
)
    requires
        is_valid(m),
        m.drag is None,
        m.progress == ANIMATION_STEPS,
    ensures
        ({
            let after = moved(m, y, cursor, area).state;
            match after.hovered_row {
                Some(i) => meant(after, y) == OutcomeModel::Chose(m.rows[i].id->0),
                None => meant(after, y) == OutcomeModel::Nothing,
            }
        }),
{
}

/// Leaving the window closes the list, unless a drag or the context menu took
/// the pointer away.
pub proof fn leaving_closes_the_list(m: RuntimeModel)
    requires
        is_valid(m),
    ensures
        m.drag is None && !m.menu_open ==> after_ticks(
            left(m).state,
            ANIMATION_STEPS as nat,
        ).progress == 0,
        m.drag is Some || m.menu_open ==> left(m).state.target == m.target,
        left(m).state.hovered_row is None,
{
    animation_arrives(left(m).state);
}

/// Staying on the badge opens the list.
pub proof fn staying_opens_the_list(m: RuntimeModel, rows: Seq<RowModel>)
    requires
        is_valid(m),
        m.drag is None,
        rows.len() <= widget::MAX_ROWS,
    ensures
        after_ticks(dwelt(m, rows).state, ANIMATION_STEPS as nat).progress == ANIMATION_STEPS,
        after_ticks(dwelt(m, rows).state, ANIMATION_STEPS as nat).rows == rows,
{
    animation_arrives(dwelt(m, rows).state);
}

/// The widget starts at rest where it is put, with nothing listed, dragged or open.
pub proof fn widget_starts_at_rest(origin: (i32, i32))
    ensures
        ({
            let m = started(origin);
            &&& m.origin == origin
            &&& m.progress == 0
            &&& m.target == 0
            &&& m.rows.len() == 0
            &&& m.hovered_row is None
            &&& m.drag is None
            &&& !m.tracking
            &&& !m.menu_open
        }),
{
}

/// Whether a state differs from another in its place and its drag at most.
pub open spec fn same_but_for_the_drag(a: RuntimeModel, b: RuntimeModel) -> bool {
    &&& a.progress == b.progress
    &&& a.target == b.target
    &&& a.rows == b.rows
    &&& a.hovered_row == b.hovered_row
    &&& a.tracking == b.tracking
    &&& a.menu_open == b.menu_open
}

/// Whether the window has nothing to do.
pub open spec fn is_idle(effects: Effects) -> bool {
    &&& !effects.arm_tracking
    &&& !effects.start_dwell
    &&& !effects.stop_dwell
    &&& !effects.start_animation
    &&& !effects.stop_animation
    &&& !effects.capture
    &&& !effects.release_capture
    &&& !effects.repaint
}

/// While the button is held, the badge follows the pointer once it has gone more than
/// four pixels from the press in either direction, or had before. Until then nothing
/// moves.
pub proof fn badge_follows_the_pointer(
    m: RuntimeModel,
    y: int,
    cursor: Option<(i32, i32)>,
    area: Option<Area>,
)
    requires
        m.drag is Some,
    ensures
        ({
            let drag = m.drag->0;
            let step = moved(m, y, cursor, area);
            let dx = (cursor->0).0 - drag.press.0;
            let dy = (cursor->0).1 - drag.press.1;
            let goes = cursor is Some && (drag.moved || dx > 4 || dx < -4 || dy > 4 || dy < -4);
            &&& same_but_for_the_drag(step.state, m)
            &&& if goes {
                &&& step.state.origin.0 == widget::fitted(
                    drag.origin.0 + dx,
                    56,
                    widget::across(area),
                ) as i32
                &&& step.state.origin.1 == widget::fitted(
                    drag.origin.1 + dy,
                    56,
                    widget::down(area),
                ) as i32
                &&& step.state.drag is Some
                &&& step.state.drag->0.moved
                &&& step.state.drag->0.press == drag.press
                &&& step.state.drag->0.origin == drag.origin
                &&& step.effects.repaint
                &&& is_idle(Effects { repaint: false, ..step.effects })
            } else {
                step.state == m && is_idle(step.effects)
            }
        }),
{
}

/// Whether a row that can be chosen is drawn at a height of the open list.
pub open spec fn is_row_at(rows: Seq<RowModel>, y: int, row: int) -> bool {
    &&& 0 <= row < rows.len()
    &&& rows[row].id is Some
    &&& 8 + 28 * row <= y < 8 + 28 * (row + 1)
}

/// A pointer that comes over the widget arms the timer and the notice of its leaving,
/// once. On the open list the row under it is marked, where that can be chosen, and no
/// other; nothing else changes.
pub proof fn pointer_marks_the_row_under_it(
    m: RuntimeModel,
    y: int,
    cursor: Option<(i32, i32)>,
    area: Option<Area>,
)
    requires
        is_valid(m),
        m.drag is None,
    ensures
        ({
            let step = moved(m, y, cursor, area);
            &&& step.state.origin == m.origin
            &&& step.state.progress == m.progress
            &&& step.state.target == m.target
            &&& step.state.rows == m.rows
            &&& step.state.drag is None
            &&& step.state.menu_open == m.menu_open
            &&& step.state.tracking
            &&& step.effects.arm_tracking == !m.tracking
            &&& step.effects.start_dwell == !m.tracking
            &&& step.effects.repaint == (step.state.hovered_row != m.hovered_row)
            &&& is_idle(
                Effects { arm_tracking: false, start_dwell: false, repaint: false, ..step.effects },
            )
            &&& m.progress < 5 ==> step.state.hovered_row == m.hovered_row
            &&& m.progress == 5 ==> forall|row: int|
                (step.state.hovered_row == Some(row)) == #[trigger] is_row_at(m.rows, y, row)
        }),
{
    if m.progress == 5 {
        rows_lie_below_each_other(m, y);
    }
}

proof fn rows_lie_below_each_other(m: RuntimeModel, y: int)
    requires
        is_valid(m),
    ensures
        forall|row: int| (choice(m, y) == Some(row)) == #[trigger] is_row_at(m.rows, y, row),
{
    let n = m.rows.len() as int;
    assert forall|row: int| (choice(m, y) == Some(row)) == #[trigger] is_row_at(
        m.rows,
        y,
        row,
    ) by {
        if is_row_at(m.rows, y, row) {
            assert(widget::height_for(n) == 16 + 28 * n);
            assert((y - 8) / 28 == row);
        }
    }
}

/// A pointer that leaves is no longer tracked and marks no row. The widget then goes
/// back to rest, unless a drag or the context menu took the pointer away.
pub proof fn pointer_leaves(m: RuntimeModel)
    ensures
        ({
            let step = left(m);
            let goes_back = m.drag is None && !m.menu_open;
            &&& !step.state.tracking
            &&& step.state.hovered_row is None
            &&& step.state.target == if goes_back {
                0
            } else {
                m.target
            }
            &&& step.state.origin == m.origin
            &&& step.state.progress == m.progress
            &&& step.state.rows == m.rows
            &&& step.state.drag == m.drag
            &&& step.state.menu_open == m.menu_open
            &&& step.effects.stop_dwell
            &&& step.effects.start_animation == (goes_back && m.target != 0)
            &&& step.effects.repaint == goes_back
            &&& is_idle(
                Effects {
                    stop_dwell: false,
                    start_animation: false,
                    repaint: false,
                    ..step.effects
                },
            )
        }),
{
}

/// A pointer that has stayed opens the list with these rows and none marked, unless the
/// badge is being dragged.
pub proof fn pointer_stays(m: RuntimeModel, rows: Seq<RowModel>)
    ensures
        ({
            let step = dwelt(m, rows);
            &&& step.effects.stop_dwell
            &&& step.effects.start_animation == (m.drag is None && m.target != 5)
            &&& is_idle(Effects { stop_dwell: false, start_animation: false, ..step.effects })
            &&& if m.drag is Some {
                step.state == m
            } else {
                &&& step.state.rows == rows
                &&& step.state.hovered_row is None
                &&& step.state.target == 5
                &&& step.state.origin == m.origin
                &&& step.state.progress == m.progress
                &&& step.state.drag is None
                &&& step.state.tracking == m.tracking
                &&& step.state.menu_open == m.menu_open
            }
        }),
{
}

/// A step of the animation goes one step towards the target, changes nothing else, and
/// is painted.
pub proof fn animation_goes_one_step(m: RuntimeModel)
    ensures
        ({
            let step = ticked(m);
            &&& m.progress < m.target ==> step.state.progress == m.progress + 1
            &&& m.progress > m.target ==> step.state.progress == m.progress - 1
            &&& m.progress == m.target ==> step.state.progress == m.progress
            &&& step.state.target == m.target
            &&& step.state.origin == m.origin
            &&& step.state.drag == m.drag
            &&& step.state.rows == m.rows
            &&& step.state.hovered_row == m.hovered_row
            &&& step.state.tracking == m.tracking
            &&& step.state.menu_open == m.menu_open
            &&& step.effects.repaint
            &&& step.effects.stop_animation == (step.state.progress == m.target)
            &&& is_idle(Effects { repaint: false, stop_animation: false, ..step.effects })
        }),
{
}

/// A press on the badge at rest begins a drag from there and takes the pointer; any
/// other press does nothing.
pub proof fn press_begins_a_drag_at_rest(m: RuntimeModel, cursor: Option<(i32, i32)>)
    ensures
        ({
            let step = pressed(m, cursor);
            if m.progress == 0 && cursor is Some {
                &&& step.state.drag is Some
                &&& step.state.drag->0.press == cursor->0
                &&& step.state.drag->0.origin == m.origin
                &&& !step.state.drag->0.moved
                &&& step.state.origin == m.origin
                &&& same_but_for_the_drag(step.state, m)
                &&& step.effects.stop_dwell
                &&& step.effects.capture
                &&& is_idle(Effects { stop_dwell: false, capture: false, ..step.effects })
            } else {
                step.state == m && is_idle(step.effects)
            }
        }),
{
}

/// A release ends the drag and the tracking, and changes nothing else. It means the
/// place of the badge after a drag, a click after a press that hardly moved and on the
/// badge at rest, the endpoint of the row under the pointer on the open list, and
/// nothing otherwise.
pub proof fn release_means_what_was_done(m: RuntimeModel, y: int)
    requires
        is_valid(m),
    ensures
        ({
            let step = released(m, y);
            let meaning = meant(m, y);
            &&& step.state.drag is None
            &&& !step.state.tracking
            &&& step.state.origin == m.origin
            &&& step.state.progress == m.progress
            &&& step.state.target == m.target
            &&& step.state.rows == m.rows
            &&& step.state.hovered_row == m.hovered_row
            &&& step.state.menu_open == m.menu_open
            &&& step.effects.release_capture == (meaning != OutcomeModel::Nothing)
            &&& is_idle(Effects { release_capture: false, ..step.effects })
            &&& m.drag matches Some(drag) ==> meaning == if drag.moved {
                OutcomeModel::Dropped(m.origin)
            } else {
                OutcomeModel::Click
            }
            &&& m.drag is None && m.progress == 0 ==> meaning == OutcomeModel::Click
            &&& m.drag is None && 0 < m.progress < 5 ==> meaning == OutcomeModel::Nothing
            &&& m.drag is None && m.progress == 5 ==> {
                &&& forall|row: int| #[trigger]
                    is_row_at(m.rows, y, row) ==> meaning == OutcomeModel::Chose(m.rows[row].id->0)
                &&& (forall|row: int| !(#[trigger] is_row_at(m.rows, y, row))) ==> meaning
                    == OutcomeModel::Nothing
            }
        }),
{
    rows_lie_below_each_other(m, y);
    if let Some(row) = choice(m, y) {
        assert(is_row_at(m.rows, y, row));
    }
}

/// While the context menu is up that is all that is different; once it closes the
/// widget goes back to rest, unless the pointer is over it.
pub proof fn menu_goes_up_and_down(m: RuntimeModel, over: bool)
    ensures
        ({
            let shown = menu_shown(m);
            let step = menu_closed(m, over);
            &&& shown.menu_open
            &&& RuntimeModel { menu_open: m.menu_open, ..shown } == m
            &&& !step.state.menu_open
            &&& step.state.target == if over {
                m.target
            } else {
                0
            }
            &&& step.state.origin == m.origin
            &&& step.state.progress == m.progress
            &&& step.state.rows == m.rows
            &&& step.state.hovered_row == m.hovered_row
            &&& step.state.drag == m.drag
            &&& step.state.tracking == m.tracking
            &&& step.effects.start_animation == (!over && m.target != 0)
            &&& step.effects.repaint == !over
            &&& is_idle(Effects { start_animation: false, repaint: false, ..step.effects })
        }),
{
}

/// The pointer is over the window exactly inside its edges, of which the left and the
/// upper belong to it.
pub proof fn pointer_is_over_the_window_inside_its_edges(x: i32, y: i32, window: Area, over: bool)
    requires
        call_ensures(cursor_is_over, (Some((x, y)), Some(window)), over),
    ensures
        over <==> window.left <= x && x < window.right && window.top <= y && y < window.bottom,
{
}

} // verus!
