use vstd::prelude::*;
use crate::actions::{Action, ActionModel};
use crate::effect::Effect;
use crate::geometry::{fits_i32, Position};
use crate::lookup::{find_window, first_window, has_window, lemma_first_window_unique};
use crate::slide::div_trunc;
use crate::window::{located, relocated, BindingId, Edges, Output, SeatId, Window, WindowId};
use crate::desktop::{active_ws, has_active, Desktop};
use crate::slide::{clamp_active, layout_fits, layout_tasks, next_tiling, SlideModel};
use crate::task::Task;
use crate::workspace::{
    active_window_of, moveto_next_model, moveto_next_ok, moveto_prev_model, moveto_prev_ok,
    next_slide_model, next_slide_ok, prev_slide_model, prev_slide_ok, WorkspaceModel,
};

verus! {

/// Whether a layer-shell surface holds a seat's keyboard focus.
#[derive(Debug, Clone, Copy, PartialEq, Eq, Structural)]
pub enum LayerFocus {
    Unfocused,
    Exclusive,
    NonExclusive,
}

/// The pointer operation a seat is in the middle of.
#[derive(Debug, Clone, Copy, PartialEq, Eq, Structural)]
pub enum SeatOp {
    Idle,
    Pan { start_camera_pos: Position },
    Move { window_id: WindowId, start_x: i32, start_y: i32 },
    Resize {
        window_id: WindowId,
        start_x: i32,
        start_y: i32,
        start_width: i32,
        start_height: i32,
        edges: Edges,
    },
}

/// A key binding and what it does.
#[derive(Debug)]
pub struct XkbBinding {
    pub id: BindingId,
    pub action: Action,
}

/// A pointer-button binding and what it does.
#[derive(Debug)]
pub struct PointerBinding {
    pub id: BindingId,
    pub action: Action,
}

/// A seat: a keyboard and pointer, with its focus and pointer operation.
#[derive(Debug)]
pub struct Seat {
    pub id: SeatId,
    pub new: bool,
    pub removed: bool,
    pub focused: Option<WindowId>,
    pub hovered: Option<WindowId>,
    pub interacted: Option<WindowId>,
    pub xkb_bindings: Vec<XkbBinding>,
    pub pointer_bindings: Vec<PointerBinding>,
    pub pending_action: Action,
    pub op: SeatOp,
    pub op_diff: Position,
    pub op_release: bool,
    pub pointer_position: Position,
    pub layer: Option<u32>,
    pub layer_focus: LayerFocus,
}

/// A copy of a list of strings.
pub fn copy_strings(v: &Vec<String>) -> (r: Vec<String>)
    ensures
        r@.map_values(|s: String| s@) == v@.map_values(|s: String| s@),
{
    let mut copied: Vec<String> = Vec::new();
    let mut i: usize = 0;
    while i < v.len()
        invariant
            0 <= i <= v.len(),
            copied@.len() == i,
            forall|j: int| 0 <= j < i ==> (#[trigger] copied@[j])@ == v@[j]@,
        decreases v.len() - i,
    {
        copied.push(v[i].clone());
        i += 1;
    }
    assert(copied@.map_values(|s: String| s@) =~= v@.map_values(|s: String| s@));
    copied
}

/// A copy of an action.
pub fn copy_action(a: &Action) -> (r: Action)
    ensures
        r@ == a@,
{
    match a {
        Action::Noop => Action::Noop,
        Action::Pan => Action::Pan,
        Action::View { x, y } => Action::View { x: *x, y: *y },
        Action::Spawn { program, args } => Action::Spawn {
            program: program.clone(),
            args: copy_strings(args),
        },
        Action::SpawnShell { command } => Action::SpawnShell { command: command.clone() },
        Action::Close => Action::Close,
        Action::CenterFocused => Action::CenterFocused,
        Action::Move => Action::Move,
        Action::Resize => Action::Resize,
        Action::ToggleMaximize => Action::ToggleMaximize,
        Action::NextSlide => Action::NextSlide,
        Action::PrevSlide => Action::PrevSlide,
        Action::MoveToNextSlide => Action::MoveToNextSlide,
        Action::MoveToPrevSlide => Action::MoveToPrevSlide,
        Action::NextWindow => Action::NextWindow,
        Action::PrevWindow => Action::PrevWindow,
        Action::CycleTiling => Action::CycleTiling,
        Action::Exit => Action::Exit,
    }
}

/// The effects of focusing `id` from a seat: none but clearing focus while a
/// layer surface has exclusive focus, else focusing the window if it exists.
pub open spec fn focus_effects(seat: SeatId, layer: LayerFocus, id: WindowId, exists: bool) -> Seq<
    Effect,
> {
    if layer == LayerFocus::Exclusive {
        seq![Effect::ClearFocus { seat }]
    } else if exists {
        seq![Effect::FocusWindow { seat, window: id }]
    } else {
        Seq::empty()
    }
}

/// The focus a seat records after focusing `id`.
pub open spec fn focus_result(layer: LayerFocus, id: WindowId) -> Option<WindowId> {
    if layer == LayerFocus::Exclusive {
        None
    } else {
        Some(id)
    }
}

/// The size a resize reaches: each dragged edge moves by the pointer's offset.
pub open spec fn resized(sw: i32, sh: i32, edges: Edges, d: Position) -> (int, int) {
    let w1 = if edges & 4 != 0 { sw - d.x } else { sw as int };
    let w2 = if edges & 8 != 0 { w1 + d.x } else { w1 };
    let h1 = if edges & 1 != 0 { sh - d.y } else { sh as int };
    let h2 = if edges & 2 != 0 { h1 + d.y } else { h1 };
    (w2, h2)
}

/// Every intermediate size of the resize fits an `i32`.
pub open spec fn resize_fits(sw: i32, sh: i32, edges: Edges, d: Position) -> bool {
    let w1 = if edges & 4 != 0 { sw - d.x } else { sw as int };
    let h1 = if edges & 1 != 0 { sh - d.y } else { sh as int };
    &&& fits_i32(w1)
    &&& fits_i32(resized(sw, sh, edges, d).0)
    &&& fits_i32(h1)
    &&& fits_i32(resized(sw, sh, edges, d).1)
}

/// What ending a seat's pointer operation asks of river: a resized window (if it
/// still exists) hears that the resize is over, then the operation ends.
pub open spec fn end_effects(s: &Seat, windows: Seq<Window>) -> Seq<Effect> {
    (match s.op {
        SeatOp::Resize { window_id, .. } => if has_window(windows, window_id) {
            seq![Effect::InformResizeEnd { window: window_id }]
        } else {
            Seq::empty()
        },
        _ => Seq::empty(),
    }) + seq![Effect::OpEnd { seat: s.id }]
}

/// What managing a seat's pointer operation asks of river: during a resize, the
/// window (if it still exists) is proposed the size that the pointer offset gives.
pub open spec fn manage_effects(s: &Seat, windows: Seq<Window>) -> Seq<Effect> {
    match s.op {
        SeatOp::Resize { window_id, start_width, start_height, edges, .. } => if has_window(
            windows,
            window_id,
        ) {
            seq![
                Effect::ProposeDimensions {
                    window: window_id,
                    width: resized(start_width, start_height, edges, s.op_diff).0 as i32,
                    height: resized(start_width, start_height, edges, s.op_diff).1 as i32,
                },
            ]
        } else {
            Seq::empty()
        },
        _ => Seq::empty(),
    }
}

/// The size a resize proposes fits an `i32`.
pub open spec fn op_fits(s: &Seat) -> bool {
    match s.op {
        SeatOp::Resize { start_width, start_height, edges, .. } => resize_fits(
            start_width,
            start_height,
            edges,
            s.op_diff,
        ),
        _ => true,
    }
}

/// The frame that a seat keeps across a call that only changes the listed fields.
pub open spec fn same_bindings(a: &Seat, b: &Seat) -> bool {
    &&& a.id == b.id
    &&& a.new == b.new
    &&& a.removed == b.removed
    &&& a.xkb_bindings == b.xkb_bindings
    &&& a.pointer_bindings == b.pointer_bindings
    &&& a.pointer_position == b.pointer_position
    &&& a.layer == b.layer
    &&& a.layer_focus == b.layer_focus
}

impl Seat {
    pub fn new(id: SeatId) -> (s: Seat)
        ensures
            s.id == id,
            s.new,
            !s.removed,
            s.focused is None,
            s.hovered is None,
            s.interacted is None,
            s.xkb_bindings@.len() == 0,
            s.pointer_bindings@.len() == 0,
            s.pending_action@ == ActionModel::Noop,
            s.op == SeatOp::Idle,
            s.op_diff == (Position { x: 0, y: 0 }),
            !s.op_release,
            s.pointer_position == (Position { x: 0, y: 0 }),
            s.layer is None,
            s.layer_focus == LayerFocus::Unfocused,
    {
        Seat {
            id,
            new: true,
            removed: false,
            focused: None,
            hovered: None,
            interacted: None,
            xkb_bindings: Vec::new(),
            pointer_bindings: Vec::new(),
            pending_action: Action::Noop,
            op: SeatOp::Idle,
            op_diff: Position { x: 0, y: 0 },
            op_release: false,
            pointer_position: Position { x: 0, y: 0 },
            layer: None,
            layer_focus: LayerFocus::Unfocused,
        }
    }

    /// Records a key binding that river has created for this seat.
    pub fn create_xkb_binding(&mut self, id: BindingId, action: Action)
        ensures
            final(self).xkb_bindings@ == old(self).xkb_bindings@.push(XkbBinding { id, action }),
            final(self).pointer_bindings == old(self).pointer_bindings,
            final(self).focused == old(self).focused,
            final(self).op == old(self).op,
            final(self).new == old(self).new,
    {
        self.xkb_bindings.push(XkbBinding { id, action });
    }

    /// Records a pointer binding that river has created for this seat.
    pub fn create_pointer_binding(&mut self, id: BindingId, action: Action)
        ensures
            final(self).pointer_bindings@ == old(self).pointer_bindings@.push(
                PointerBinding { id, action },
            ),
            final(self).xkb_bindings == old(self).xkb_bindings,
            final(self).focused == old(self).focused,
            final(self).op == old(self).op,
            final(self).new == old(self).new,
    {
        self.pointer_bindings.push(PointerBinding { id, action });
    }

    /// A bound key was pressed: its action becomes pending. `false` when the seat
    /// has no such binding.
    pub fn xkb_pressed(&mut self, id: BindingId) -> (found: bool)
        ensures
            found == exists|i: int|
                0 <= i < old(self).xkb_bindings@.len() && (#[trigger] old(
                    self,
                ).xkb_bindings@[i]).id == id,
            found ==> exists|i: int|
                0 <= i < old(self).xkb_bindings@.len() && (#[trigger] old(
                    self,
                ).xkb_bindings@[i]).id == id && final(self).pending_action@ == old(
                    self,
                ).xkb_bindings@[i].action@,
            !found ==> final(self).pending_action == old(self).pending_action,
            final(self).op == old(self).op,
            final(self).focused == old(self).focused,
            same_bindings(final(self), old(self)),
    {
        let mut i: usize = 0;
        while i < self.xkb_bindings.len()
            invariant
                0 <= i <= self.xkb_bindings.len(),
                self.xkb_bindings == old(self).xkb_bindings,
                self.pending_action == old(self).pending_action,
                self.op == old(self).op,
                self.focused == old(self).focused,
                same_bindings(self, old(self)),
                forall|j: int| 0 <= j < i ==> (#[trigger] self.xkb_bindings@[j]).id != id,
            decreases self.xkb_bindings.len() - i,
        {
            if self.xkb_bindings[i].id == id {
                self.pending_action = copy_action(&self.xkb_bindings[i].action);
                return true;
            }
            i += 1;
        }
        false
    }

    /// A bound pointer button was pressed: its action becomes pending. `false` when
    /// the seat has no such binding.
    pub fn pointer_pressed(&mut self, id: BindingId) -> (found: bool)
        ensures
            found == exists|i: int|
                0 <= i < old(self).pointer_bindings@.len() && (#[trigger] old(
                    self,
                ).pointer_bindings@[i]).id == id,
            found ==> exists|i: int|
                0 <= i < old(self).pointer_bindings@.len() && (#[trigger] old(
                    self,
                ).pointer_bindings@[i]).id == id && final(self).pending_action@ == old(
                    self,
                ).pointer_bindings@[i].action@,
            !found ==> final(self).pending_action == old(self).pending_action,
            final(self).op == old(self).op,
            final(self).focused == old(self).focused,
            same_bindings(final(self), old(self)),
    {
        let mut i: usize = 0;
        while i < self.pointer_bindings.len()
            invariant
                0 <= i <= self.pointer_bindings.len(),
                self.pointer_bindings == old(self).pointer_bindings,
                self.pending_action == old(self).pending_action,
                self.op == old(self).op,
                self.focused == old(self).focused,
                same_bindings(self, old(self)),
                forall|j: int| 0 <= j < i ==> (#[trigger] self.pointer_bindings@[j]).id != id,
            decreases self.pointer_bindings.len() - i,
        {
            if self.pointer_bindings[i].id == id {
                self.pending_action = copy_action(&self.pointer_bindings[i].action);
                return true;
            }
            i += 1;
        }
        false
    }

    /// Gives keyboard focus to a window, unless a layer surface holds it exclusively.
    pub fn focus_window(&mut self, window_id: WindowId, windows: &Vec<Window>, effects: &mut Vec<
        Effect,
    >)
        ensures
            final(self).focused == focus_result(old(self).layer_focus, window_id),
            final(effects)@ == old(effects)@ + focus_effects(
                old(self).id,
                old(self).layer_focus,
                window_id,
                has_window(windows@, window_id),
            ),
            final(self).op == old(self).op,
            final(self).op_diff == old(self).op_diff,
            final(self).op_release == old(self).op_release,
            final(self).hovered == old(self).hovered,
            final(self).interacted == old(self).interacted,
            final(self).pending_action == old(self).pending_action,
            same_bindings(final(self), old(self)),
    {
        if self.layer_focus == LayerFocus::Exclusive {
            effects.push(Effect::ClearFocus { seat: self.id });
            self.focused = None;
            return;
        }
        let found = find_window(windows, window_id);
        if found.is_some() {
            effects.push(Effect::FocusWindow { seat: self.id, window: window_id });
        } else {
            assert(focus_effects(self.id, self.layer_focus, window_id, false) =~= Seq::<
                Effect,
            >::empty());
            assert(effects@ =~= old(effects)@ + Seq::<Effect>::empty());
        }
        self.focused = Some(window_id);
    }

    /// Ends the seat's pointer operation, telling a resized window that it is done.
    pub fn op_end(&mut self, windows: &Vec<Window>, effects: &mut Vec<Effect>)
        ensures
            final(self).op == SeatOp::Idle,
            final(effects)@ == old(effects)@ + end_effects(old(self), windows@),
            final(self).focused == old(self).focused,
            final(self).hovered == old(self).hovered,
            final(self).interacted == old(self).interacted,
            final(self).op_diff == old(self).op_diff,
            final(self).op_release == old(self).op_release,
            final(self).pending_action == old(self).pending_action,
            same_bindings(final(self), old(self)),
    {
        let ghost e0 = effects@;
        if let SeatOp::Resize { window_id, .. } = self.op {
            if find_window(windows, window_id).is_some() {
                effects.push(Effect::InformResizeEnd { window: window_id });
            }
        }
        let ghost e1 = effects@;
        effects.push(Effect::OpEnd { seat: self.id });
        self.op = SeatOp::Idle;
        proof {
            match old(self).op {
                SeatOp::Resize { window_id, .. } => {
                    if has_window(windows@, window_id) {
                        assert(e1 =~= e0 + seq![Effect::InformResizeEnd { window: window_id }]);
                    } else {
                        assert(e1 =~= e0 + Seq::<Effect>::empty());
                    }
                },
                _ => {
                    assert(e1 =~= e0 + Seq::<Effect>::empty());
                },
            }
        }
    }

    /// While resizing, proposes the window size that the pointer's offset gives.
    pub fn op_manage(&self, windows: &Vec<Window>, effects: &mut Vec<Effect>)
        requires
            op_fits(self),
        ensures
            final(effects)@ == old(effects)@ + manage_effects(self, windows@),
    {
        match self.op {
            SeatOp::Resize { window_id, start_width, start_height, edges, .. } => {
                let mut width = start_width;
                let mut height = start_height;
                if edges & 4 != 0 {
                    width = width - self.op_diff.x;
                }
                if edges & 8 != 0 {
                    width = width + self.op_diff.x;
                }
                if edges & 1 != 0 {
                    height = height - self.op_diff.y;
                }
                if edges & 2 != 0 {
                    height = height + self.op_diff.y;
                }
                if find_window(windows, window_id).is_some() {
                    effects.push(Effect::ProposeDimensions { window: window_id, width, height });
                } else {
                    assert(effects@ =~= old(effects)@ + Seq::<Effect>::empty());
                }
            },
            _ => {
                assert(effects@ =~= old(effects)@ + Seq::<Effect>::empty());
            },
        }
    }

    /// Starts panning the camera with the pointer.
    pub fn pointer_pan(&mut self, camera_pos: Position, effects: &mut Vec<Effect>)
        ensures
            final(self).op == (SeatOp::Pan { start_camera_pos: camera_pos }),
            final(self).op_diff == (Position { x: 0, y: 0 }),
            final(effects)@ == old(effects)@.push(Effect::OpStartPointer { seat: old(self).id }),
            final(self).focused == old(self).focused,
            final(self).hovered == old(self).hovered,
            final(self).interacted == old(self).interacted,
            final(self).op_release == old(self).op_release,
            final(self).pending_action == old(self).pending_action,
            same_bindings(final(self), old(self)),
    {
        effects.push(Effect::OpStartPointer { seat: self.id });
        self.op = SeatOp::Pan { start_camera_pos: camera_pos };
        self.op_diff = Position { x: 0, y: 0 };
    }

    /// Starts moving `window` with the pointer.
    pub fn pointer_move(&mut self, window: &Window, effects: &mut Vec<Effect>)
        ensures
            final(self).interacted == Some(window.id),
            final(self).op == (SeatOp::Move {
                window_id: window.id,
                start_x: window.x,
                start_y: window.y,
            }),
            final(self).op_diff == (Position { x: 0, y: 0 }),
            final(effects)@ == old(effects)@.push(Effect::OpStartPointer { seat: old(self).id }),
            final(self).focused == old(self).focused,
            final(self).hovered == old(self).hovered,
            final(self).op_release == old(self).op_release,
            final(self).pending_action == old(self).pending_action,
            same_bindings(final(self), old(self)),
    {
        self.interacted = Some(window.id);
        effects.push(Effect::OpStartPointer { seat: self.id });
        self.op = SeatOp::Move { window_id: window.id, start_x: window.x, start_y: window.y };
        self.op_diff = Position { x: 0, y: 0 };
    }

    /// Starts resizing `window` from `edges` with the pointer.
    pub fn pointer_resize(&mut self, window: &Window, edges: Edges, effects: &mut Vec<Effect>)
        ensures
            final(self).interacted == Some(window.id),
            final(self).op == (SeatOp::Resize {
                window_id: window.id,
                start_x: window.x,
                start_y: window.y,
                start_width: window.width,
                start_height: window.height,
                edges,
            }),
            final(self).op_diff == (Position { x: 0, y: 0 }),
            final(effects)@ == old(effects)@ + seq![
                Effect::OpStartPointer { seat: old(self).id },
                Effect::InformResizeStart { window: window.id },
            ],
            final(self).focused == old(self).focused,
            final(self).hovered == old(self).hovered,
            final(self).op_release == old(self).op_release,
            final(self).pending_action == old(self).pending_action,
            same_bindings(final(self), old(self)),
    {
        self.interacted = Some(window.id);
        effects.push(Effect::OpStartPointer { seat: self.id });
        effects.push(Effect::InformResizeStart { window: window.id });
        self.op = SeatOp::Resize {
            window_id: window.id,
            start_x: window.x,
            start_y: window.y,
            start_width: window.width,
            start_height: window.height,
            edges,
        };
        self.op_diff = Position { x: 0, y: 0 };
    }
}

/// The centre of the first output that knows its position and size.
pub open spec fn screen_center(outputs: Seq<Output>, r: Option<(i32, i32)>) -> bool {
    match r {
        Some(c) => exists|i: int|
            0 <= i < outputs.len() && (#[trigger] outputs[i]).position is Some
                && outputs[i].dimensions is Some && (forall|j: int|
                0 <= j < i ==> (#[trigger] outputs[j]).position is None
                    || outputs[j].dimensions is None) && c.0 == outputs[i].position.unwrap().0 + div_trunc(
                outputs[i].dimensions.unwrap().0 as int,
                2,
            ) && c.1 == outputs[i].position.unwrap().1 + div_trunc(
                outputs[i].dimensions.unwrap().1 as int,
                2,
            ),
        None => forall|j: int|
            0 <= j < outputs.len() ==> (#[trigger] outputs[j]).position is None
                || outputs[j].dimensions is None,
    }
}

/// Every output's centre fits an `i32`.
pub open spec fn centers_fit(outputs: Seq<Output>) -> bool {
    forall|j: int|
        0 <= j < outputs.len() && (#[trigger] outputs[j]).position is Some
            && outputs[j].dimensions is Some ==> fits_i32(
            outputs[j].position.unwrap().0 + div_trunc(outputs[j].dimensions.unwrap().0 as int, 2),
        ) && fits_i32(outputs[j].position.unwrap().1 + div_trunc(outputs[j].dimensions.unwrap().1 as int, 2))
}

pub fn screen_center_of(outputs: &Vec<Output>) -> (r: Option<(i32, i32)>)
    requires
        centers_fit(outputs@),
    ensures
        screen_center(outputs@, r),
{
    let mut i: usize = 0;
    while i < outputs.len()
        invariant
            0 <= i <= outputs.len(),
            centers_fit(outputs@),
            forall|j: int|
                0 <= j < i ==> (#[trigger] outputs@[j]).position is None
                    || outputs@[j].dimensions is None,
        decreases outputs.len() - i,
    {
        if let (Some((x, y)), Some((w, h))) = (outputs[i].position, outputs[i].dimensions) {
            assert(fits_i32(x + div_trunc(w as int, 2)));
            assert(fits_i32(y + div_trunc(h as int, 2)));
            return Some((x + w / 2, y + h / 2));
        }
        i += 1;
    }
    None
}

/// The camera position that centres `window` on a screen centred at `c`.
pub open spec fn centered_camera(window: &Window, c: (i32, i32)) -> (int, int) {
    (
        window.x + div_trunc(window.width as int, 2) - c.0,
        window.y + div_trunc(window.height as int, 2) - c.1,
    )
}

/// The centring arithmetic fits an `i32` for every output.
pub open spec fn centering_fits(window: &Window, outputs: Seq<Output>) -> bool {
    &&& centers_fit(outputs)
    &&& fits_i32(window.x + div_trunc(window.width as int, 2))
    &&& fits_i32(window.y + div_trunc(window.height as int, 2))
    &&& forall|j: int|
        0 <= j < outputs.len() && (#[trigger] outputs[j]).position is Some
            && outputs[j].dimensions is Some ==> fits_i32(
            window.x + div_trunc(window.width as int, 2) - (outputs[j].position.unwrap().0 + div_trunc(
                outputs[j].dimensions.unwrap().0 as int,
                2,
            )),
        ) && fits_i32(
            window.y + div_trunc(window.height as int, 2) - (outputs[j].position.unwrap().1 + div_trunc(
                outputs[j].dimensions.unwrap().1 as int,
                2,
            )),
        )
}

/// Moves the camera so that `window` sits in the middle of the first output that
/// knows its geometry; leaves it alone when there is none.
pub fn focus_window_camera(window: &Window, outputs: &Vec<Output>, camera_pos: &mut Position)
    requires
        centering_fits(window, outputs@),
    ensures
        exists|c: Option<(i32, i32)>|
            screen_center(outputs@, c) && match c {
                Some(c) => final(camera_pos).x == centered_camera(window, c).0
                    && final(camera_pos).y == centered_camera(window, c).1,
                None => *final(camera_pos) == *old(camera_pos),
            },
{
    let c = screen_center_of(outputs);
    match c {
        Some((cx, cy)) => {
            proof {
                let i = choose|i: int|
                    0 <= i < outputs@.len() && (#[trigger] outputs@[i]).position is Some
                        && outputs@[i].dimensions is Some && (forall|j: int|
                        0 <= j < i ==> (#[trigger] outputs@[j]).position is None
                            || outputs@[j].dimensions is None) && cx == outputs@[i].position.unwrap().0
                        + div_trunc(outputs@[i].dimensions.unwrap().0 as int, 2) && cy
                        == outputs@[i].position.unwrap().1 + div_trunc(
                        outputs@[i].dimensions.unwrap().1 as int,
                        2,
                    );
                assert(outputs@[i].position is Some);
            }
            *camera_pos = Position {
                x: window.x + window.width / 2 - cx,
                y: window.y + window.height / 2 - cy,
            };
        },
        None => {},
    }
}


/// The first window of `ws` with id `id`.
pub open spec fn window_of(ws: Seq<Window>, id: WindowId) -> Window {
    ws[(choose|i: usize| first_window(ws, id, Some(i))) as int]
}

/// Where the camera goes for the active slide of `w`.
pub open spec fn active_pos(w: WorkspaceModel) -> Position {
    Position {
        x: w.slides[w.active_slide as int].position.0,
        y: w.slides[w.active_slide as int].position.1,
    }
}

/// The active window of the active slide of `w`, if that slide has windows.
pub open spec fn active_target(w: WorkspaceModel) -> Option<WindowId> {
    let s = w.slides[w.active_slide as int];
    if s.windows.len() > 0 {
        Some(s.windows[s.active_window as int])
    } else {
        None
    }
}

/// After a slide change to `w`, the active slide exists, and so does its active
/// window when it has windows.
pub open spec fn lands_ok(w: WorkspaceModel) -> bool {
    &&& w.active_slide < w.slides.len()
    &&& w.slides[w.active_slide as int].windows.len() > 0 ==> w.slides[w.active_slide as int].active_window
        < w.slides[w.active_slide as int].windows.len()
}

/// The slide after `next_window`.
pub open spec fn next_window_model(s: SlideModel) -> SlideModel {
    SlideModel {
        active_window: if s.active_window + 1 < s.windows.len() {
            (s.active_window + 1) as usize
        } else {
            s.active_window
        },
        ..s
    }
}

/// The slide after `prev_window`.
pub open spec fn prev_window_model(s: SlideModel) -> SlideModel {
    SlideModel {
        active_window: if s.active_window > 0 {
            (s.active_window - 1) as usize
        } else {
            0
        },
        ..s
    }
}

/// A slide that a window step lands on can be focused and laid out.
pub open spec fn window_step_ok(s: SlideModel) -> bool {
    &&& s.windows.len() > 0
    &&& s.active_window < s.windows.len()
    &&& layout_fits(clamp_active(s))
}

/// The active workspace's view.
pub open spec fn active_view(d: &Desktop) -> WorkspaceModel {
    d.workspaces@[active_ws(d) as int]@
}

/// The active slide of the active workspace.
pub open spec fn active_slide_view(d: &Desktop) -> SlideModel {
    active_view(d).slides[active_view(d).active_slide as int]
}

/// The desktop `d1` is `d0` with its active workspace's view replaced by `w`.
pub open spec fn desktop_updated(d0: &Desktop, d1: &Desktop, w: WorkspaceModel) -> bool {
    &&& has_active(d0)
    &&& d1.active_workspace == d0.active_workspace
    &&& d1.workspaces@.len() == d0.workspaces@.len()
    &&& d1.workspaces@[active_ws(d0) as int]@ == w
    &&& forall|j: int|
        0 <= j < d0.workspaces@.len() && j != active_ws(d0) ==> #[trigger] d1.workspaces@[j]
            == d0.workspaces@[j]
}

/// The workspace `w` with its active slide replaced by `s`.
pub open spec fn with_active_slide(w: WorkspaceModel, s: SlideModel) -> WorkspaceModel {
    WorkspaceModel { slides: w.slides.update(w.active_slide as int, s), ..w }
}

/// The seat fields that only focusing changes are kept.
pub open spec fn same_but_focus(a: &Seat, b: &Seat) -> bool {
    &&& same_bindings(a, b)
    &&& a.op == b.op
    &&& a.op_diff == b.op_diff
    &&& a.op_release == b.op_release
    &&& a.hovered == b.hovered
    &&& a.interacted == b.interacted
}

/// Focusing `target` (when there is one) from seat `s0` gives seat `s1` and
/// appends `e` to the effects.
pub open spec fn focused_on(
    s0: &Seat,
    s1: &Seat,
    target: Option<WindowId>,
    windows: Seq<Window>,
    e: Seq<Effect>,
) -> bool {
    &&& same_but_focus(s0, s1)
    &&& match target {
        Some(t) => s1.focused == focus_result(s0.layer_focus, t) && e == focus_effects(
            s0.id,
            s0.layer_focus,
            t,
            has_window(windows, t),
        ),
        None => s1.focused == s0.focused && e == Seq::<Effect>::empty(),
    }
}

/// What running an action may require so that nothing panics or overflows.
pub open spec fn action_ok(
    a: ActionModel,
    s: &Seat,
    d: &Desktop,
    windows: Seq<Window>,
    outputs: Seq<Output>,
) -> bool {
    match a {
        ActionModel::CenterFocused => s.focused is Some ==> has_window(windows, s.focused->0)
            && centering_fits(&window_of(windows, s.focused->0), outputs),
        ActionModel::Move => (s.hovered is Some && s.op == SeatOp::Idle) ==> has_window(
            windows,
            s.hovered->0,
        ),
        ActionModel::Resize => (s.hovered is Some && s.op == SeatOp::Idle) ==> has_window(
            windows,
            s.hovered->0,
        ),
        ActionModel::NextSlide => has_active(d) && next_slide_ok(active_view(d)) && lands_ok(
            next_slide_model(active_view(d)),
        ),
        ActionModel::PrevSlide => has_active(d) && prev_slide_ok(active_view(d)) && lands_ok(
            prev_slide_model(active_view(d)),
        ),
        ActionModel::MoveToNextSlide => has_active(d) && moveto_next_ok(active_view(d)) && located(
            windows,
            active_window_of(active_view(d)),
        ),
        ActionModel::MoveToPrevSlide => has_active(d) && moveto_prev_ok(active_view(d)) && located(
            windows,
            active_window_of(active_view(d)),
        ),
        ActionModel::NextWindow => has_active(d) && active_view(d).active_slide < active_view(
            d,
        ).slides.len() && window_step_ok(next_window_model(active_slide_view(d))),
        ActionModel::PrevWindow => has_active(d) && active_view(d).active_slide < active_view(
            d,
        ).slides.len() && window_step_ok(prev_window_model(active_slide_view(d))),
        ActionModel::CycleTiling => has_active(d) && active_view(d).active_slide < active_view(
            d,
        ).slides.len(),
        _ => true,
    }
}

/// What running action `a` does: seat `s0` becomes `s1`, desktop `d0` becomes `d1`,
/// the windows `w0` become `w1`, the camera `c0` becomes `c1`, the task queue `q0`
/// becomes `q1`, and the effects `e0` become `e1`.
pub open spec fn ran_action(
    a: ActionModel,
    s0: &Seat,
    s1: &Seat,
    d0: &Desktop,
    d1: &Desktop,
    w0: Seq<Window>,
    w1: Seq<Window>,
    outputs: Seq<Output>,
    c0: Position,
    c1: Position,
    q0: Seq<Task>,
    q1: Seq<Task>,
    now: u64,
    e0: Seq<Effect>,
    e1: Seq<Effect>,
) -> bool {
    let unchanged_desktop = d1.workspaces == d0.workspaces && d1.active_workspace
        == d0.active_workspace;
    match a {
        ActionModel::Pan => {
            &&& s1.op == (SeatOp::Pan { start_camera_pos: c0 })
            &&& s1.op_diff == (Position { x: 0, y: 0 })
            &&& s1.focused == s0.focused && s1.hovered == s0.hovered && s1.interacted
                == s0.interacted && s1.op_release == s0.op_release
            &&& same_bindings(s1, s0)
            &&& e1 == e0.push(Effect::OpStartPointer { seat: s0.id })
            &&& unchanged_desktop && w1 == w0 && c1 == c0 && q1 == q0
        },
        ActionModel::View { x, y } => {
            &&& c1 == (Position { x, y })
            &&& same_but_focus(s1, s0) && s1.focused == s0.focused
            &&& e1 == e0 && unchanged_desktop && w1 == w0 && q1 == q0
        },
        ActionModel::Spawn { program, args } => {
            &&& e1.len() == e0.len() + 1
            &&& e1.take(e0.len() as int) == e0
            &&& e1.last() matches Effect::Spawn { program: p, args: xs } && p@ == program
                && xs@.map_values(|x: String| x@) == args
            &&& same_but_focus(s1, s0) && s1.focused == s0.focused
            &&& unchanged_desktop && w1 == w0 && c1 == c0 && q1 == q0
        },
        ActionModel::SpawnShell { command } => {
            &&& e1.len() == e0.len() + 1
            &&& e1.take(e0.len() as int) == e0
            &&& e1.last() matches Effect::SpawnShell { command: c } && c@ == command
            &&& same_but_focus(s1, s0) && s1.focused == s0.focused
            &&& unchanged_desktop && w1 == w0 && c1 == c0 && q1 == q0
        },
        ActionModel::Close => {
            &&& q1 == match s0.focused {
                Some(w) => q0.push(Task::CloseWindow { window_id: w }),
                None => q0,
            }
            &&& same_but_focus(s1, s0) && s1.focused == s0.focused
            &&& e1 == e0 && unchanged_desktop && w1 == w0 && c1 == c0
        },
        ActionModel::ToggleMaximize => {
            &&& q1 == match s0.focused {
                Some(w) => q0.push(Task::MaximizeWindow { window_id: w }),
                None => q0,
            }
            &&& same_but_focus(s1, s0) && s1.focused == s0.focused
            &&& e1 == e0 && unchanged_desktop && w1 == w0 && c1 == c0
        },
        ActionModel::CenterFocused => {
            &&& match s0.focused {
                Some(f) => exists|c: Option<(i32, i32)>|
                    screen_center(outputs, c) && match c {
                        Some(c) => c1.x == centered_camera(&window_of(w0, f), c).0 && c1.y
                            == centered_camera(&window_of(w0, f), c).1,
                        None => c1 == c0,
                    },
                None => c1 == c0,
            }
            &&& same_but_focus(s1, s0) && s1.focused == s0.focused
            &&& e1 == e0 && unchanged_desktop && w1 == w0 && q1 == q0
        },
        ActionModel::Move => {
            &&& if s0.hovered is Some && s0.op == SeatOp::Idle {
                let w = window_of(w0, s0.hovered->0);
                &&& s1.interacted == Some(w.id)
                &&& s1.op == (SeatOp::Move { window_id: w.id, start_x: w.x, start_y: w.y })
                &&& s1.op_diff == (Position { x: 0, y: 0 })
                &&& e1 == e0.push(Effect::OpStartPointer { seat: s0.id })
            } else {
                s1.interacted == s0.interacted && s1.op == s0.op && s1.op_diff == s0.op_diff
                    && e1 == e0
            }
            &&& s1.focused == s0.focused && s1.hovered == s0.hovered && s1.op_release
                == s0.op_release && same_bindings(s1, s0)
            &&& unchanged_desktop && w1 == w0 && c1 == c0 && q1 == q0
        },
        ActionModel::Resize => {
            &&& if s0.hovered is Some && s0.op == SeatOp::Idle {
                let w = window_of(w0, s0.hovered->0);
                &&& s1.interacted == Some(w.id)
                &&& s1.op == (SeatOp::Resize {
                    window_id: w.id,
                    start_x: w.x,
                    start_y: w.y,
                    start_width: w.width,
                    start_height: w.height,
                    edges: 10,
                })
                &&& s1.op_diff == (Position { x: 0, y: 0 })
                &&& e1 == e0 + seq![
                    Effect::OpStartPointer { seat: s0.id },
                    Effect::InformResizeStart { window: w.id },
                ]
            } else {
                s1.interacted == s0.interacted && s1.op == s0.op && s1.op_diff == s0.op_diff
                    && e1 == e0
            }
            &&& s1.focused == s0.focused && s1.hovered == s0.hovered && s1.op_release
                == s0.op_release && same_bindings(s1, s0)
            &&& unchanged_desktop && w1 == w0 && c1 == c0 && q1 == q0
        },
        ActionModel::NextSlide => {
            let w = next_slide_model(active_view(d0));
            &&& desktop_updated(d0, d1, w)
            &&& q1 == q0.push(Task::SetCamera { pos: active_pos(w), timer: now })
            &&& exists|e: Seq<Effect>|
                focused_on(s0, s1, active_target(w), w0, e) && e1 == e0 + e
            &&& w1 == w0 && c1 == c0
        },
        ActionModel::PrevSlide => {
            let w = prev_slide_model(active_view(d0));
            &&& desktop_updated(d0, d1, w)
            &&& q1 == q0.push(Task::SetCamera { pos: active_pos(w), timer: now })
            &&& if active_target(w) is Some {
                exists|e: Seq<Effect>| focused_on(s0, s1, active_target(w), w0, e) && e1 == e0 + e
            } else {
                same_but_focus(s1, s0) && s1.focused == s0.focused && e1 == e0.push(
                    Effect::ClearFocus { seat: s0.id },
                )
            }
            &&& w1 == w0 && c1 == c0
        },
        ActionModel::MoveToNextSlide => {
            let w = moveto_next_model(active_view(d0));
            &&& desktop_updated(d0, d1, w)
            &&& w1 == relocated(
                w0,
                active_window_of(active_view(d0)),
                w.slides[w.active_slide as int].id,
            )
            &&& q1 == q0.push(Task::SetCamera { pos: active_pos(w), timer: now })
            &&& same_but_focus(s1, s0) && s1.focused == s0.focused
            &&& e1 == e0 && c1 == c0
        },
        ActionModel::MoveToPrevSlide => {
            let w = moveto_prev_model(active_view(d0));
            &&& desktop_updated(d0, d1, w)
            &&& w1 == relocated(
                w0,
                active_window_of(active_view(d0)),
                w.slides[w.active_slide as int].id,
            )
            &&& q1 == q0.push(Task::SetCamera { pos: active_pos(w), timer: now })
            &&& same_but_focus(s1, s0) && s1.focused == s0.focused
            &&& e1 == e0 && c1 == c0
        },
        ActionModel::NextWindow => {
            let sl = next_window_model(active_slide_view(d0));
            &&& desktop_updated(d0, d1, with_active_slide(active_view(d0), clamp_active(sl)))
            &&& q1 == q0 + layout_tasks(clamp_active(sl), now)
            &&& exists|e: Seq<Effect>|
                focused_on(s0, s1, Some(sl.windows[sl.active_window as int]), w0, e) && e1 == e0
                    + e
            &&& w1 == w0 && c1 == c0
        },
        ActionModel::PrevWindow => {
            let sl = prev_window_model(active_slide_view(d0));
            &&& desktop_updated(d0, d1, with_active_slide(active_view(d0), clamp_active(sl)))
            &&& q1 == q0 + layout_tasks(clamp_active(sl), now)
            &&& exists|e: Seq<Effect>|
                focused_on(s0, s1, Some(sl.windows[sl.active_window as int]), w0, e) && e1 == e0
                    + e
            &&& w1 == w0 && c1 == c0
        },
        ActionModel::CycleTiling => {
            let sl = active_slide_view(d0);
            &&& desktop_updated(
                d0,
                d1,
                with_active_slide(
                    active_view(d0),
                    SlideModel { slide_type: next_tiling(sl.slide_type), ..sl },
                ),
            )
            &&& same_but_focus(s1, s0) && s1.focused == s0.focused
            &&& e1 == e0 && w1 == w0 && c1 == c0 && q1 == q0
        },
        ActionModel::Exit => {
            &&& e1 == e0.push(Effect::ExitSession)
            &&& same_but_focus(s1, s0) && s1.focused == s0.focused
            &&& unchanged_desktop && w1 == w0 && c1 == c0 && q1 == q0
        },
        ActionModel::Noop => {
            &&& same_but_focus(s1, s0) && s1.focused == s0.focused
            &&& e1 == e0 && unchanged_desktop && w1 == w0 && c1 == c0 && q1 == q0
        },
    }
}


/// The workspace that a slide change moves to.
pub open spec fn slide_change_model(w: WorkspaceModel, forward: bool) -> WorkspaceModel {
    if forward {
        next_slide_model(w)
    } else {
        prev_slide_model(w)
    }
}

/// A slide change can be made on the desktop without a panic or an overflow.
pub open spec fn slide_change_ok(d: &Desktop, forward: bool) -> bool {
    &&& has_active(d)
    &&& if forward {
        next_slide_ok(active_view(d))
    } else {
        prev_slide_ok(active_view(d))
    }
    &&& lands_ok(slide_change_model(active_view(d), forward))
}

impl Seat {
    /// Moves the active workspace to its next (or previous) slide, sends the camera
    /// there and focuses that slide's active window. Going back to an empty slide
    /// clears the seat's focus.
    fn change_slide(
        &mut self,
        forward: bool,
        desktop: &mut Desktop,
        windows: &Vec<Window>,
        queue: &mut Vec<Task>,
        now: u64,
        effects: &mut Vec<Effect>,
    )
        requires
            slide_change_ok(old(desktop), forward),
        ensures
            desktop_updated(
                old(desktop),
                final(desktop),
                slide_change_model(active_view(old(desktop)), forward),
            ),
            final(queue)@ == old(queue)@.push(
                Task::SetCamera {
                    pos: active_pos(slide_change_model(active_view(old(desktop)), forward)),
                    timer: now,
                },
            ),
            (forward || active_target(slide_change_model(active_view(old(desktop)), forward))
                is Some) ==> exists|e: Seq<Effect>|
                focused_on(
                    old(self),
                    final(self),
                    active_target(slide_change_model(active_view(old(desktop)), forward)),
                    windows@,
                    e,
                ) && final(effects)@ == old(effects)@ + e,
            (!forward && active_target(slide_change_model(active_view(old(desktop)), forward))
                is None) ==> same_but_focus(final(self), old(self)) && final(self).focused == old(
                self,
            ).focused && final(effects)@ == old(effects)@.push(Effect::ClearFocus { seat: old(self).id }),
            final(self).pending_action == old(self).pending_action,
    {
        let i = desktop.active_ws_index();
        let ghost w = slide_change_model(active_view(desktop), forward);
        if forward {
            desktop.workspaces[i].next_slide();
        } else {
            desktop.workspaces[i].prev_slide();
        }
        assert(desktop.workspaces@[i as int]@ == w);
        let a = desktop.workspaces[i].active_slide;
        assert(w.slides[a as int] == desktop.workspaces@[i as int].slides@[a as int]@);
        let position = desktop.workspaces[i].slides[a].position;
        queue.push(Task::SetCamera { pos: Position { x: position.0, y: position.1 }, timer: now });
        let has_windows = desktop.workspaces[i].slides[a].windows.len() > 0;
        if has_windows {
            let aw = desktop.workspaces[i].slides[a].active_window;
            let target = desktop.workspaces[i].slides[a].windows[aw];
            let ghost e0 = effects@;
            self.focus_window(target, windows, effects);
            proof {
                let e = focus_effects(old(self).id, old(self).layer_focus, target, has_window(windows@, target));
                assert(focused_on(old(self), self, active_target(w), windows@, e));
            }
        } else if !forward {
            effects.push(Effect::ClearFocus { seat: self.id });
        } else {
            assert(focused_on(old(self), self, active_target(w), windows@, Seq::empty()));
            assert(effects@ =~= old(effects)@ + Seq::<Effect>::empty());
        }
    }
}


/// The active slide after moving its focus one window on (or back).
pub open spec fn window_step_model(s: SlideModel, forward: bool) -> SlideModel {
    if forward {
        next_window_model(s)
    } else {
        prev_window_model(s)
    }
}

/// A window step can be made on the desktop without a panic or an overflow.
pub open spec fn window_step_on(d: &Desktop, forward: bool) -> bool {
    &&& has_active(d)
    &&& active_view(d).active_slide < active_view(d).slides.len()
    &&& window_step_ok(window_step_model(active_slide_view(d), forward))
}

impl Seat {
    /// Moves the active slide's focus to the next (or previous) window, focuses it
    /// and lays the slide out again.
    fn step_window(
        &mut self,
        forward: bool,
        desktop: &mut Desktop,
        windows: &Vec<Window>,
        queue: &mut Vec<Task>,
        now: u64,
        effects: &mut Vec<Effect>,
    )
        requires
            window_step_on(old(desktop), forward),
        ensures
            ({
                let sl = window_step_model(active_slide_view(old(desktop)), forward);
                &&& desktop_updated(
                    old(desktop),
                    final(desktop),
                    with_active_slide(active_view(old(desktop)), clamp_active(sl)),
                )
                &&& final(queue)@ == old(queue)@ + layout_tasks(clamp_active(sl), now)
                &&& exists|e: Seq<Effect>|
                    focused_on(
                        old(self),
                        final(self),
                        Some(sl.windows[sl.active_window as int]),
                        windows@,
                        e,
                    ) && final(effects)@ == old(effects)@ + e
            }),
            final(self).pending_action == old(self).pending_action,
    {
        let i = desktop.active_ws_index();
        let ghost w0 = active_view(desktop);
        let ghost sl = window_step_model(active_slide_view(desktop), forward);
        let a = desktop.workspaces[i].active_slide;
        assert(w0.slides[a as int] == desktop.workspaces@[i as int].slides@[a as int]@);
        if forward {
            desktop.workspaces[i].slides[a].next_window();
        } else {
            desktop.workspaces[i].slides[a].prev_window();
        }
        assert(desktop.workspaces@[i as int].slides@[a as int]@ == sl);
        let aw = desktop.workspaces[i].slides[a].active_window;
        let target = desktop.workspaces[i].slides[a].windows[aw];
        self.focus_window(target, windows, effects);
        proof {
            let e = focus_effects(old(self).id, old(self).layer_focus, target, has_window(windows@, target));
            assert(focused_on(old(self), self, Some(sl.windows[sl.active_window as int]), windows@, e));
        }
        desktop.workspaces[i].slides[a].rearrange(now, queue);
        assert(desktop.workspaces@[i as int]@.slides =~= with_active_slide(w0, clamp_active(sl)).slides);
    }

    /// Cycles the tiling mode of the active slide.
    fn cycle_active_tiling(desktop: &mut Desktop)
        requires
            has_active(old(desktop)),
            active_view(old(desktop)).active_slide < active_view(old(desktop)).slides.len(),
        ensures
            desktop_updated(
                old(desktop),
                final(desktop),
                with_active_slide(
                    active_view(old(desktop)),
                    SlideModel {
                        slide_type: next_tiling(active_slide_view(old(desktop)).slide_type),
                        ..active_slide_view(old(desktop))
                    },
                ),
            ),
    {
        let i = desktop.active_ws_index();
        let ghost w0 = active_view(desktop);
        let a = desktop.workspaces[i].active_slide;
        assert(w0.slides[a as int] == desktop.workspaces@[i as int].slides@[a as int]@);
        desktop.workspaces[i].slides[a].cycle_tiling();
        assert(desktop.workspaces@[i as int]@.slides =~= with_active_slide(
            w0,
            SlideModel { slide_type: next_tiling(w0.slides[a as int].slide_type), ..w0.slides[a as int] },
        ).slides);
    }

    /// Moves the active window to the next (or previous) slide and sends the camera
    /// after it.
    fn move_window_to_slide(
        forward: bool,
        desktop: &mut Desktop,
        windows: &mut Vec<Window>,
        queue: &mut Vec<Task>,
        now: u64,
    )
        requires
            has_active(old(desktop)),
            forward ==> moveto_next_ok(active_view(old(desktop))),
            !forward ==> moveto_prev_ok(active_view(old(desktop))),
            located(old(windows)@, active_window_of(active_view(old(desktop)))),
        ensures
            ({
                let w = if forward {
                    moveto_next_model(active_view(old(desktop)))
                } else {
                    moveto_prev_model(active_view(old(desktop)))
                };
                &&& desktop_updated(old(desktop), final(desktop), w)
                &&& final(windows)@ == relocated(
                    old(windows)@,
                    active_window_of(active_view(old(desktop))),
                    w.slides[w.active_slide as int].id,
                )
                &&& final(queue)@ == old(queue)@.push(
                    Task::SetCamera { pos: active_pos(w), timer: now },
                )
            }),
    {
        let i = desktop.active_ws_index();
        let ghost w = if forward {
            moveto_next_model(active_view(desktop))
        } else {
            moveto_prev_model(active_view(desktop))
        };
        if forward {
            desktop.workspaces[i].moveto_next_slide(windows);
        } else {
            desktop.workspaces[i].moveto_prev_slide(windows);
        }
        assert(desktop.workspaces@[i as int]@ == w);
        assert(w.active_slide < w.slides.len());
        let a = desktop.workspaces[i].active_slide;
        assert(w.slides[a as int] == desktop.workspaces@[i as int].slides@[a as int]@);
        let position = desktop.workspaces[i].slides[a].position;
        queue.push(Task::SetCamera { pos: Position { x: position.0, y: position.1 }, timer: now });
    }
}


impl Seat {
    /// Runs one action for this seat.
    pub fn run_action(
        &mut self,
        action: &Action,
        desktop: &mut Desktop,
        windows: &mut Vec<Window>,
        outputs: &Vec<Output>,
        camera_pos: &mut Position,
        queue: &mut Vec<Task>,
        now: u64,
        effects: &mut Vec<Effect>,
    )
        requires
            action_ok(action@, old(self), old(desktop), old(windows)@, outputs@),
        ensures
            ran_action(
                action@,
                old(self),
                final(self),
                old(desktop),
                final(desktop),
                old(windows)@,
                final(windows)@,
                outputs@,
                *old(camera_pos),
                *final(camera_pos),
                old(queue)@,
                final(queue)@,
                now,
                old(effects)@,
                final(effects)@,
            ),
            final(self).pending_action == old(self).pending_action,
    {
        match action {
            Action::Noop => {},
            Action::Pan => {
                self.pointer_pan(*camera_pos, effects);
            },
            Action::View { x, y } => {
                *camera_pos = Position { x: *x, y: *y };
            },
            Action::Spawn { program, args } => {
                effects.push(Effect::Spawn { program: program.clone(), args: copy_strings(args) });
                assert(effects@.take(old(effects)@.len() as int) =~= old(effects)@);
            },
            Action::SpawnShell { command } => {
                effects.push(Effect::SpawnShell { command: command.clone() });
                assert(effects@.take(old(effects)@.len() as int) =~= old(effects)@);
            },
            Action::Close => {
                if let Some(window_id) = self.focused {
                    queue.push(Task::CloseWindow { window_id });
                }
            },
            Action::CenterFocused => {
                if let Some(window_id) = self.focused {
                    match find_window(windows, window_id) {
                        Some(i) => {
                            proof {
                                let j = choose|j: usize| first_window(windows@, window_id, Some(j));
                                lemma_first_window_unique(windows@, window_id, i, j);
                            }
                            focus_window_camera(&windows[i], outputs, camera_pos);
                        },
                        None => {},
                    }
                }
            },
            Action::Move => {
                if let Some(window_id) = self.hovered {
                    if self.op == SeatOp::Idle {
                        match find_window(windows, window_id) {
                            Some(i) => {
                                proof {
                                    let j = choose|j: usize| first_window(windows@, window_id, Some(j));
                                    lemma_first_window_unique(windows@, window_id, i, j);
                                }
                                self.pointer_move(&windows[i], effects);
                            },
                            None => {},
                        }
                    }
                }
            },
            Action::Resize => {
                if let Some(window_id) = self.hovered {
                    if self.op == SeatOp::Idle {
                        match find_window(windows, window_id) {
                            Some(i) => {
                                proof {
                                    let j = choose|j: usize| first_window(windows@, window_id, Some(j));
                                    lemma_first_window_unique(windows@, window_id, i, j);
                                }
                                self.pointer_resize(&windows[i], 10, effects);
                            },
                            None => {},
                        }
                    }
                }
            },
            Action::ToggleMaximize => {
                if let Some(window_id) = self.focused {
                    queue.push(Task::MaximizeWindow { window_id });
                }
            },
            Action::NextSlide => {
                self.change_slide(true, desktop, windows, queue, now, effects);
            },
            Action::PrevSlide => {
                self.change_slide(false, desktop, windows, queue, now, effects);
            },
            Action::MoveToNextSlide => {
                Seat::move_window_to_slide(true, desktop, windows, queue, now);
            },
            Action::MoveToPrevSlide => {
                Seat::move_window_to_slide(false, desktop, windows, queue, now);
            },
            Action::NextWindow => {
                self.step_window(true, desktop, windows, queue, now, effects);
            },
            Action::PrevWindow => {
                self.step_window(false, desktop, windows, queue, now, effects);
            },
            Action::CycleTiling => {
                Seat::cycle_active_tiling(desktop);
            },
            Action::Exit => {
                effects.push(Effect::ExitSession);
            },
        }
    }
}


/// What a seat's pointer operation becomes once an action has run: on release it
/// ends, otherwise a resize keeps following the pointer.
pub open spec fn op_finished(
    s0: &Seat,
    s1: &Seat,
    windows: Seq<Window>,
    e0: Seq<Effect>,
    e1: Seq<Effect>,
) -> bool {
    &&& s1.focused == s0.focused
    &&& s1.hovered == s0.hovered
    &&& s1.interacted == s0.interacted
    &&& s1.op_diff == s0.op_diff
    &&& same_bindings(s1, s0)
    &&& !s1.op_release
    &&& if s0.op_release {
        s1.op == SeatOp::Idle && e1 == e0 + end_effects(s0, windows)
    } else {
        s1.op == s0.op && e1 == e0 + manage_effects(s0, windows)
    }
}

/// With no pointer offset, a resize proposes the size it started from.
proof fn lemma_zero_offset_fits(sw: i32, sh: i32, edges: Edges)
    ensures
        resize_fits(sw, sh, edges, Position { x: 0, y: 0 }),
{
}

impl Seat {
    /// Runs the seat's pending action, then ends or follows its pointer operation.
    pub fn do_action(
        &mut self,
        desktop: &mut Desktop,
        windows: &mut Vec<Window>,
        outputs: &Vec<Output>,
        camera_pos: &mut Position,
        queue: &mut Vec<Task>,
        now: u64,
        effects: &mut Vec<Effect>,
    )
        requires
            action_ok(old(self).pending_action@, old(self), old(desktop), old(windows)@, outputs@),
            op_fits(old(self)),
        ensures
            exists|s: Seat, e: Seq<Effect>|
                ran_action(
                    old(self).pending_action@,
                    old(self),
                    &s,
                    old(desktop),
                    final(desktop),
                    old(windows)@,
                    final(windows)@,
                    outputs@,
                    *old(camera_pos),
                    *final(camera_pos),
                    old(queue)@,
                    final(queue)@,
                    now,
                    old(effects)@,
                    e,
                ) && op_finished(&s, final(self), final(windows)@, e, final(effects)@),
            final(self).pending_action@ == ActionModel::Noop,
    {
        let action = copy_action(&self.pending_action);
        self.run_action(&action, desktop, windows, outputs, camera_pos, queue, now, effects);
        let ghost mid = *self;
        let ghost e_mid = effects@;
        proof {
            match mid.op {
                SeatOp::Resize { start_width, start_height, edges, .. } => {
                    if mid.op != old(self).op {
                        lemma_zero_offset_fits(start_width, start_height, edges);
                    }
                },
                _ => {},
            }
        }
        if self.op_release {
            self.op_end(windows, effects);
            self.op_release = false;
        } else {
            self.op_manage(windows, effects);
        }
        self.pending_action = Action::Noop;
        assert(op_finished(&mid, self, windows@, e_mid, effects@));
    }
}

/// While a seat resizes a window that exists, the size proposed follows the dragged
/// edges: dragging the right edge by the pointer's x offset widens the window by it
/// and the left edge narrows it; dragging the bottom edge by the y offset makes it
/// taller by it and the top edge shorter; an edge that is not dragged changes
/// nothing.
pub proof fn lemma_resize_follows_edges(s: &Seat, windows: Seq<Window>)
    requires
        op_fits(s),
        s.op is Resize,
        has_window(windows, s.op->Resize_window_id),
    ensures
        ({
            let d = s.op_diff;
            let e = s.op->Resize_edges;
            let right = if e & 8 != 0 { d.x as int } else { 0 };
            let left = if e & 4 != 0 { d.x as int } else { 0 };
            let bottom = if e & 2 != 0 { d.y as int } else { 0 };
            let top = if e & 1 != 0 { d.y as int } else { 0 };
            manage_effects(s, windows) == seq![
                Effect::ProposeDimensions {
                    window: s.op->Resize_window_id,
                    width: (s.op->Resize_start_width + right - left) as i32,
                    height: (s.op->Resize_start_height + bottom - top) as i32,
                },
            ]
        }),
{
}

}
