use vstd::prelude::*;
use crate::effect::Effect;
use crate::geometry::{wrap_sub, Position};
use crate::manager::WindowManager;
use crate::seat::{Seat, SeatOp};
use crate::task::{ticks_ran, Phase};
use crate::window::{node_position, Window};

verus! {

/// Where a window's node is placed this frame, for the camera `cam`: at its rendered
/// position if an animation set one; otherwise, when the camera itself was animated
/// (`moved`), at its resting position; otherwise it stays.
pub open spec fn node_effect(w: Window, cam: Position, moved: bool) -> Seq<Effect> {
    match w.render_position {
        Some(r) => seq![
            Effect::SetNodePosition {
                window: w.id,
                x: wrap_sub(r, cam).x,
                y: wrap_sub(r, cam).y,
            },
        ],
        None => if moved {
            seq![
                Effect::SetNodePosition {
                    window: w.id,
                    x: wrap_sub(w.original_position, cam).x,
                    y: wrap_sub(w.original_position, cam).y,
                },
            ]
        } else {
            Seq::empty()
        },
    }
}

/// The node placements for every window, in order.
pub open spec fn node_effects(ws: Seq<Window>, cam: Position, moved: bool) -> Seq<Effect>
    decreases ws.len(),
{
    if ws.len() == 0 {
        Seq::empty()
    } else {
        node_effects(ws.drop_last(), cam, moved) + node_effect(ws.last(), cam, moved)
    }
}

/// A window once its rendered position has been used up.
pub open spec fn settled(w: Window) -> Window {
    Window { render_position: None, ..w }
}

/// Every window placed at `node_position` for `cam`, in order (one round).
pub open spec fn all_nodes(ws: Seq<Window>, cam: Position) -> Seq<Effect> {
    Seq::new(
        ws.len(),
        |i: int| Effect::SetNodePosition {
            window: ws[i].id,
            x: node_position(ws[i], cam).0,
            y: node_position(ws[i], cam).1,
        },
    )
}

/// The camera and its target once the seats' pans are applied, in seat order: a
/// panning seat puts both at its start less `scaled` (twice its offset, as the
/// caller computes it).
pub open spec fn panned(seats: Seq<Seat>, cam: (Position, Position), scaled: Seq<Position>) -> (
    Position,
    Position,
)
    decreases seats.len(),
{
    if seats.len() == 0 {
        cam
    } else {
        let c = panned(seats.drop_last(), cam, scaled.drop_last());
        match seats.last().op {
            SeatOp::Pan { start_camera_pos } => (
                wrap_sub(start_camera_pos, scaled.last()),
                wrap_sub(start_camera_pos, scaled.last()),
            ),
            _ => c,
        }
    }
}

/// How many seats have a pointer operation in progress.
pub open spec fn busy_seats(seats: Seq<Seat>) -> nat
    decreases seats.len(),
{
    if seats.len() == 0 {
        0
    } else {
        busy_seats(seats.drop_last()) + if seats.last().op != SeatOp::Idle {
            1nat
        } else {
            0nat
        }
    }
}

/// `k` rounds of node placements.
pub open spec fn repeated(e: Seq<Effect>, k: nat) -> Seq<Effect>
    decreases k,
{
    if k == 0 {
        Seq::empty()
    } else {
        repeated(e, (k - 1) as nat) + e
    }
}

/// What placing the windows' nodes does.
pub open spec fn nodes_placed(w0: &WindowManager, w1: &WindowManager, e0: Seq<Effect>, e1: Seq<Effect>) -> bool {
    &&& ({
            let (cam, moved) = match w0.render_camera_pos {
                Some(p) => (p, true),
                None => (w0.camera_pos, false),
            };
            &&& e1 == e0 + node_effects(w0.windows@, cam, moved)
            &&& w1.windows@ == w0.windows@.map_values(|w: Window| settled(w))
            &&& *w1 == (WindowManager {
                windows: w1.windows,
                render_camera_pos: None,
                ..*w0
            })
        })
}

impl WindowManager {
    /// Places every window's node for this frame and uses up the rendered positions
    /// and the rendered camera.
    pub fn set_window_node_positions(&mut self, effects: &mut Vec<Effect>)
        ensures
            nodes_placed(old(self), final(self), old(effects)@, final(effects)@),
    {
        let (cam, moved) = match self.render_camera_pos {
            Some(p) => (p, true),
            None => (self.camera_pos, false),
        };
        self.render_camera_pos = None;
        let ghost mid = *self;
        let ghost w0 = self.windows@;
        let n = self.windows.len();
        let mut i: usize = 0;
        assert(w0.take(0) =~= Seq::<Window>::empty());
        while i < n
            invariant
                0 <= i <= n,
                n == w0.len(),
                self.windows@.len() == n,
                w0 == old(self).windows@,
                *self == (WindowManager { windows: self.windows, ..mid }),
                forall|j: int| 0 <= j < i ==> self.windows@[j] == settled(w0[j]),
                forall|j: int| i <= j < n ==> self.windows@[j] == w0[j],
                effects@ == old(effects)@ + node_effects(w0.take(i as int), cam, moved),
            decreases n - i,
        {
            let ghost e0 = effects@;
            assert(w0.take(i + 1).drop_last() =~= w0.take(i as int));
            assert(w0.take(i + 1).last() == w0[i as int]);
            match self.windows[i].render_position {
                Some(r) => {
                    let d = r.wrapping_sub(cam);
                    effects.push(Effect::SetNodePosition { window: self.windows[i].id, x: d.x, y: d.y });
                },
                None => {
                    if moved {
                        let d = self.windows[i].original_position.wrapping_sub(cam);
                        effects.push(
                            Effect::SetNodePosition { window: self.windows[i].id, x: d.x, y: d.y },
                        );
                    } else {
                        assert(effects@ =~= e0 + Seq::<Effect>::empty());
                    }
                },
            }
            self.windows[i].render_position = None;
            i += 1;
        }
        assert(w0.take(n as int) =~= w0);
        assert(self.windows@ =~= w0.map_values(|w: Window| settled(w)));
    }
}


/// What drawing a frame does (after the task queue has run): river is asked for a
/// manage cycle when tasks ran, the seats' pans move the camera, the windows' nodes
/// are placed, and while any seat has an operation going every window is placed
/// again, once per such seat.
pub open spec fn frame_drawn<D: Fn(Position) -> Position>(
    w0: &WindowManager,
    w1: &WindowManager,
    had_tasks: bool,
    double: D,
    e0: Seq<Effect>,
    e1: Seq<Effect>,
) -> bool {
    exists|scaled: Seq<Position>|
        #![trigger panned(w0.seats@, (w0.camera_pos, w0.target_camera_pos), scaled)]
        {
            let (cam, target) = panned(w0.seats@, (w0.camera_pos, w0.target_camera_pos), scaled);
            let (node_cam, moved) = match w0.render_camera_pos {
                Some(p) => (p, true),
                None => (cam, false),
            };
            &&& scaled.len() == w0.seats@.len()
            &&& forall|i: int|
                0 <= i < w0.seats@.len() && (#[trigger] w0.seats@[i]).op is Pan ==> call_ensures(
                    double,
                    (w0.seats@[i].op_diff,),
                    scaled[i],
                )
            &&& w1.camera_pos == cam
            &&& w1.target_camera_pos == target
            &&& w1.render_camera_pos is None
            &&& w1.windows@ == w0.windows@.map_values(|w: Window| settled(w))
            &&& *w1 == WindowManager {
                windows: w1.windows,
                camera_pos: w1.camera_pos,
                target_camera_pos: w1.target_camera_pos,
                render_camera_pos: w1.render_camera_pos,
                ..*w0
            }
            &&& e1 == e0 + (if had_tasks {
                seq![Effect::ManageDirty]
            } else {
                Seq::empty()
            }) + node_effects(w0.windows@, node_cam, moved) + repeated(
                all_nodes(w1.windows@, cam),
                busy_seats(w0.seats@),
            )
        }
}

impl WindowManager {
    /// Draws a frame once the task queue has run (`had_tasks`: some task was queued).
    pub fn draw_frame<D: Fn(Position) -> Position>(
        &mut self,
        had_tasks: bool,
        double: &D,
        effects: &mut Vec<Effect>,
    )
        requires
            forall|d: Position| call_requires(*double, (d,)),
        ensures
            frame_drawn(old(self), final(self), had_tasks, *double, old(effects)@, final(effects)@),
    {
        if had_tasks {
            effects.push(Effect::ManageDirty);
        } else {
            assert(effects@ =~= old(effects)@ + Seq::<Effect>::empty());
        }
        let ghost e1 = effects@;
        let ghost seats = self.seats@;
        let ghost mut scaled: Seq<Position> = Seq::empty();
        let n = self.seats.len();
        let mut i: usize = 0;
        assert(seats.take(0) =~= Seq::<Seat>::empty());
        while i < n
            invariant
                0 <= i <= n,
                n == seats.len(),
                seats == old(self).seats@,
                self.seats == old(self).seats,
                self.windows == old(self).windows,
                self.render_camera_pos == old(self).render_camera_pos,
                *self == (WindowManager {
                    camera_pos: self.camera_pos,
                    target_camera_pos: self.target_camera_pos,
                    ..*old(self)
                }),
                scaled.len() == i,
                forall|j: int| 0 <= j < i && (#[trigger] seats[j]).op is Pan ==> call_ensures(
                    *double,
                    (seats[j].op_diff,),
                    scaled[j],
                ),
                forall|d: Position| call_requires(*double, (d,)),
                (self.camera_pos, self.target_camera_pos) == panned(
                    seats.take(i as int),
                    (old(self).camera_pos, old(self).target_camera_pos),
                    scaled,
                ),
            decreases n - i,
        {
            assert(seats.take(i + 1).drop_last() =~= seats.take(i as int));
            assert(seats.take(i + 1).last() == seats[i as int]);
            let ghost sc0 = scaled;
            match self.seats[i].op {
                SeatOp::Pan { start_camera_pos } => {
                    let r = double(self.seats[i].op_diff);
                    self.camera_pos = start_camera_pos.wrapping_sub(r);
                    self.target_camera_pos = self.camera_pos;
                    proof {
                        scaled = scaled.push(r);
                    }
                },
                _ => {
                    proof {
                        scaled = scaled.push(Position { x: 0, y: 0 });
                    }
                },
            }
            assert(scaled.drop_last() =~= sc0);
            assert(panned(
                seats.take(i + 1),
                (old(self).camera_pos, old(self).target_camera_pos),
                scaled,
            ) == match seats[i as int].op {
                SeatOp::Pan { start_camera_pos } => (
                    wrap_sub(start_camera_pos, scaled.last()),
                    wrap_sub(start_camera_pos, scaled.last()),
                ),
                _ => panned(
                    seats.take(i as int),
                    (old(self).camera_pos, old(self).target_camera_pos),
                    sc0,
                ),
            });
            i += 1;
        }
        assert(seats.take(n as int) =~= seats);
        assert((self.camera_pos, self.target_camera_pos) == panned(
            old(self).seats@,
            (old(self).camera_pos, old(self).target_camera_pos),
            scaled,
        ));
        let ghost cam = self.camera_pos;
        self.set_window_node_positions(effects);
        let ghost e2 = effects@;
        let ghost round = all_nodes(self.windows@, cam);
        let mut k: usize = 0;
        assert(seats.take(0) =~= Seq::<Seat>::empty());
        while k < n
            invariant
                0 <= k <= n,
                n == seats.len(),
                seats == self.seats@,
                self.camera_pos == cam,
                round == all_nodes(self.windows@, cam),
                effects@ == e2 + repeated(round, busy_seats(seats.take(k as int))),
            decreases n - k,
        {
            assert(seats.take(k + 1).drop_last() =~= seats.take(k as int));
            assert(seats.take(k + 1).last() == seats[k as int]);
            if self.seats[k].op != SeatOp::Idle {
                let ghost e3 = effects@;
                let m = self.windows.len();
                let mut j: usize = 0;
                while j < m
                    invariant
                        0 <= j <= m,
                        m == self.windows@.len(),
                        self.camera_pos == cam,
                        round == all_nodes(self.windows@, cam),
                        effects@ == e3 + round.take(j as int),
                    decreases m - j,
                {
                    let p = self.windows[j].set_node_position(self.camera_pos);
                    effects.push(Effect::SetNodePosition { window: self.windows[j].id, x: p.0, y: p.1 });
                    assert(round.take(j + 1) =~= round.take(j as int).push(round[j as int]));
                    j += 1;
                }
                assert(round.take(m as int) =~= round);
                assert(effects@ =~= e2 + repeated(round, busy_seats(seats.take(k + 1))));
            }
            k += 1;
        }
        assert(seats.take(n as int) =~= seats);
        assert(effects@ =~= old(effects)@ + (if had_tasks {
            seq![Effect::ManageDirty]
        } else {
            Seq::empty()
        }) + node_effects(old(self).windows@, match old(self).render_camera_pos {
            Some(p) => p,
            None => cam,
        }, old(self).render_camera_pos is Some) + repeated(round, busy_seats(seats)));
    }
}


impl WindowManager {
    /// River starts a render cycle: the task queue runs (render half), then the
    /// frame is drawn and the cycle is finished. `Err` with the index of a task that cannot run without a panic
    /// or an overflow (see `tick_tasks`); nothing is drawn then.
    pub fn handle_render_start<
        A: Fn(i32) -> u64,
        E: Fn(Position, u64, u64) -> Position,
        D: Fn(Position) -> Position,
    >(
        &mut self,
        now: u64,
        anim: &A,
        ease: &E,
        double: &D,
        effects: &mut Vec<Effect>,
    ) -> (r: Result<(), usize>)
        requires
            forall|v: i32| call_requires(*anim, (v,)),
            forall|d: Position, e: u64, t: u64| call_requires(*ease, (d, e, t)),
            forall|d: Position| call_requires(*double, (d,)),
        ensures
            exists|mid: WindowManager, em: Seq<Effect>, t: Result<usize, usize>|
                {
                    &&& #[trigger] ticks_ran(
                        old(self),
                        &mid,
                        t,
                        Phase::Render,
                        now,
                        *anim,
                        *ease,
                        *double,
                        old(effects)@,
                        em,
                    )
                    &&& match t {
                        Err(k) => r == Err::<(), usize>(k) && *final(self) == mid && final(effects)@
                            == em,
                        Ok(n) => {
                            &&& r is Ok
                            &&& final(effects)@.len() > 0
                            &&& final(effects)@.last() == Effect::RenderFinish
                            &&& frame_drawn(
                                &mid,
                                final(self),
                                n > 0,
                                *double,
                                em,
                                final(effects)@.drop_last(),
                            )
                        },
                    }
                },
    {
        let t = self.tick_tasks(Phase::Render, now, anim, ease, double, effects);
        let ghost mid = *self;
        let ghost em = effects@;
        match t {
            Err(k) => {
                assert(ticks_ran(old(self), &mid, t, Phase::Render, now, *anim, *ease, *double, old(effects)@, em));
                Err(k)
            },
            Ok(n) => {
                self.draw_frame(n > 0, double, effects);
                let ghost drawn = effects@;
                effects.push(Effect::RenderFinish);
                assert(effects@.drop_last() =~= drawn);
                assert(ticks_ran(old(self), &mid, t, Phase::Render, now, *anim, *ease, *double, old(effects)@, em));
                Ok(())
            },
        }
    }
}

}
