use vstd::prelude::*;
use crate::checks::layout_fits_check;
use crate::desktop::{active_ws, attach_ok, desktop_at, slide_at, with_a_slide, with_slide_at, Desktop};
use crate::workspace::attach_to_active;
use crate::window::{placed_all};
use crate::manager::{all_focused, focus_all, focus_all_effects};
use crate::lookup::{find_window, window_index};
use crate::effect::Effect;
use crate::manager::{end_ops_effects, end_ops_on, keeps_camera, keeps_devices, ops_ended_on, WindowManager};
use crate::seat::{PointerBinding, Seat, SeatOp, XkbBinding};
use crate::actions::{keysym_entry, parse_keysym, parse_action, parse_action_spec, parse_modifiers, parse_modifiers_spec, Action, ActionModel, Modifiers};
use crate::config::Config;
use crate::events::{find_seat, seat_index};
use crate::geometry::Position;
use crate::window::Edges;
use crate::slide::{clamp_active, layout_fits, layout_tasks, SlideModel};
use crate::task::Task;
use crate::window::{Output, Window, WindowId, WindowLocation};

verus! {

/// The outputs that are not being removed, in order.
pub open spec fn kept_outputs(os: Seq<Output>) -> Seq<Output>
    decreases os.len(),
{
    if os.len() == 0 {
        Seq::empty()
    } else {
        kept_outputs(os.drop_last()) + if os.last().removed {
            Seq::empty()
        } else {
            seq![os.last()]
        }
    }
}

/// What destroying the removed outputs asks of river, in order: each one's layer
/// object (if any) and then the output itself.
pub open spec fn output_destroys(os: Seq<Output>) -> Seq<Effect>
    decreases os.len(),
{
    if os.len() == 0 {
        Seq::empty()
    } else {
        output_destroys(os.drop_last()) + if os.last().removed {
            seq![Effect::DestroyOutput { output: os.last().id, layer: os.last().layer }]
        } else {
            Seq::empty()
        }
    }
}

/// The seats that are not being removed, in order.
pub open spec fn kept_seats(ss: Seq<Seat>) -> Seq<Seat>
    decreases ss.len(),
{
    if ss.len() == 0 {
        Seq::empty()
    } else {
        kept_seats(ss.drop_last()) + if ss.last().removed {
            Seq::empty()
        } else {
            seq![ss.last()]
        }
    }
}

/// The removed seats, in order.
pub open spec fn removed_seats(ss: Seq<Seat>) -> Seq<Seat>
    decreases ss.len(),
{
    if ss.len() == 0 {
        Seq::empty()
    } else {
        removed_seats(ss.drop_last()) + if ss.last().removed {
            seq![ss.last()]
        } else {
            Seq::empty()
        }
    }
}

/// `e` asks river to destroy seat `s`: its layer object, its bindings and itself.
pub open spec fn destroys_seat(e: Effect, s: Seat) -> bool {
    e matches Effect::DestroySeat { seat, layer, xkb_bindings, pointer_bindings }
        && seat == s.id && layer == s.layer && xkb_bindings@ == s.xkb_bindings@.map_values(
        |b: XkbBinding| b.id,
    ) && pointer_bindings@ == s.pointer_bindings@.map_values(|b: PointerBinding| b.id)
}

fn xkb_ids(bs: &Vec<XkbBinding>) -> (r: Vec<u32>)
    ensures
        r@ == bs@.map_values(|b: XkbBinding| b.id),
{
    let mut r: Vec<u32> = Vec::new();
    let mut i: usize = 0;
    while i < bs.len()
        invariant
            0 <= i <= bs.len(),
            r@ == bs@.take(i as int).map_values(|b: XkbBinding| b.id),
        decreases bs.len() - i,
    {
        r.push(bs[i].id);
        assert(bs@.take(i + 1).map_values(|b: XkbBinding| b.id) =~= bs@.take(i as int).map_values(
            |b: XkbBinding| b.id,
        ).push(bs@[i as int].id));
        i += 1;
    }
    assert(bs@.take(i as int) =~= bs@);
    r
}

fn pointer_ids(bs: &Vec<PointerBinding>) -> (r: Vec<u32>)
    ensures
        r@ == bs@.map_values(|b: PointerBinding| b.id),
{
    let mut r: Vec<u32> = Vec::new();
    let mut i: usize = 0;
    while i < bs.len()
        invariant
            0 <= i <= bs.len(),
            r@ == bs@.take(i as int).map_values(|b: PointerBinding| b.id),
        decreases bs.len() - i,
    {
        r.push(bs[i].id);
        assert(bs@.take(i + 1).map_values(|b: PointerBinding| b.id) =~= bs@.take(
            i as int,
        ).map_values(|b: PointerBinding| b.id).push(bs@[i as int].id));
        i += 1;
    }
    assert(bs@.take(i as int) =~= bs@);
    r
}

/// No two windows have the same id.
pub open spec fn window_ids_unique(xs: Seq<Window>) -> bool {
    forall|i: int, j: int| 0 <= i < j < xs.len() ==> (#[trigger] xs[i]).id != (#[trigger] xs[j]).id
}

/// Dropping the windows that are closed keeps only windows that were there, and
/// keeps ids unique.
pub proof fn lemma_open_windows_unique(xs: Seq<Window>)
    ensures
        forall|i: int| 0 <= i < open_windows(xs).len() ==> exists|j: int| 0 <= j < xs.len() && #[trigger] open_windows(xs)[i] == xs[j],
        window_ids_unique(xs) ==> window_ids_unique(open_windows(xs)),
    decreases xs.len(),
{
    if xs.len() > 0 {
        let init = xs.drop_last();
        lemma_open_windows_unique(init);
        let o = open_windows(init);
        let r = open_windows(xs);
        assert forall|i: int| 0 <= i < r.len() implies exists|j: int| 0 <= j < xs.len() && #[trigger] r[i] == xs[j] by {
            if i < o.len() {
                assert(r[i] == o[i]);
                let j = choose|j: int| 0 <= j < init.len() && o[i] == init[j];
                assert(init[j] == xs[j]);
            } else {
                assert(r[i] == xs[xs.len() - 1]);
            }
        }
        if window_ids_unique(xs) {
            assert forall|i: int, j: int| 0 <= i < j < init.len() implies (#[trigger] init[i]).id != (#[trigger] init[j]).id by {
                assert(init[i] == xs[i] && init[j] == xs[j]);
            }
            assert forall|i: int, j: int| 0 <= i < j < r.len() implies (#[trigger] r[i]).id != (#[trigger] r[j]).id by {
                assert(r[i] == o[i]);
                if j < o.len() {
                    assert(r[j] == o[j]);
                } else {
                    assert(r[j] == xs[xs.len() - 1]);
                    let k = choose|k: int| 0 <= k < init.len() && o[i] == init[k];
                    assert(init[k] == xs[k]);
                }
            }
        }
    }
}

/// No two seats have the same id.
pub open spec fn seat_ids_unique(xs: Seq<Seat>) -> bool {
    forall|i: int, j: int| 0 <= i < j < xs.len() ==> (#[trigger] xs[i]).id != (#[trigger] xs[j]).id
}

/// Dropping the seats that were removed keeps only seats that were there, and
/// keeps ids unique.
pub proof fn lemma_kept_seats_unique(xs: Seq<Seat>)
    ensures
        forall|i: int| 0 <= i < kept_seats(xs).len() ==> exists|j: int| 0 <= j < xs.len() && #[trigger] kept_seats(xs)[i] == xs[j],
        seat_ids_unique(xs) ==> seat_ids_unique(kept_seats(xs)),
    decreases xs.len(),
{
    if xs.len() > 0 {
        let init = xs.drop_last();
        lemma_kept_seats_unique(init);
        let o = kept_seats(init);
        let r = kept_seats(xs);
        assert forall|i: int| 0 <= i < r.len() implies exists|j: int| 0 <= j < xs.len() && #[trigger] r[i] == xs[j] by {
            if i < o.len() {
                assert(r[i] == o[i]);
                let j = choose|j: int| 0 <= j < init.len() && o[i] == init[j];
                assert(init[j] == xs[j]);
            } else {
                assert(r[i] == xs[xs.len() - 1]);
            }
        }
        if seat_ids_unique(xs) {
            assert forall|i: int, j: int| 0 <= i < j < init.len() implies (#[trigger] init[i]).id != (#[trigger] init[j]).id by {
                assert(init[i] == xs[i] && init[j] == xs[j]);
            }
            assert forall|i: int, j: int| 0 <= i < j < r.len() implies (#[trigger] r[i]).id != (#[trigger] r[j]).id by {
                assert(r[i] == o[i]);
                if j < o.len() {
                    assert(r[j] == o[j]);
                } else {
                    assert(r[j] == xs[xs.len() - 1]);
                    let k = choose|k: int| 0 <= k < init.len() && o[i] == init[k];
                    assert(init[k] == xs[k]);
                }
            }
        }
    }
}

/// No two outputs have the same id.
pub open spec fn output_ids_unique(xs: Seq<Output>) -> bool {
    forall|i: int, j: int| 0 <= i < j < xs.len() ==> (#[trigger] xs[i]).id != (#[trigger] xs[j]).id
}

/// Dropping the outputs that were removed keeps only outputs that were there, and
/// keeps ids unique.
pub proof fn lemma_kept_outputs_unique(xs: Seq<Output>)
    ensures
        forall|i: int| 0 <= i < kept_outputs(xs).len() ==> exists|j: int| 0 <= j < xs.len() && #[trigger] kept_outputs(xs)[i] == xs[j],
        output_ids_unique(xs) ==> output_ids_unique(kept_outputs(xs)),
    decreases xs.len(),
{
    if xs.len() > 0 {
        let init = xs.drop_last();
        lemma_kept_outputs_unique(init);
        let o = kept_outputs(init);
        let r = kept_outputs(xs);
        assert forall|i: int| 0 <= i < r.len() implies exists|j: int| 0 <= j < xs.len() && #[trigger] r[i] == xs[j] by {
            if i < o.len() {
                assert(r[i] == o[i]);
                let j = choose|j: int| 0 <= j < init.len() && o[i] == init[j];
                assert(init[j] == xs[j]);
            } else {
                assert(r[i] == xs[xs.len() - 1]);
            }
        }
        if output_ids_unique(xs) {
            assert forall|i: int, j: int| 0 <= i < j < init.len() implies (#[trigger] init[i]).id != (#[trigger] init[j]).id by {
                assert(init[i] == xs[i] && init[j] == xs[j]);
            }
            assert forall|i: int, j: int| 0 <= i < j < r.len() implies (#[trigger] r[i]).id != (#[trigger] r[j]).id by {
                assert(r[i] == o[i]);
                if j < o.len() {
                    assert(r[j] == o[j]);
                } else {
                    assert(r[j] == xs[xs.len() - 1]);
                    let k = choose|k: int| 0 <= k < init.len() && o[i] == init[k];
                    assert(init[k] == xs[k]);
                }
            }
        }
    }
}

/// The closed windows among the first `k` dropped, the rest kept: ids stay unique.
proof fn lemma_partly_open_unique(ws: Seq<Window>, k: int)
    requires
        0 <= k <= ws.len(),
    ensures
        window_ids_unique(ws) ==> window_ids_unique(open_windows(ws.take(k)) + ws.skip(k)),
{
    let t = ws.take(k);
    lemma_open_windows_unique(t);
    let o = open_windows(t);
    let r = o + ws.skip(k);
    if window_ids_unique(ws) {
        assert(window_ids_unique(t)) by {
            assert forall|i: int, j: int| 0 <= i < j < t.len() implies (#[trigger] t[i]).id != (#[trigger] t[j]).id by {
                assert(t[i] == ws[i] && t[j] == ws[j]);
            }
        }
        assert forall|i: int, j: int| 0 <= i < j < r.len() implies (#[trigger] r[i]).id != (#[trigger] r[j]).id by {
            if j < o.len() {
                assert(r[i] == o[i] && r[j] == o[j]);
            } else if i < o.len() {
                assert(r[i] == o[i]);
                let a = choose|a: int| 0 <= a < t.len() && o[i] == t[a];
                assert(t[a] == ws[a]);
                assert(r[j] == ws[k + j - o.len()]);
            } else {
                assert(r[i] == ws[k + i - o.len()]);
                assert(r[j] == ws[k + j - o.len()]);
            }
        }
    }
}

/// What dropping the removed outputs does.
pub open spec fn outputs_removed(w0: &WindowManager, w1: &WindowManager, e0: Seq<Effect>, e1: Seq<Effect>) -> bool {
    &&& *w1 == (WindowManager { outputs: w1.outputs, ..*w0 })
    &&& w1.outputs@ == kept_outputs(w0.outputs@)
    &&& e1 == e0 + output_destroys(w0.outputs@)
}

/// What dropping the removed seats does.
pub open spec fn seats_removed(w0: &WindowManager, w1: &WindowManager, e0: Seq<Effect>, e1: Seq<Effect>) -> bool {
    &&& *w1 == (WindowManager { seats: w1.seats, ..*w0 })
    &&& w1.seats@ == kept_seats(w0.seats@)
    &&& e1.len() == e0.len() + removed_seats(w0.seats@).len()
    &&& e1.take(e0.len() as int) == e0
    &&& forall|j: int|
            0 <= j < removed_seats(w0.seats@).len() ==> destroys_seat(
                #[trigger] e1[e0.len() + j],
                removed_seats(w0.seats@)[j],
            )
}

impl WindowManager {
    /// Drops the outputs that river removed, asking river to destroy them.
    pub fn remove_outputs(&mut self, effects: &mut Vec<Effect>)
        ensures
            outputs_removed(old(self), final(self), old(effects)@, final(effects)@),
            output_ids_unique(old(self).outputs@) ==> output_ids_unique(final(self).outputs@),
    {
        let mut rest: Vec<Output> = Vec::new();
        std::mem::swap(&mut rest, &mut self.outputs);
        let ghost os = rest@;
        let ghost mid = *self;
        let n = rest.len();
        let mut i: usize = 0;
        assert(os.take(0) =~= Seq::<Output>::empty());
        while i < n
            invariant
                0 <= i <= n,
                n == os.len(),
                os == old(self).outputs@,
                rest@ == os.skip(i as int),
                *self == (WindowManager { outputs: self.outputs, ..mid }),
                mid == (WindowManager { outputs: mid.outputs, ..*old(self) }),
                self.outputs@ == kept_outputs(os.take(i as int)),
                effects@ == old(effects)@ + output_destroys(os.take(i as int)),
            decreases n - i,
        {
            let o = rest.remove(0);
            assert(o == os[i as int]);
            assert(os.take(i + 1).drop_last() =~= os.take(i as int));
            assert(os.take(i + 1).last() == os[i as int]);
            assert(rest@ =~= os.skip(i + 1));
            if o.removed {
                effects.push(Effect::DestroyOutput { output: o.id, layer: o.layer });
                assert(self.outputs@ =~= kept_outputs(os.take(i + 1)));
            } else {
                self.outputs.push(o);
                assert(effects@ =~= old(effects)@ + output_destroys(os.take(i + 1)));
            }
            i += 1;
        }
        assert(os.take(n as int) =~= os);
        proof {
            lemma_kept_outputs_unique(os);
        }
    }

    /// Drops the seats that river removed, asking river to destroy them and their
    /// bindings.
    pub fn remove_seats(&mut self, effects: &mut Vec<Effect>)
        ensures
            seats_removed(old(self), final(self), old(effects)@, final(effects)@),
            seat_ids_unique(old(self).seats@) ==> seat_ids_unique(final(self).seats@),
    {
        let mut rest: Vec<Seat> = Vec::new();
        std::mem::swap(&mut rest, &mut self.seats);
        let ghost ss = rest@;
        let ghost mid = *self;
        let ghost e0 = effects@;
        let n = rest.len();
        let mut i: usize = 0;
        assert(ss.take(0) =~= Seq::<Seat>::empty());
        while i < n
            invariant
                0 <= i <= n,
                n == ss.len(),
                ss == old(self).seats@,
                e0 == old(effects)@,
                rest@ == ss.skip(i as int),
                *self == (WindowManager { seats: self.seats, ..mid }),
                mid == (WindowManager { seats: mid.seats, ..*old(self) }),
                self.seats@ == kept_seats(ss.take(i as int)),
                effects@.len() == e0.len() + removed_seats(ss.take(i as int)).len(),
                effects@.take(e0.len() as int) == e0,
                forall|j: int|
                    0 <= j < removed_seats(ss.take(i as int)).len() ==> destroys_seat(
                        #[trigger] effects@[e0.len() + j],
                        removed_seats(ss.take(i as int))[j],
                    ),
            decreases n - i,
        {
            let s = rest.remove(0);
            assert(s == ss[i as int]);
            assert(ss.take(i + 1).drop_last() =~= ss.take(i as int));
            assert(ss.take(i + 1).last() == ss[i as int]);
            assert(rest@ =~= ss.skip(i + 1));
            if s.removed {
                let xkb = xkb_ids(&s.xkb_bindings);
                let pointer = pointer_ids(&s.pointer_bindings);
                let ghost before = effects@;
                effects.push(
                    Effect::DestroySeat {
                        seat: s.id,
                        layer: s.layer,
                        xkb_bindings: xkb,
                        pointer_bindings: pointer,
                    },
                );
                assert(removed_seats(ss.take(i + 1)) =~= removed_seats(ss.take(i as int)).push(s));
                assert(effects@.take(e0.len() as int) =~= before.take(e0.len() as int));
                assert(self.seats@ =~= kept_seats(ss.take(i + 1)));
            } else {
                self.seats.push(s);
                assert(removed_seats(ss.take(i + 1)) =~= removed_seats(ss.take(i as int)));
            }
            i += 1;
        }
        assert(ss.take(n as int) =~= ss);
        proof {
            lemma_kept_seats_unique(ss);
        }
    }
}


/// `s` without any entry `id`.
pub open spec fn remove_all(s: Seq<WindowId>, id: WindowId) -> Seq<WindowId>
    decreases s.len(),
{
    if s.len() == 0 {
        Seq::empty()
    } else {
        remove_all(s.drop_last(), id) + if s.last() == id {
            Seq::empty()
        } else {
            seq![s.last()]
        }
    }
}

/// Slide `s` once window `id` has left it: its entries dropped, then laid out again.
pub open spec fn slide_without(s: SlideModel, id: WindowId) -> SlideModel {
    clamp_active(SlideModel { windows: remove_all(s.windows, id), ..s })
}

/// The slide that a location names, if any.
pub open spec fn located_slide(d: &Desktop, loc: Option<WindowLocation>) -> Option<(usize, usize)> {
    match loc {
        Some(l) => slide_at(d, l),
        None => None,
    }
}

/// Dropping closed window `w` (with an empty window list, as during the pass)
/// neither panics nor overflows: its slide, left possibly empty, can be laid out.
pub open spec fn drop_ok(w: Window, m: &WindowManager) -> bool {
    match located_slide(&m.desktop, w.location) {
        Some((wi, si)) => {
            let s = m.desktop.workspaces@[wi as int]@.slides[si as int];
            layout_fits(slide_without(s, w.id))
        },
        None => true,
    }
}

/// What dropping window `w` from state `m0` does when it is closed: pointer
/// operations on it end (the window list being empty meanwhile, no resize-end is
/// sent), and it leaves its slide, which is laid out again. An open window changes
/// nothing.
pub open spec fn dropped(
    w: Window,
    m0: &WindowManager,
    m1: &WindowManager,
    now: u64,
    e0: Seq<Effect>,
    e1: Seq<Effect>,
) -> bool {
    if w.closed {
        &&& m1.seats@ == ops_ended_on(m0.seats@, w.id)
        &&& e1 == e0 + end_ops_effects(m0.seats@, w.id, Seq::empty())
        &&& match located_slide(&m0.desktop, w.location) {
            Some((wi, si)) => {
                let ws = m0.desktop.workspaces@[wi as int]@;
                &&& desktop_at(
                    &m0.desktop,
                    &m1.desktop,
                    wi,
                    with_slide_at(ws, si as int, slide_without(ws.slides[si as int], w.id)),
                )
                &&& m1.queue@ == m0.queue@ + layout_tasks(
                    slide_without(ws.slides[si as int], w.id),
                    now,
                )
            },
            None => m1.desktop == m0.desktop && m1.queue@ == m0.queue@,
        }
        &&& keeps_devices(m0, m1)
        &&& keeps_camera(m0, m1)
        &&& m1.windows == m0.windows
    } else {
        *m1 == *m0 && e1 == e0
    }
}

/// Windows that are not closed, in order.
pub open spec fn open_windows(ws: Seq<Window>) -> Seq<Window>
    decreases ws.len(),
{
    if ws.len() == 0 {
        Seq::empty()
    } else {
        open_windows(ws.drop_last()) + if ws.last().closed {
            Seq::empty()
        } else {
            seq![ws.last()]
        }
    }
}

/// Dropping windows `ws` in order takes the state through `states` (window list
/// empty) and the effects through `effs`.
pub open spec fn drops_ran(
    ws: Seq<Window>,
    states: Seq<WindowManager>,
    effs: Seq<Seq<Effect>>,
    now: u64,
) -> bool {
    &&& states.len() == ws.len() + 1
    &&& effs.len() == ws.len() + 1
    &&& forall|i: int| 0 <= i < ws.len() ==> #[trigger] dropped_at(ws, i, states, effs, now)
}

/// Step `i` of dropping the windows `ws`.
pub open spec fn dropped_at(
    ws: Seq<Window>,
    i: int,
    states: Seq<WindowManager>,
    effs: Seq<Seq<Effect>>,
    now: u64,
) -> bool {
    &&& ws[i].closed ==> drop_ok(ws[i], &states[i])
    &&& dropped(ws[i], &states[i], &states[i + 1], now, effs[i], effs[i + 1])
}

/// What dropping the closed windows does, with result `r` (see `remove_windows`).
pub open spec fn windows_removed(w0: &WindowManager, w1: &WindowManager, r: Result<(), usize>, now: u64, e0: Seq<Effect>, e1: Seq<Effect>) -> bool {
    &&& exists|states: Seq<WindowManager>, effs: Seq<Seq<Effect>>, k: int|
            {
                &&& 0 <= k <= w0.windows@.len()
                &&& #[trigger] drops_ran(w0.windows@.take(k), states, effs, now)
                &&& states[0] == (WindowManager { windows: states[0].windows, ..*w0 })
                &&& states[0].windows@ == Seq::<Window>::empty()
                &&& effs[0] == e0
                &&& effs[k] == e1
                &&& *w1 == (WindowManager { windows: w1.windows, ..states[k] })
                &&& match r {
                    Ok(()) => k == w0.windows@.len() && w1.windows@
                        == open_windows(w0.windows@),
                    Err(j) => j == k && k < w0.windows@.len() && w0.windows@[k].closed && !drop_ok(w0.windows@[k], &states[k])
                        && w1.windows@ == open_windows(w0.windows@.take(k))
                        + w0.windows@.skip(k),
                }
            }
}

impl Desktop {
    /// Takes every entry of window `id` out of the slide that `loc` names and lays
    /// that slide out again (an emptied slide stays); `false` (and nothing changes)
    /// when laying it out would overflow.
    pub fn drop_from_slide(&mut self, loc: &WindowLocation, id: WindowId, now: u64, queue: &mut Vec<
        Task,
    >) -> (ok: bool)
        ensures
            match slide_at(old(self), *loc) {
                Some((wi, si)) => {
                    let ws = old(self).workspaces@[wi as int]@;
                    let s = ws.slides[si as int];
                    &&& ok == layout_fits(slide_without(s, id))
                    &&& ok ==> desktop_at(
                        old(self),
                        final(self),
                        wi,
                        with_slide_at(ws, si as int, slide_without(s, id)),
                    ) && final(queue)@ == old(queue)@ + layout_tasks(slide_without(s, id), now)
                    &&& !ok ==> *final(self) == *old(self) && *final(queue) == *old(queue)
                },
                None => ok && *final(self) == *old(self) && *final(queue) == *old(queue),
            },
    {
        let wi = match self.workspace_pos(&loc.workspace_id) {
            Some(wi) => wi,
            None => {
                return true;
            },
        };
        let si = match self.workspaces[wi].find_slide(loc.slide_id) {
            Some(si) => si,
            None => {
                return true;
            },
        };
        let ghost ws = self.workspaces@[wi as int]@;
        assert(ws.slides[si as int] == self.workspaces@[wi as int].slides@[si as int]@);
        let ghost s = ws.slides[si as int];
        let mut kept: Vec<WindowId> = Vec::new();
        let n = self.workspaces[wi].slides[si].windows.len();
        let mut j: usize = 0;
        assert(s.windows.take(0) =~= Seq::<WindowId>::empty());
        while j < n
            invariant
                0 <= j <= n,
                wi < self.workspaces@.len(),
                si < self.workspaces@[wi as int].slides@.len(),
                n == s.windows.len(),
                s == self.workspaces@[wi as int].slides@[si as int]@,
                kept@ == remove_all(s.windows.take(j as int), id),
            decreases n - j,
        {
            let x = self.workspaces[wi].slides[si].windows[j];
            assert(s.windows.take(j + 1).drop_last() =~= s.windows.take(j as int));
            if x != id {
                kept.push(x);
            }
            assert(kept@ =~= remove_all(s.windows.take(j + 1), id));
            j += 1;
        }
        assert(s.windows.take(n as int) =~= s.windows);
        let m = kept.len();
        let aw = if self.workspaces[wi].slides[si].active_window >= m {
            if m == 0 {
                usize::MAX
            } else {
                m - 1
            }
        } else {
            self.workspaces[wi].slides[si].active_window
        };
        let st = self.workspaces[wi].slides[si].slide_type;
        let pos = self.workspaces[wi].slides[si].position;
        let dims = self.workspaces[wi].slides[si].dimensions;
        if !layout_fits_check(st, pos, dims, m, aw) {
            assert(!layout_fits(slide_without(s, id)));
            return false;
        }
        self.workspaces[wi].slides[si].windows = kept;
        self.workspaces[wi].slides[si].rearrange(now, queue);
        assert(self.workspaces@[wi as int]@.slides =~= with_slide_at(
            ws,
            si as int,
            slide_without(s, id),
        ).slides);
        true
    }
}

impl WindowManager {
    /// Drops the windows that have closed: pointer operations on them end and they
    /// leave their slides, which are laid out again (an emptied slide stays, with
    /// nothing to lay out). `Err` with the index (in the window list) of a closed
    /// window whose slide would overflow `i32` arithmetic when laid out; the window
    /// list is then left whole.
    pub fn remove_windows(&mut self, now: u64, effects: &mut Vec<Effect>) -> (r: Result<(), usize>)
        ensures
            windows_removed(old(self), final(self), r, now, old(effects)@, final(effects)@),
            window_ids_unique(old(self).windows@) ==> window_ids_unique(final(self).windows@),
    {
        let mut rest: Vec<Window> = Vec::new();
        std::mem::swap(&mut rest, &mut self.windows);
        let ghost ws = rest@;
        let ghost mut states: Seq<WindowManager> = seq![*self];
        let ghost mut effs: Seq<Seq<Effect>> = seq![effects@];
        let mut kept: Vec<Window> = Vec::new();
        let n = rest.len();
        let mut i: usize = 0;
        assert(ws.take(0) =~= Seq::<Window>::empty());
        while i < n
            invariant
                0 <= i <= n,
                n == ws.len(),
                ws == old(self).windows@,
                rest@ == ws.skip(i as int),
                self.windows@ == Seq::<Window>::empty(),
                drops_ran(ws.take(i as int), states, effs, now),
                states[0] == (WindowManager { windows: states[0].windows, ..*old(self) }),
                states[0].windows@ == Seq::<Window>::empty(),
                effs[0] == old(effects)@,
                states[i as int] == *self,
                effs[i as int] == effects@,
                kept@ == open_windows(ws.take(i as int)),
            decreases n - i,
        {
            let w = rest.remove(0);
            assert(w == ws[i as int]);
            assert(ws.take(i + 1).drop_last() =~= ws.take(i as int));
            assert(ws.take(i + 1).last() == ws[i as int]);
            assert(rest@ =~= ws.skip(i + 1));
            let ghost before = *self;
            let ghost e_before = effects@;
            if w.closed {
                let ok = match &w.location {
                    Some(loc) => self.desktop.drop_from_slide(loc, w.id, now, &mut self.queue),
                    None => true,
                };
                if !ok {
                    kept.push(w);
                    let mut j: usize = 0;
                    let m = rest.len();
                    while j < m
                        invariant
                            0 <= j <= m,
                            0 <= i < n,
                            n == ws.len(),
                            m == n - (i + 1),
                            rest@ == ws.skip(i + 1 + j),
                            kept@ == open_windows(ws.take(i as int)) + ws.skip(i as int).take(j + 1),
                        decreases m - j,
                    {
                        let x = rest.remove(0);
                        assert(x == ws[i + 1 + j]);
                        kept.push(x);
                        assert(ws.skip(i as int).take(j + 2) =~= ws.skip(i as int).take(j + 1).push(
                            ws[i + 1 + j],
                        ));
                        assert(rest@ =~= ws.skip(i + 1 + j + 1));
                        j += 1;
                    }
                    assert(ws.skip(i as int).take(m + 1) =~= ws.skip(i as int));
                    assert(!drop_ok(ws[i as int], &states[i as int]));
                    self.windows = kept;
                    proof {
                        lemma_partly_open_unique(ws, i as int);
                    }
                    return Err(i);
                }
                end_ops_on(&mut self.seats, w.id, &self.windows, effects);
            } else {
                kept.push(w);
            }
            proof {
                assert(w.closed ==> drop_ok(ws[i as int], &before));
                assert(dropped(ws[i as int], &before, self, now, e_before, effects@));
                let old_states = states;
                let old_effs = effs;
                states = states.push(*self);
                effs = effs.push(effects@);
                let t = ws.take(i + 1);
                assert forall|j: int| 0 <= j < t.len() implies #[trigger] dropped_at(
                    t,
                    j,
                    states,
                    effs,
                    now,
                ) by {
                    if j < i {
                        assert(t[j] == ws.take(i as int)[j]);
                        assert(dropped_at(ws.take(i as int), j, old_states, old_effs, now));
                    }
                }
                assert(states.len() == t.len() + 1);
                assert(effs.len() == t.len() + 1);
                assert(drops_ran(t, states, effs, now));
            }
            assert(kept@ =~= open_windows(ws.take(i + 1)));
            i += 1;
        }
        assert(ws.take(n as int) =~= ws);
        self.windows = kept;
        proof {
            lemma_open_windows_unique(ws);
        }
        Ok(())
    }
}


/// Seat `s` once it starts moving window `w` with the pointer.
pub open spec fn moving_seat(s: Seat, w: Window) -> Seat {
    Seat {
        interacted: Some(w.id),
        op: SeatOp::Move { window_id: w.id, start_x: w.x, start_y: w.y },
        op_diff: Position { x: 0, y: 0 },
        ..s
    }
}

/// Seat `s` once it starts resizing window `w` from `edges` with the pointer.
pub open spec fn resizing_seat(s: Seat, w: Window, edges: Edges) -> Seat {
    Seat {
        interacted: Some(w.id),
        op: SeatOp::Resize {
            window_id: w.id,
            start_x: w.x,
            start_y: w.y,
            start_width: w.width,
            start_height: w.height,
            edges,
        },
        op_diff: Position { x: 0, y: 0 },
        ..s
    }
}

/// Window `w` with its pointer requests handled.
pub open spec fn requests_taken(w: Window) -> Window {
    Window { pointer_move_requested: None, pointer_resize_requested: None, ..w }
}

/// Starting the pointer move and resize that window `w` asked for, on `seats`: the
/// seats and effects that result, or `None` when a requesting seat is unknown.
pub open spec fn start_requested(w: Window, seats: Seq<Seat>) -> Option<(Seq<Seat>, Seq<Effect>)> {
    let after_move = match w.pointer_move_requested {
        Some(sid) => match seat_index(seats, sid) {
            Some(j) => Some(
                (
                    seats.update(j as int, moving_seat(seats[j as int], w)),
                    seq![Effect::OpStartPointer { seat: seats[j as int].id }],
                ),
            ),
            None => None,
        },
        None => Some((seats, Seq::empty())),
    };
    match after_move {
        Some((s1, e1)) => match w.pointer_resize_requested {
            Some(sid) => match seat_index(s1, sid) {
                Some(j) => Some(
                    (
                        s1.update(
                            j as int,
                            resizing_seat(s1[j as int], w, w.pointer_resize_requested_edges),
                        ),
                        e1 + seq![
                            Effect::OpStartPointer { seat: s1[j as int].id },
                            Effect::InformResizeStart { window: w.id },
                        ],
                    ),
                ),
                None => None,
            },
            None => Some((s1, e1)),
        },
        None => None,
    }
}

/// Starting, window after window, the pointer operations that windows asked for.
pub open spec fn start_all_requested(ws: Seq<Window>, seats: Seq<Seat>) -> Option<
    (Seq<Seat>, Seq<Effect>),
>
    decreases ws.len(),
{
    if ws.len() == 0 {
        Some((seats, Seq::empty()))
    } else {
        match start_all_requested(ws.drop_last(), seats) {
            Some((s, e)) => match start_requested(ws.last(), s) {
                Some((s2, e2)) => Some((s2, e + e2)),
                None => None,
            },
            None => None,
        }
    }
}

/// What starting the requested pointer operations does, with result `r`.
pub open spec fn requests_started(w0: &WindowManager, w1: &WindowManager, r: Result<(), usize>, e0: Seq<Effect>, e1: Seq<Effect>) -> bool {
    &&& *w1 == (WindowManager {
            windows: w1.windows,
            seats: w1.seats,
            ..*w0
        })
    &&& match start_all_requested(w0.windows@, w0.seats@) {
            Some((seats, e)) => {
                &&& r is Ok
                &&& w1.seats@ == seats
                &&& e1 == e0 + e
                &&& w1.windows@ == w0.windows@.map_values(
                    |w: Window| requests_taken(w),
                )
            },
            None => r is Err,
        }
}

/// Once a prefix of the windows names an unknown seat, so do all of them.
proof fn lemma_start_fails_on(ws: Seq<Window>, seats: Seq<Seat>, k: int)
    requires
        0 <= k <= ws.len(),
        start_all_requested(ws.take(k), seats) is None,
    ensures
        start_all_requested(ws, seats) is None,
    decreases ws.len(),
{
    if k == ws.len() {
        assert(ws.take(k) =~= ws);
    } else {
        assert(ws.drop_last().take(k) =~= ws.take(k));
        lemma_start_fails_on(ws.drop_last(), seats, k);
    }
}

impl WindowManager {
    /// Starts the pointer moves and resizes that windows asked for. `Err` with the
    /// index of a window whose requesting seat is unknown.
    #[verifier::rlimit(40)]
    pub fn manage_windows(&mut self, effects: &mut Vec<Effect>) -> (r: Result<(), usize>)
        ensures
            requests_started(old(self), final(self), r, old(effects)@, final(effects)@),
    {
        let ghost ws = self.windows@;
        let ghost s0 = self.seats@;
        let n = self.windows.len();
        let mut i: usize = 0;
        assert(ws.take(0) =~= Seq::<Window>::empty());
        assert(old(effects)@ + Seq::<Effect>::empty() =~= old(effects)@);
        while i < n
            invariant
                0 <= i <= n,
                n == ws.len(),
                ws == old(self).windows@,
                s0 == old(self).seats@,
                self.windows@.len() == n,
                *self == (WindowManager {
                    windows: self.windows,
                    seats: self.seats,
                    ..*old(self)
                }),
                forall|j: int| 0 <= j < i ==> self.windows@[j] == requests_taken(ws[j]),
                forall|j: int| i <= j < n ==> self.windows@[j] == ws[j],
                start_all_requested(ws.take(i as int), s0) matches Some((ss, e)) && ss
                    == self.seats@ && effects@ == old(effects)@ + e,
            decreases n - i,
        {
            assert(ws.take(i + 1).drop_last() =~= ws.take(i as int));
            assert(ws.take(i + 1).last() == ws[i as int]);
            let ghost e_prev = effects@;
            let ghost seats_prev = self.seats@;
            if let Some(sid) = self.windows[i].pointer_move_requested {
                match find_seat(&self.seats, sid) {
                    Some(j) => {
                        self.seats[j].pointer_move(&self.windows[i], effects);
                        assert(self.seats@ =~= seats_prev.update(
                            j as int,
                            moving_seat(seats_prev[j as int], ws[i as int]),
                        ));
                    },
                    None => {
                        proof {
                            assert(start_requested(ws[i as int], seats_prev) is None);
                            assert(start_all_requested(ws.take(i + 1), s0) is None);
                            lemma_start_fails_on(ws, s0, i + 1);
                        }
                        return Err(i);
                    },
                }
            }
            let ghost seats_mid = self.seats@;
            if let Some(sid) = self.windows[i].pointer_resize_requested {
                let edges = self.windows[i].pointer_resize_requested_edges;
                match find_seat(&self.seats, sid) {
                    Some(j) => {
                        self.seats[j].pointer_resize(&self.windows[i], edges, effects);
                        assert(self.seats@ =~= seats_mid.update(
                            j as int,
                            resizing_seat(seats_mid[j as int], ws[i as int], edges),
                        ));
                    },
                    None => {
                        proof {
                            assert(start_requested(ws[i as int], seats_prev) is None);
                            assert(start_all_requested(ws.take(i + 1), s0) is None);
                            lemma_start_fails_on(ws, s0, i + 1);
                        }
                        return Err(i);
                    },
                }
            }
            self.windows[i].pointer_move_requested = None;
            self.windows[i].pointer_resize_requested = None;
            proof {
                let (ss, e) = start_all_requested(ws.take(i as int), s0)->0;
                let (s2, e2) = start_requested(ws[i as int], ss)->0;
                assert(self.seats@ == s2);
                assert(effects@ =~= old(effects)@ + (e + e2));
            }
            i += 1;
        }
        assert(ws.take(n as int) =~= ws);
        assert(self.windows@ =~= ws.map_values(|w: Window| requests_taken(w)));
        Ok(())
    }
}


/// The ids of the new windows, in order.
pub open spec fn new_ids(ws: Seq<Window>) -> Seq<WindowId>
    decreases ws.len(),
{
    if ws.len() == 0 {
        Seq::empty()
    } else {
        new_ids(ws.drop_last()) + if ws.last().new {
            seq![ws.last().id]
        } else {
            Seq::empty()
        }
    }
}

/// What setting up new window `id` does, from `m0`: it joins the active slide of the
/// active workspace (which gets a slide if it has none) and records where it went;
/// river is asked for server-side decorations (when `force_ssd`), told the window is
/// maximized and to put it on top; it is no longer new; every seat focuses it.
pub open spec fn window_inited(
    id: WindowId,
    m0: &WindowManager,
    m1: &WindowManager,
    force_ssd: bool,
    e0: Seq<Effect>,
    e1: Seq<Effect>,
) -> bool {
    let i = active_ws(&m0.desktop);
    let w = with_a_slide(m0.desktop.workspaces@[i as int]@);
    let placed = placed_all(
        m0.windows@,
        id,
        WindowLocation {
            workspace_id: m1.desktop.workspaces@[i as int].id,
            slide_id: w.slides[w.active_slide as int].id,
        },
    );
    let j = window_index(m0.windows@, id)->0 as int;
    &&& desktop_at(&m0.desktop, &m1.desktop, i, attach_to_active(w, id))
    &&& m1.windows@ == placed.update(j, Window { new: false, ..placed[j] })
    &&& m1.seats@ == all_focused(m0.seats@, id)
    &&& e1 == e0 + (if force_ssd {
        seq![Effect::UseSsd { window: id }]
    } else {
        Seq::empty()
    }) + seq![Effect::InformMaximized { window: id }, Effect::PlaceTop { window: id }]
        + focus_all_effects(m0.seats@, id, m1.windows@)
    &&& *m1 == WindowManager {
        desktop: m1.desktop,
        windows: m1.windows,
        seats: m1.seats,
        ..*m0
    }
}

/// Setting up the new windows `ids` in order takes the state through `states`.
pub open spec fn inits_ran(
    ids: Seq<WindowId>,
    states: Seq<WindowManager>,
    effs: Seq<Seq<Effect>>,
    force_ssd: bool,
) -> bool {
    &&& states.len() == ids.len() + 1
    &&& effs.len() == ids.len() + 1
    &&& forall|k: int| 0 <= k < ids.len() ==> #[trigger] inited_at(ids, k, states, effs, force_ssd)
}

/// Step `k` of setting up the new windows `ids`.
pub open spec fn inited_at(
    ids: Seq<WindowId>,
    k: int,
    states: Seq<WindowManager>,
    effs: Seq<Seq<Effect>>,
    force_ssd: bool,
) -> bool {
    &&& attach_ok(&states[k].desktop)
    &&& window_inited(ids[k], &states[k], &states[k + 1], force_ssd, effs[k], effs[k + 1])
}

impl WindowManager {
    /// Sets up the windows river announced since the last manage cycle. `Err` with
    /// the position (among the new windows) of one that cannot be attached because
    /// the active workspace is missing or its active slide is out of range.
    pub fn init_new_windows(&mut self, force_ssd: bool, effects: &mut Vec<Effect>) -> (r: Result<
        (),
        usize,
    >)
        ensures
            windows_inited(old(self), final(self), r, force_ssd, old(effects)@, final(effects)@),
    {
        let ghost w0 = self.windows@;
        let mut ids: Vec<WindowId> = Vec::new();
        let n = self.windows.len();
        let mut i: usize = 0;
        assert(w0.take(0) =~= Seq::<Window>::empty());
        while i < n
            invariant
                0 <= i <= n,
                n == w0.len(),
                w0 == self.windows@,
                ids@ == new_ids(w0.take(i as int)),
            decreases n - i,
        {
            assert(w0.take(i + 1).drop_last() =~= w0.take(i as int));
            if self.windows[i].new {
                ids.push(self.windows[i].id);
            }
            assert(ids@ =~= new_ids(w0.take(i + 1)));
            i += 1;
        }
        assert(w0.take(n as int) =~= w0);
        proof {
            lemma_new_ids_present(w0);
        }
        let ghost mut states: Seq<WindowManager> = seq![*self];
        let ghost mut effs: Seq<Seq<Effect>> = seq![effects@];
        let m = ids.len();
        let mut k: usize = 0;
        while k < m
            invariant
                0 <= k <= m,
                m == ids@.len(),
                ids@ == new_ids(old(self).windows@),
                forall|t: int| 0 <= t < m ==> #[trigger] crate::lookup::has_window(
                    self.windows@,
                    ids@[t],
                ),
                inits_ran(ids@.take(k as int), states, effs, force_ssd),
                states[0] == *old(self),
                effs[0] == old(effects)@,
                states[k as int] == *self,
                effs[k as int] == effects@,
            decreases m - k,
        {
            let id = ids[k];
            if !self.desktop.attach_check() {
                return Err(k);
            }
            let ghost before = *self;
            let ghost e_before = effects@;
            self.desktop.attach_window(id, &mut self.windows);
            let ghost placed = self.windows@;
            assert(crate::lookup::has_window(before.windows@, id));
            let j = match find_window(&self.windows, id) {
                Some(j) => j,
                None => {
                    proof {
                        let t = choose|t: int|
                            0 <= t < before.windows@.len() && (#[trigger] before.windows@[t]).id
                                == id;
                        assert(self.windows@[t].id == id);
                    }
                    return Err(k);
                },
            };
            assert(window_index(placed, id) == window_index(before.windows@, id)) by {
                crate::lookup::lemma_first_where_ext(
                    placed.len(),
                    crate::lookup::window_has_id(placed, id),
                    crate::lookup::window_has_id(before.windows@, id),
                );
            }
            if force_ssd {
                effects.push(Effect::UseSsd { window: id });
            }
            effects.push(Effect::InformMaximized { window: id });
            self.windows[j].new = false;
            effects.push(Effect::PlaceTop { window: id });
            focus_all(&mut self.seats, id, &self.windows, effects);
            proof {
                assert(self.windows@ =~= placed.update(j as int, Window { new: false, ..placed[j as int] }));
                assert(effects@ =~= e_before + (if force_ssd {
                    seq![Effect::UseSsd { window: id }]
                } else {
                    Seq::empty()
                }) + seq![Effect::InformMaximized { window: id }, Effect::PlaceTop { window: id }]
                    + focus_all_effects(before.seats@, id, self.windows@));
                assert(window_inited(id, &before, self, force_ssd, e_before, effects@));
                let old_states = states;
                let old_effs = effs;
                states = states.push(*self);
                effs = effs.push(effects@);
                let t = ids@.take(k + 1);
                assert(states[k as int] == before);
                assert(attach_ok(&states[k as int].desktop));
                assert(t[k as int] == id);
                assert(window_inited(t[k as int], &states[k as int], &states[k + 1], force_ssd, effs[k as int], effs[k + 1]));
                assert forall|x: int| 0 <= x < t.len() implies #[trigger] inited_at(
                    t,
                    x,
                    states,
                    effs,
                    force_ssd,
                ) by {
                    if x < k {
                        assert(t[x] == ids@.take(k as int)[x]);
                        assert(inited_at(ids@.take(k as int), x, old_states, old_effs, force_ssd));
                    }
                }
                assert(t.len() == k + 1);
                assert(states.len() == t.len() + 1);
                assert(effs.len() == t.len() + 1);
                assert(inits_ran(t, states, effs, force_ssd));
                assert forall|tt: int| 0 <= tt < m implies #[trigger] crate::lookup::has_window(
                    self.windows@,
                    ids@[tt],
                ) by {
                    assert(crate::lookup::has_window(before.windows@, ids@[tt]));
                    let q = choose|q: int|
                        0 <= q < before.windows@.len() && (#[trigger] before.windows@[q]).id
                            == ids@[tt];
                    assert(self.windows@[q].id == ids@[tt]);
                }
            }
            k += 1;
        }
        assert(ids@.take(m as int) =~= ids@);
        Ok(())
    }
}

/// What setting up the new windows does, with result `r`.
pub open spec fn windows_inited(w0: &WindowManager, w1: &WindowManager, r: Result<(), usize>, force_ssd: bool, e0: Seq<Effect>, e1: Seq<Effect>) -> bool {
    &&& exists|states: Seq<WindowManager>, effs: Seq<Seq<Effect>>, k: int|
            {
                &&& 0 <= k <= new_ids(w0.windows@).len()
                &&& #[trigger] inits_ran(
                    new_ids(w0.windows@).take(k),
                    states,
                    effs,
                    force_ssd,
                )
                &&& states[0] == *w0
                &&& effs[0] == e0
                &&& states[k] == *w1
                &&& effs[k] == e1
                &&& match r {
                    Ok(()) => k == new_ids(w0.windows@).len(),
                    Err(j) => j == k && k < new_ids(w0.windows@).len() && !attach_ok(
                        &states[k].desktop,
                    ),
                }
            }
}

/// Every new window's id belongs to some window.
proof fn lemma_new_ids_present(ws: Seq<Window>)
    ensures
        forall|t: int| 0 <= t < new_ids(ws).len() ==> #[trigger] crate::lookup::has_window(
            ws,
            new_ids(ws)[t],
        ),
    decreases ws.len(),
{
    if ws.len() > 0 {
        lemma_new_ids_present(ws.drop_last());
        let p = new_ids(ws.drop_last());
        assert forall|t: int| 0 <= t < new_ids(ws).len() implies #[trigger] crate::lookup::has_window(
            ws,
            new_ids(ws)[t],
        ) by {
            if t < p.len() {
                assert(new_ids(ws)[t] == p[t]);
                assert(crate::lookup::has_window(ws.drop_last(), p[t]));
                let q = choose|q: int|
                    0 <= q < ws.drop_last().len() && (#[trigger] ws.drop_last()[q]).id == p[t];
                assert(ws[q].id == p[t]);
            } else {
                assert(ws[ws.len() - 1].id == new_ids(ws)[t]);
            }
        }
    }
}


/// A binding that river is asked to create.
pub enum BindingRequest {
    Key { seat: u32, mods: u32, keysym: u32, action: ActionModel },
    Button { seat: u32, mods: u32, button: u32, action: ActionModel },
}

/// The binding request that an effect makes, if it makes one.
pub open spec fn request_of(e: Effect) -> Option<BindingRequest> {
    match e {
        Effect::CreateXkbBinding { seat, mods, keysym, action } => Some(
            BindingRequest::Key { seat, mods: mods.bits, keysym, action: action@ },
        ),
        Effect::CreatePointerBinding { seat, mods, button, action } => Some(
            BindingRequest::Button { seat, mods: mods.bits, button, action: action@ },
        ),
        _ => None,
    }
}

/// The key bindings of one entry list under modifiers `m`: each key that resolved to
/// a keysym (`ks`, entry by entry) and whose action text parses, in order.
pub open spec fn entry_bindings(
    seat: u32,
    m: u32,
    es: Seq<(String, String)>,
    ks: Seq<Option<u32>>,
) -> Seq<BindingRequest>
    decreases es.len(),
{
    if es.len() == 0 {
        Seq::empty()
    } else {
        entry_bindings(seat, m, es.drop_last(), ks.drop_last()) + match (
            ks.last(),
            parse_action_spec(es.last().1@),
        ) {
            (Some(k), Some(a)) => seq![BindingRequest::Key { seat, mods: m, keysym: k, action: a }],
            _ => Seq::empty(),
        }
    }
}

/// The key bindings that the configured groups give seat `seat`: groups whose
/// modifier text does not parse are skipped.
pub open spec fn key_bindings(
    seat: u32,
    groups: Seq<(String, Vec<(String, String)>)>,
    keysyms: Seq<Vec<Option<u32>>>,
) -> Seq<BindingRequest>
    decreases groups.len(),
{
    if groups.len() == 0 {
        Seq::empty()
    } else {
        key_bindings(seat, groups.drop_last(), keysyms.drop_last()) + match parse_modifiers_spec(
            groups.last().0@,
        ) {
            Some(m) => entry_bindings(seat, m, groups.last().1@, keysyms.last()@),
            None => Seq::empty(),
        }
    }
}

/// The pointer bindings every seat gets: move, resize and pan on the left, right
/// and middle buttons; with the super modifier in a debug build, else alt (and no
/// modifier for panning).
pub open spec fn button_bindings(seat: u32, debug: bool) -> Seq<BindingRequest> {
    let m = if debug {
        64u32
    } else {
        8u32
    };
    seq![
        BindingRequest::Button { seat, mods: m, button: 0x110, action: ActionModel::Move },
        BindingRequest::Button { seat, mods: m, button: 0x111, action: ActionModel::Resize },
        BindingRequest::Button {
            seat,
            mods: if debug {
                64u32
            } else {
                0u32
            },
            button: 0x112,
            action: ActionModel::Pan,
        },
    ]
}

/// The bindings that setting up the new seats among `seats` requests, seat by seat.
pub open spec fn seat_bindings(
    seats: Seq<Seat>,
    groups: Seq<(String, Vec<(String, String)>)>,
    keysyms: Seq<Vec<Option<u32>>>,
    debug: bool,
) -> Seq<BindingRequest>
    decreases seats.len(),
{
    if seats.len() == 0 {
        Seq::empty()
    } else {
        seat_bindings(seats.drop_last(), groups, keysyms, debug) + if seats.last().new {
            key_bindings(seats.last().id, groups, keysyms) + button_bindings(seats.last().id, debug)
        } else {
            Seq::empty()
        }
    }
}

/// The keysyms `keysyms` are given entry by entry for the configured groups.
pub open spec fn keysyms_fit(
    groups: Seq<(String, Vec<(String, String)>)>,
    keysyms: Seq<Vec<Option<u32>>>,
) -> bool {
    &&& keysyms.len() == groups.len()
    &&& forall|g: int| 0 <= g < groups.len() ==> (#[trigger] keysyms[g])@.len() == groups[g].1@.len()
}

/// Entry by entry of the configured groups, `keysyms` holds what looking up the
/// key name through `lookup` gives.
pub open spec fn keysyms_resolved<F: Fn(&str) -> u32>(
    groups: Seq<(String, Vec<(String, String)>)>,
    keysyms: Seq<Vec<Option<u32>>>,
    lookup: F,
) -> bool {
    &&& keysyms_fit(groups, keysyms)
    &&& forall|g: int, j: int|
        0 <= g < groups.len() && 0 <= j < groups[g].1@.len() ==> keysym_entry(
            lookup,
            groups[g].1@[j].0@,
            #[trigger] keysyms[g]@[j],
        )
}

/// Looks up, entry by entry of the configured groups, the keysym of each key name
/// through `lookup` (see `parse_keysym`).
pub fn resolve_keysyms<F: Fn(&str) -> u32>(
    groups: &Vec<(String, Vec<(String, String)>)>,
    lookup: &F,
) -> (keysyms: Vec<Vec<Option<u32>>>)
    requires
        forall|n: &str| call_requires(*lookup, (n,)),
    ensures
        keysyms_resolved(groups@, keysyms@, *lookup),
{
    let mut out: Vec<Vec<Option<u32>>> = Vec::new();
    let mut g: usize = 0;
    while g < groups.len()
        invariant
            0 <= g <= groups.len(),
            out@.len() == g,
            forall|n: &str| call_requires(*lookup, (n,)),
            forall|h: int| 0 <= h < g ==> (#[trigger] out@[h])@.len() == groups@[h].1@.len(),
            forall|h: int, j: int|
                0 <= h < g && 0 <= j < groups@[h].1@.len() ==> keysym_entry(
                    *lookup,
                    groups@[h].1@[j].0@,
                    #[trigger] out@[h]@[j],
                ),
        decreases groups.len() - g,
    {
        let es = &groups[g].1;
        let mut row: Vec<Option<u32>> = Vec::new();
        let mut j: usize = 0;
        while j < es.len()
            invariant
                0 <= g < groups.len(),
                es == &groups@[g as int].1,
                0 <= j <= es.len(),
                row@.len() == j,
                forall|n: &str| call_requires(*lookup, (n,)),
                forall|k: int| 0 <= k < j ==> keysym_entry(*lookup, es@[k].0@, #[trigger] row@[k]),
            decreases es.len() - j,
        {
            let r = parse_keysym(es[j].0.as_str(), lookup);
            row.push(r);
            j += 1;
        }
        out.push(row);
        g += 1;
    }
    out
}

/// `added` makes exactly the binding requests `reqs`, in order.
pub open spec fn requests(added: Seq<Effect>, reqs: Seq<BindingRequest>) -> bool {
    &&& added.len() == reqs.len()
    &&& forall|i: int| 0 <= i < added.len() ==> request_of(#[trigger] added[i]) == Some(reqs[i])
}

proof fn lemma_requests_concat(a: Seq<Effect>, ra: Seq<BindingRequest>, b: Seq<Effect>, rb: Seq<BindingRequest>)
    requires
        requests(a, ra),
        requests(b, rb),
    ensures
        requests(a + b, ra + rb),
{
    assert forall|i: int| 0 <= i < (a + b).len() implies request_of(#[trigger] (a + b)[i]) == Some((ra + rb)[i]) by {
        if i < a.len() {
            assert((a + b)[i] == a[i]);
        } else {
            assert((a + b)[i] == b[i - a.len()]);
        }
    }
}


/// What setting up the new seats does.
pub open spec fn seats_inited(w0: &WindowManager, w1: &WindowManager, config: &Config, keysyms: &Vec<Vec<Option<u32>>>, debug: bool, e0: Seq<Effect>, e1: Seq<Effect>) -> bool {
    &&& *w1 == (WindowManager { seats: w1.seats, ..*w0 })
    &&& w1.seats@ == w0.seats@.map_values(|s: Seat| Seat { new: false, ..s })
    &&& e1.take(e0.len() as int) == e0
    &&& requests(
            e1.skip(e0.len() as int),
            seat_bindings(w0.seats@, config.bindings@, keysyms@, debug),
        )
}

/// Requests, for seat `sid`, the configured key bindings and the pointer bindings.
fn request_seat_bindings(
    sid: u32,
    groups: &Vec<(String, Vec<(String, String)>)>,
    keysyms: &Vec<Vec<Option<u32>>>,
    debug: bool,
    effects: &mut Vec<Effect>,
)
    requires
        keysyms_fit(groups@, keysyms@),
    ensures
        final(effects)@.len() >= old(effects)@.len(),
        final(effects)@.take(old(effects)@.len() as int) == old(effects)@,
        requests(
            final(effects)@.skip(old(effects)@.len() as int),
            key_bindings(sid, groups@, keysyms@) + button_bindings(sid, debug),
        ),
{
    let ghost before = effects@;
    let m = groups.len();
    let mut g: usize = 0;
    assert(groups@.take(0) =~= Seq::<(String, Vec<(String, String)>)>::empty());
    assert(keysyms@.take(0) =~= Seq::<Vec<Option<u32>>>::empty());
    assert(effects@.skip(before.len() as int) =~= Seq::<Effect>::empty());
    while g < m
        invariant
            0 <= g <= m,
            m == groups@.len(),
            keysyms_fit(groups@, keysyms@),
            effects@.len() >= before.len(),
            effects@.take(before.len() as int) == before,
            requests(
                effects@.skip(before.len() as int),
                key_bindings(sid, groups@.take(g as int), keysyms@.take(g as int)),
            ),
        decreases m - g,
    {
        assert(groups@.take(g + 1).drop_last() =~= groups@.take(g as int));
        assert(keysyms@.take(g + 1).drop_last() =~= keysyms@.take(g as int));
        assert(groups@.take(g + 1).last() == groups@[g as int]);
        assert(keysyms@.take(g + 1).last() == keysyms@[g as int]);
        let ghost gb = effects@;
        match parse_modifiers(groups[g].0.as_str()) {
            Some(mods) => {
                let es = &groups[g].1;
                let ks = &keysyms[g];
                assert(ks@.len() == es@.len());
                let k = es.len();
                let mut j: usize = 0;
                assert(es@.take(0) =~= Seq::<(String, String)>::empty());
                assert(ks@.take(0) =~= Seq::<Option<u32>>::empty());
                assert(effects@.skip(gb.len() as int) =~= Seq::<Effect>::empty());
                while j < k
                    invariant
                        0 <= j <= k,
                        k == es@.len(),
                        k == ks@.len(),
                        effects@.len() >= gb.len(),
                        effects@.take(gb.len() as int) == gb,
                        requests(
                            effects@.skip(gb.len() as int),
                            entry_bindings(sid, mods.bits, es@.take(j as int), ks@.take(j as int)),
                        ),
                    decreases k - j,
                {
                    assert(es@.take(j + 1).drop_last() =~= es@.take(j as int));
                    assert(ks@.take(j + 1).drop_last() =~= ks@.take(j as int));
                    assert(es@.take(j + 1).last() == es@[j as int]);
                    assert(ks@.take(j + 1).last() == ks@[j as int]);
                    let ghost eb = effects@;
                    if let Some(keysym) = ks[j] {
                        match parse_action(es[j].1.as_str()) {
                            Some(action) => {
                                effects.push(
                                    Effect::CreateXkbBinding {
                                        seat: sid,
                                        mods,
                                        keysym,
                                        action,
                                    },
                                );
                                proof {
                                    let added = effects@.skip(gb.len() as int);
                                    assert(added =~= eb.skip(gb.len() as int).push(effects@.last()));
                                    lemma_requests_concat(
                                        eb.skip(gb.len() as int),
                                        entry_bindings(sid, mods.bits, es@.take(j as int), ks@.take(j as int)),
                                        seq![effects@.last()],
                                        seq![BindingRequest::Key { seat: sid, mods: mods.bits, keysym, action: parse_action_spec(es@[j as int].1@)->0 }],
                                    );
                                    assert(eb.skip(gb.len() as int) + seq![effects@.last()] =~= added);
                                }
                            },
                            None => {},
                        }
                    }
                    proof {
                        assert(effects@.take(gb.len() as int) =~= gb);
                    }
                    j += 1;
                }
                assert(es@.take(k as int) =~= es@);
                assert(ks@.take(k as int) =~= ks@);
                proof {
                    lemma_requests_concat(
                        gb.skip(before.len() as int),
                        key_bindings(sid, groups@.take(g as int), keysyms@.take(g as int)),
                        effects@.skip(gb.len() as int),
                        entry_bindings(sid, mods.bits, es@, ks@),
                    );
                    assert(gb.skip(before.len() as int) + effects@.skip(gb.len() as int)
                        =~= effects@.skip(before.len() as int));
                    assert(effects@.take(before.len() as int) =~= before);
                }
            },
            None => {},
        }
        g += 1;
    }
    assert(groups@.take(m as int) =~= groups@);
    assert(keysyms@.take(m as int) =~= keysyms@);
    let ghost kb = effects@;
    let mods = if debug { Modifiers { bits: 64 } } else { Modifiers { bits: 8 } };
    effects.push(Effect::CreatePointerBinding { seat: sid, mods, button: 0x110, action: Action::Move });
    effects.push(Effect::CreatePointerBinding { seat: sid, mods, button: 0x111, action: Action::Resize });
    let pan_mods = if debug { Modifiers { bits: 64 } } else { Modifiers { bits: 0 } };
    effects.push(Effect::CreatePointerBinding { seat: sid, mods: pan_mods, button: 0x112, action: Action::Pan });
    proof {
        let added = effects@.skip(kb.len() as int);
        assert(requests(added, button_bindings(sid, debug)));
        lemma_requests_concat(
            kb.skip(before.len() as int),
            key_bindings(sid, groups@, keysyms@),
            added,
            button_bindings(sid, debug),
        );
        assert(kb.skip(before.len() as int) + added =~= effects@.skip(before.len() as int));
        assert(effects@.take(before.len() as int) =~= before);
    }
}

/// Requests appended after earlier ones extend what the earlier ones stood for.
proof fn lemma_requests_appended(
    e0: Seq<Effect>,
    before: Seq<Effect>,
    after: Seq<Effect>,
    prev: Seq<BindingRequest>,
    here: Seq<BindingRequest>,
)
    requires
        before.len() >= e0.len(),
        before.take(e0.len() as int) == e0,
        requests(before.skip(e0.len() as int), prev),
        after.len() >= before.len(),
        after.take(before.len() as int) == before,
        requests(after.skip(before.len() as int), here),
    ensures
        after.len() >= e0.len(),
        after.take(e0.len() as int) == e0,
        requests(after.skip(e0.len() as int), prev + here),
{
    lemma_requests_concat(before.skip(e0.len() as int), prev, after.skip(before.len() as int), here);
    assert(before.skip(e0.len() as int) + after.skip(before.len() as int) =~= after.skip(
        e0.len() as int,
    ));
    assert(after.take(e0.len() as int) =~= e0);
}

/// The binding requests of the first `i + 1` seats: those of the first `i`, then
/// those of seat `i` when it is new.
proof fn lemma_seat_bindings_step(
    s0: Seq<Seat>,
    i: int,
    groups: Seq<(String, Vec<(String, String)>)>,
    keysyms: Seq<Vec<Option<u32>>>,
    debug: bool,
)
    requires
        0 <= i < s0.len(),
    ensures
        seat_bindings(s0.take(i + 1), groups, keysyms, debug) == seat_bindings(
            s0.take(i),
            groups,
            keysyms,
            debug,
        ) + if s0[i].new {
            key_bindings(s0[i].id, groups, keysyms) + button_bindings(s0[i].id, debug)
        } else {
            Seq::empty()
        },
{
    assert(s0.take(i + 1).drop_last() =~= s0.take(i));
    assert(s0.take(i + 1).last() == s0[i]);
}

impl WindowManager {
    /// Requests the configured key bindings, and the pointer bindings, for each seat
    /// that is new, which then is no longer new. `keysyms` holds, entry by entry of
    /// the configuration, the keysym that each key name resolves to (if any).
    pub fn init_new_seats(
        &mut self,
        config: &Config,
        keysyms: &Vec<Vec<Option<u32>>>,
        debug: bool,
        effects: &mut Vec<Effect>,
    )
        requires
            keysyms_fit(config.bindings@, keysyms@),
        ensures
            seats_inited(old(self), final(self), config, keysyms, debug, old(effects)@, final(effects)@),
    {
        let ghost s0 = self.seats@;
        let ghost e0 = effects@;
        let groups = &config.bindings;
        let n = self.seats.len();
        let mut i: usize = 0;
        assert(s0.take(0) =~= Seq::<Seat>::empty());
        assert(effects@.skip(e0.len() as int) =~= Seq::<Effect>::empty());
        while i < n
            invariant
                0 <= i <= n,
                n == s0.len(),
                s0 == old(self).seats@,
                e0 == old(effects)@,
                self.seats@.len() == n,
                keysyms_fit(groups@, keysyms@),
                groups == &config.bindings,
                *self == (WindowManager { seats: self.seats, ..*old(self) }),
                forall|j: int| 0 <= j < i ==> self.seats@[j] == (Seat { new: false, ..s0[j] }),
                forall|j: int| i <= j < n ==> self.seats@[j] == s0[j],
                effects@.len() >= e0.len(),
                effects@.take(e0.len() as int) == e0,
                requests(
                    effects@.skip(e0.len() as int),
                    seat_bindings(s0.take(i as int), groups@, keysyms@, debug),
                ),
            decreases n - i,
        {
            let ghost before = effects@;
            if self.seats[i].new {
                let sid = self.seats[i].id;
                request_seat_bindings(sid, groups, keysyms, debug, effects);
                self.seats[i].new = false;
            }
            proof {
                assert(effects@.take(before.len() as int) =~= before);
                if !s0[i as int].new {
                    assert(effects@.skip(before.len() as int) =~= Seq::<Effect>::empty());
                }
                let here = if s0[i as int].new {
                    key_bindings(s0[i as int].id, groups@, keysyms@) + button_bindings(s0[i as int].id, debug)
                } else {
                    Seq::empty()
                };
                let prev = seat_bindings(s0.take(i as int), groups@, keysyms@, debug);
                lemma_requests_appended(e0, before, effects@, prev, here);
                lemma_seat_bindings_step(s0, i as int, groups@, keysyms@, debug);
            }
            i += 1;
        }
        assert(s0.take(n as int) =~= s0);
        assert(self.seats@ =~= s0.map_values(|s: Seat| Seat { new: false, ..s }));
    }
}

}
