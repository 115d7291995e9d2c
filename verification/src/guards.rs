use vstd::prelude::*;
use crate::actions::{Action, ActionModel};
use crate::checks::{layout_fits_check, stack_fits_check};
use crate::desktop::{active_ws, has_active, Desktop};
use crate::geometry::fits_i32;
use crate::lookup::{find_window, has_window};
use crate::seat::{
    action_ok, active_slide_view, active_view, centering_fits, centers_fit, lands_ok,
    next_window_model, op_fits, prev_window_model, resize_fits, window_of, window_step_ok, Seat,
    SeatOp,
};
use crate::slide::{clamp_active, div_trunc, layout_fits};
use crate::window::{located, Output, Window, WindowId};
use crate::workspace::{
    active_window_of, detach_active_model, moveto_next_ok, moveto_prev_ok, next_slide_model,
    next_slide_ok, prev_slide_model, prev_slide_ok, Workspace, WorkspaceModel,
};

verus! {

impl Workspace {
    /// Whether moving to the next slide is safe and lands on a slide whose active
    /// window is in range.
    pub fn next_slide_check(&self) -> (r: bool)
        ensures
            r == (next_slide_ok(self@) && lands_ok(next_slide_model(self@))),
    {
        let ghost w = self@;
        let n = self.slides.len();
        let a = self.active_slide;
        if a >= n {
            return false;
        }
        assert(w.slides[a as int] == self.slides@[a as int]@);
        let empty = self.slides[a].windows.len() == 0;
        if a + 1 == n {
            if empty {
                true
            } else {
                self.new_slide_id < 65535 && n < usize::MAX && stack_fits_check(
                    self.coord,
                    self.dimensions,
                    n + 1,
                )
            }
        } else if empty {
            if !stack_fits_check(self.coord, self.dimensions, n - 1) {
                return false;
            }
            if a + 2 >= n {
                return false;
            }
            assert(next_slide_model(w).slides[(a + 1) as int].windows == w.slides[(a + 2) as int].windows);
            assert(next_slide_model(w).slides[(a + 1) as int].active_window == w.slides[(a + 2) as int].active_window);
            assert(w.slides[(a + 2) as int] == self.slides@[(a + 2) as int]@);
            self.slides[a + 2].windows.len() == 0 || self.slides[a + 2].active_window
                < self.slides[a + 2].windows.len()
        } else {
            assert(w.slides[(a + 1) as int] == self.slides@[(a + 1) as int]@);
            self.slides[a + 1].windows.len() == 0 || self.slides[a + 1].active_window
                < self.slides[a + 1].windows.len()
        }
    }

    /// Whether moving to the previous slide is safe and lands on a slide whose
    /// active window is in range.
    pub fn prev_slide_check(&self) -> (r: bool)
        ensures
            r == (prev_slide_ok(self@) && lands_ok(prev_slide_model(self@))),
    {
        let ghost w = self@;
        let n = self.slides.len();
        let a = self.active_slide;
        if a == 0 {
            if n == 0 {
                return false;
            }
            assert(w.slides[0] == self.slides@[0]@);
            if self.slides[0].windows.len() != 0 {
                self.new_slide_id < 65535 && n < usize::MAX && stack_fits_check(
                    self.coord,
                    self.dimensions,
                    n + 1,
                )
            } else {
                self.slides[0].windows.len() == 0 || self.slides[0].active_window
                    < self.slides[0].windows.len()
            }
        } else {
            if !stack_fits_check(self.coord, self.dimensions, n) {
                return false;
            }
            let removed = a < n && self.slides[a].windows.len() == 0;
            if a < n {
                assert(w.slides[a as int] == self.slides@[a as int]@);
            }
            let len = if removed {
                n - 1
            } else {
                n
            };
            if a - 1 >= len {
                return false;
            }
            assert(prev_slide_model(w).slides[(a - 1) as int].windows == w.slides[(a - 1) as int].windows);
            assert(prev_slide_model(w).slides[(a - 1) as int].active_window == w.slides[(a - 1) as int].active_window);
            assert(w.slides[(a - 1) as int] == self.slides@[(a - 1) as int]@);
            self.slides[a - 1].windows.len() == 0 || self.slides[a - 1].active_window
                < self.slides[a - 1].windows.len()
        }
    }

    /// Whether moving the active window to the next slide is safe.
    pub fn moveto_next_check(&self) -> (r: bool)
        ensures
            r == moveto_next_ok(self@),
    {
        let ghost w = self@;
        let n = self.slides.len();
        let a = self.active_slide;
        if a >= n {
            return false;
        }
        assert(w.slides[a as int] == self.slides@[a as int]@);
        let len = self.slides[a].windows.len();
        if self.slides[a].active_window >= len {
            return false;
        }
        let ghost d = detach_active_model(w);
        assert(d.slides[a as int].windows.len() == len - 1);
        let empty = len == 1;
        if a + 1 == n {
            if empty {
                true
            } else {
                self.new_slide_id < 65535 && n < usize::MAX && stack_fits_check(
                    self.coord,
                    self.dimensions,
                    n + 1,
                )
            }
        } else if empty {
            stack_fits_check(self.coord, self.dimensions, n - 1) && a + 2 < n
        } else {
            true
        }
    }

    /// Whether moving the active window to the previous slide is safe.
    pub fn moveto_prev_check(&self) -> (r: bool)
        ensures
            r == moveto_prev_ok(self@),
    {
        let ghost w = self@;
        let n = self.slides.len();
        let a = self.active_slide;
        if a >= n {
            return false;
        }
        assert(w.slides[a as int] == self.slides@[a as int]@);
        let len = self.slides[a].windows.len();
        if self.slides[a].active_window >= len {
            return false;
        }
        let ghost d = detach_active_model(w);
        assert(d.slides[a as int].windows.len() == len - 1);
        if a == 0 {
            if len - 1 != 0 {
                self.new_slide_id < 65535 && n < usize::MAX && stack_fits_check(
                    self.coord,
                    self.dimensions,
                    n + 1,
                )
            } else {
                true
            }
        } else {
            stack_fits_check(self.coord, self.dimensions, n)
        }
    }
}


fn fits64(v: i64) -> (r: bool)
    ensures
        r == fits_i32(v as int),
{
    -2147483648i64 <= v && v <= 2147483647i64
}

/// Whether centring `window` on the screen stays within `i32` arithmetic.
pub fn centering_check(window: &Window, outputs: &Vec<Output>) -> (r: bool)
    ensures
        r == centering_fits(window, outputs@),
{
    let wx = (window.x as i64) + (window.width as i64) / 2;
    let wy = (window.y as i64) + (window.height as i64) / 2;
    assert(wx == window.x + div_trunc(window.width as int, 2));
    assert(wy == window.y + div_trunc(window.height as int, 2));
    let mut ok = fits64(wx) && fits64(wy);
    let n = outputs.len();
    let mut i: usize = 0;
    while i < n
        invariant
            0 <= i <= n,
            n == outputs@.len(),
            wx == window.x + div_trunc(window.width as int, 2),
            wy == window.y + div_trunc(window.height as int, 2),
            ok == (fits_i32(wx as int) && fits_i32(wy as int) && forall|j: int|
                0 <= j < i && (#[trigger] outputs@[j]).position is Some && outputs@[j].dimensions is Some ==> {
                    &&& fits_i32(outputs@[j].position.unwrap().0 + div_trunc(outputs@[j].dimensions.unwrap().0 as int, 2))
                    &&& fits_i32(outputs@[j].position.unwrap().1 + div_trunc(outputs@[j].dimensions.unwrap().1 as int, 2))
                    &&& fits_i32(wx - (outputs@[j].position.unwrap().0 + div_trunc(outputs@[j].dimensions.unwrap().0 as int, 2)))
                    &&& fits_i32(wy - (outputs@[j].position.unwrap().1 + div_trunc(outputs@[j].dimensions.unwrap().1 as int, 2)))
                }),
        decreases n - i,
    {
        if let (Some((x, y)), Some((w, h))) = (outputs[i].position, outputs[i].dimensions) {
            let cx = (x as i64) + (w as i64) / 2;
            let cy = (y as i64) + (h as i64) / 2;
            assert(cx == x + div_trunc(w as int, 2));
            assert(cy == y + div_trunc(h as int, 2));
            let here = fits64(cx) && fits64(cy) && fits64(wx - cx) && fits64(wy - cy);
            ok = ok && here;
        }
        i += 1;
    }
    ok
}

/// Whether every window with id `id` has a location.
pub fn located_check(windows: &Vec<Window>, id: WindowId) -> (r: bool)
    ensures
        r == located(windows@, id),
{
    let n = windows.len();
    let mut i: usize = 0;
    while i < n
        invariant
            0 <= i <= n,
            n == windows@.len(),
            forall|j: int| 0 <= j < i && windows@[j].id == id ==> (#[trigger] windows@[j]).location is Some,
        decreases n - i,
    {
        if windows[i].id == id && windows[i].location.is_none() {
            return false;
        }
        i += 1;
    }
    true
}

/// Whether a resize in progress proposes sizes that fit an `i32`.
pub fn op_fits_check(seat: &Seat) -> (r: bool)
    ensures
        r == op_fits(seat),
{
    match seat.op {
        SeatOp::Resize { start_width, start_height, edges, .. } => {
            let d = seat.op_diff;
            let w1: i64 = if edges & 4 != 0 {
                (start_width as i64) - (d.x as i64)
            } else {
                start_width as i64
            };
            let w2: i64 = if edges & 8 != 0 {
                w1 + (d.x as i64)
            } else {
                w1
            };
            let h1: i64 = if edges & 1 != 0 {
                (start_height as i64) - (d.y as i64)
            } else {
                start_height as i64
            };
            let h2: i64 = if edges & 2 != 0 {
                h1 + (d.y as i64)
            } else {
                h1
            };
            fits64(w1) && fits64(w2) && fits64(h1) && fits64(h2)
        },
        _ => true,
    }
}

impl Seat {
    /// Whether running `action` from this seat is safe (`action_ok`).
    pub fn action_check(
        &self,
        action: &Action,
        desktop: &Desktop,
        windows: &Vec<Window>,
        outputs: &Vec<Output>,
    ) -> (r: bool)
        ensures
            r == action_ok(action@, self, desktop, windows@, outputs@),
    {
        match action {
            Action::CenterFocused => match self.focused {
                Some(f) => match find_window(windows, f) {
                    Some(i) => {
                        proof {
                            let j = choose|j: usize| crate::lookup::first_window(windows@, f, Some(j));
                            crate::lookup::lemma_first_window_unique(windows@, f, i, j);
                        }
                        centering_check(&windows[i], outputs)
                    },
                    None => false,
                },
                None => true,
            },
            Action::Move | Action::Resize => match self.hovered {
                Some(h) => self.op != SeatOp::Idle || find_window(windows, h).is_some(),
                None => true,
            },
            Action::NextSlide | Action::PrevSlide | Action::MoveToNextSlide
            | Action::MoveToPrevSlide | Action::NextWindow | Action::PrevWindow
            | Action::CycleTiling => {
                let i = match desktop.active_index() {
                    Some(i) => i,
                    None => {
                        proof {
                            if has_active(desktop) {
                                let j = active_ws(desktop);
                                assert(desktop.workspaces@[j as int].id@ == desktop.active_workspace@);
                            }
                        }
                        return false;
                    },
                };
                proof {
                    crate::desktop::lemma_first_workspace_unique(
                        desktop.workspaces@,
                        desktop.active_workspace@,
                        i,
                        active_ws(desktop),
                    );
                }
                let ws = &desktop.workspaces[i];
                assert(active_view(desktop) == ws@);
                match action {
                    Action::NextSlide => ws.next_slide_check(),
                    Action::PrevSlide => ws.prev_slide_check(),
                    Action::MoveToNextSlide | Action::MoveToPrevSlide => {
                        let ok = match action {
                            Action::MoveToNextSlide => ws.moveto_next_check(),
                            _ => ws.moveto_prev_check(),
                        };
                        if !ok {
                            return false;
                        }
                        let a = ws.active_slide;
                        assert(ws@.slides[a as int] == ws.slides@[a as int]@);
                        let id = ws.slides[a].windows[ws.slides[a].active_window];
                        assert(id == active_window_of(ws@));
                        located_check(windows, id)
                    },
                    _ => {
                        let a = ws.active_slide;
                        if a >= ws.slides.len() {
                            return false;
                        }
                        assert(ws@.slides[a as int] == ws.slides@[a as int]@);
                        match action {
                            Action::CycleTiling => true,
                            _ => {
                                let s = &ws.slides[a];
                                let n = s.windows.len();
                                if n == 0 {
                                    return false;
                                }
                                let aw = match action {
                                    Action::NextWindow => if s.active_window < n && s.active_window + 1 < n {
                                        s.active_window + 1
                                    } else {
                                        s.active_window
                                    },
                                    _ => if s.active_window > 0 {
                                        s.active_window - 1
                                    } else {
                                        0
                                    },
                                };
                                if aw >= n {
                                    return false;
                                }
                                let r = layout_fits_check(s.slide_type, s.position, s.dimensions, n, aw);
                                proof {
                                    let m = match action@ {
                                        ActionModel::NextWindow => next_window_model(s@),
                                        _ => prev_window_model(s@),
                                    };
                                    assert(m.active_window == aw);
                                    assert(clamp_active(m) == m);
                                }
                                r
                            },
                        }
                    },
                }
            },
            _ => true,
        }
    }
}

}
