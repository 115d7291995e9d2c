use vstd::prelude::*;
use crate::geometry::{fits_i32, Dimension, Position, Rect};
use crate::task::Task;
use crate::window::WindowId;

verus! {

/// How a slide lays out its windows.
#[derive(Debug, Clone, Copy, PartialEq, Eq, Structural)]
pub enum SlideType {
    Master,
    Floating,
    VerticalScroll,
}

impl Default for SlideType {
    fn default() -> (r: SlideType)
        ensures
            r == SlideType::Master,
    {
        SlideType::Master
    }
}

/// One screen-sized page of a workspace, holding an ordered list of windows.
#[derive(Debug)]
pub struct Slide {
    pub id: u16,
    pub slide_type: SlideType,
    pub position: (i32, i32),
    pub dimensions: (i32, i32),
    pub windows: Vec<WindowId>,
    pub active_window: usize,
    pub rearrange_required: bool,
}

/// The mathematical value of a slide.
pub struct SlideModel {
    pub id: u16,
    pub slide_type: SlideType,
    pub position: (i32, i32),
    pub dimensions: (i32, i32),
    pub windows: Seq<WindowId>,
    pub active_window: usize,
    pub rearrange_required: bool,
}

impl View for Slide {
    type V = SlideModel;

    open spec fn view(&self) -> SlideModel {
        SlideModel {
            id: self.id,
            slide_type: self.slide_type,
            position: self.position,
            dimensions: self.dimensions,
            windows: self.windows@,
            active_window: self.active_window,
            rearrange_required: self.rearrange_required,
        }
    }
}

/// Truncating division, as `/` on `i32` computes it (for a positive divisor).
pub open spec fn div_trunc(a: int, b: int) -> int {
    if a >= 0 {
        a / b
    } else {
        -((-a) / b)
    }
}

/// A fresh slide.
pub open spec fn new_slide_model(id: u16, dimensions: (i32, i32)) -> SlideModel {
    SlideModel {
        id,
        slide_type: SlideType::VerticalScroll,
        position: (0, 0),
        dimensions,
        windows: Seq::empty(),
        active_window: 0,
        rearrange_required: true,
    }
}

/// The slide after `attach_window(w)`: `w` is appended unless present, and the last
/// window becomes active.
pub open spec fn attach_model(s: SlideModel, w: WindowId) -> SlideModel {
    let present = s.windows.contains(w);
    let windows = if present { s.windows } else { s.windows.push(w) };
    SlideModel {
        windows,
        active_window: (windows.len() - 1) as usize,
        rearrange_required: if present { s.rearrange_required } else { true },
        ..s
    }
}

/// The tiling mode that follows `t` in the cycle VerticalScroll, Master, Floating.
pub open spec fn next_tiling(t: SlideType) -> SlideType {
    match t {
        SlideType::VerticalScroll => SlideType::Master,
        SlideType::Master => SlideType::Floating,
        SlideType::Floating => SlideType::VerticalScroll,
    }
}

/// The active window index clamped to the last window. On an empty slide the index
/// becomes `usize::MAX`, as `len() - 1` wraps in a release build.
pub open spec fn clamp_active(s: SlideModel) -> SlideModel {
    if s.active_window >= s.windows.len() {
        SlideModel {
            active_window: if s.windows.len() == 0 {
                usize::MAX
            } else {
                (s.windows.len() - 1) as usize
            },
            ..s
        }
    } else {
        s
    }
}

pub open spec fn bounds_of(s: SlideModel) -> Rect {
    Rect {
        x: s.position.0,
        y: s.position.1,
        width: s.dimensions.0,
        height: s.dimensions.1,
    }
}

/// Gap around the scrolled windows.
pub open spec fn outer_gap() -> int {
    20
}

/// Gap between neighbouring scrolled windows.
pub open spec fn inner_gap() -> int {
    10
}

/// The left edge of window `i` in a vertical-scroll slide: the active window sits at
/// the slide's left gap and the others follow at one window width plus a gap apart.
pub open spec fn scroll_x(s: SlideModel, i: int) -> int {
    let b = bounds_of(s);
    b.x + outer_gap() + (b.width - 2 * outer_gap() + inner_gap()) * (i - s.active_window)
}

/// The geometry task for window `i` of a vertical-scroll slide.
pub open spec fn scroll_task(s: SlideModel, i: int, now: u64) -> Task {
    let b = bounds_of(s);
    Task::SetWindowGeometry {
        window_id: s.windows[i],
        pos: Position { x: scroll_x(s, i) as i32, y: (b.y + outer_gap()) as i32 },
        dim: Dimension {
            width: (b.width - 2 * outer_gap()) as i32,
            height: (b.height - 2 * outer_gap()) as i32,
        },
        timer: now,
    }
}

/// The width of the master column: half the slide when there is a stack.
pub open spec fn master_width(s: SlideModel) -> int {
    if s.windows.len() > 1 {
        div_trunc(bounds_of(s).width as int, 2)
    } else {
        bounds_of(s).width as int
    }
}

/// The height of each stacked window.
pub open spec fn stack_height(s: SlideModel) -> int {
    div_trunc(bounds_of(s).height as int, s.windows.len() - 1)
}

/// The geometry task for window `i` of a master slide: window 0 fills the master
/// column, the others split the remaining column evenly from the top.
pub open spec fn master_task(s: SlideModel, i: int, now: u64) -> Task {
    let b = bounds_of(s);
    if i == 0 {
        Task::SetWindowGeometry {
            window_id: s.windows[i],
            pos: Position { x: b.x, y: b.y },
            dim: Dimension { width: master_width(s) as i32, height: b.height },
            timer: now,
        }
    } else {
        Task::SetWindowGeometry {
            window_id: s.windows[i],
            pos: Position {
                x: (b.x + master_width(s)) as i32,
                y: (b.y + (i - 1) * stack_height(s)) as i32,
            },
            dim: Dimension {
                width: (b.width - master_width(s)) as i32,
                height: stack_height(s) as i32,
            },
            timer: now,
        }
    }
}

/// The geometry tasks that laying out `s` emits, in window order.
pub open spec fn layout_tasks(s: SlideModel, now: u64) -> Seq<Task> {
    match s.slide_type {
        SlideType::Master => Seq::new(s.windows.len(), |i: int| master_task(s, i, now)),
        SlideType::VerticalScroll => Seq::new(s.windows.len(), |i: int| scroll_task(s, i, now)),
        SlideType::Floating => Seq::empty(),
    }
}

/// Every intermediate value of the layout of `s` fits in an `i32`.
pub open spec fn layout_fits(s: SlideModel) -> bool {
    let b = bounds_of(s);
    &&& s.windows.len() <= i32::MAX
    &&& match s.slide_type {
        SlideType::VerticalScroll => {
            &&& fits_i32(b.width - 2 * outer_gap())
            &&& fits_i32(b.height - 2 * outer_gap())
            &&& s.windows.len() > 0 ==> fits_i32(b.x + outer_gap())
            &&& s.windows.len() > 0 ==> fits_i32(b.y + outer_gap())
            &&& s.windows.len() > 0 ==> fits_i32(b.width - 2 * outer_gap() + inner_gap())
            &&& forall|i: int|
                0 <= i < s.windows.len() ==> {
                    &&& fits_i32(
                        #[trigger] ((b.width - 2 * outer_gap() + inner_gap()) * (i
                            - s.active_window)),
                    )
                    &&& fits_i32(scroll_x(s, i))
                }
        },
        SlideType::Master => forall|i: int|
            1 <= i < s.windows.len() ==> {
                &&& fits_i32(b.x + master_width(s))
                &&& fits_i32(b.width - master_width(s))
                &&& fits_i32(#[trigger] ((i - 1) * stack_height(s)))
                &&& fits_i32(b.y + (i - 1) * stack_height(s))
            },
        SlideType::Floating => true,
    }
}

impl Slide {
    pub fn new(id: u16, dimensions: (i32, i32)) -> (s: Slide)
        ensures
            s@ == new_slide_model(id, dimensions),
    {
        Slide {
            id,
            slide_type: SlideType::VerticalScroll,
            position: (0, 0),
            dimensions,
            windows: Vec::new(),
            active_window: 0,
            rearrange_required: true,
        }
    }

    /// Whether `w` is one of this slide's windows.
    pub fn contains_window(&self, w: WindowId) -> (r: bool)
        ensures
            r == self.windows@.contains(w),
    {
        let mut i: usize = 0;
        while i < self.windows.len()
            invariant
                0 <= i <= self.windows.len(),
                forall|j: int| 0 <= j < i ==> self.windows@[j] != w,
            decreases self.windows.len() - i,
        {
            if self.windows[i] == w {
                return true;
            }
            i += 1;
        }
        false
    }

    pub fn attach_window(&mut self, window_id: WindowId)
        ensures
            final(self)@ == attach_model(old(self)@, window_id),
    {
        if !self.contains_window(window_id) {
            self.windows.push(window_id);
            self.rearrange_required = true;
        }
        self.active_window = self.windows.len() - 1;
    }

    pub fn next_window(&mut self)
        ensures
            final(self)@ == (SlideModel {
                active_window: if old(self).active_window + 1 < old(self).windows.len() {
                    (old(self).active_window + 1) as usize
                } else {
                    old(self).active_window
                },
                ..old(self)@
            }),
    {
        if self.active_window < self.windows.len() && self.active_window + 1 < self.windows.len() {
            self.active_window += 1;
        }
    }

    pub fn prev_window(&mut self)
        ensures
            final(self)@ == (SlideModel {
                active_window: if old(self).active_window > 0 {
                    (old(self).active_window - 1) as usize
                } else {
                    0
                },
                ..old(self)@
            }),
    {
        if self.active_window > 0 {
            self.active_window -= 1;
        }
    }

    pub fn cycle_tiling(&mut self)
        ensures
            final(self)@ == (SlideModel { slide_type: next_tiling(old(self).slide_type), ..old(self)@ }),
    {
        if self.slide_type == SlideType::VerticalScroll {
            self.slide_type = SlideType::Master
        } else if self.slide_type == SlideType::Master {
            self.slide_type = SlideType::Floating
        } else if self.slide_type == SlideType::Floating {
            self.slide_type = SlideType::VerticalScroll
        }
    }

    /// Clamps the active window and queues one geometry task per window for the
    /// slide's tiling mode; an empty slide queues nothing.
    pub fn rearrange(&mut self, now: u64, queue: &mut Vec<Task>)
        requires
            layout_fits(clamp_active(old(self)@)),
        ensures
            final(self)@ == clamp_active(old(self)@),
            final(queue)@ == old(queue)@ + layout_tasks(final(self)@, now),
            old(self).windows.len() == 0 ==> final(queue)@ == old(queue)@,
    {
        if self.active_window >= self.windows.len() {
            self.active_window = if self.windows.len() == 0 {
                usize::MAX
            } else {
                self.windows.len() - 1
            };
        }
        let bounds = Rect {
            x: self.position.0,
            y: self.position.1,
            width: self.dimensions.0,
            height: self.dimensions.1,
        };
        match self.slide_type {
            SlideType::Master => self.master_rearrange(bounds, now, queue),
            SlideType::VerticalScroll => self.vertscroll_rearrange(bounds, now, queue),
            _ => {
                assert(layout_tasks(self@, now) =~= Seq::<Task>::empty());
                assert(queue@ =~= old(queue)@ + layout_tasks(self@, now));
            },
        }
        assert(old(self).windows.len() == 0 ==> layout_tasks(self@, now) =~= Seq::<Task>::empty());
    }

    fn vertscroll_rearrange(&self, bounds: Rect, now: u64, queue: &mut Vec<Task>)
        requires
            self.slide_type == SlideType::VerticalScroll,
            bounds == bounds_of(self@),
            self.windows.len() > 0 ==> self.active_window < self.windows.len(),
            layout_fits(self@),
        ensures
            final(queue)@ == old(queue)@ + layout_tasks(self@, now),
    {
        let slide_size = self.windows.len();
        let outer_gaps: i32 = 20;
        let inner_gaps: i32 = 10;
        let window_width = bounds.width - 2 * outer_gaps;
        let window_height = bounds.height - 2 * outer_gaps;
        if slide_size == 0 {
            assert(layout_tasks(self@, now) =~= Seq::<Task>::empty());
            assert(queue@ =~= old(queue)@ + layout_tasks(self@, now));
            return;
        }
        let active_index = self.active_window;
        let mut index: usize = 0;
        while index < slide_size
            invariant
                0 <= index <= slide_size,
                slide_size == self.windows.len(),
                active_index == self.active_window,
                active_index < slide_size,
                slide_size <= i32::MAX,
                window_width == bounds.width - 40,
                window_height == bounds.height - 40,
                outer_gaps == 20,
                inner_gaps == 10,
                self.slide_type == SlideType::VerticalScroll,
                bounds == bounds_of(self@),
                layout_fits(self@),
                queue@ == old(queue)@ + layout_tasks(self@, now).take(index as int),
            decreases slide_size - index,
        {
            assert(fits_i32(
                (bounds.width - 2 * outer_gap() + inner_gap()) * (index - self.active_window),
            ));
            assert(fits_i32(scroll_x(self@, index as int)));
            let x = (bounds.x + outer_gaps) + (window_width + inner_gaps) * (index as i32
                - active_index as i32);
            let y = bounds.y + outer_gaps;
            queue.push(
                Task::SetWindowGeometry {
                    window_id: self.windows[index],
                    pos: Position { x: x, y: y },
                    dim: Dimension { width: window_width, height: window_height },
                    timer: now,
                },
            );
            assert(layout_tasks(self@, now).take(index + 1) =~= layout_tasks(self@, now).take(
                index as int,
            ).push(scroll_task(self@, index as int, now)));
            index += 1;
        }
        assert(layout_tasks(self@, now).take(slide_size as int) =~= layout_tasks(self@, now));
    }

    fn master_rearrange(&self, bounds: Rect, now: u64, queue: &mut Vec<Task>)
        requires
            self.slide_type == SlideType::Master,
            bounds == bounds_of(self@),
            layout_fits(self@),
        ensures
            final(queue)@ == old(queue)@ + layout_tasks(self@, now),
    {
        let slide_size = self.windows.len();
        if slide_size == 0 {
            assert(layout_tasks(self@, now) =~= Seq::<Task>::empty());
            assert(queue@ =~= old(queue)@ + layout_tasks(self@, now));
            return;
        }
        let master_w = if slide_size > 1 {
            bounds.width / 2
        } else {
            bounds.width
        };
        assert(master_w == master_width(self@));
        let mut index: usize = 0;
        while index < slide_size
            invariant
                0 <= index <= slide_size,
                slide_size == self.windows.len(),
                slide_size <= i32::MAX,
                master_w == master_width(self@),
                self.slide_type == SlideType::Master,
                bounds == bounds_of(self@),
                layout_fits(self@),
                queue@ == old(queue)@ + layout_tasks(self@, now).take(index as int),
            decreases slide_size - index,
        {
            if index == 0 {
                queue.push(
                    Task::SetWindowGeometry {
                        window_id: self.windows[index],
                        pos: Position { x: bounds.x, y: bounds.y },
                        dim: Dimension { width: master_w, height: bounds.height },
                        timer: now,
                    },
                );
            } else {
                let stack_size = (slide_size - 1) as i32;
                let stack_h = bounds.height / stack_size;
                assert(stack_h == stack_height(self@));
                assert(fits_i32((index - 1) * stack_height(self@)));
                assert(fits_i32(bounds.y + (index - 1) * stack_height(self@)));
                queue.push(
                    Task::SetWindowGeometry {
                        window_id: self.windows[index],
                        pos: Position {
                            x: bounds.x + master_w,
                            y: bounds.y + ((index as i32 - 1) * stack_h),
                        },
                        dim: Dimension { width: bounds.width - master_w, height: stack_h },
                        timer: now,
                    },
                );
            }
            assert(layout_tasks(self@, now).take(index + 1) =~= layout_tasks(self@, now).take(
                index as int,
            ).push(master_task(self@, index as int, now)));
            index += 1;
        }
        assert(layout_tasks(self@, now).take(slide_size as int) =~= layout_tasks(self@, now));
    }
}


/// The position and size that a geometry task gives (the origin and no size for
/// any other task).
pub open spec fn placed_rect(t: Task) -> Rect {
    match t {
        Task::SetWindowGeometry { pos, dim, .. } => Rect {
            x: pos.x,
            y: pos.y,
            width: dim.width,
            height: dim.height,
        },
        _ => Rect { x: 0, y: 0, width: 0, height: 0 },
    }
}

/// In a laid-out master slide, the master window starts at the slide's corner, the
/// stack column starts where the master column ends and the two fill the slide's
/// width, and each stacked window starts where the one above it ends.
pub proof fn lemma_master_tiles(s: SlideModel, now: u64, i: int)
    requires
        s.slide_type == SlideType::Master,
        layout_fits(s),
        1 <= i,
        i + 1 < s.windows.len(),
    ensures
        ({
            let t = layout_tasks(s, now);
            let b = bounds_of(s);
            let m = placed_rect(t[0]);
            let a = placed_rect(t[i]);
            let c = placed_rect(t[i + 1]);
            &&& m.x == b.x && m.y == b.y
            &&& a.x == m.x + m.width
            &&& m.width + a.width == b.width
            &&& c.x == a.x
            &&& c.y == a.y + a.height
        }),
{
    let h = stack_height(s);
    assert(fits_i32((i - 1) * h) && fits_i32((i + 1 - 1) * h));
    assert(i * h == (i - 1) * h + h) by (nonlinear_arith);
    assert(fits_i32(h)) by {
        assert(fits_i32((1 - 1) * h) && fits_i32((2 - 1) * h));
    }
}

/// In a laid-out vertical-scroll slide, the active window sits at the slide's left
/// edge plus the outer gap, and each window starts one window width plus the inner
/// gap to the right of the one before it; every window is the slide less the outer
/// gap on each side, from the outer gap below the slide's top edge.
pub proof fn lemma_scroll_neighbours(s: SlideModel, now: u64, i: int)
    requires
        s.slide_type == SlideType::VerticalScroll,
        layout_fits(s),
        s.active_window < s.windows.len(),
        0 <= i,
        i + 1 < s.windows.len(),
    ensures
        ({
            let t = layout_tasks(s, now);
            let b = bounds_of(s);
            let a = placed_rect(t[i]);
            let c = placed_rect(t[i + 1]);
            &&& placed_rect(t[s.active_window as int]).x == b.x + outer_gap()
            &&& c.x == a.x + a.width + inner_gap()
            &&& c.y == a.y && c.width == a.width && c.height == a.height
            &&& a.y == b.y + outer_gap()
            &&& a.width == b.width - 2 * outer_gap() && a.height == b.height - 2 * outer_gap()
        }),
{
    let b = bounds_of(s);
    let k = b.width - 2 * outer_gap() + inner_gap();
    assert(fits_i32(k * (i - s.active_window)) && fits_i32(k * (i + 1 - s.active_window)));
    assert(fits_i32(scroll_x(s, i)) && fits_i32(scroll_x(s, i + 1)));
    assert(k * (i + 1 - s.active_window) == k * (i - s.active_window) + k) by (nonlinear_arith);
    assert(k * (s.active_window - s.active_window) == 0) by (nonlinear_arith);
    assert(fits_i32(scroll_x(s, s.active_window as int)));
}

/// In a laid-out master slide (of non-negative size) every window's rectangle lies
/// inside the slide: the master window fills the left column from the slide's top,
/// the first stacked window starts at the slide's top edge, and each stacked window
/// ends at or above the slide's bottom edge.
pub proof fn lemma_master_inside(s: SlideModel, now: u64, i: int)
    requires
        s.slide_type == SlideType::Master,
        layout_fits(s),
        bounds_of(s).width >= 0,
        bounds_of(s).height >= 0,
        0 <= i < s.windows.len(),
    ensures
        ({
            let b = bounds_of(s);
            let r = placed_rect(layout_tasks(s, now)[i]);
            &&& b.x <= r.x && r.x + r.width <= b.x + b.width
            &&& b.y <= r.y && r.y + r.height <= b.y + b.height
            &&& r.width >= 0 && r.height >= 0
            &&& i == 1 ==> r.y == b.y
        }),
{
    let b = bounds_of(s);
    let n = s.windows.len();
    let w = b.width as int;
    let ht = b.height as int;
    let r = placed_rect(layout_tasks(s, now)[i]);
    assert(layout_tasks(s, now)[i] == master_task(s, i, now));
    assert(0 <= master_width(s) <= w);
    if i == 0 {
        assert(r.x == b.x && r.y == b.y && r.width == master_width(s) && r.height == b.height);
    } else {
        let h = stack_height(s);
        let m = n - 1;
        assert(h == ht / m);
        assert(0 <= h && h * m <= ht) by (nonlinear_arith)
            requires
                m >= 1,
                ht >= 0,
                h == ht / m,
        ;
        assert(0 <= (i - 1) * h && (i - 1) * h + h <= ht) by (nonlinear_arith)
            requires
                1 <= i <= m,
                0 <= h,
                h * m <= ht,
        ;
        assert(fits_i32(b.x + master_width(s)) && fits_i32(b.width - master_width(s)));
        assert(fits_i32((i - 1) * h) && fits_i32(b.y + (i - 1) * h));
        assert(r.x == b.x + master_width(s));
        assert(r.width == b.width - master_width(s));
        assert(r.y == b.y + (i - 1) * h);
        assert(r.height == h);
        assert(i == 1 ==> (i - 1) * h == 0) by (nonlinear_arith);
    }
}

}
