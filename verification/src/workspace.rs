use vstd::prelude::*;
use crate::geometry::{fits_i32, Position};
use crate::lookup::{first_where, lemma_first_where};
use crate::checks::{layout_fits_check, stack_fits_check};
use crate::slide::{attach_model, clamp_active, layout_fits, layout_tasks, new_slide_model, Slide, SlideModel};
use crate::task::Task;
use crate::window::{located, relocate, relocated, Window, WindowId};

verus! {

/// A vertical stack of slides with one active slide.
#[derive(Debug)]
pub struct Workspace {
    pub id: String,
    pub coord: (i32, i32),
    pub dimensions: (i32, i32),
    pub slides: Vec<Slide>,
    pub active_slide: usize,
    pub child_rearrange_required: bool,
    pub rearrange_required: bool,
    pub focus_active_requested: bool,
    pub new_slide_id: u16,
}

/// The mathematical value of a workspace.
pub struct WorkspaceModel {
    pub id: Seq<char>,
    pub coord: (i32, i32),
    pub dimensions: (i32, i32),
    pub slides: Seq<SlideModel>,
    pub active_slide: usize,
    pub child_rearrange_required: bool,
    pub rearrange_required: bool,
    pub focus_active_requested: bool,
    pub new_slide_id: u16,
}

pub open spec fn slide_views(slides: Seq<Slide>) -> Seq<SlideModel> {
    slides.map_values(|s: Slide| s@)
}

impl View for Workspace {
    type V = WorkspaceModel;

    open spec fn view(&self) -> WorkspaceModel {
        WorkspaceModel {
            id: self.id@,
            coord: self.coord,
            dimensions: self.dimensions,
            slides: slide_views(self.slides@),
            active_slide: self.active_slide,
            child_rearrange_required: self.child_rearrange_required,
            rearrange_required: self.rearrange_required,
            focus_active_requested: self.focus_active_requested,
            new_slide_id: self.new_slide_id,
        }
    }
}

/// The slides stacked downwards from `coord`, one slide height apart.
pub open spec fn restack(slides: Seq<SlideModel>, coord: (i32, i32), dim: (i32, i32)) -> Seq<
    SlideModel,
> {
    Seq::new(
        slides.len(),
        |i: int| SlideModel { position: (coord.0, (coord.1 + i * dim.1) as i32), ..slides[i] },
    )
}

/// The positions of `n` stacked slides fit in an `i32`.
pub open spec fn stack_fits(coord: (i32, i32), dim: (i32, i32), n: int) -> bool {
    &&& n <= i32::MAX
    &&& forall|i: int|
        0 <= i < n ==> fits_i32(#[trigger] (i * dim.1)) && fits_i32(coord.1 + i * dim.1)
}

pub open spec fn restacked(w: WorkspaceModel, slides: Seq<SlideModel>) -> Seq<SlideModel> {
    restack(slides, w.coord, w.dimensions)
}

/// The workspace after `next_slide`: from the last slide a new slide is appended
/// unless the last slide is empty (then nothing happens); from another slide an
/// empty active slide is removed; the active index then moves up by one.
pub open spec fn next_slide_model(w: WorkspaceModel) -> WorkspaceModel {
    let a = w.active_slide as int;
    let n = w.slides.len();
    let empty = w.slides[a].windows.len() == 0;
    if a + 1 == n {
        if empty {
            w
        } else {
            WorkspaceModel {
                slides: restacked(w, w.slides.push(new_slide_model(w.new_slide_id, w.dimensions))),
                new_slide_id: (w.new_slide_id + 1) as u16,
                active_slide: (a + 1) as usize,
                ..w
            }
        }
    } else if empty {
        WorkspaceModel {
            slides: restacked(w, w.slides.remove(a)),
            active_slide: (a + 1) as usize,
            ..w
        }
    } else {
        WorkspaceModel { active_slide: (a + 1) as usize, ..w }
    }
}

/// `next_slide` neither panics nor overflows on `w`.
pub open spec fn next_slide_ok(w: WorkspaceModel) -> bool {
    let a = w.active_slide as int;
    let n = w.slides.len();
    let empty = w.slides[a].windows.len() == 0;
    &&& a < n
    &&& (a + 1 == n && !empty) ==> (w.new_slide_id < u16::MAX && stack_fits(
        w.coord,
        w.dimensions,
        (n + 1) as int,
    ))
    &&& (a + 1 != n && empty) ==> stack_fits(w.coord, w.dimensions, n - 1)
}

/// The workspace after `prev_slide`: from the first slide a new slide is inserted in
/// front unless the first slide is empty (then nothing happens); from another slide
/// an empty active slide is removed and the active index moves down by one.
pub open spec fn prev_slide_model(w: WorkspaceModel) -> WorkspaceModel {
    let a = w.active_slide as int;
    let n = w.slides.len();
    if a == 0 {
        if w.slides[0].windows.len() != 0 {
            WorkspaceModel {
                slides: restacked(
                    w,
                    seq![new_slide_model(w.new_slide_id, w.dimensions)] + w.slides,
                ),
                new_slide_id: (w.new_slide_id + 1) as u16,
                ..w
            }
        } else {
            w
        }
    } else {
        let slides = if a < n && w.slides[a].windows.len() == 0 {
            w.slides.remove(a)
        } else {
            w.slides
        };
        WorkspaceModel { slides: restacked(w, slides), active_slide: (a - 1) as usize, ..w }
    }
}

/// `prev_slide` neither panics nor overflows on `w`.
pub open spec fn prev_slide_ok(w: WorkspaceModel) -> bool {
    let n = w.slides.len();
    &&& w.active_slide == 0 ==> n > 0
    &&& (w.active_slide == 0 && w.slides[0].windows.len() != 0) ==> (w.new_slide_id < u16::MAX
        && stack_fits(w.coord, w.dimensions, (n + 1) as int))
    &&& w.active_slide != 0 ==> stack_fits(w.coord, w.dimensions, n as int)
}

/// The workspace once the active window of the active slide has been taken out.
pub open spec fn detach_active_model(w: WorkspaceModel) -> WorkspaceModel {
    let a = w.active_slide as int;
    let s = w.slides[a];
    WorkspaceModel {
        slides: w.slides.update(
            a,
            SlideModel {
                windows: s.windows.remove(s.active_window as int),
                rearrange_required: true,
                ..s
            },
        ),
        child_rearrange_required: true,
        ..w
    }
}

/// The window that `moveto_*_slide` moves.
pub open spec fn active_window_of(w: WorkspaceModel) -> WindowId {
    w.slides[w.active_slide as int].windows[w.slides[w.active_slide as int].active_window as int]
}

/// `w` with window `id` attached to its active slide.
pub open spec fn attach_to_active(w: WorkspaceModel, id: WindowId) -> WorkspaceModel {
    WorkspaceModel {
        slides: w.slides.update(
            w.active_slide as int,
            attach_model(w.slides[w.active_slide as int], id),
        ),
        ..w
    }
}

/// The workspace after `moveto_next_slide`: the active window leaves its slide,
/// the workspace moves to the next slide, and the window joins that slide.
pub open spec fn moveto_next_model(w: WorkspaceModel) -> WorkspaceModel {
    attach_to_active(next_slide_model(detach_active_model(w)), active_window_of(w))
}

pub open spec fn moveto_prev_model(w: WorkspaceModel) -> WorkspaceModel {
    attach_to_active(prev_slide_model(detach_active_model(w)), active_window_of(w))
}

/// The active slide has an active window, and the workspace it lands on is in range.
pub open spec fn moveto_next_ok(w: WorkspaceModel) -> bool {
    let d = detach_active_model(w);
    &&& w.active_slide < w.slides.len()
    &&& w.slides[w.active_slide as int].active_window < w.slides[w.active_slide as int].windows.len()
    &&& next_slide_ok(d)
    &&& next_slide_model(d).active_slide < next_slide_model(d).slides.len()
}

pub open spec fn moveto_prev_ok(w: WorkspaceModel) -> bool {
    let d = detach_active_model(w);
    &&& w.active_slide < w.slides.len()
    &&& w.slides[w.active_slide as int].active_window < w.slides[w.active_slide as int].windows.len()
    &&& prev_slide_ok(d)
    &&& prev_slide_model(d).active_slide < prev_slide_model(d).slides.len()
}

impl Workspace {
    pub fn new(id: &str) -> (w: Workspace)
        ensures
            w@ == (WorkspaceModel {
                id: id@,
                coord: (0, 0),
                dimensions: (0, 0),
                slides: seq![new_slide_model(0, (0, 0))],
                active_slide: 0,
                child_rearrange_required: true,
                rearrange_required: true,
                focus_active_requested: false,
                new_slide_id: 1,
            }),
    {
        let mut slides = Vec::new();
        slides.push(Slide::new(0, (0, 0)));
        let w = Workspace {
            id: id.to_string(),
            coord: (0, 0),
            dimensions: (0, 0),
            slides,
            active_slide: 0,
            child_rearrange_required: true,
            rearrange_required: true,
            focus_active_requested: false,
            new_slide_id: 1,
        };
        assert(w@.slides =~= seq![new_slide_model(0, (0, 0))]);
        w
    }

    /// Stacks the slides downwards from the workspace's corner.
    pub fn rearrange(&mut self)
        requires
            stack_fits(old(self).coord, old(self).dimensions, old(self).slides.len() as int),
        ensures
            final(self)@ == (WorkspaceModel {
                slides: restacked(old(self)@, old(self)@.slides),
                ..old(self)@
            }),
    {
        let n = self.slides.len();
        let mut i: usize = 0;
        while i < n
            invariant
                0 <= i <= n,
                n == self.slides.len(),
                n == old(self).slides.len(),
                self.coord == old(self).coord,
                self.dimensions == old(self).dimensions,
                self.id == old(self).id,
                self.active_slide == old(self).active_slide,
                self.child_rearrange_required == old(self).child_rearrange_required,
                self.rearrange_required == old(self).rearrange_required,
                self.focus_active_requested == old(self).focus_active_requested,
                self.new_slide_id == old(self).new_slide_id,
                stack_fits(self.coord, self.dimensions, n as int),
                forall|j: int|
                    0 <= j < i ==> self.slides@[j]@ == restacked(old(self)@, old(self)@.slides)[j],
                forall|j: int| i <= j < n ==> self.slides@[j]@ == old(self).slides@[j]@,
            decreases n - i,
        {
            assert(fits_i32(i * self.dimensions.1) && fits_i32(
                self.coord.1 + i * self.dimensions.1,
            ));
            let y = self.coord.1 + (i as i32) * self.dimensions.1;
            self.slides[i].position = (self.coord.0, y);
            i += 1;
        }
        assert(self@.slides =~= restacked(old(self)@, old(self)@.slides));
    }

    pub fn active_slide_mut(&mut self) -> (s: &mut Slide)
        requires
            old(self).active_slide < old(self).slides.len(),
        ensures
            *s == old(self).slides@[old(self).active_slide as int],
            final(self).slides@ == old(self).slides@.update(old(self).active_slide as int, *final(s)),
            final(self).active_slide == old(self).active_slide,
            final(self).id == old(self).id,
            final(self).coord == old(self).coord,
            final(self).dimensions == old(self).dimensions,
            final(self).new_slide_id == old(self).new_slide_id,
            final(self).child_rearrange_required == old(self).child_rearrange_required,
            final(self).rearrange_required == old(self).rearrange_required,
            final(self).focus_active_requested == old(self).focus_active_requested,
    {
        let a = self.active_slide;
        &mut self.slides[a]
    }

    pub fn next_slide(&mut self)
        requires
            next_slide_ok(old(self)@),
        ensures
            final(self)@ == next_slide_model(old(self)@),
    {
        assert(self@.slides.len() == self.slides@.len());
        assert(next_slide_ok(self@));
        assert(self@.active_slide < self@.slides.len());
        let a = self.active_slide;
        assert(self@.slides[a as int] == self.slides@[a as int]@);
        let cur_empty = self.slides[a].windows.len() == 0;
        assert(a < self.slides.len());
        let new_slide_index = a + 1;
        if new_slide_index == self.slides.len() {
            if cur_empty {
                return;
            } else {
                let s = Slide::new(self.new_slide_id, self.dimensions);
                self.slides.push(s);
                self.new_slide_id += 1;
                assert(self@.slides =~= old(self)@.slides.push(
                    new_slide_model(old(self).new_slide_id, old(self).dimensions),
                ));
                self.rearrange();
            }
        } else if cur_empty {
            self.slides.remove(a);
            assert(self@.slides =~= old(self)@.slides.remove(a as int));
            self.rearrange();
        }
        self.active_slide += 1;
    }

    pub fn prev_slide(&mut self)
        requires
            prev_slide_ok(old(self)@),
        ensures
            final(self)@ == prev_slide_model(old(self)@),
    {
        if self.active_slide == 0 {
            if self.slides[0].windows.len() != 0 {
                let s = Slide::new(self.new_slide_id, self.dimensions);
                self.slides.insert(0, s);
                self.new_slide_id += 1;
                assert(self@.slides =~= seq![
                    new_slide_model(old(self).new_slide_id, old(self).dimensions),
                ] + old(self)@.slides);
            } else {
                return;
            }
        } else {
            let a = self.active_slide;
            if a < self.slides.len() && self.slides[a].windows.len() == 0 {
                self.slides.remove(a);
                assert(self@.slides =~= old(self)@.slides.remove(a as int));
            }
            self.active_slide -= 1;
        }
        self.rearrange();
    }

    /// Takes the active window out of the active slide.
    fn detach_active(&mut self) -> (id: WindowId)
        requires
            old(self).active_slide < old(self).slides.len(),
            old(self).slides@[old(self).active_slide as int].active_window < old(
                self,
            ).slides@[old(self).active_slide as int].windows.len(),
        ensures
            final(self)@ == detach_active_model(old(self)@),
            id == active_window_of(old(self)@),
    {
        let a = self.active_slide;
        let aw = self.slides[a].active_window;
        let id = self.slides[a].windows.remove(aw);
        self.slides[a].rearrange_required = true;
        self.child_rearrange_required = true;
        assert(self@.slides =~= detach_active_model(old(self)@).slides);
        id
    }

    /// Attaches `id` to the active slide and returns that slide's id.
    fn attach_to_active(&mut self, id: WindowId) -> (slide_id: u16)
        requires
            old(self).active_slide < old(self).slides.len(),
        ensures
            final(self)@ == attach_to_active(old(self)@, id),
            slide_id == old(self).slides@[old(self).active_slide as int].id,
    {
        let a = self.active_slide;
        self.slides[a].attach_window(id);
        assert(self@.slides =~= attach_to_active(old(self)@, id).slides);
        self.slides[a].id
    }

    /// Moves the active window to the next slide, and records its new slide.
    pub fn moveto_next_slide(&mut self, windows: &mut Vec<Window>)
        requires
            moveto_next_ok(old(self)@),
            located(old(windows)@, active_window_of(old(self)@)),
        ensures
            final(self)@ == moveto_next_model(old(self)@),
            final(windows)@ == relocated(
                old(windows)@,
                active_window_of(old(self)@),
                final(self)@.slides[final(self)@.active_slide as int].id,
            ),
    {
        let window_id = self.detach_active();
        self.next_slide();
        let slide_id = self.attach_to_active(window_id);
        relocate(windows, window_id, slide_id);
    }

    /// Moves the active window to the previous slide, and records its new slide.
    pub fn moveto_prev_slide(&mut self, windows: &mut Vec<Window>)
        requires
            moveto_prev_ok(old(self)@),
            located(old(windows)@, active_window_of(old(self)@)),
        ensures
            final(self)@ == moveto_prev_model(old(self)@),
            final(windows)@ == relocated(
                old(windows)@,
                active_window_of(old(self)@),
                final(self)@.slides[final(self)@.active_slide as int].id,
            ),
    {
        let window_id = self.detach_active();
        self.prev_slide();
        let slide_id = self.attach_to_active(window_id);
        relocate(windows, window_id, slide_id);
    }
}


/// All windows of a list of slides, slide after slide.
pub open spec fn all_windows(slides: Seq<SlideModel>) -> Seq<WindowId>
    decreases slides.len(),
{
    if slides.len() == 0 {
        Seq::empty()
    } else {
        all_windows(slides.drop_last()) + slides.last().windows
    }
}

/// Slide ids are distinct and all below the next id to hand out.
pub open spec fn slide_ids_ok(w: WorkspaceModel) -> bool {
    &&& forall|i: int| 0 <= i < w.slides.len() ==> (#[trigger] w.slides[i]).id < w.new_slide_id
    &&& forall|i: int, j: int|
        0 <= i < j < w.slides.len() ==> (#[trigger] w.slides[i]).id != (#[trigger] w.slides[j]).id
}

/// A workspace has a slide and its active slide is one of them.
pub open spec fn active_in_range(w: WorkspaceModel) -> bool {
    w.slides.len() > 0 && w.active_slide < w.slides.len()
}

proof fn lemma_same_windows(s1: Seq<SlideModel>, s2: Seq<SlideModel>)
    requires
        s1.len() == s2.len(),
        forall|i: int| 0 <= i < s1.len() ==> (#[trigger] s1[i]).windows == s2[i].windows,
    ensures
        all_windows(s1) == all_windows(s2),
    decreases s1.len(),
{
    if s1.len() > 0 {
        lemma_same_windows(s1.drop_last(), s2.drop_last());
    }
}

proof fn lemma_restack_windows(s: Seq<SlideModel>, coord: (i32, i32), dim: (i32, i32))
    ensures
        all_windows(restack(s, coord, dim)) == all_windows(s),
{
    lemma_same_windows(restack(s, coord, dim), s);
}

proof fn lemma_push_empty(s: Seq<SlideModel>, e: SlideModel)
    requires
        e.windows.len() == 0,
    ensures
        all_windows(s.push(e)) == all_windows(s),
{
    assert(s.push(e).drop_last() =~= s);
    assert(all_windows(s) + e.windows =~= all_windows(s));
}

proof fn lemma_remove_empty(s: Seq<SlideModel>, a: int)
    requires
        0 <= a < s.len(),
        s[a].windows.len() == 0,
    ensures
        all_windows(s.remove(a)) == all_windows(s),
    decreases s.len(),
{
    if a == s.len() - 1 {
        assert(s.remove(a) =~= s.drop_last());
        assert(all_windows(s.drop_last()) + s.last().windows =~= all_windows(s.drop_last()));
    } else {
        lemma_remove_empty(s.drop_last(), a);
        assert(s.remove(a).drop_last() =~= s.drop_last().remove(a));
        assert(s.remove(a).last() == s.last());
    }
}

proof fn lemma_prepend_empty(s: Seq<SlideModel>, e: SlideModel)
    requires
        e.windows.len() == 0,
    ensures
        all_windows(seq![e] + s) == all_windows(s),
    decreases s.len(),
{
    if s.len() == 0 {
        assert(seq![e] + s =~= seq![e]);
        assert(seq![e].drop_last() =~= Seq::<SlideModel>::empty());
        assert(all_windows(Seq::<SlideModel>::empty()) + e.windows =~= Seq::<WindowId>::empty());
    } else {
        lemma_prepend_empty(s.drop_last(), e);
        assert((seq![e] + s).drop_last() =~= seq![e] + s.drop_last());
        assert((seq![e] + s).last() == s.last());
    }
}

/// Changing to the next slide never adds, loses or reorders windows: only empty
/// slides are created or dropped.
pub proof fn lemma_next_slide_keeps_windows(w: WorkspaceModel)
    requires
        next_slide_ok(w),
    ensures
        all_windows(next_slide_model(w).slides) == all_windows(w.slides),
{
    let a = w.active_slide as int;
    let n = w.slides.len();
    if a + 1 == n {
        if w.slides[a].windows.len() != 0 {
            let pushed = w.slides.push(new_slide_model(w.new_slide_id, w.dimensions));
            lemma_restack_windows(pushed, w.coord, w.dimensions);
            lemma_push_empty(w.slides, new_slide_model(w.new_slide_id, w.dimensions));
        }
    } else if w.slides[a].windows.len() == 0 {
        lemma_restack_windows(w.slides.remove(a), w.coord, w.dimensions);
        lemma_remove_empty(w.slides, a);
    }
}

/// Changing to the previous slide never adds, loses or reorders windows.
pub proof fn lemma_prev_slide_keeps_windows(w: WorkspaceModel)
    requires
        prev_slide_ok(w),
    ensures
        all_windows(prev_slide_model(w).slides) == all_windows(w.slides),
{
    let a = w.active_slide as int;
    let n = w.slides.len();
    if a == 0 {
        if w.slides[0].windows.len() != 0 {
            let e = new_slide_model(w.new_slide_id, w.dimensions);
            lemma_restack_windows(seq![e] + w.slides, w.coord, w.dimensions);
            lemma_prepend_empty(w.slides, e);
        }
    } else {
        if a < n && w.slides[a].windows.len() == 0 {
            lemma_restack_windows(w.slides.remove(a), w.coord, w.dimensions);
            lemma_remove_empty(w.slides, a);
        } else {
            lemma_restack_windows(w.slides, w.coord, w.dimensions);
        }
    }
}

/// A window is among the windows of `slides` exactly when some slide holds it.
pub proof fn lemma_all_windows_contains(slides: Seq<SlideModel>, x: WindowId)
    ensures
        all_windows(slides).contains(x) <==> exists|i: int|
            0 <= i < slides.len() && (#[trigger] slides[i]).windows.contains(x),
    decreases slides.len(),
{
    if slides.len() > 0 {
        let init = slides.drop_last();
        lemma_all_windows_contains(init, x);
        let prev = all_windows(init);
        let last = slides.last().windows;
        assert(all_windows(slides) == prev + last);
        if (prev + last).contains(x) {
            let k = choose|k: int| 0 <= k < (prev + last).len() && (prev + last)[k] == x;
            if k < prev.len() {
                assert(prev[k] == x);
                assert(prev.contains(x));
                let i = choose|i: int| 0 <= i < init.len() && (#[trigger] init[i]).windows.contains(x);
                assert(slides[i] == init[i]);
            } else {
                assert(last[k - prev.len()] == x);
                assert(slides[slides.len() - 1].windows.contains(x));
            }
        }
        if exists|i: int| 0 <= i < slides.len() && (#[trigger] slides[i]).windows.contains(x) {
            let i = choose|i: int| 0 <= i < slides.len() && (#[trigger] slides[i]).windows.contains(x);
            if i < slides.len() - 1 {
                assert(init[i] == slides[i]);
                assert(prev.contains(x));
                let k = choose|k: int| 0 <= k < prev.len() && prev[k] == x;
                assert((prev + last)[k] == x);
            } else {
                let k = choose|k: int| 0 <= k < last.len() && last[k] == x;
                assert((prev + last)[prev.len() + k] == x);
            }
        }
    }
}

/// The windows of the workspace once its active window has left the active slide
/// and rejoined the active slide of `n`, a workspace with the same windows as the
/// one it left: the same windows as before.
proof fn lemma_rejoined(w: WorkspaceModel, n: WorkspaceModel)
    requires
        w.active_slide < w.slides.len(),
        w.slides[w.active_slide as int].active_window < w.slides[w.active_slide as int].windows.len(),
        n.active_slide < n.slides.len(),
        all_windows(n.slides) == all_windows(detach_active_model(w).slides),
    ensures
        all_windows(attach_to_active(n, active_window_of(w)).slides).to_set() == all_windows(
            w.slides,
        ).to_set(),
{
    let id = active_window_of(w);
    let a = w.active_slide as int;
    let s = w.slides[a];
    let d = detach_active_model(w);
    let r = attach_to_active(n, id);
    let na = n.active_slide as int;
    assert forall|x: WindowId| #[trigger] all_windows(r.slides).contains(x) == all_windows(
        w.slides,
    ).contains(x) by {
        lemma_all_windows_contains(r.slides, x);
        lemma_all_windows_contains(n.slides, x);
        lemma_all_windows_contains(d.slides, x);
        lemma_all_windows_contains(w.slides, x);
        let removed = s.windows.remove(s.active_window as int);
        if all_windows(r.slides).contains(x) {
            let i = choose|i: int| 0 <= i < r.slides.len() && (#[trigger] r.slides[i]).windows.contains(x);
            if i != na {
                assert(r.slides[i] == n.slides[i]);
            } else if x != id {
                let k = choose|k: int| 0 <= k < r.slides[i].windows.len() && r.slides[i].windows[k] == x;
                if !n.slides[na].windows.contains(id) {
                    assert(r.slides[i].windows == n.slides[na].windows.push(id));
                    assert(k < n.slides[na].windows.len());
                    assert(n.slides[na].windows[k] == x);
                }
                assert(n.slides[na].windows.contains(x));
            }
            if x != id {
                assert(all_windows(d.slides).contains(x));
                let j = choose|j: int| 0 <= j < d.slides.len() && (#[trigger] d.slides[j]).windows.contains(x);
                if j != a {
                    assert(d.slides[j] == w.slides[j]);
                } else {
                    let k = choose|k: int| 0 <= k < removed.len() && removed[k] == x;
                    if k < s.active_window {
                        assert(s.windows[k] == x);
                    } else {
                        assert(s.windows[k + 1] == x);
                    }
                    assert(w.slides[a].windows.contains(x));
                }
            } else {
                assert(w.slides[a].windows[s.active_window as int] == x);
                assert(w.slides[a].windows.contains(x));
            }
        }
        if all_windows(w.slides).contains(x) {
            if x == id {
                if n.slides[na].windows.contains(id) {
                    assert(r.slides[na] == attach_model(n.slides[na], id));
                    assert(r.slides[na].windows.contains(x));
                } else {
                    assert(r.slides[na].windows == n.slides[na].windows.push(id));
                    assert(r.slides[na].windows[n.slides[na].windows.len() as int] == x);
                }
            } else {
                let j = choose|j: int| 0 <= j < w.slides.len() && (#[trigger] w.slides[j]).windows.contains(x);
                if j != a {
                    assert(d.slides[j] == w.slides[j]);
                } else {
                    let k = choose|k: int| 0 <= k < s.windows.len() && s.windows[k] == x;
                    if k < s.active_window {
                        assert(removed[k] == x);
                    } else {
                        assert(k != s.active_window);
                        assert(removed[k - 1] == x);
                    }
                    assert(d.slides[a].windows.contains(x));
                }
                assert(all_windows(d.slides).contains(x));
                assert(all_windows(n.slides).contains(x));
                let i = choose|i: int| 0 <= i < n.slides.len() && (#[trigger] n.slides[i]).windows.contains(x);
                if i != na {
                    assert(r.slides[i] == n.slides[i]);
                } else {
                    let k = choose|k: int| 0 <= k < n.slides[na].windows.len() && n.slides[na].windows[k] == x;
                    if !n.slides[na].windows.contains(id) {
                        assert(r.slides[na].windows[k] == x);
                    }
                }
                assert(r.slides[i].windows.contains(x));
            }
        }
    }
    assert(all_windows(r.slides).to_set() =~= all_windows(w.slides).to_set());
}

/// Moving the active window to the next slide keeps the workspace's windows: a
/// window is on one of its slides afterwards exactly when it was before.
pub proof fn lemma_moveto_next_keeps_windows(w: WorkspaceModel)
    requires
        moveto_next_ok(w),
    ensures
        all_windows(moveto_next_model(w).slides).to_set() == all_windows(w.slides).to_set(),
{
    let d = detach_active_model(w);
    lemma_next_slide_keeps_windows(d);
    lemma_rejoined(w, next_slide_model(d));
}

/// Moving the active window to the previous slide keeps the workspace's windows.
pub proof fn lemma_moveto_prev_keeps_windows(w: WorkspaceModel)
    requires
        moveto_prev_ok(w),
    ensures
        all_windows(moveto_prev_model(w).slides).to_set() == all_windows(w.slides).to_set(),
{
    let d = detach_active_model(w);
    lemma_prev_slide_keeps_windows(d);
    lemma_rejoined(w, prev_slide_model(d));
}

/// Closing window `k` of slide `si` keeps every other window of the workspace: a
/// window other than the closed one is on a slide afterwards exactly when it was
/// before.
pub proof fn lemma_close_keeps_other_windows(w: WorkspaceModel, si: int, k: int, x: WindowId)
    requires
        0 <= si < w.slides.len(),
        0 <= k < w.slides[si].windows.len(),
        x != w.slides[si].windows[k],
    ensures
        all_windows(closed_in(w, si, k).slides).contains(x) == all_windows(w.slides).contains(x),
{
    let s = w.slides[si];
    let rest = without_window(s, k);
    let r = closed_in(w, si, k);
    lemma_all_windows_contains(w.slides, x);
    assert(s.windows.contains(x) == rest.windows.contains(x)) by {
        if s.windows.contains(x) {
            let j = choose|j: int| 0 <= j < s.windows.len() && s.windows[j] == x;
            if j < k {
                assert(rest.windows[j] == x);
            } else {
                assert(j != k);
                assert(rest.windows[j - 1] == x);
            }
        }
        if rest.windows.contains(x) {
            let j = choose|j: int| 0 <= j < rest.windows.len() && rest.windows[j] == x;
            if j < k {
                assert(s.windows[j] == x);
            } else {
                assert(s.windows[j + 1] == x);
            }
        }
    }
    if rest.windows.len() > 0 {
        let slides = w.slides.update(si, clamp_active(rest));
        lemma_all_windows_contains(slides, x);
        if all_windows(w.slides).contains(x) {
            let i = choose|i: int| 0 <= i < w.slides.len() && (#[trigger] w.slides[i]).windows.contains(x);
            assert(slides[i].windows.contains(x));
        }
        if all_windows(slides).contains(x) {
            let i = choose|i: int| 0 <= i < slides.len() && (#[trigger] slides[i]).windows.contains(x);
            assert(w.slides[i].windows.contains(x));
        }
    } else {
        let slides = w.slides.remove(si);
        lemma_restack_windows(slides, w.coord, w.dimensions);
        lemma_all_windows_contains(slides, x);
        if all_windows(w.slides).contains(x) {
            let i = choose|i: int| 0 <= i < w.slides.len() && (#[trigger] w.slides[i]).windows.contains(x);
            if i < si {
                assert(slides[i] == w.slides[i]);
            } else {
                assert(i != si);
                assert(slides[i - 1] == w.slides[i]);
            }
        }
        if all_windows(slides).contains(x) {
            let i = choose|i: int| 0 <= i < slides.len() && (#[trigger] slides[i]).windows.contains(x);
            if i < si {
                assert(w.slides[i] == slides[i]);
            } else {
                assert(w.slides[i + 1] == slides[i]);
            }
        }
    }
}

/// From a last slide that holds windows, moving to the next slide and straight
/// back restores the workspace: the same slides in the same order, stacked from the
/// workspace's corner, the same active slide, and one slide id used up.
pub proof fn lemma_next_then_prev_restores(w: WorkspaceModel)
    requires
        w.active_slide + 1 == w.slides.len(),
        w.slides[w.active_slide as int].windows.len() != 0,
        next_slide_ok(w),
    ensures
        prev_slide_ok(next_slide_model(w)),
        prev_slide_model(next_slide_model(w)) == (WorkspaceModel {
            slides: restacked(w, w.slides),
            new_slide_id: (w.new_slide_id + 1) as u16,
            ..w
        }),
{
    let a = w.active_slide as int;
    let e = new_slide_model(w.new_slide_id, w.dimensions);
    let m = next_slide_model(w);
    let pushed = w.slides.push(e);
    assert(m.slides == restack(pushed, w.coord, w.dimensions));
    assert(m.slides[a + 1].windows == e.windows);
    assert(m.slides[a + 1].windows.len() == 0);
    let back = prev_slide_model(m);
    assert(back.slides == restack(m.slides.remove(a + 1), w.coord, w.dimensions));
    assert(back.slides =~= restack(w.slides, w.coord, w.dimensions));
}

/// Slide changes keep slide ids distinct and below the next id to hand out.
pub proof fn lemma_slide_changes_keep_ids(w: WorkspaceModel)
    requires
        slide_ids_ok(w),
    ensures
        next_slide_ok(w) ==> slide_ids_ok(next_slide_model(w)),
        prev_slide_ok(w) ==> slide_ids_ok(prev_slide_model(w)),
{
    if next_slide_ok(w) {
        let r = next_slide_model(w);
        assert forall|i: int, j: int|
            0 <= i < j < r.slides.len() implies (#[trigger] r.slides[i]).id != (
            #[trigger] r.slides[j]).id by {
            let a = w.active_slide as int;
            if a + 1 != w.slides.len() && w.slides[a].windows.len() == 0 {
                let i0 = if i < a { i } else { i + 1 };
                let j0 = if j < a { j } else { j + 1 };
                assert(r.slides[i].id == w.slides[i0].id);
                assert(r.slides[j].id == w.slides[j0].id);
            }
        }
    }
    if prev_slide_ok(w) {
        let r = prev_slide_model(w);
        let a = w.active_slide as int;
        assert forall|i: int, j: int|
            0 <= i < j < r.slides.len() implies (#[trigger] r.slides[i]).id != (
            #[trigger] r.slides[j]).id by {
            if a == 0 && w.slides[0].windows.len() != 0 {
                if i > 0 {
                    assert(r.slides[i].id == w.slides[i - 1].id);
                }
                assert(r.slides[j].id == w.slides[j - 1].id);
            } else if a != 0 && a < w.slides.len() && w.slides[a].windows.len() == 0 {
                let i0 = if i < a { i } else { i + 1 };
                let j0 = if j < a { j } else { j + 1 };
                assert(r.slides[i].id == w.slides[i0].id);
                assert(r.slides[j].id == w.slides[j0].id);
            }
        }
        assert forall|i: int| 0 <= i < r.slides.len() implies (#[trigger] r.slides[i]).id
            < r.new_slide_id by {
            if a == 0 && w.slides[0].windows.len() != 0 && i > 0 {
                assert(r.slides[i].id == w.slides[i - 1].id);
            } else if a != 0 && a < w.slides.len() && w.slides[a].windows.len() == 0 {
                let i0 = if i < a { i } else { i + 1 };
                assert(r.slides[i].id == w.slides[i0].id);
            }
        }
    }
}

/// Moving to the previous slide keeps the active slide in range; so does moving to
/// the next slide, unless an empty active slide is dropped just below the last one.
pub proof fn lemma_slide_changes_keep_active(w: WorkspaceModel)
    requires
        active_in_range(w),
    ensures
        prev_slide_ok(w) ==> active_in_range(prev_slide_model(w)),
        next_slide_ok(w) && !(w.active_slide + 2 == w.slides.len()
            && w.slides[w.active_slide as int].windows.len() == 0) ==> active_in_range(
            next_slide_model(w),
        ),
{
}


/// Whether slide `i` of `slides` has id `id`.
pub open spec fn slide_has_id(slides: Seq<SlideModel>, id: u16) -> spec_fn(int) -> bool {
    |i: int| slides[i].id == id
}

/// The index of the first slide with id `id`.
pub open spec fn slide_index(slides: Seq<SlideModel>, id: u16) -> Option<usize> {
    first_where(slides.len(), slide_has_id(slides, id))
}

/// Slide `s` without its window `k`.
pub open spec fn without_window(s: SlideModel, k: int) -> SlideModel {
    SlideModel { windows: s.windows.remove(k), ..s }
}

/// Taking window `k` out of slide `si` empties that slide, and the active index
/// (that of the last slide) would then point past the end, so it steps back.
pub open spec fn close_steps_back(w: WorkspaceModel, si: int, k: int) -> bool {
    &&& without_window(w.slides[si], k).windows.len() == 0
    &&& w.active_slide + 1 == w.slides.len()
    &&& w.active_slide != 0
}

/// The slide that becomes active when closing steps back.
pub open spec fn stepped_back_slide(w: WorkspaceModel, si: int) -> SlideModel {
    w.slides.remove(si)[w.active_slide - 1]
}

/// The workspace once window `k` of slide `si` is gone: a slide that keeps windows
/// is laid out again; an emptied slide is dropped and the rest restacked, and when
/// the active index would point past the end it steps back.
pub open spec fn closed_in(w: WorkspaceModel, si: int, k: int) -> WorkspaceModel {
    let s = without_window(w.slides[si], k);
    if s.windows.len() > 0 {
        WorkspaceModel { slides: w.slides.update(si, clamp_active(s)), ..w }
    } else {
        WorkspaceModel {
            slides: restacked(w, w.slides.remove(si)),
            active_slide: if close_steps_back(w, si, k) {
                (w.active_slide - 1) as usize
            } else {
                w.active_slide
            },
            ..w
        }
    }
}

/// The window that the seats focus after the close, if any.
pub open spec fn close_target(w: WorkspaceModel, si: int, k: int) -> Option<WindowId> {
    let s = without_window(w.slides[si], k);
    if s.windows.len() > 0 {
        Some(clamp_active(s).windows[clamp_active(s).active_window as int])
    } else if close_steps_back(w, si, k) {
        let t = stepped_back_slide(w, si);
        Some(t.windows[t.active_window as int])
    } else {
        None
    }
}

/// The tasks that the close queues: the remaining windows' layout, or the camera
/// move to the slide stepped back to (at that slide's place before restacking).
pub open spec fn close_tasks(w: WorkspaceModel, si: int, k: int, now: u64) -> Seq<Task> {
    let s = without_window(w.slides[si], k);
    if s.windows.len() > 0 {
        layout_tasks(clamp_active(s), now)
    } else if close_steps_back(w, si, k) {
        let t = stepped_back_slide(w, si);
        seq![Task::SetCamera { pos: Position { x: t.position.0, y: t.position.1 }, timer: now }]
    } else {
        Seq::empty()
    }
}

/// The close neither panics nor overflows.
pub open spec fn close_ok(w: WorkspaceModel, si: int, k: int) -> bool {
    let s = without_window(w.slides[si], k);
    if s.windows.len() > 0 {
        layout_fits(clamp_active(s))
    } else {
        &&& stack_fits(w.coord, w.dimensions, w.slides.len() - 1)
        &&& close_steps_back(w, si, k) ==> stepped_back_slide(w, si).active_window
            < stepped_back_slide(w, si).windows.len()
    }
}

impl Workspace {
    /// The index of the first slide with id `id`.
    pub fn find_slide(&self, id: u16) -> (r: Option<usize>)
        ensures
            r == slide_index(self@.slides, id),
            r matches Some(i) ==> i < self.slides@.len(),
    {
        let n = self.slides.len();
        let mut i: usize = 0;
        while i < n && self.slides[i].id != id
            invariant
                0 <= i <= n,
                n == self.slides@.len(),
                forall|j: int| 0 <= j < i ==> self.slides@[j].id != id,
            decreases n - i,
        {
            i += 1;
        }
        proof {
            let p = slide_has_id(self@.slides, id);
            lemma_first_where(self@.slides.len(), p);
            assert(forall|j: int| #[trigger] p(j) == (self@.slides[j].id == id));
            match slide_index(self@.slides, id) {
                Some(j) => {
                    assert(p(j as int));
                    if (j as int) < (i as int) {
                        assert(self.slides@[j as int].id == id);
                    }
                    if (i as int) < (j as int) {
                        assert(!p(i as int));
                    }
                },
                None => {
                    if i < n {
                        assert(!p(i as int));
                    }
                },
            }
        }
        if i < n {
            Some(i)
        } else {
            None
        }
    }

    /// Takes window `k` out of slide `si` and returns the window to focus next.
    pub fn close_in(&mut self, si: usize, k: usize, now: u64, queue: &mut Vec<Task>) -> (target:
        Option<WindowId>)
        requires
            si < old(self).slides.len(),
            k < old(self).slides@[si as int].windows.len(),
            close_ok(old(self)@, si as int, k as int),
        ensures
            final(self)@ == closed_in(old(self)@, si as int, k as int),
            target == close_target(old(self)@, si as int, k as int),
            final(queue)@ == old(queue)@ + close_tasks(old(self)@, si as int, k as int, now),
    {
        let ghost w = self@;
        assert(w.slides[si as int] == self.slides@[si as int]@);
        self.slides[si].windows.remove(k);
        assert(self.slides@[si as int]@ == without_window(w.slides[si as int], k as int));
        if self.slides[si].windows.len() > 0 {
            self.slides[si].rearrange(now, queue);
            let aw = self.slides[si].active_window;
            let t = self.slides[si].windows[aw];
            assert(self@.slides =~= closed_in(w, si as int, k as int).slides);
            return Some(t);
        }
        self.slides.remove(si);
        assert(self@.slides =~= w.slides.remove(si as int));
        let mut target = None;
        if self.active_slide == self.slides.len() && self.active_slide != 0 {
            self.active_slide -= 1;
            let a = self.active_slide;
            assert(self.slides@[a as int]@ == stepped_back_slide(w, si as int));
            let aw = self.slides[a].active_window;
            target = Some(self.slides[a].windows[aw]);
            let position = self.slides[a].position;
            queue.push(Task::SetCamera { pos: Position { x: position.0, y: position.1 }, timer: now });
        } else {
            assert(queue@ =~= old(queue)@ + close_tasks(w, si as int, k as int, now));
        }
        self.rearrange();
        target
    }
}


impl Workspace {
    /// Whether taking window `k` out of slide `si` is safe (`close_ok`).
    pub fn close_check(&self, si: usize, k: usize) -> (r: bool)
        requires
            si < self.slides.len(),
            k < self.slides@[si as int].windows.len(),
        ensures
            r == close_ok(self@, si as int, k as int),
    {
        let ghost w = self@;
        assert(w.slides[si as int] == self.slides@[si as int]@);
        let n = self.slides[si].windows.len() - 1;
        if n > 0 {
            let aw = if self.slides[si].active_window >= n {
                n - 1
            } else {
                self.slides[si].active_window
            };
            let r = layout_fits_check(
                self.slides[si].slide_type,
                self.slides[si].position,
                self.slides[si].dimensions,
                n,
                aw,
            );
            assert(r == layout_fits(clamp_active(without_window(w.slides[si as int], k as int))));
            r
        } else {
            let m = self.slides.len() - 1;
            if !stack_fits_check(self.coord, self.dimensions, m) {
                return false;
            }
            let steps_back = self.active_slide == m && self.active_slide != 0;
            if steps_back {
                let j = if self.active_slide - 1 < si {
                    self.active_slide - 1
                } else {
                    self.active_slide
                };
                assert(stepped_back_slide(w, si as int) == self.slides@[j as int]@);
                self.slides[j].active_window < self.slides[j].windows.len()
            } else {
                true
            }
        }
    }
}

}
