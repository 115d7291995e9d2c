use vstd::prelude::*;
use crate::geometry::Position;
use crate::lookup::{first_where, id_index, lemma_first_where, find_id};
use crate::slide::{clamp_active, layout_fits, layout_tasks, new_slide_model, Slide, SlideModel};
use crate::task::Task;
use crate::window::{place, placed_all, Window, WindowId, WindowLocation};
use crate::workspace::{
    attach_to_active, close_ok, close_target, close_tasks, closed_in, restack, restacked,
    slide_index, slide_views, stack_fits, Workspace, WorkspaceModel,
};

verus! {

/// All workspaces and which one is active, by id.
#[derive(Debug)]
pub struct Desktop {
    pub workspaces: Vec<Workspace>,
    pub active_workspace: String,
}

pub open spec fn workspace_views(ws: Seq<Workspace>) -> Seq<WorkspaceModel> {
    ws.map_values(|w: Workspace| w@)
}

/// `r` is the index of the first workspace of `ws` with id `id`, or `None` if there
/// is none.
pub open spec fn first_workspace(ws: Seq<Workspace>, id: Seq<char>, r: Option<usize>) -> bool {
    match r {
        Some(i) => i < ws.len() && ws[i as int].id@ == id && forall|j: int|
            0 <= j < i ==> (#[trigger] ws[j]).id@ != id,
        None => forall|j: int| 0 <= j < ws.len() ==> (#[trigger] ws[j]).id@ != id,
    }
}

/// The workspace after a window is attached: a workspace without slides first gets
/// a fresh slide 0 and becomes active on it.
pub open spec fn with_a_slide(w: WorkspaceModel) -> WorkspaceModel {
    if w.slides.len() == 0 {
        WorkspaceModel {
            slides: restacked(w, seq![new_slide_model(0, w.dimensions)]),
            active_slide: 0,
            child_rearrange_required: true,
            ..w
        }
    } else {
        w
    }
}

/// The workspace a new desktop starts with: "default", at the origin, with no size
/// yet, holding one empty slide and due for layout.
pub open spec fn default_workspace_model() -> WorkspaceModel {
    WorkspaceModel {
        id: "default"@,
        coord: (0, 0),
        dimensions: (0, 0),
        slides: seq![new_slide_model(0, (0, 0))],
        active_slide: 0,
        child_rearrange_required: true,
        rearrange_required: true,
        focus_active_requested: false,
        new_slide_id: 1,
    }
}

impl Desktop {
    /// A desktop with the single workspace "default", active.
    pub fn new() -> (d: Desktop)
        ensures
            d.workspaces@.len() == 1,
            d.workspaces@[0]@ == default_workspace_model(),
            d.active_workspace@ == "default"@,
    {
        let default_id = "default".to_string();
        let mut workspaces: Vec<Workspace> = Vec::new();
        workspaces.push(Workspace::new(default_id.as_str()));
        Desktop { workspaces, active_workspace: default_id }
    }

    /// The index of the first workspace with id `id`.
    pub fn find_workspace(&self, id: &String) -> (r: Option<usize>)
        ensures
            first_workspace(self.workspaces@, id@, r),
    {
        let mut i: usize = 0;
        while i < self.workspaces.len()
            invariant
                0 <= i <= self.workspaces.len(),
                forall|j: int| 0 <= j < i ==> (#[trigger] self.workspaces@[j]).id@ != id@,
            decreases self.workspaces.len() - i,
        {
            if self.workspaces[i].id == *id {
                return Some(i);
            }
            i += 1;
        }
        None
    }

    /// The index of the active workspace.
    pub fn active_index(&self) -> (r: Option<usize>)
        ensures
            first_workspace(self.workspaces@, self.active_workspace@, r),
    {
        self.find_workspace(&self.active_workspace)
    }

    pub fn active_workspace_mut(&mut self) -> (w: &mut Workspace)
        requires
            exists|i: int|
                0 <= i < old(self).workspaces@.len() && (#[trigger] old(self).workspaces@[i]).id@
                    == old(self).active_workspace@,
        ensures
            exists|i: usize|
                first_workspace(old(self).workspaces@, old(self).active_workspace@, Some(i))
                    && *w == old(self).workspaces@[i as int]
                    && final(self).workspaces@ == old(self).workspaces@.update(i as int, *final(w)),
            final(self).active_workspace == old(self).active_workspace,
    {
        match self.active_index() {
            Some(i) => &mut self.workspaces[i],
            None => {
                assert(false);
                &mut self.workspaces[0]
            },
        }
    }

    /// Attaches a new window to the active slide of the active workspace and records
    /// where it went.
    pub fn attach_window(&mut self, window_id: WindowId, windows: &mut Vec<Window>)
        requires
            attach_ok(old(self)),
        ensures
            ({
                let i = active_ws(old(self));
                let w = with_a_slide(old(self).workspaces@[i as int]@);
                &&& desktop_at(old(self), final(self), i, attach_to_active(w, window_id))
                &&& final(windows)@ == placed_all(
                    old(windows)@,
                    window_id,
                    WindowLocation {
                        workspace_id: final(self).workspaces@[i as int].id,
                        slide_id: w.slides[w.active_slide as int].id,
                    },
                )
            }),
    {
        let i = self.active_ws_index();
        let ghost w0 = self.workspaces@[i as int];
        let ws = &mut self.workspaces[i];
        if ws.slides.len() == 0 {
            let s = Slide::new(0, ws.dimensions);
            ws.slides.push(s);
            ws.active_slide = 0;
            ws.child_rearrange_required = true;
            assert(ws@.slides =~= seq![new_slide_model(0, ws.dimensions)]);
            assert(0 * ws.dimensions.1 == 0);
            ws.rearrange();
        }
        assert(ws@ == with_a_slide(w0@));
        assert(ws@.slides.len() == ws.slides.len());
        let a = ws.active_slide;
        let slide = &mut ws.slides[a];
        slide.attach_window(window_id);
        let slide_id = slide.id;
        assert(slide_id == with_a_slide(w0@).slides[a as int].id);
        assert(ws@.slides =~= attach_to_active(with_a_slide(w0@), window_id).slides);
        place(windows, window_id, &ws.id, slide_id);
        assert(self.workspaces@[i as int]@ == attach_to_active(with_a_slide(w0@), window_id));
    }
}


/// A window can be attached: the active workspace exists and, once given a slide
/// if it has none, its active slide is one of its slides.
pub open spec fn attach_ok(d: &Desktop) -> bool {
    &&& has_active(d)
    &&& with_a_slide(d.workspaces@[active_ws(d) as int]@).active_slide < with_a_slide(
        d.workspaces@[active_ws(d) as int]@,
    ).slides.len()
}

/// The desktop has a workspace with the active id.
pub open spec fn has_active(d: &Desktop) -> bool {
    exists|i: usize| first_workspace(d.workspaces@, d.active_workspace@, Some(i))
}

/// The index of the active workspace (the first with the active id).
pub open spec fn active_ws(d: &Desktop) -> usize {
    choose|i: usize| first_workspace(d.workspaces@, d.active_workspace@, Some(i))
}

pub proof fn lemma_first_workspace_unique(ws: Seq<Workspace>, id: Seq<char>, i: usize, j: usize)
    requires
        first_workspace(ws, id, Some(i)),
        first_workspace(ws, id, Some(j)),
    ensures
        i == j,
{
    if i < j {
        assert(ws[i as int].id@ != id);
    }
    if j < i {
        assert(ws[j as int].id@ != id);
    }
}

impl Desktop {
    /// The index of the active workspace, when there is one.
    pub fn active_ws_index(&self) -> (i: usize)
        requires
            has_active(self),
        ensures
            i == active_ws(self),
            i < self.workspaces.len(),
    {
        match self.active_index() {
            Some(i) => {
                proof {
                    lemma_first_workspace_unique(
                        self.workspaces@,
                        self.active_workspace@,
                        i,
                        active_ws(self),
                    );
                }
                i
            },
            None => {
                proof {
                    let i = active_ws(self);
                    assert(self.workspaces@[i as int].id@ == self.active_workspace@);
                }
                0
            },
        }
    }
}


/// Whether workspace `i` of `ws` has id `id`.
pub open spec fn workspace_has_id(ws: Seq<Workspace>, id: Seq<char>) -> spec_fn(int) -> bool {
    |i: int| ws[i].id@ == id
}

/// The index of the first workspace with id `id`.
pub open spec fn workspace_index(ws: Seq<Workspace>, id: Seq<char>) -> Option<usize> {
    first_where(ws.len(), workspace_has_id(ws, id))
}

pub proof fn lemma_workspace_index(ws: Seq<Workspace>, id: Seq<char>, r: Option<usize>)
    requires
        first_workspace(ws, id, r),
        ws.len() <= usize::MAX,
    ensures
        r == workspace_index(ws, id),
{
    let p = workspace_has_id(ws, id);
    lemma_first_where(ws.len(), p);
    assert(forall|j: int| #[trigger] p(j) == (ws[j].id@ == id));
    match r {
        Some(i) => {
            match workspace_index(ws, id) {
                Some(j) => {
                    assert(p(j as int));
                    if j < i {
                        assert(ws[j as int].id@ == id);
                    }
                    if i < j {
                        assert(!p(i as int));
                    }
                },
                None => {
                    assert(!p(i as int));
                },
            }
        },
        None => {
            match workspace_index(ws, id) {
                Some(j) => {
                    assert(p(j as int));
                    assert(ws[j as int].id@ == id);
                },
                None => {},
            }
        },
    }
}

/// The desktop `d1` is `d0` with workspace `i` replaced by one whose view is `w`.
pub open spec fn desktop_at(d0: &Desktop, d1: &Desktop, i: usize, w: WorkspaceModel) -> bool {
    &&& i < d0.workspaces@.len()
    &&& d1.active_workspace == d0.active_workspace
    &&& d1.workspaces@.len() == d0.workspaces@.len()
    &&& d1.workspaces@[i as int]@ == w
    &&& forall|j: int|
        0 <= j < d0.workspaces@.len() && j != i ==> #[trigger] d1.workspaces@[j]
            == d0.workspaces@[j]
}

/// Where window `id` sits when its location is `loc`: the workspace with that id,
/// the slide with that id in it, and the window's place in that slide (each the
/// first match).
pub open spec fn slot_at(d: &Desktop, loc: WindowLocation, id: WindowId) -> Option<
    (usize, usize, usize),
> {
    match workspace_index(d.workspaces@, loc.workspace_id@) {
        Some(wi) => match slide_index(d.workspaces@[wi as int]@.slides, loc.slide_id) {
            Some(si) => match id_index(d.workspaces@[wi as int]@.slides[si as int].windows, id) {
                Some(k) => Some((wi, si, k)),
                None => None,
            },
            None => None,
        },
        None => None,
    }
}

/// The workspace and slide that `loc` names (each the first match).
pub open spec fn slide_at(d: &Desktop, loc: WindowLocation) -> Option<(usize, usize)> {
    match workspace_index(d.workspaces@, loc.workspace_id@) {
        Some(wi) => match slide_index(d.workspaces@[wi as int]@.slides, loc.slide_id) {
            Some(si) => Some((wi, si)),
            None => None,
        },
        None => None,
    }
}

/// `w` with slide `si` replaced by `s`.
pub open spec fn with_slide_at(w: WorkspaceModel, si: int, s: SlideModel) -> WorkspaceModel {
    WorkspaceModel { slides: w.slides.update(si, s), ..w }
}

impl Desktop {
    /// The index of the first workspace with id `id`.
    pub fn workspace_pos(&self, id: &String) -> (r: Option<usize>)
        ensures
            r == workspace_index(self.workspaces@, id@),
            r matches Some(i) ==> i < self.workspaces@.len(),
    {
        let n = self.workspaces.len();
        let r = self.find_workspace(id);
        proof {
            lemma_workspace_index(self.workspaces@, id@, r);
        }
        r
    }

    /// Takes closed window `id` out of the slide its location `loc` names; returns
    /// the window to focus next. Nothing changes when that slide does not hold it.
    pub fn close_window(&mut self, loc: &WindowLocation, id: WindowId, now: u64, queue: &mut Vec<
        Task,
    >) -> (target: Option<WindowId>)
        requires
            match slot_at(old(self), *loc, id) {
                Some((wi, si, k)) => close_ok(old(self).workspaces@[wi as int]@, si as int, k as int),
                None => true,
            },
        ensures
            match slot_at(old(self), *loc, id) {
                Some((wi, si, k)) => {
                    &&& desktop_at(
                        old(self),
                        final(self),
                        wi,
                        closed_in(old(self).workspaces@[wi as int]@, si as int, k as int),
                    )
                    &&& target == close_target(
                        old(self).workspaces@[wi as int]@,
                        si as int,
                        k as int,
                    )
                    &&& final(queue)@ == old(queue)@ + close_tasks(
                        old(self).workspaces@[wi as int]@,
                        si as int,
                        k as int,
                        now,
                    )
                },
                None => *final(self) == *old(self) && target is None && final(queue)@ == old(
                    queue,
                )@,
            },
    {
        let wi = match self.workspace_pos(&loc.workspace_id) {
            Some(wi) => wi,
            None => {
                return None;
            },
        };
        let si = match self.workspaces[wi].find_slide(loc.slide_id) {
            Some(si) => si,
            None => {
                return None;
            },
        };
        assert(self.workspaces@[wi as int]@.slides[si as int] == self.workspaces@[wi as int].slides@[si as int]@);
        let k = match find_id(&self.workspaces[wi].slides[si].windows, id) {
            Some(k) => k,
            None => {
                return None;
            },
        };
        self.workspaces[wi].close_in(si, k, now, queue)
    }

    /// Lays out again the slide that `loc` names, if there is one.
    pub fn relayout_at(&mut self, loc: &WindowLocation, now: u64, queue: &mut Vec<Task>)
        requires
            match slide_at(old(self), *loc) {
                Some((wi, si)) => layout_fits(
                    clamp_active(old(self).workspaces@[wi as int]@.slides[si as int]),
                ),
                None => true,
            },
        ensures
            match slide_at(old(self), *loc) {
                Some((wi, si)) => {
                    let w = old(self).workspaces@[wi as int]@;
                    &&& desktop_at(
                        old(self),
                        final(self),
                        wi,
                        with_slide_at(w, si as int, clamp_active(w.slides[si as int])),
                    )
                    &&& final(queue)@ == old(queue)@ + layout_tasks(
                        clamp_active(w.slides[si as int]),
                        now,
                    )
                },
                None => *final(self) == *old(self) && final(queue)@ == old(queue)@,
            },
    {
        let wi = match self.workspace_pos(&loc.workspace_id) {
            Some(wi) => wi,
            None => {
                return;
            },
        };
        let si = match self.workspaces[wi].find_slide(loc.slide_id) {
            Some(si) => si,
            None => {
                return;
            },
        };
        let ghost w = self.workspaces@[wi as int]@;
        assert(w.slides[si as int] == self.workspaces@[wi as int].slides@[si as int]@);
        self.workspaces[wi].slides[si].rearrange(now, queue);
        assert(self.workspaces@[wi as int]@.slides =~= with_slide_at(
            w,
            si as int,
            clamp_active(w.slides[si as int]),
        ).slides);
    }
}


/// The workspace with slide `si` made active and all slides restacked.
pub open spec fn activated(w: WorkspaceModel, si: int) -> WorkspaceModel {
    WorkspaceModel { active_slide: si as usize, slides: restacked(w, w.slides), ..w }
}

/// Slide `si` of the activated workspace with its window `k` active.
pub open spec fn focused_slide(w: WorkspaceModel, si: int, k: int) -> SlideModel {
    SlideModel { active_window: k as usize, ..activated(w, si).slides[si] }
}

/// The workspace once slide `si` and its window `k` are active.
pub open spec fn focus_model(w: WorkspaceModel, si: int, k: int) -> WorkspaceModel {
    with_slide_at(activated(w, si), si, focused_slide(w, si, k))
}

/// The tasks that focusing window `k` of slide `si` queues: the camera moves to the
/// slide, and the slide is laid out.
pub open spec fn focus_tasks(w: WorkspaceModel, si: int, k: int, now: u64) -> Seq<Task> {
    let p = activated(w, si).slides[si].position;
    seq![Task::SetCamera { pos: Position { x: p.0, y: p.1 }, timer: now }] + layout_tasks(
        focused_slide(w, si, k),
        now,
    )
}

/// Focusing window `id` at `loc` neither panics nor overflows: when the workspace
/// exists, it has the slide, the slide has the window, and the layout fits.
pub open spec fn focus_ok(d: &Desktop, loc: WindowLocation, id: WindowId) -> bool {
    match workspace_index(d.workspaces@, loc.workspace_id@) {
        Some(wi) => {
            let w = d.workspaces@[wi as int]@;
            match slide_index(w.slides, loc.slide_id) {
                Some(si) => match id_index(w.slides[si as int].windows, id) {
                    Some(k) => stack_fits(w.coord, w.dimensions, w.slides.len() as int)
                        && layout_fits(focused_slide(w, si as int, k as int)),
                    None => false,
                },
                None => false,
            }
        },
        None => true,
    }
}

impl Desktop {
    /// Makes the slide that `loc` names, and window `id` in it, active, and sends the
    /// camera there. `false` when no workspace has the location's id.
    pub fn focus_at(&mut self, loc: &WindowLocation, id: WindowId, now: u64, queue: &mut Vec<
        Task,
    >) -> (found: bool)
        requires
            focus_ok(old(self), *loc, id),
        ensures
            found == workspace_index(old(self).workspaces@, loc.workspace_id@) is Some,
            match workspace_index(old(self).workspaces@, loc.workspace_id@) {
                Some(wi) => {
                    let w = old(self).workspaces@[wi as int]@;
                    let si = slide_index(w.slides, loc.slide_id)->0 as int;
                    let k = id_index(w.slides[si].windows, id)->0 as int;
                    &&& desktop_at(old(self), final(self), wi, focus_model(w, si, k))
                    &&& final(queue)@ == old(queue)@ + focus_tasks(w, si, k, now)
                },
                None => *final(self) == *old(self) && final(queue)@ == old(queue)@,
            },
    {
        let wi = match self.workspace_pos(&loc.workspace_id) {
            Some(wi) => wi,
            None => {
                return false;
            },
        };
        let ghost w = self.workspaces@[wi as int]@;
        let si = match self.workspaces[wi].find_slide(loc.slide_id) {
            Some(si) => si,
            None => {
                assert(false);
                return false;
            },
        };
        assert(w.slides[si as int] == self.workspaces@[wi as int].slides@[si as int]@);
        let k = match find_id(&self.workspaces[wi].slides[si].windows, id) {
            Some(k) => k,
            None => {
                assert(false);
                return false;
            },
        };
        self.workspaces[wi].active_slide = si;
        self.workspaces[wi].rearrange();
        assert(self.workspaces@[wi as int]@ == activated(w, si as int));
        assert(self.workspaces@[wi as int]@.slides.len() == self.workspaces@[wi as int].slides@.len());
        assert(activated(w, si as int).slides[si as int] == self.workspaces@[wi as int].slides@[si as int]@);
        let position = self.workspaces[wi].slides[si].position;
        queue.push(Task::SetCamera { pos: Position { x: position.0, y: position.1 }, timer: now });
        let ghost q1 = queue@;
        self.workspaces[wi].slides[si].active_window = k;
        assert(self.workspaces@[wi as int].slides@[si as int]@ == focused_slide(w, si as int, k as int));
        self.workspaces[wi].slides[si].rearrange(now, queue);
        assert(self.workspaces@[wi as int]@.slides =~= focus_model(w, si as int, k as int).slides);
        assert(queue@ =~= old(queue)@ + focus_tasks(w, si as int, k as int, now));
        true
    }
}


impl Desktop {
    /// Whether a window can be attached (`attach_ok`).
    pub fn attach_check(&self) -> (r: bool)
        ensures
            r == attach_ok(self),
    {
        match self.active_index() {
            Some(i) => {
                proof {
                    lemma_first_workspace_unique(
                        self.workspaces@,
                        self.active_workspace@,
                        i,
                        active_ws(self),
                    );
                }
                let n = self.workspaces[i].slides.len();
                assert(self.workspaces@[i as int]@.slides.len() == n);
                n == 0 || self.workspaces[i].active_slide < n
            },
            None => {
                proof {
                    if has_active(self) {
                        let j = active_ws(self);
                        assert(self.workspaces@[j as int].id@ == self.active_workspace@);
                    }
                }
                false
            },
        }
    }
}

}
