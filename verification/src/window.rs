use vstd::prelude::*;
use crate::geometry::{wrap_sub, Position};

verus! {

/// The protocol id of a river window object.
pub type WindowId = u32;
/// The protocol id of a river seat object.
pub type SeatId = u32;
/// The protocol id of a river output object.
pub type OutputId = u32;
/// The protocol id of a river binding object.
pub type BindingId = u32;
/// The protocol id of a libinput device object.
pub type DeviceId = u32;
/// An IPC client, numbered in the order of connection.
pub type ClientId = u64;

/// Where a window lives: a workspace and a slide in it.
#[derive(Debug, Clone)]
pub struct WindowLocation {
    pub workspace_id: String,
    pub slide_id: u16,
}

}

verus! {

/// River's resize edges, as its protocol numbers them.
pub type Edges = u32;

pub open spec fn edge_none() -> Edges {
    0
}

pub open spec fn edge_top() -> Edges {
    1
}

pub open spec fn edge_bottom() -> Edges {
    2
}

pub open spec fn edge_left() -> Edges {
    4
}

pub open spec fn edge_right() -> Edges {
    8
}

/// A toplevel window as the window manager tracks it.
#[derive(Debug)]
pub struct Window {
    pub id: WindowId,
    /// The window object's name on the protocol connection, as IPC clients see it.
    pub name: String,
    pub app_id: String,
    pub title: String,
    pub location: Option<WindowLocation>,
    pub x: i32,
    pub y: i32,
    pub width: i32,
    pub height: i32,
    pub original_position: Position,
    pub render_position: Option<Position>,
    pub current_position: Position,
    pub target_position: Position,
    pub new: bool,
    pub maximized: bool,
    pub closed: bool,
    pub pointer_move_requested: Option<SeatId>,
    pub pointer_resize_requested: Option<SeatId>,
    pub pointer_resize_requested_edges: Edges,
}

/// `w` is a window just announced with id `id` and name `name`: untitled, unplaced,
/// at the origin with no size, new, and with nothing requested.
pub open spec fn is_fresh_window(w: Window, id: WindowId, name: String) -> bool {
    &&& w.id == id
    &&& w.name == name
    &&& w.title@ == "unknown"@
    &&& w.app_id@ == Seq::<char>::empty()
    &&& w.location is None
    &&& w.x == 0 && w.y == 0 && w.width == 0 && w.height == 0
    &&& w.original_position == (Position { x: 0, y: 0 })
    &&& w.render_position is None
    &&& w.current_position == (Position { x: 0, y: 0 })
    &&& w.target_position == (Position { x: 0, y: 0 })
    &&& w.new && !w.maximized && !w.closed
    &&& w.pointer_move_requested is None
    &&& w.pointer_resize_requested is None
    &&& w.pointer_resize_requested_edges == edge_none()
}

/// Where window `w`'s node goes on screen for a camera at `camera`.
pub open spec fn node_position(w: Window, camera: Position) -> (i32, i32) {
    let d = wrap_sub(
        match w.render_position {
            Some(r) => r,
            None => w.current_position,
        },
        camera,
    );
    (d.x, d.y)
}

/// `w` moved to slide `slide_id` of the workspace it is in.
pub open spec fn with_slide(w: Window, slide_id: u16) -> Window {
    Window {
        location: Some(WindowLocation { workspace_id: w.location->0.workspace_id, slide_id }),
        ..w
    }
}

/// Every window with id `id` moved to slide `slide_id`; the others unchanged.
pub open spec fn relocated(ws: Seq<Window>, id: WindowId, slide_id: u16) -> Seq<Window> {
    Seq::new(ws.len(), |i: int| if ws[i].id == id { with_slide(ws[i], slide_id) } else { ws[i] })
}

/// Every window with id `id` has a location.
pub open spec fn located(ws: Seq<Window>, id: WindowId) -> bool {
    forall|i: int| 0 <= i < ws.len() && ws[i].id == id ==> (#[trigger] ws[i]).location is Some
}

/// Moves every window with id `id` to slide `slide_id` of its workspace.
pub fn relocate(windows: &mut Vec<Window>, id: WindowId, slide_id: u16)
    requires
        located(old(windows)@, id),
    ensures
        final(windows)@ == relocated(old(windows)@, id, slide_id),
{
    let mut i: usize = 0;
    while i < windows.len()
        invariant
            0 <= i <= windows.len(),
            windows@.len() == old(windows)@.len(),
            located(old(windows)@, id),
            forall|j: int|
                0 <= j < i ==> windows@[j] == relocated(old(windows)@, id, slide_id)[j],
            forall|j: int| i <= j < windows@.len() ==> windows@[j] == old(windows)@[j],
        decreases windows.len() - i,
    {
        if windows[i].id == id {
            assert(old(windows)@[i as int].location is Some);
            if let Some(loc) = &mut windows[i].location {
                loc.slide_id = slide_id;
            }
        }
        i += 1;
    }
    assert(windows@ =~= relocated(old(windows)@, id, slide_id));
}

impl Window {
    /// A window that river has just announced, with its protocol id and name.
    pub fn new(id: WindowId, name: String) -> (w: Window)
        ensures
            is_fresh_window(w, id, name),
    {
        Window {
            id,
            name,
            app_id: String::new(),
            title: "unknown".to_string(),
            location: None,
            x: 0,
            y: 0,
            width: 0,
            height: 0,
            original_position: Position { x: 0, y: 0 },
            render_position: None,
            current_position: Position { x: 0, y: 0 },
            target_position: Position { x: 0, y: 0 },
            new: true,
            maximized: false,
            closed: false,
            pointer_move_requested: None,
            pointer_resize_requested: None,
            pointer_resize_requested_edges: 0,
        }
    }

    /// Where the window's node goes on screen for a camera at `camera_pos`: its
    /// rendered position if it has one, else its current position, less the camera
    /// (wrapping around as `i32` arithmetic does in a release build).
    pub fn set_node_position(&self, camera_pos: Position) -> (p: (i32, i32))
        ensures
            p == node_position(*self, camera_pos),
    {
        let base = match self.render_position {
            Some(r) => r,
            None => self.current_position,
        };
        let d = base.wrapping_sub(camera_pos);
        (d.x, d.y)
    }
}

/// A display output.
#[derive(Debug)]
pub struct Output {
    pub id: OutputId,
    pub removed: bool,
    /// The output's layer-shell object, once river has made one.
    pub layer: Option<u32>,
    /// Whether a wallpaper surface has been made for this output.
    pub background: bool,
    pub position: Option<(i32, i32)>,
    pub dimensions: Option<(i32, i32)>,
    pub usable: Option<(i32, i32, i32, i32)>,
}

impl Output {
    pub fn new(id: OutputId) -> (o: Output)
        ensures
            o.id == id,
            !o.removed,
            o.layer is None,
            !o.background,
            o.position is None,
            o.dimensions is None,
            o.usable is None,
    {
        Output {
            id,
            removed: false,
            layer: None,
            background: false,
            position: None,
            dimensions: None,
            usable: None,
        }
    }
}

/// A libinput device and the tap-finger count it reported.
#[derive(Debug)]
pub struct LibinputDevice {
    pub id: DeviceId,
    pub tap_support: Option<i32>,
}

impl LibinputDevice {
    pub fn new(id: DeviceId) -> (d: LibinputDevice)
        ensures
            d.id == id,
            d.tap_support is None,
    {
        LibinputDevice { id, tap_support: None }
    }
}

}

verus! {

/// `w` placed at `loc`.
pub open spec fn placed(w: Window, loc: WindowLocation) -> Window {
    Window { location: Some(loc), ..w }
}

/// Every window with id `id` placed at `loc`; the others unchanged.
pub open spec fn placed_all(ws: Seq<Window>, id: WindowId, loc: WindowLocation) -> Seq<Window> {
    Seq::new(ws.len(), |i: int| if ws[i].id == id { placed(ws[i], loc) } else { ws[i] })
}

/// Records the location of every window with id `id`.
pub fn place(windows: &mut Vec<Window>, id: WindowId, workspace_id: &String, slide_id: u16)
    ensures
        final(windows)@ == placed_all(
            old(windows)@,
            id,
            WindowLocation { workspace_id: *workspace_id, slide_id },
        ),
{
    let ghost loc = WindowLocation { workspace_id: *workspace_id, slide_id };
    let mut i: usize = 0;
    while i < windows.len()
        invariant
            0 <= i <= windows.len(),
            windows@.len() == old(windows)@.len(),
            loc == (WindowLocation { workspace_id: *workspace_id, slide_id }),
            forall|j: int| 0 <= j < i ==> windows@[j] == placed_all(old(windows)@, id, loc)[j],
            forall|j: int| i <= j < windows@.len() ==> windows@[j] == old(windows)@[j],
        decreases windows.len() - i,
    {
        if windows[i].id == id {
            windows[i].location = Some(
                WindowLocation { workspace_id: workspace_id.clone(), slide_id },
            );
        }
        i += 1;
    }
    assert(windows@ =~= placed_all(old(windows)@, id, loc));
}

}
