use vstd::prelude::*;
use crate::geometry::Position;
use crate::actions::{Action, Modifiers};
use crate::window::{BindingId, DeviceId, OutputId, SeatId, WindowId};

verus! {

/// A request to river, or to the system, that the window manager's decisions call
/// for. The caller performs them in order.
#[derive(Debug, Clone)]
pub enum Effect {
    FocusWindow { seat: SeatId, window: WindowId },
    ClearFocus { seat: SeatId },
    OpStartPointer { seat: SeatId },
    OpEnd { seat: SeatId },
    PointerWarp { seat: SeatId, x: i32, y: i32 },
    CloseWindow { window: WindowId },
    ProposeDimensions { window: WindowId, width: i32, height: i32 },
    Fullscreen { window: WindowId, output: OutputId },
    ExitFullscreen { window: WindowId },
    InformResizeStart { window: WindowId },
    InformResizeEnd { window: WindowId },
    UseSsd { window: WindowId },
    InformMaximized { window: WindowId },
    SetNodePosition { window: WindowId, x: i32, y: i32 },
    PlaceTop { window: WindowId },
    SetDefaultLayer { output: OutputId },
    RenderBackground { output: OutputId, camera: Position },
    ManageDirty,
    ManageFinish,
    RenderFinish,
    ExitSession,
    Spawn { program: String, args: Vec<String> },
    SpawnShell { command: String },
    CreateXkbBinding { seat: SeatId, mods: Modifiers, keysym: u32, action: Action },
    CreatePointerBinding { seat: SeatId, mods: Modifiers, button: u32, action: Action },
    DestroyOutput { output: OutputId, layer: Option<u32> },
    DestroySeat {
        seat: SeatId,
        layer: Option<u32>,
        xkb_bindings: Vec<BindingId>,
        pointer_bindings: Vec<BindingId>,
    },
    EnableTapping { device: DeviceId },
}

}
