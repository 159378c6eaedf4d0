//! Bring-up and control-protocol layer for a paravirtualized GPU that is
//! reached through memory-mapped registers and one shared command ring.
//!
//! The crate holds the decisions and the data model; it performs no hardware
//! access itself. The handshake is a state machine that names the next
//! register access and consumes its result, and the protocol messages are
//! values with an exact byte layout.

pub mod config;
pub mod ctrl_type;
pub mod cursor;
pub mod display;
pub mod header;
pub mod negotiation;
pub mod queue;
pub mod regs;
pub mod registry;
pub mod resource;
pub mod runs;
pub mod wire;

pub use config::{Config, EVENT_DISPLAY, F_EDID, F_VIRGL};
pub use ctrl_type::{CtrlCategory, CtrlType, Formats, ResponseError};
pub use cursor::{CursorPos, UpdateCursor};
pub use display::{DisplayOne, GetEdid, Rect, RespDisplayInfo, RespEdid, EDID_SIZE, MAX_SCANOUTS};
pub use header::{CtrlHeader, DecodeError, FLAG_FENCE};
pub use negotiation::{Action, Event, Failure, Negotiation, Platform, State, Step};
pub use queue::{frame_number, page_count};
pub use registry::{
    device_index, Device, DeviceRegistry, MAX_DEVICES, MMIO_VIRTIO_START, WINDOW_BYTES,
};
pub use regs::{MmioOffsets, StatusField};
pub use resource::{
    AttachBacking, DetachBacking, MemEntry, ResourceCreate2d, ResourceFlush, ResourceUnref,
    SetScanout, TransferToHost2d,
};
