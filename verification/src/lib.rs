//! Client side of the Wayland wire protocol: the argument encoding, the
//! message framing and the object bookkeeping of a connection, with the
//! request and event types of the core, xdg-shell and wlr-layer-shell protocols.
#![allow(non_camel_case_types)]

pub mod wire;
pub mod objects;
pub mod client;
pub mod pixbuf;
pub mod wl_display;
pub mod wl_registry;
pub mod wl_callback;
pub mod wl_compositor;
pub mod wl_shm_pool;
pub mod wl_shm;
pub mod wl_buffer;
pub mod wl_data_offer;
pub mod wl_data_source;
pub mod wl_data_device;
pub mod wl_data_device_manager;
pub mod wl_shell;
pub mod wl_shell_surface;
pub mod wl_surface;
pub mod wl_seat;
pub mod wl_pointer;
pub mod wl_keyboard;
pub mod wl_touch;
pub mod wl_output;
pub mod wl_region;
pub mod wl_subcompositor;
pub mod wl_subsurface;
pub mod zwlr_layer_shell_v1;
pub mod zwlr_layer_surface_v1;
pub mod xdg_wm_base;
pub mod xdg_positioner;
pub mod xdg_surface;
pub mod xdg_toplevel;
pub mod xdg_popup;

pub use wire::{fixed, Fd, Ser, Dsr, Codec, Decoded, WireEnum};
pub use objects::{object, new_id, Dyn, ObjMeta, Object, Msg, Request, Event};
pub use client::{Client, Recv, RecvState};
pub use pixbuf::{ShmPixelBuffer, ShmMut};
