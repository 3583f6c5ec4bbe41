//! toplevel surface
//!
//! This interface defines an xdg_surface role which allows a surface to,
//! among other things, set window-like properties such as maximize,
//! fullscreen, and minimize, set application-specific metadata like title and
//! id, and well as trigger user interactive operations such as interactive
//! resize and move.
//!
//! Unmapping an xdg_toplevel means that the surface cannot be shown
//! by the compositor until it is explicitly mapped again.
//! All active operations (e.g., move, resize) are canceled and all
//! attributes (e.g. title, state, stacking, ...) are discarded for
//! an xdg_toplevel surface when it is unmapped. The xdg_toplevel returns to
//! the state it had right after xdg_surface.get_toplevel. The client
//! can re-map the toplevel by perfoming a commit without any buffer
//! attached, waiting for a configure event and handling it as usual (see
//! xdg_surface description).
//!
//! Attaching a null buffer to a toplevel unmaps the surface.
//!
#![allow(non_camel_case_types)]
use vstd::prelude::*;
use crate::objects::{Dyn, Object};
use crate::wire::{u32_wire, write_at, flag_names, names_of, join_names, join_text, Codec, Decoded, Dsr, Fd, Ser, WireEnum};
use vstd::std_specs::convert::{FromSpecImpl, TryFromSpecImpl};
use vstd::std_specs::ops::{BitAndSpec, BitAndSpecImpl, BitOrSpec, BitOrSpecImpl};
use core::num::TryFromIntError;

pub mod request;
pub mod event;

verus! {

pub const NAME: &'static str = "xdg_toplevel";

pub const VERSION: u32 = 6;

#[derive(Debug, Clone, Copy, PartialEq, Eq, Hash)]
pub enum error {
    /// provided value is
    /// not a valid variant of the resize_edge enum
    invalid_resize_edge,
    /// invalid parent toplevel
    invalid_parent,
    /// client provided an invalid min or max size
    invalid_size,
}

impl WireEnum for error {
    open spec fn to_wire(self) -> u32 {
        match self {
            error::invalid_resize_edge => 0,
            error::invalid_parent => 1,
            error::invalid_size => 2,
        }
    }

    open spec fn of_wire(v: u32) -> Option<error> {
        match v {
            0 => Some(error::invalid_resize_edge),
            1 => Some(error::invalid_parent),
            2 => Some(error::invalid_size),
            _ => None,
        }
    }

    proof fn lemma_wire_enum(self, v: u32) {
    }
}

impl error {
    /// The word that stands for the entry.
    fn to_u32(self) -> (r: u32)
        ensures
            r == self.to_wire(),
    {
        match self {
            error::invalid_resize_edge => 0,
            error::invalid_parent => 1,
            error::invalid_size => 2,
        }
    }

    /// The entry that a word stands for, if any.
    fn from_u32(v: u32) -> (r: Option<error>)
        ensures
            r == error::of_wire(v),
    {
        match v {
            0 => Some(error::invalid_resize_edge),
            1 => Some(error::invalid_parent),
            2 => Some(error::invalid_size),
            _ => None,
        }
    }
}

impl From<error> for u32 {
    fn from(v: error) -> (r: u32) {
        v.to_u32()
    }
}

impl FromSpecImpl<error> for u32 {
    open spec fn obeys_from_spec() -> bool {
        true
    }

    open spec fn from_spec(v: error) -> u32 {
        v.to_wire()
    }
}

impl TryFrom<u32> for error {
    type Error = TryFromIntError;

    fn try_from(v: u32) -> (r: Result<error, TryFromIntError>) {
        match error::from_u32(v) {
            Some(e) => Ok(e),
            None => match u32::try_from(-1i32) {
                Ok(_) => {
                    assert(false);
                    Ok(error::invalid_resize_edge)
                },
                Err(e) => Err(e),
            },
        }
    }
}

impl TryFromSpecImpl<u32> for error {
    open spec fn obeys_try_from_spec() -> bool {
        true
    }

    open spec fn try_from_spec(v: u32) -> Result<error, TryFromIntError> {
        match error::of_wire(v) {
            Some(e) => Ok(e),
            None => Err(arbitrary()),
        }
    }
}

impl Ser for error {
    open spec fn ser_ok(&self) -> bool {
        true
    }

    open spec fn ser_bytes(&self) -> Seq<u8> {
        u32_wire(self.to_wire())
    }

    open spec fn ser_fds(&self) -> Seq<Fd> {
        Seq::empty()
    }

    fn wire_len(&self) -> (n: usize) {
        4
    }

    fn checked_len(&self) -> (r: Option<usize>) {
        Some(4)
    }

    open spec fn ser_fits(&self, cap: int) -> bool {
        true
    }

    fn serialize(self, buf: &mut [u8], fds: &mut Vec<Fd>) -> (r: Result<usize, &'static str>) {
        self.to_u32().serialize(buf, fds)
    }

    proof fn lemma_fits(&self, cap: int) {
    }
}

impl DeepView for error {
    type V = error;

    open spec fn deep_view(&self) -> error {
        *self
    }
}

impl Dsr for error {
    open spec fn dsr_spec(buf: Seq<u8>, fds: Seq<Fd>) -> Decoded<error> {
        match u32::dsr_spec(buf, fds) {
            Decoded::Value(i, n, left) => match error::of_wire(i) {
                Some(v) => Decoded::Value(v, n, left),
                None => Decoded::Failure("invalid value for error", left),
            },
            Decoded::Failure(e, left) => Decoded::Failure(e, left),
            Decoded::Undefined => Decoded::Undefined,
        }
    }

    fn try_deserialize(buf: &[u8], fds: &mut Vec<Fd>) -> (r: Option<Result<(error, usize), &'static str>>) {
        let (i, n) = match u32::try_deserialize(buf, fds) {
            Some(Ok(p)) => p,
            Some(Err(e)) => return Some(Err(e)),
            None => return None,
        };
        match error::from_u32(i) {
            Some(v) => Some(Ok((v, n))),
            None => Some(Err("invalid value for error")),
        }
    }
}

impl Codec for error {
    open spec fn rt_ok(&self) -> bool {
        true
    }

    proof fn lemma_roundtrip(&self, tail: Seq<u8>, base: Seq<Fd>) {
        self.to_wire().lemma_roundtrip(tail, base);
        self.lemma_wire_enum(0);
    }
}
impl error {
    /// The protocol's word for each entry, and no other word names an entry.
    pub proof fn lemma_wire_values()
        ensures
            error::invalid_resize_edge.to_wire() == 0,
            error::invalid_parent.to_wire() == 1,
            error::invalid_size.to_wire() == 2,
            error::of_wire(0) == Some(error::invalid_resize_edge),
            error::of_wire(1) == Some(error::invalid_parent),
            error::of_wire(2) == Some(error::invalid_size),
            forall|v: u32| #[trigger] error::of_wire(v) is Some ==> (v == 0 || v == 1 || v == 2),
    {
    }
}


/// edge values for resizing
///
/// These values are used to indicate which edge of a surface
/// is being dragged in a resize operation.
///
#[derive(Debug, Clone, Copy, PartialEq, Eq, Hash)]
pub enum resize_edge {
    none,
    top,
    bottom,
    left,
    top_left,
    bottom_left,
    right,
    top_right,
    bottom_right,
}

impl WireEnum for resize_edge {
    open spec fn to_wire(self) -> u32 {
        match self {
            resize_edge::none => 0,
            resize_edge::top => 1,
            resize_edge::bottom => 2,
            resize_edge::left => 4,
            resize_edge::top_left => 5,
            resize_edge::bottom_left => 6,
            resize_edge::right => 8,
            resize_edge::top_right => 9,
            resize_edge::bottom_right => 10,
        }
    }

    open spec fn of_wire(v: u32) -> Option<resize_edge> {
        match v {
            0 => Some(resize_edge::none),
            1 => Some(resize_edge::top),
            2 => Some(resize_edge::bottom),
            4 => Some(resize_edge::left),
            5 => Some(resize_edge::top_left),
            6 => Some(resize_edge::bottom_left),
            8 => Some(resize_edge::right),
            9 => Some(resize_edge::top_right),
            10 => Some(resize_edge::bottom_right),
            _ => None,
        }
    }

    proof fn lemma_wire_enum(self, v: u32) {
    }
}

impl resize_edge {
    /// The word that stands for the entry.
    fn to_u32(self) -> (r: u32)
        ensures
            r == self.to_wire(),
    {
        match self {
            resize_edge::none => 0,
            resize_edge::top => 1,
            resize_edge::bottom => 2,
            resize_edge::left => 4,
            resize_edge::top_left => 5,
            resize_edge::bottom_left => 6,
            resize_edge::right => 8,
            resize_edge::top_right => 9,
            resize_edge::bottom_right => 10,
        }
    }

    /// The entry that a word stands for, if any.
    fn from_u32(v: u32) -> (r: Option<resize_edge>)
        ensures
            r == resize_edge::of_wire(v),
    {
        match v {
            0 => Some(resize_edge::none),
            1 => Some(resize_edge::top),
            2 => Some(resize_edge::bottom),
            4 => Some(resize_edge::left),
            5 => Some(resize_edge::top_left),
            6 => Some(resize_edge::bottom_left),
            8 => Some(resize_edge::right),
            9 => Some(resize_edge::top_right),
            10 => Some(resize_edge::bottom_right),
            _ => None,
        }
    }
}

impl From<resize_edge> for u32 {
    fn from(v: resize_edge) -> (r: u32) {
        v.to_u32()
    }
}

impl FromSpecImpl<resize_edge> for u32 {
    open spec fn obeys_from_spec() -> bool {
        true
    }

    open spec fn from_spec(v: resize_edge) -> u32 {
        v.to_wire()
    }
}

impl TryFrom<u32> for resize_edge {
    type Error = TryFromIntError;

    fn try_from(v: u32) -> (r: Result<resize_edge, TryFromIntError>) {
        match resize_edge::from_u32(v) {
            Some(e) => Ok(e),
            None => match u32::try_from(-1i32) {
                Ok(_) => {
                    assert(false);
                    Ok(resize_edge::none)
                },
                Err(e) => Err(e),
            },
        }
    }
}

impl TryFromSpecImpl<u32> for resize_edge {
    open spec fn obeys_try_from_spec() -> bool {
        true
    }

    open spec fn try_from_spec(v: u32) -> Result<resize_edge, TryFromIntError> {
        match resize_edge::of_wire(v) {
            Some(e) => Ok(e),
            None => Err(arbitrary()),
        }
    }
}

impl Ser for resize_edge {
    open spec fn ser_ok(&self) -> bool {
        true
    }

    open spec fn ser_bytes(&self) -> Seq<u8> {
        u32_wire(self.to_wire())
    }

    open spec fn ser_fds(&self) -> Seq<Fd> {
        Seq::empty()
    }

    fn wire_len(&self) -> (n: usize) {
        4
    }

    fn checked_len(&self) -> (r: Option<usize>) {
        Some(4)
    }

    open spec fn ser_fits(&self, cap: int) -> bool {
        true
    }

    fn serialize(self, buf: &mut [u8], fds: &mut Vec<Fd>) -> (r: Result<usize, &'static str>) {
        self.to_u32().serialize(buf, fds)
    }

    proof fn lemma_fits(&self, cap: int) {
    }
}

impl DeepView for resize_edge {
    type V = resize_edge;

    open spec fn deep_view(&self) -> resize_edge {
        *self
    }
}

impl Dsr for resize_edge {
    open spec fn dsr_spec(buf: Seq<u8>, fds: Seq<Fd>) -> Decoded<resize_edge> {
        match u32::dsr_spec(buf, fds) {
            Decoded::Value(i, n, left) => match resize_edge::of_wire(i) {
                Some(v) => Decoded::Value(v, n, left),
                None => Decoded::Failure("invalid value for resize_edge", left),
            },
            Decoded::Failure(e, left) => Decoded::Failure(e, left),
            Decoded::Undefined => Decoded::Undefined,
        }
    }

    fn try_deserialize(buf: &[u8], fds: &mut Vec<Fd>) -> (r: Option<Result<(resize_edge, usize), &'static str>>) {
        let (i, n) = match u32::try_deserialize(buf, fds) {
            Some(Ok(p)) => p,
            Some(Err(e)) => return Some(Err(e)),
            None => return None,
        };
        match resize_edge::from_u32(i) {
            Some(v) => Some(Ok((v, n))),
            None => Some(Err("invalid value for resize_edge")),
        }
    }
}

impl Codec for resize_edge {
    open spec fn rt_ok(&self) -> bool {
        true
    }

    proof fn lemma_roundtrip(&self, tail: Seq<u8>, base: Seq<Fd>) {
        self.to_wire().lemma_roundtrip(tail, base);
        self.lemma_wire_enum(0);
    }
}
impl resize_edge {
    /// The protocol's word for each entry, and no other word names an entry.
    pub proof fn lemma_wire_values()
        ensures
            resize_edge::none.to_wire() == 0,
            resize_edge::top.to_wire() == 1,
            resize_edge::bottom.to_wire() == 2,
            resize_edge::left.to_wire() == 4,
            resize_edge::top_left.to_wire() == 5,
            resize_edge::bottom_left.to_wire() == 6,
            resize_edge::right.to_wire() == 8,
            resize_edge::top_right.to_wire() == 9,
            resize_edge::bottom_right.to_wire() == 10,
            resize_edge::of_wire(0) == Some(resize_edge::none),
            resize_edge::of_wire(1) == Some(resize_edge::top),
            resize_edge::of_wire(2) == Some(resize_edge::bottom),
            resize_edge::of_wire(4) == Some(resize_edge::left),
            resize_edge::of_wire(5) == Some(resize_edge::top_left),
            resize_edge::of_wire(6) == Some(resize_edge::bottom_left),
            resize_edge::of_wire(8) == Some(resize_edge::right),
            resize_edge::of_wire(9) == Some(resize_edge::top_right),
            resize_edge::of_wire(10) == Some(resize_edge::bottom_right),
            forall|v: u32| #[trigger] resize_edge::of_wire(v) is Some ==> (v == 0 || v == 1 || v == 2 || v == 4 || v == 5 || v == 6 || v == 8 || v == 9 || v == 10),
    {
    }
}


/// types of state on the surface
///
/// The different state values used on the surface. This is designed for
/// state values like maximized, fullscreen. It is paired with the
/// configure event to ensure that both the client and the compositor
/// setting the state can be synchronized.
///
/// States set in this way are double-buffered. They will get applied on
/// the next commit.
///
#[derive(Debug, Clone, Copy, PartialEq, Eq, Hash)]
pub enum state {
    /// the surface is maximized
    ///
    /// The surface is maximized. The window geometry specified in the configure
    /// event must be obeyed by the client, or the xdg_wm_base.invalid_surface_state
    /// error is raised.
    ///
    /// The client should draw without shadow or other
    /// decoration outside of the window geometry.
    ///
    maximized,
    /// the surface is fullscreen
    ///
    /// The surface is fullscreen. The window geometry specified in the
    /// configure event is a maximum; the client cannot resize beyond it. For
    /// a surface to cover the whole fullscreened area, the geometry
    /// dimensions must be obeyed by the client. For more details, see
    /// xdg_toplevel.set_fullscreen.
    ///
    fullscreen,
    /// the surface is being resized
    ///
    /// The surface is being resized. The window geometry specified in the
    /// configure event is a maximum; the client cannot resize beyond it.
    /// Clients that have aspect ratio or cell sizing configuration can use
    /// a smaller size, however.
    ///
    resizing,
    /// the surface is now activated
    ///
    /// Client window decorations should be painted as if the window is
    /// active. Do not assume this means that the window actually has
    /// keyboard or pointer focus.
    ///
    activated,
    /// the surface’s left edge is tiled
    ///
    /// The window is currently in a tiled layout and the left edge is
    /// considered to be adjacent to another part of the tiling grid.
    ///
    tiled_left,
    /// the surface’s right edge is tiled
    ///
    /// The window is currently in a tiled layout and the right edge is
    /// considered to be adjacent to another part of the tiling grid.
    ///
    tiled_right,
    /// the surface’s top edge is tiled
    ///
    /// The window is currently in a tiled layout and the top edge is
    /// considered to be adjacent to another part of the tiling grid.
    ///
    tiled_top,
    /// the surface’s bottom edge is tiled
    ///
    /// The window is currently in a tiled layout and the bottom edge is
    /// considered to be adjacent to another part of the tiling grid.
    ///
    tiled_bottom,
    /// surface repaint is suspended
    ///
    /// The surface is currently not ordinarily being repainted; for
    /// example because its content is occluded by another window, or its
    /// outputs are switched off due to screen locking.
    ///
    suspended,
}

impl WireEnum for state {
    open spec fn to_wire(self) -> u32 {
        match self {
            state::maximized => 1,
            state::fullscreen => 2,
            state::resizing => 3,
            state::activated => 4,
            state::tiled_left => 5,
            state::tiled_right => 6,
            state::tiled_top => 7,
            state::tiled_bottom => 8,
            state::suspended => 9,
        }
    }

    open spec fn of_wire(v: u32) -> Option<state> {
        match v {
            1 => Some(state::maximized),
            2 => Some(state::fullscreen),
            3 => Some(state::resizing),
            4 => Some(state::activated),
            5 => Some(state::tiled_left),
            6 => Some(state::tiled_right),
            7 => Some(state::tiled_top),
            8 => Some(state::tiled_bottom),
            9 => Some(state::suspended),
            _ => None,
        }
    }

    proof fn lemma_wire_enum(self, v: u32) {
    }
}

impl state {
    /// The word that stands for the entry.
    fn to_u32(self) -> (r: u32)
        ensures
            r == self.to_wire(),
    {
        match self {
            state::maximized => 1,
            state::fullscreen => 2,
            state::resizing => 3,
            state::activated => 4,
            state::tiled_left => 5,
            state::tiled_right => 6,
            state::tiled_top => 7,
            state::tiled_bottom => 8,
            state::suspended => 9,
        }
    }

    /// The entry that a word stands for, if any.
    fn from_u32(v: u32) -> (r: Option<state>)
        ensures
            r == state::of_wire(v),
    {
        match v {
            1 => Some(state::maximized),
            2 => Some(state::fullscreen),
            3 => Some(state::resizing),
            4 => Some(state::activated),
            5 => Some(state::tiled_left),
            6 => Some(state::tiled_right),
            7 => Some(state::tiled_top),
            8 => Some(state::tiled_bottom),
            9 => Some(state::suspended),
            _ => None,
        }
    }
}

impl From<state> for u32 {
    fn from(v: state) -> (r: u32) {
        v.to_u32()
    }
}

impl FromSpecImpl<state> for u32 {
    open spec fn obeys_from_spec() -> bool {
        true
    }

    open spec fn from_spec(v: state) -> u32 {
        v.to_wire()
    }
}

impl TryFrom<u32> for state {
    type Error = TryFromIntError;

    fn try_from(v: u32) -> (r: Result<state, TryFromIntError>) {
        match state::from_u32(v) {
            Some(e) => Ok(e),
            None => match u32::try_from(-1i32) {
                Ok(_) => {
                    assert(false);
                    Ok(state::maximized)
                },
                Err(e) => Err(e),
            },
        }
    }
}

impl TryFromSpecImpl<u32> for state {
    open spec fn obeys_try_from_spec() -> bool {
        true
    }

    open spec fn try_from_spec(v: u32) -> Result<state, TryFromIntError> {
        match state::of_wire(v) {
            Some(e) => Ok(e),
            None => Err(arbitrary()),
        }
    }
}

impl Ser for state {
    open spec fn ser_ok(&self) -> bool {
        true
    }

    open spec fn ser_bytes(&self) -> Seq<u8> {
        u32_wire(self.to_wire())
    }

    open spec fn ser_fds(&self) -> Seq<Fd> {
        Seq::empty()
    }

    fn wire_len(&self) -> (n: usize) {
        4
    }

    fn checked_len(&self) -> (r: Option<usize>) {
        Some(4)
    }

    open spec fn ser_fits(&self, cap: int) -> bool {
        true
    }

    fn serialize(self, buf: &mut [u8], fds: &mut Vec<Fd>) -> (r: Result<usize, &'static str>) {
        self.to_u32().serialize(buf, fds)
    }

    proof fn lemma_fits(&self, cap: int) {
    }
}

impl DeepView for state {
    type V = state;

    open spec fn deep_view(&self) -> state {
        *self
    }
}

impl Dsr for state {
    open spec fn dsr_spec(buf: Seq<u8>, fds: Seq<Fd>) -> Decoded<state> {
        match u32::dsr_spec(buf, fds) {
            Decoded::Value(i, n, left) => match state::of_wire(i) {
                Some(v) => Decoded::Value(v, n, left),
                None => Decoded::Failure("invalid value for state", left),
            },
            Decoded::Failure(e, left) => Decoded::Failure(e, left),
            Decoded::Undefined => Decoded::Undefined,
        }
    }

    fn try_deserialize(buf: &[u8], fds: &mut Vec<Fd>) -> (r: Option<Result<(state, usize), &'static str>>) {
        let (i, n) = match u32::try_deserialize(buf, fds) {
            Some(Ok(p)) => p,
            Some(Err(e)) => return Some(Err(e)),
            None => return None,
        };
        match state::from_u32(i) {
            Some(v) => Some(Ok((v, n))),
            None => Some(Err("invalid value for state")),
        }
    }
}

impl Codec for state {
    open spec fn rt_ok(&self) -> bool {
        true
    }

    proof fn lemma_roundtrip(&self, tail: Seq<u8>, base: Seq<Fd>) {
        self.to_wire().lemma_roundtrip(tail, base);
        self.lemma_wire_enum(0);
    }
}
impl state {
    /// The protocol's word for each entry, and no other word names an entry.
    pub proof fn lemma_wire_values()
        ensures
            state::maximized.to_wire() == 1,
            state::fullscreen.to_wire() == 2,
            state::resizing.to_wire() == 3,
            state::activated.to_wire() == 4,
            state::tiled_left.to_wire() == 5,
            state::tiled_right.to_wire() == 6,
            state::tiled_top.to_wire() == 7,
            state::tiled_bottom.to_wire() == 8,
            state::suspended.to_wire() == 9,
            state::of_wire(1) == Some(state::maximized),
            state::of_wire(2) == Some(state::fullscreen),
            state::of_wire(3) == Some(state::resizing),
            state::of_wire(4) == Some(state::activated),
            state::of_wire(5) == Some(state::tiled_left),
            state::of_wire(6) == Some(state::tiled_right),
            state::of_wire(7) == Some(state::tiled_top),
            state::of_wire(8) == Some(state::tiled_bottom),
            state::of_wire(9) == Some(state::suspended),
            forall|v: u32| #[trigger] state::of_wire(v) is Some ==> (v == 1 || v == 2 || v == 3 || v == 4 || v == 5 || v == 6 || v == 7 || v == 8 || v == 9),
    {
    }
}


#[derive(Debug, Clone, Copy, PartialEq, Eq, Hash)]
pub enum wm_capabilities {
    /// show_window_menu is available
    window_menu,
    /// set_maximized and unset_maximized are available
    maximize,
    /// set_fullscreen and unset_fullscreen are available
    fullscreen,
    /// set_minimized is available
    minimize,
}

impl WireEnum for wm_capabilities {
    open spec fn to_wire(self) -> u32 {
        match self {
            wm_capabilities::window_menu => 1,
            wm_capabilities::maximize => 2,
            wm_capabilities::fullscreen => 3,
            wm_capabilities::minimize => 4,
        }
    }

    open spec fn of_wire(v: u32) -> Option<wm_capabilities> {
        match v {
            1 => Some(wm_capabilities::window_menu),
            2 => Some(wm_capabilities::maximize),
            3 => Some(wm_capabilities::fullscreen),
            4 => Some(wm_capabilities::minimize),
            _ => None,
        }
    }

    proof fn lemma_wire_enum(self, v: u32) {
    }
}

impl wm_capabilities {
    /// The word that stands for the entry.
    fn to_u32(self) -> (r: u32)
        ensures
            r == self.to_wire(),
    {
        match self {
            wm_capabilities::window_menu => 1,
            wm_capabilities::maximize => 2,
            wm_capabilities::fullscreen => 3,
            wm_capabilities::minimize => 4,
        }
    }

    /// The entry that a word stands for, if any.
    fn from_u32(v: u32) -> (r: Option<wm_capabilities>)
        ensures
            r == wm_capabilities::of_wire(v),
    {
        match v {
            1 => Some(wm_capabilities::window_menu),
            2 => Some(wm_capabilities::maximize),
            3 => Some(wm_capabilities::fullscreen),
            4 => Some(wm_capabilities::minimize),
            _ => None,
        }
    }
}

impl From<wm_capabilities> for u32 {
    fn from(v: wm_capabilities) -> (r: u32) {
        v.to_u32()
    }
}

impl FromSpecImpl<wm_capabilities> for u32 {
    open spec fn obeys_from_spec() -> bool {
        true
    }

    open spec fn from_spec(v: wm_capabilities) -> u32 {
        v.to_wire()
    }
}

impl TryFrom<u32> for wm_capabilities {
    type Error = TryFromIntError;

    fn try_from(v: u32) -> (r: Result<wm_capabilities, TryFromIntError>) {
        match wm_capabilities::from_u32(v) {
            Some(e) => Ok(e),
            None => match u32::try_from(-1i32) {
                Ok(_) => {
                    assert(false);
                    Ok(wm_capabilities::window_menu)
                },
                Err(e) => Err(e),
            },
        }
    }
}

impl TryFromSpecImpl<u32> for wm_capabilities {
    open spec fn obeys_try_from_spec() -> bool {
        true
    }

    open spec fn try_from_spec(v: u32) -> Result<wm_capabilities, TryFromIntError> {
        match wm_capabilities::of_wire(v) {
            Some(e) => Ok(e),
            None => Err(arbitrary()),
        }
    }
}

impl Ser for wm_capabilities {
    open spec fn ser_ok(&self) -> bool {
        true
    }

    open spec fn ser_bytes(&self) -> Seq<u8> {
        u32_wire(self.to_wire())
    }

    open spec fn ser_fds(&self) -> Seq<Fd> {
        Seq::empty()
    }

    fn wire_len(&self) -> (n: usize) {
        4
    }

    fn checked_len(&self) -> (r: Option<usize>) {
        Some(4)
    }

    open spec fn ser_fits(&self, cap: int) -> bool {
        true
    }

    fn serialize(self, buf: &mut [u8], fds: &mut Vec<Fd>) -> (r: Result<usize, &'static str>) {
        self.to_u32().serialize(buf, fds)
    }

    proof fn lemma_fits(&self, cap: int) {
    }
}

impl DeepView for wm_capabilities {
    type V = wm_capabilities;

    open spec fn deep_view(&self) -> wm_capabilities {
        *self
    }
}

impl Dsr for wm_capabilities {
    open spec fn dsr_spec(buf: Seq<u8>, fds: Seq<Fd>) -> Decoded<wm_capabilities> {
        match u32::dsr_spec(buf, fds) {
            Decoded::Value(i, n, left) => match wm_capabilities::of_wire(i) {
                Some(v) => Decoded::Value(v, n, left),
                None => Decoded::Failure("invalid value for wm_capabilities", left),
            },
            Decoded::Failure(e, left) => Decoded::Failure(e, left),
            Decoded::Undefined => Decoded::Undefined,
        }
    }

    fn try_deserialize(buf: &[u8], fds: &mut Vec<Fd>) -> (r: Option<Result<(wm_capabilities, usize), &'static str>>) {
        let (i, n) = match u32::try_deserialize(buf, fds) {
            Some(Ok(p)) => p,
            Some(Err(e)) => return Some(Err(e)),
            None => return None,
        };
        match wm_capabilities::from_u32(i) {
            Some(v) => Some(Ok((v, n))),
            None => Some(Err("invalid value for wm_capabilities")),
        }
    }
}

impl Codec for wm_capabilities {
    open spec fn rt_ok(&self) -> bool {
        true
    }

    proof fn lemma_roundtrip(&self, tail: Seq<u8>, base: Seq<Fd>) {
        self.to_wire().lemma_roundtrip(tail, base);
        self.lemma_wire_enum(0);
    }
}
impl wm_capabilities {
    /// The protocol's word for each entry, and no other word names an entry.
    pub proof fn lemma_wire_values()
        ensures
            wm_capabilities::window_menu.to_wire() == 1,
            wm_capabilities::maximize.to_wire() == 2,
            wm_capabilities::fullscreen.to_wire() == 3,
            wm_capabilities::minimize.to_wire() == 4,
            wm_capabilities::of_wire(1) == Some(wm_capabilities::window_menu),
            wm_capabilities::of_wire(2) == Some(wm_capabilities::maximize),
            wm_capabilities::of_wire(3) == Some(wm_capabilities::fullscreen),
            wm_capabilities::of_wire(4) == Some(wm_capabilities::minimize),
            forall|v: u32| #[trigger] wm_capabilities::of_wire(v) is Some ==> (v == 1 || v == 2 || v == 3 || v == 4),
    {
    }
}


/// The interface's run-time name is its protocol name.
pub proof fn lemma_interface_name()
    ensures
        <Obj as Object>::interface_name() == "xdg_toplevel"@,
{
}


#[derive(Debug, Clone, Copy)]
pub struct xdg_toplevel;

pub type Obj = xdg_toplevel;

#[allow(non_upper_case_globals)]
pub const Obj: Obj = xdg_toplevel;

impl Ser for xdg_toplevel {
    open spec fn ser_ok(&self) -> bool {
        true
    }

    open spec fn ser_bytes(&self) -> Seq<u8> {
        Seq::empty()
    }

    open spec fn ser_fds(&self) -> Seq<Fd> {
        Seq::empty()
    }

    fn wire_len(&self) -> (n: usize) {
        0
    }

    fn checked_len(&self) -> (r: Option<usize>) {
        Some(0)
    }

    open spec fn ser_fits(&self, cap: int) -> bool {
        true
    }

    fn serialize(self, buf: &mut [u8], fds: &mut Vec<Fd>) -> (r: Result<usize, &'static str>) {
        assert(buf@ =~= write_at(old(buf)@, 0, Seq::<u8>::empty()));
        assert(fds@ =~= old(fds)@ + Seq::<Fd>::empty());
        Ok(0)
    }

    proof fn lemma_fits(&self, cap: int) {
    }
}

impl DeepView for xdg_toplevel {
    type V = ();

    open spec fn deep_view(&self) -> () {
        ()
    }
}

impl Dsr for xdg_toplevel {
    open spec fn dsr_spec(buf: Seq<u8>, fds: Seq<Fd>) -> Decoded<()> {
        Decoded::Value((), 0, fds)
    }

    fn try_deserialize(buf: &[u8], fds: &mut Vec<Fd>) -> (r: Option<Result<(xdg_toplevel, usize), &'static str>>) {
        Some(Ok((xdg_toplevel, 0)))
    }
}

impl Codec for xdg_toplevel {
    open spec fn rt_ok(&self) -> bool {
        true
    }

    proof fn lemma_roundtrip(&self, tail: Seq<u8>, base: Seq<Fd>) {
        assert(Seq::<Fd>::empty().reverse() =~= Seq::<Fd>::empty());
        assert(base + Seq::<Fd>::empty() =~= base);
    }
}

impl Object for xdg_toplevel {
    open spec fn interface_name() -> Seq<char> {
        NAME@
    }

    open spec fn destructor_op() -> Option<u16> {
        Some(0)
    }

    fn new_obj() -> (r: xdg_toplevel) {
        xdg_toplevel
    }

    fn new_dyn(version: u32) -> (d: Dyn) {
        Dyn { name: NAME.to_owned(), version }
    }

    fn destructor() -> (r: Option<u16>) {
        Some(0)
    }

    proof fn lemma_unit(&self, buf: Seq<u8>, fds: Seq<Fd>) {
    }
}

} // verus!
