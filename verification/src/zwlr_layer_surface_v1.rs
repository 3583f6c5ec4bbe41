//! layer metadata interface
//!
//! An interface that may be implemented by a wl_surface, for surfaces that
//! are designed to be rendered as a layer of a stacked desktop-like
//! environment.
//!
//! Layer surface state (layer, size, anchor, exclusive zone,
//! margin, interactivity) is double-buffered, and will be applied at the
//! time wl_surface.commit of the corresponding wl_surface is called.
//!
//! Attaching a null buffer to a layer surface unmaps it.
//!
//! Unmapping a layer_surface means that the surface cannot be shown by the
//! compositor until it is explicitly mapped again. The layer_surface
//! returns to the state it had right after layer_shell.get_layer_surface.
//! The client can re-map the surface by performing a commit without any
//! buffer attached, waiting for a configure event and handling it as usual.
//!
#![allow(non_camel_case_types)]
use vstd::prelude::*;
use crate::objects::{Dyn, Object};
use crate::wire::{u32_wire, write_at, flag_names, names_of, join_names, join_text, Codec, Decoded, Dsr, Fd, Ser, WireEnum};
use vstd::std_specs::convert::{FromSpecImpl, TryFromSpecImpl};
use vstd::std_specs::ops::{BitAndSpec, BitAndSpecImpl, BitOrSpec, BitOrSpecImpl};
use core::num::TryFromIntError;

pub mod request;
pub mod event;

verus! {

pub const NAME: &'static str = "zwlr_layer_surface_v1";

pub const VERSION: u32 = 4;

/// types of keyboard interaction possible for a layer shell surface
///
/// Types of keyboard interaction possible for layer shell surfaces. The
/// rationale for this is twofold: (1) some applications are not interested
/// in keyboard events and not allowing them to be focused can improve the
/// desktop experience; (2) some applications will want to take exclusive
/// keyboard focus.
///
#[derive(Debug, Clone, Copy, PartialEq, Eq, Hash)]
pub enum keyboard_interactivity {
    /// no keyboard focus is possible
    ///
    /// This value indicates that this surface is not interested in keyboard
    /// events and the compositor should never assign it the keyboard focus.
    ///
    /// This is the default value, set for newly created layer shell surfaces.
    ///
    /// This is useful for e.g. desktop widgets that display information or
    /// only have interaction with non-keyboard input devices.
    ///
    none,
    /// request exclusive keyboard focus
    ///
    /// Request exclusive keyboard focus if this surface is above the shell surface layer.
    ///
    /// For the top and overlay layers, the seat will always give
    /// exclusive keyboard focus to the top-most layer which has keyboard
    /// interactivity set to exclusive. If this layer contains multiple
    /// surfaces with keyboard interactivity set to exclusive, the compositor
    /// determines the one receiving keyboard events in an implementation-
    /// defined manner. In this case, no guarantee is made when this surface
    /// will receive keyboard focus (if ever).
    ///
    /// For the bottom and background layers, the compositor is allowed to use
    /// normal focus semantics.
    ///
    /// This setting is mainly intended for applications that need to ensure
    /// they receive all keyboard events, such as a lock screen or a password
    /// prompt.
    ///
    exclusive,
    /// request regular keyboard focus semantics
    ///
    /// This requests the compositor to allow this surface to be focused and
    /// unfocused by the user in an implementation-defined manner. The user
    /// should be able to unfocus this surface even regardless of the layer
    /// it is on.
    ///
    /// Typically, the compositor will want to use its normal mechanism to
    /// manage keyboard focus between layer shell surfaces with this setting
    /// and regular toplevels on the desktop layer (e.g. click to focus).
    /// Nevertheless, it is possible for a compositor to require a special
    /// interaction to focus or unfocus layer shell surfaces (e.g. requiring
    /// a click even if focus follows the mouse normally, or providing a
    /// keybinding to switch focus between layers).
    ///
    /// This setting is mainly intended for desktop shell components (e.g.
    /// panels) that allow keyboard interaction. Using this option can allow
    /// implementing a desktop shell that can be fully usable without the
    /// mouse.
    ///
    on_demand,
}

impl WireEnum for keyboard_interactivity {
    open spec fn to_wire(self) -> u32 {
        match self {
            keyboard_interactivity::none => 0,
            keyboard_interactivity::exclusive => 1,
            keyboard_interactivity::on_demand => 2,
        }
    }

    open spec fn of_wire(v: u32) -> Option<keyboard_interactivity> {
        match v {
            0 => Some(keyboard_interactivity::none),
            1 => Some(keyboard_interactivity::exclusive),
            2 => Some(keyboard_interactivity::on_demand),
            _ => None,
        }
    }

    proof fn lemma_wire_enum(self, v: u32) {
    }
}

impl keyboard_interactivity {
    /// The word that stands for the entry.
    fn to_u32(self) -> (r: u32)
        ensures
            r == self.to_wire(),
    {
        match self {
            keyboard_interactivity::none => 0,
            keyboard_interactivity::exclusive => 1,
            keyboard_interactivity::on_demand => 2,
        }
    }

    /// The entry that a word stands for, if any.
    fn from_u32(v: u32) -> (r: Option<keyboard_interactivity>)
        ensures
            r == keyboard_interactivity::of_wire(v),
    {
        match v {
            0 => Some(keyboard_interactivity::none),
            1 => Some(keyboard_interactivity::exclusive),
            2 => Some(keyboard_interactivity::on_demand),
            _ => None,
        }
    }
}

impl From<keyboard_interactivity> for u32 {
    fn from(v: keyboard_interactivity) -> (r: u32) {
        v.to_u32()
    }
}

impl FromSpecImpl<keyboard_interactivity> for u32 {
    open spec fn obeys_from_spec() -> bool {
        true
    }

    open spec fn from_spec(v: keyboard_interactivity) -> u32 {
        v.to_wire()
    }
}

impl TryFrom<u32> for keyboard_interactivity {
    type Error = TryFromIntError;

    fn try_from(v: u32) -> (r: Result<keyboard_interactivity, TryFromIntError>) {
        match keyboard_interactivity::from_u32(v) {
            Some(e) => Ok(e),
            None => match u32::try_from(-1i32) {
                Ok(_) => {
                    assert(false);
                    Ok(keyboard_interactivity::none)
                },
                Err(e) => Err(e),
            },
        }
    }
}

impl TryFromSpecImpl<u32> for keyboard_interactivity {
    open spec fn obeys_try_from_spec() -> bool {
        true
    }

    open spec fn try_from_spec(v: u32) -> Result<keyboard_interactivity, TryFromIntError> {
        match keyboard_interactivity::of_wire(v) {
            Some(e) => Ok(e),
            None => Err(arbitrary()),
        }
    }
}

impl Ser for keyboard_interactivity {
    open spec fn ser_ok(&self) -> bool {
        true
    }

    open spec fn ser_bytes(&self) -> Seq<u8> {
        u32_wire(self.to_wire())
    }

    open spec fn ser_fds(&self) -> Seq<Fd> {
        Seq::empty()
    }

    fn wire_len(&self) -> (n: usize) {
        4
    }

    fn checked_len(&self) -> (r: Option<usize>) {
        Some(4)
    }

    open spec fn ser_fits(&self, cap: int) -> bool {
        true
    }

    fn serialize(self, buf: &mut [u8], fds: &mut Vec<Fd>) -> (r: Result<usize, &'static str>) {
        self.to_u32().serialize(buf, fds)
    }

    proof fn lemma_fits(&self, cap: int) {
    }
}

impl DeepView for keyboard_interactivity {
    type V = keyboard_interactivity;

    open spec fn deep_view(&self) -> keyboard_interactivity {
        *self
    }
}

impl Dsr for keyboard_interactivity {
    open spec fn dsr_spec(buf: Seq<u8>, fds: Seq<Fd>) -> Decoded<keyboard_interactivity> {
        match u32::dsr_spec(buf, fds) {
            Decoded::Value(i, n, left) => match keyboard_interactivity::of_wire(i) {
                Some(v) => Decoded::Value(v, n, left),
                None => Decoded::Failure("invalid value for keyboard_interactivity", left),
            },
            Decoded::Failure(e, left) => Decoded::Failure(e, left),
            Decoded::Undefined => Decoded::Undefined,
        }
    }

    fn try_deserialize(buf: &[u8], fds: &mut Vec<Fd>) -> (r: Option<Result<(keyboard_interactivity, usize), &'static str>>) {
        let (i, n) = match u32::try_deserialize(buf, fds) {
            Some(Ok(p)) => p,
            Some(Err(e)) => return Some(Err(e)),
            None => return None,
        };
        match keyboard_interactivity::from_u32(i) {
            Some(v) => Some(Ok((v, n))),
            None => Some(Err("invalid value for keyboard_interactivity")),
        }
    }
}

impl Codec for keyboard_interactivity {
    open spec fn rt_ok(&self) -> bool {
        true
    }

    proof fn lemma_roundtrip(&self, tail: Seq<u8>, base: Seq<Fd>) {
        self.to_wire().lemma_roundtrip(tail, base);
        self.lemma_wire_enum(0);
    }
}
impl keyboard_interactivity {
    /// The protocol's word for each entry, and no other word names an entry.
    pub proof fn lemma_wire_values()
        ensures
            keyboard_interactivity::none.to_wire() == 0,
            keyboard_interactivity::exclusive.to_wire() == 1,
            keyboard_interactivity::on_demand.to_wire() == 2,
            keyboard_interactivity::of_wire(0) == Some(keyboard_interactivity::none),
            keyboard_interactivity::of_wire(1) == Some(keyboard_interactivity::exclusive),
            keyboard_interactivity::of_wire(2) == Some(keyboard_interactivity::on_demand),
            forall|v: u32| #[trigger] keyboard_interactivity::of_wire(v) is Some ==> (v == 0 || v == 1 || v == 2),
    {
    }
}


#[derive(Debug, Clone, Copy, PartialEq, Eq, Hash)]
pub enum error {
    /// provided surface state is invalid
    invalid_surface_state,
    /// size is invalid
    invalid_size,
    /// anchor bitfield is invalid
    invalid_anchor,
    /// keyboard interactivity is invalid
    invalid_keyboard_interactivity,
}

impl WireEnum for error {
    open spec fn to_wire(self) -> u32 {
        match self {
            error::invalid_surface_state => 0,
            error::invalid_size => 1,
            error::invalid_anchor => 2,
            error::invalid_keyboard_interactivity => 3,
        }
    }

    open spec fn of_wire(v: u32) -> Option<error> {
        match v {
            0 => Some(error::invalid_surface_state),
            1 => Some(error::invalid_size),
            2 => Some(error::invalid_anchor),
            3 => Some(error::invalid_keyboard_interactivity),
            _ => None,
        }
    }

    proof fn lemma_wire_enum(self, v: u32) {
    }
}

impl error {
    /// The word that stands for the entry.
    fn to_u32(self) -> (r: u32)
        ensures
            r == self.to_wire(),
    {
        match self {
            error::invalid_surface_state => 0,
            error::invalid_size => 1,
            error::invalid_anchor => 2,
            error::invalid_keyboard_interactivity => 3,
        }
    }

    /// The entry that a word stands for, if any.
    fn from_u32(v: u32) -> (r: Option<error>)
        ensures
            r == error::of_wire(v),
    {
        match v {
            0 => Some(error::invalid_surface_state),
            1 => Some(error::invalid_size),
            2 => Some(error::invalid_anchor),
            3 => Some(error::invalid_keyboard_interactivity),
            _ => None,
        }
    }
}

impl From<error> for u32 {
    fn from(v: error) -> (r: u32) {
        v.to_u32()
    }
}

impl FromSpecImpl<error> for u32 {
    open spec fn obeys_from_spec() -> bool {
        true
    }

    open spec fn from_spec(v: error) -> u32 {
        v.to_wire()
    }
}

impl TryFrom<u32> for error {
    type Error = TryFromIntError;

    fn try_from(v: u32) -> (r: Result<error, TryFromIntError>) {
        match error::from_u32(v) {
            Some(e) => Ok(e),
            None => match u32::try_from(-1i32) {
                Ok(_) => {
                    assert(false);
                    Ok(error::invalid_surface_state)
                },
                Err(e) => Err(e),
            },
        }
    }
}

impl TryFromSpecImpl<u32> for error {
    open spec fn obeys_try_from_spec() -> bool {
        true
    }

    open spec fn try_from_spec(v: u32) -> Result<error, TryFromIntError> {
        match error::of_wire(v) {
            Some(e) => Ok(e),
            None => Err(arbitrary()),
        }
    }
}

impl Ser for error {
    open spec fn ser_ok(&self) -> bool {
        true
    }

    open spec fn ser_bytes(&self) -> Seq<u8> {
        u32_wire(self.to_wire())
    }

    open spec fn ser_fds(&self) -> Seq<Fd> {
        Seq::empty()
    }

    fn wire_len(&self) -> (n: usize) {
        4
    }

    fn checked_len(&self) -> (r: Option<usize>) {
        Some(4)
    }

    open spec fn ser_fits(&self, cap: int) -> bool {
        true
    }

    fn serialize(self, buf: &mut [u8], fds: &mut Vec<Fd>) -> (r: Result<usize, &'static str>) {
        self.to_u32().serialize(buf, fds)
    }

    proof fn lemma_fits(&self, cap: int) {
    }
}

impl DeepView for error {
    type V = error;

    open spec fn deep_view(&self) -> error {
        *self
    }
}

impl Dsr for error {
    open spec fn dsr_spec(buf: Seq<u8>, fds: Seq<Fd>) -> Decoded<error> {
        match u32::dsr_spec(buf, fds) {
            Decoded::Value(i, n, left) => match error::of_wire(i) {
                Some(v) => Decoded::Value(v, n, left),
                None => Decoded::Failure("invalid value for error", left),
            },
            Decoded::Failure(e, left) => Decoded::Failure(e, left),
            Decoded::Undefined => Decoded::Undefined,
        }
    }

    fn try_deserialize(buf: &[u8], fds: &mut Vec<Fd>) -> (r: Option<Result<(error, usize), &'static str>>) {
        let (i, n) = match u32::try_deserialize(buf, fds) {
            Some(Ok(p)) => p,
            Some(Err(e)) => return Some(Err(e)),
            None => return None,
        };
        match error::from_u32(i) {
            Some(v) => Some(Ok((v, n))),
            None => Some(Err("invalid value for error")),
        }
    }
}

impl Codec for error {
    open spec fn rt_ok(&self) -> bool {
        true
    }

    proof fn lemma_roundtrip(&self, tail: Seq<u8>, base: Seq<Fd>) {
        self.to_wire().lemma_roundtrip(tail, base);
        self.lemma_wire_enum(0);
    }
}
impl error {
    /// The protocol's word for each entry, and no other word names an entry.
    pub proof fn lemma_wire_values()
        ensures
            error::invalid_surface_state.to_wire() == 0,
            error::invalid_size.to_wire() == 1,
            error::invalid_anchor.to_wire() == 2,
            error::invalid_keyboard_interactivity.to_wire() == 3,
            error::of_wire(0) == Some(error::invalid_surface_state),
            error::of_wire(1) == Some(error::invalid_size),
            error::of_wire(2) == Some(error::invalid_anchor),
            error::of_wire(3) == Some(error::invalid_keyboard_interactivity),
            forall|v: u32| #[trigger] error::of_wire(v) is Some ==> (v == 0 || v == 1 || v == 2 || v == 3),
    {
    }
}


#[derive(Debug, Clone, Copy, PartialEq, Eq, Hash, Default)]
pub struct anchor {
    pub flags: u32,
}

#[allow(non_snake_case)]
impl anchor {
    /// the top edge of the anchor rectangle
    pub fn top() -> (r: anchor)
        ensures
            r.flags == 1,
    {
        anchor { flags: 1 }
    }

    /// the bottom edge of the anchor rectangle
    pub fn bottom() -> (r: anchor)
        ensures
            r.flags == 2,
    {
        anchor { flags: 2 }
    }

    /// the left edge of the anchor rectangle
    pub fn left() -> (r: anchor)
        ensures
            r.flags == 4,
    {
        anchor { flags: 4 }
    }

    /// the right edge of the anchor rectangle
    pub fn right() -> (r: anchor)
        ensures
            r.flags == 8,
    {
        anchor { flags: 8 }
    }

    /// No flag set.
    pub fn EMPTY() -> (r: anchor)
        ensures
            r.flags == 0,
    {
        anchor { flags: 0 }
    }

    /// Every flag of the enumeration set.
    pub fn ALL() -> (r: anchor)
        ensures
            r.flags == 15,
    {
        anchor { flags: 15 }
    }

    /// Each named flag, with its name.
    pub fn EACH() -> (r: [(&'static str, anchor); 4])
        ensures
            r@ == seq![("top", (anchor { flags: 1u32 })), ("bottom", (anchor { flags: 2u32 })), ("left", (anchor { flags: 4u32 })), ("right", (anchor { flags: 8u32 }))],
    {
        let r = [("top", anchor::top()), ("bottom", anchor::bottom()), ("left", anchor::left()), ("right", anchor::right())];
        assert(r@ =~= seq![("top", (anchor { flags: 1u32 })), ("bottom", (anchor { flags: 2u32 })), ("left", (anchor { flags: 4u32 })), ("right", (anchor { flags: 8u32 }))]);
        r
    }

    /// The names of the flags that are set, in order; `EMPTY` when none is.
    pub fn names(&self) -> (r: Vec<&'static str>)
        ensures
            r@ == flag_names(self.flags, seq![("top", 1u32), ("bottom", 2u32), ("left", 4u32), ("right", 8u32)]),
    {
        let each: [(&'static str, u32); 4] = [("top", 1u32), ("bottom", 2u32), ("left", 4u32), ("right", 8u32)];
        proof {
            assert(each@ =~= seq![("top", 1u32), ("bottom", 2u32), ("left", 4u32), ("right", 8u32)]);
        }
        names_of(self.flags, &each)
    }

    /// The set flags as text: their names joined by `|`, or `EMPTY`.
    pub fn debug_string(&self) -> (r: String)
        ensures
            r@ == join_names(flag_names(self.flags, seq![("top", 1u32), ("bottom", 2u32), ("left", 4u32), ("right", 8u32)])),
    {
        let names = self.names();
        join_text(&names)
    }

    /// Whether every flag of `rhs` is set in `self`.
    pub fn contains(&self, rhs: anchor) -> (r: bool)
        ensures
            r == (self.flags & rhs.flags == rhs.flags),
    {
        (self.flags & rhs.flags) == rhs.flags
    }

    /// The union of two sets of flags contains each of them.
    pub proof fn lemma_union_contains(a: anchor, b: anchor)
        ensures
            (a.flags | b.flags) & a.flags == a.flags,
            (a.flags | b.flags) & b.flags == b.flags,
    {
        let (x, y) = (a.flags, b.flags);
        assert((x | y) & x == x && (x | y) & y == y) by (bit_vector);
    }

    /// `|` is the union of two flag sets and `&` their intersection, bit by
    /// bit: the union holds every flag of each, the intersection only flags of both.
    pub proof fn lemma_bit_ops(a: anchor, b: anchor)
        ensures
            BitOrSpec::bitor_spec(a, b).flags == a.flags | b.flags,
            BitAndSpec::bitand_spec(a, b).flags == a.flags & b.flags,
            BitOrSpec::bitor_spec(a, b).flags & a.flags == a.flags,
            BitOrSpec::bitor_spec(a, b).flags & b.flags == b.flags,
            BitAndSpec::bitand_spec(a, b).flags & a.flags == BitAndSpec::bitand_spec(a, b).flags,
            BitAndSpec::bitand_spec(a, b).flags & b.flags == BitAndSpec::bitand_spec(a, b).flags,
    {
        let (x, y) = (a.flags, b.flags);
        assert((x | y) & x == x && (x | y) & y == y && (x & y) & x == x & y && (x & y) & y == x & y)
            by (bit_vector);
    }
}

impl core::ops::BitOr for anchor {
    type Output = anchor;

    fn bitor(self, rhs: anchor) -> (r: anchor) {
        anchor { flags: self.flags | rhs.flags }
    }
}

impl BitOrSpecImpl for anchor {
    open spec fn obeys_bitor_spec() -> bool {
        true
    }

    open spec fn bitor_req(self, rhs: anchor) -> bool {
        true
    }

    open spec fn bitor_spec(self, rhs: anchor) -> anchor {
        anchor { flags: self.flags | rhs.flags }
    }
}

impl core::ops::BitAnd for anchor {
    type Output = anchor;

    fn bitand(self, rhs: anchor) -> (r: anchor) {
        anchor { flags: self.flags & rhs.flags }
    }
}

impl BitAndSpecImpl for anchor {
    open spec fn obeys_bitand_spec() -> bool {
        true
    }

    open spec fn bitand_req(self, rhs: anchor) -> bool {
        true
    }

    open spec fn bitand_spec(self, rhs: anchor) -> anchor {
        anchor { flags: self.flags & rhs.flags }
    }
}

impl Ser for anchor {
    open spec fn ser_ok(&self) -> bool {
        true
    }

    open spec fn ser_bytes(&self) -> Seq<u8> {
        u32_wire(self.flags)
    }

    open spec fn ser_fds(&self) -> Seq<Fd> {
        Seq::empty()
    }

    fn wire_len(&self) -> (n: usize) {
        4
    }

    fn checked_len(&self) -> (r: Option<usize>) {
        Some(4)
    }

    open spec fn ser_fits(&self, cap: int) -> bool {
        true
    }

    fn serialize(self, buf: &mut [u8], fds: &mut Vec<Fd>) -> (r: Result<usize, &'static str>) {
        self.flags.serialize(buf, fds)
    }

    proof fn lemma_fits(&self, cap: int) {
    }
}

impl DeepView for anchor {
    type V = anchor;

    open spec fn deep_view(&self) -> anchor {
        *self
    }
}

impl Dsr for anchor {
    open spec fn dsr_spec(buf: Seq<u8>, fds: Seq<Fd>) -> Decoded<anchor> {
        match u32::dsr_spec(buf, fds) {
            Decoded::Value(flags, len, left) => Decoded::Value(anchor { flags }, len, left),
            Decoded::Failure(e, left) => Decoded::Failure(e, left),
            Decoded::Undefined => Decoded::Undefined,
        }
    }

    fn try_deserialize(buf: &[u8], fds: &mut Vec<Fd>) -> (r: Option<Result<(anchor, usize), &'static str>>) {
        match u32::try_deserialize(buf, fds) {
            Some(Ok((flags, n))) => Some(Ok((anchor { flags }, n))),
            Some(Err(e)) => Some(Err(e)),
            None => None,
        }
    }
}

impl Codec for anchor {
    open spec fn rt_ok(&self) -> bool {
        true
    }

    proof fn lemma_roundtrip(&self, tail: Seq<u8>, base: Seq<Fd>) {
        self.flags.lemma_roundtrip(tail, base);
    }
}

/// The interface's run-time name is its protocol name.
pub proof fn lemma_interface_name()
    ensures
        <Obj as Object>::interface_name() == "zwlr_layer_surface_v1"@,
{
}


#[derive(Debug, Clone, Copy)]
pub struct zwlr_layer_surface_v1;

pub type Obj = zwlr_layer_surface_v1;

#[allow(non_upper_case_globals)]
pub const Obj: Obj = zwlr_layer_surface_v1;

impl Ser for zwlr_layer_surface_v1 {
    open spec fn ser_ok(&self) -> bool {
        true
    }

    open spec fn ser_bytes(&self) -> Seq<u8> {
        Seq::empty()
    }

    open spec fn ser_fds(&self) -> Seq<Fd> {
        Seq::empty()
    }

    fn wire_len(&self) -> (n: usize) {
        0
    }

    fn checked_len(&self) -> (r: Option<usize>) {
        Some(0)
    }

    open spec fn ser_fits(&self, cap: int) -> bool {
        true
    }

    fn serialize(self, buf: &mut [u8], fds: &mut Vec<Fd>) -> (r: Result<usize, &'static str>) {
        assert(buf@ =~= write_at(old(buf)@, 0, Seq::<u8>::empty()));
        assert(fds@ =~= old(fds)@ + Seq::<Fd>::empty());
        Ok(0)
    }

    proof fn lemma_fits(&self, cap: int) {
    }
}

impl DeepView for zwlr_layer_surface_v1 {
    type V = ();

    open spec fn deep_view(&self) -> () {
        ()
    }
}

impl Dsr for zwlr_layer_surface_v1 {
    open spec fn dsr_spec(buf: Seq<u8>, fds: Seq<Fd>) -> Decoded<()> {
        Decoded::Value((), 0, fds)
    }

    fn try_deserialize(buf: &[u8], fds: &mut Vec<Fd>) -> (r: Option<Result<(zwlr_layer_surface_v1, usize), &'static str>>) {
        Some(Ok((zwlr_layer_surface_v1, 0)))
    }
}

impl Codec for zwlr_layer_surface_v1 {
    open spec fn rt_ok(&self) -> bool {
        true
    }

    proof fn lemma_roundtrip(&self, tail: Seq<u8>, base: Seq<Fd>) {
        assert(Seq::<Fd>::empty().reverse() =~= Seq::<Fd>::empty());
        assert(base + Seq::<Fd>::empty() =~= base);
    }
}

impl Object for zwlr_layer_surface_v1 {
    open spec fn interface_name() -> Seq<char> {
        NAME@
    }

    open spec fn destructor_op() -> Option<u16> {
        Some(7)
    }

    fn new_obj() -> (r: zwlr_layer_surface_v1) {
        zwlr_layer_surface_v1
    }

    fn new_dyn(version: u32) -> (d: Dyn) {
        Dyn { name: NAME.to_owned(), version }
    }

    fn destructor() -> (r: Option<u16>) {
        Some(7)
    }

    proof fn lemma_unit(&self, buf: Seq<u8>, fds: Seq<Fd>) {
    }
}

} // verus!
