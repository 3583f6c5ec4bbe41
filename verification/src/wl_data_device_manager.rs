//! data transfer interface
//!
//! The wl_data_device_manager is a singleton global object that
//! provides access to inter-client data transfer mechanisms such as
//! copy-and-paste and drag-and-drop.  These mechanisms are tied to
//! a wl_seat and this interface lets a client get a wl_data_device
//! corresponding to a wl_seat.
//!
//! Depending on the version bound, the objects created from the bound
//! wl_data_device_manager object will have different requirements for
//! functioning properly. See wl_data_source.set_actions,
//! wl_data_offer.accept and wl_data_offer.finish for details.
//!
#![allow(non_camel_case_types)]
use vstd::prelude::*;
use crate::objects::{Dyn, Object};
use crate::wire::{u32_wire, write_at, flag_names, names_of, join_names, join_text, Codec, Decoded, Dsr, Fd, Ser, WireEnum};
use vstd::std_specs::convert::{FromSpecImpl, TryFromSpecImpl};
use vstd::std_specs::ops::{BitAndSpec, BitAndSpecImpl, BitOrSpec, BitOrSpecImpl};
use core::num::TryFromIntError;

pub mod request;
pub mod event;

verus! {

pub const NAME: &'static str = "wl_data_device_manager";

pub const VERSION: u32 = 3;

/// drag and drop actions
///
/// This is a bitmask of the available/preferred actions in a
/// drag-and-drop operation.
///
/// In the compositor, the selected action is a result of matching the
/// actions offered by the source and destination sides.  "action" events
/// with a "none" action will be sent to both source and destination if
/// there is no match. All further checks will effectively happen on
/// (source actions ∩ destination actions).
///
/// In addition, compositors may also pick different actions in
/// reaction to key modifiers being pressed. One common design that
/// is used in major toolkits (and the behavior recommended for
/// compositors) is:
///
/// - If no modifiers are pressed, the first match (in bit order)
/// will be used.
/// - Pressing Shift selects "move", if enabled in the mask.
/// - Pressing Control selects "copy", if enabled in the mask.
///
/// Behavior beyond that is considered implementation-dependent.
/// Compositors may for example bind other modifiers (like Alt/Meta)
/// or drags initiated with other buttons than BTN_LEFT to specific
/// actions (e.g. "ask").
///
#[derive(Debug, Clone, Copy, PartialEq, Eq, Hash, Default)]
pub struct dnd_action {
    pub flags: u32,
}

#[allow(non_snake_case)]
impl dnd_action {
    /// no action
    pub fn none() -> (r: dnd_action)
        ensures
            r.flags == 0,
    {
        dnd_action { flags: 0 }
    }

    /// copy action
    pub fn copy() -> (r: dnd_action)
        ensures
            r.flags == 1,
    {
        dnd_action { flags: 1 }
    }

    /// move action
    pub fn move_() -> (r: dnd_action)
        ensures
            r.flags == 2,
    {
        dnd_action { flags: 2 }
    }

    /// ask action
    pub fn ask() -> (r: dnd_action)
        ensures
            r.flags == 4,
    {
        dnd_action { flags: 4 }
    }

    /// No flag set.
    pub fn EMPTY() -> (r: dnd_action)
        ensures
            r.flags == 0,
    {
        dnd_action { flags: 0 }
    }

    /// Every flag of the enumeration set.
    pub fn ALL() -> (r: dnd_action)
        ensures
            r.flags == 7,
    {
        dnd_action { flags: 7 }
    }

    /// Each named flag, with its name.
    pub fn EACH() -> (r: [(&'static str, dnd_action); 4])
        ensures
            r@ == seq![("none", (dnd_action { flags: 0u32 })), ("copy", (dnd_action { flags: 1u32 })), ("move_", (dnd_action { flags: 2u32 })), ("ask", (dnd_action { flags: 4u32 }))],
    {
        let r = [("none", dnd_action::none()), ("copy", dnd_action::copy()), ("move_", dnd_action::move_()), ("ask", dnd_action::ask())];
        assert(r@ =~= seq![("none", (dnd_action { flags: 0u32 })), ("copy", (dnd_action { flags: 1u32 })), ("move_", (dnd_action { flags: 2u32 })), ("ask", (dnd_action { flags: 4u32 }))]);
        r
    }

    /// The names of the flags that are set, in order; `EMPTY` when none is.
    pub fn names(&self) -> (r: Vec<&'static str>)
        ensures
            r@ == flag_names(self.flags, seq![("none", 0u32), ("copy", 1u32), ("move_", 2u32), ("ask", 4u32)]),
    {
        let each: [(&'static str, u32); 4] = [("none", 0u32), ("copy", 1u32), ("move_", 2u32), ("ask", 4u32)];
        proof {
            assert(each@ =~= seq![("none", 0u32), ("copy", 1u32), ("move_", 2u32), ("ask", 4u32)]);
        }
        names_of(self.flags, &each)
    }

    /// The set flags as text: their names joined by `|`, or `EMPTY`.
    pub fn debug_string(&self) -> (r: String)
        ensures
            r@ == join_names(flag_names(self.flags, seq![("none", 0u32), ("copy", 1u32), ("move_", 2u32), ("ask", 4u32)])),
    {
        let names = self.names();
        join_text(&names)
    }

    /// Whether every flag of `rhs` is set in `self`.
    pub fn contains(&self, rhs: dnd_action) -> (r: bool)
        ensures
            r == (self.flags & rhs.flags == rhs.flags),
    {
        (self.flags & rhs.flags) == rhs.flags
    }

    /// The union of two sets of flags contains each of them.
    pub proof fn lemma_union_contains(a: dnd_action, b: dnd_action)
        ensures
            (a.flags | b.flags) & a.flags == a.flags,
            (a.flags | b.flags) & b.flags == b.flags,
    {
        let (x, y) = (a.flags, b.flags);
        assert((x | y) & x == x && (x | y) & y == y) by (bit_vector);
    }

    /// `|` is the union of two flag sets and `&` their intersection, bit by
    /// bit: the union holds every flag of each, the intersection only flags of both.
    pub proof fn lemma_bit_ops(a: dnd_action, b: dnd_action)
        ensures
            BitOrSpec::bitor_spec(a, b).flags == a.flags | b.flags,
            BitAndSpec::bitand_spec(a, b).flags == a.flags & b.flags,
            BitOrSpec::bitor_spec(a, b).flags & a.flags == a.flags,
            BitOrSpec::bitor_spec(a, b).flags & b.flags == b.flags,
            BitAndSpec::bitand_spec(a, b).flags & a.flags == BitAndSpec::bitand_spec(a, b).flags,
            BitAndSpec::bitand_spec(a, b).flags & b.flags == BitAndSpec::bitand_spec(a, b).flags,
    {
        let (x, y) = (a.flags, b.flags);
        assert((x | y) & x == x && (x | y) & y == y && (x & y) & x == x & y && (x & y) & y == x & y)
            by (bit_vector);
    }
}

impl core::ops::BitOr for dnd_action {
    type Output = dnd_action;

    fn bitor(self, rhs: dnd_action) -> (r: dnd_action) {
        dnd_action { flags: self.flags | rhs.flags }
    }
}

impl BitOrSpecImpl for dnd_action {
    open spec fn obeys_bitor_spec() -> bool {
        true
    }

    open spec fn bitor_req(self, rhs: dnd_action) -> bool {
        true
    }

    open spec fn bitor_spec(self, rhs: dnd_action) -> dnd_action {
        dnd_action { flags: self.flags | rhs.flags }
    }
}

impl core::ops::BitAnd for dnd_action {
    type Output = dnd_action;

    fn bitand(self, rhs: dnd_action) -> (r: dnd_action) {
        dnd_action { flags: self.flags & rhs.flags }
    }
}

impl BitAndSpecImpl for dnd_action {
    open spec fn obeys_bitand_spec() -> bool {
        true
    }

    open spec fn bitand_req(self, rhs: dnd_action) -> bool {
        true
    }

    open spec fn bitand_spec(self, rhs: dnd_action) -> dnd_action {
        dnd_action { flags: self.flags & rhs.flags }
    }
}

impl Ser for dnd_action {
    open spec fn ser_ok(&self) -> bool {
        true
    }

    open spec fn ser_bytes(&self) -> Seq<u8> {
        u32_wire(self.flags)
    }

    open spec fn ser_fds(&self) -> Seq<Fd> {
        Seq::empty()
    }

    fn wire_len(&self) -> (n: usize) {
        4
    }

    fn checked_len(&self) -> (r: Option<usize>) {
        Some(4)
    }

    open spec fn ser_fits(&self, cap: int) -> bool {
        true
    }

    fn serialize(self, buf: &mut [u8], fds: &mut Vec<Fd>) -> (r: Result<usize, &'static str>) {
        self.flags.serialize(buf, fds)
    }

    proof fn lemma_fits(&self, cap: int) {
    }
}

impl DeepView for dnd_action {
    type V = dnd_action;

    open spec fn deep_view(&self) -> dnd_action {
        *self
    }
}

impl Dsr for dnd_action {
    open spec fn dsr_spec(buf: Seq<u8>, fds: Seq<Fd>) -> Decoded<dnd_action> {
        match u32::dsr_spec(buf, fds) {
            Decoded::Value(flags, len, left) => Decoded::Value(dnd_action { flags }, len, left),
            Decoded::Failure(e, left) => Decoded::Failure(e, left),
            Decoded::Undefined => Decoded::Undefined,
        }
    }

    fn try_deserialize(buf: &[u8], fds: &mut Vec<Fd>) -> (r: Option<Result<(dnd_action, usize), &'static str>>) {
        match u32::try_deserialize(buf, fds) {
            Some(Ok((flags, n))) => Some(Ok((dnd_action { flags }, n))),
            Some(Err(e)) => Some(Err(e)),
            None => None,
        }
    }
}

impl Codec for dnd_action {
    open spec fn rt_ok(&self) -> bool {
        true
    }

    proof fn lemma_roundtrip(&self, tail: Seq<u8>, base: Seq<Fd>) {
        self.flags.lemma_roundtrip(tail, base);
    }
}

/// The interface's run-time name is its protocol name.
pub proof fn lemma_interface_name()
    ensures
        <Obj as Object>::interface_name() == "wl_data_device_manager"@,
{
}


#[derive(Debug, Clone, Copy)]
pub struct wl_data_device_manager;

pub type Obj = wl_data_device_manager;

#[allow(non_upper_case_globals)]
pub const Obj: Obj = wl_data_device_manager;

impl Ser for wl_data_device_manager {
    open spec fn ser_ok(&self) -> bool {
        true
    }

    open spec fn ser_bytes(&self) -> Seq<u8> {
        Seq::empty()
    }

    open spec fn ser_fds(&self) -> Seq<Fd> {
        Seq::empty()
    }

    fn wire_len(&self) -> (n: usize) {
        0
    }

    fn checked_len(&self) -> (r: Option<usize>) {
        Some(0)
    }

    open spec fn ser_fits(&self, cap: int) -> bool {
        true
    }

    fn serialize(self, buf: &mut [u8], fds: &mut Vec<Fd>) -> (r: Result<usize, &'static str>) {
        assert(buf@ =~= write_at(old(buf)@, 0, Seq::<u8>::empty()));
        assert(fds@ =~= old(fds)@ + Seq::<Fd>::empty());
        Ok(0)
    }

    proof fn lemma_fits(&self, cap: int) {
    }
}

impl DeepView for wl_data_device_manager {
    type V = ();

    open spec fn deep_view(&self) -> () {
        ()
    }
}

impl Dsr for wl_data_device_manager {
    open spec fn dsr_spec(buf: Seq<u8>, fds: Seq<Fd>) -> Decoded<()> {
        Decoded::Value((), 0, fds)
    }

    fn try_deserialize(buf: &[u8], fds: &mut Vec<Fd>) -> (r: Option<Result<(wl_data_device_manager, usize), &'static str>>) {
        Some(Ok((wl_data_device_manager, 0)))
    }
}

impl Codec for wl_data_device_manager {
    open spec fn rt_ok(&self) -> bool {
        true
    }

    proof fn lemma_roundtrip(&self, tail: Seq<u8>, base: Seq<Fd>) {
        assert(Seq::<Fd>::empty().reverse() =~= Seq::<Fd>::empty());
        assert(base + Seq::<Fd>::empty() =~= base);
    }
}

impl Object for wl_data_device_manager {
    open spec fn interface_name() -> Seq<char> {
        NAME@
    }

    open spec fn destructor_op() -> Option<u16> {
        None
    }

    fn new_obj() -> (r: wl_data_device_manager) {
        wl_data_device_manager
    }

    fn new_dyn(version: u32) -> (d: Dyn) {
        Dyn { name: NAME.to_owned(), version }
    }

    fn destructor() -> (r: Option<u16>) {
        None
    }

    proof fn lemma_unit(&self, buf: Seq<u8>, fds: Seq<Fd>) {
    }
}

} // verus!
