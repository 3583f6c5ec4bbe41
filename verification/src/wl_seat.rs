//! group of input devices
//!
//! A seat is a group of keyboards, pointer and touch devices. This
//! object is published as a global during start up, or when such a
//! device is hot plugged.  A seat typically has a pointer and
//! maintains a keyboard focus and a pointer focus.
//!
#![allow(non_camel_case_types)]
use vstd::prelude::*;
use crate::objects::{Dyn, Object};
use crate::wire::{u32_wire, write_at, flag_names, names_of, join_names, join_text, Codec, Decoded, Dsr, Fd, Ser, WireEnum};
use vstd::std_specs::convert::{FromSpecImpl, TryFromSpecImpl};
use vstd::std_specs::ops::{BitAndSpec, BitAndSpecImpl, BitOrSpec, BitOrSpecImpl};
use core::num::TryFromIntError;

pub mod request;
pub mod event;

verus! {

pub const NAME: &'static str = "wl_seat";

pub const VERSION: u32 = 9;

/// wl_seat error values
///
/// These errors can be emitted in response to wl_seat requests.
///
#[derive(Debug, Clone, Copy, PartialEq, Eq, Hash)]
pub enum error {
    /// get_pointer, get_keyboard or get_touch called on seat without the matching capability
    missing_capability,
}

impl WireEnum for error {
    open spec fn to_wire(self) -> u32 {
        match self {
            error::missing_capability => 0,
        }
    }

    open spec fn of_wire(v: u32) -> Option<error> {
        match v {
            0 => Some(error::missing_capability),
            _ => None,
        }
    }

    proof fn lemma_wire_enum(self, v: u32) {
    }
}

impl error {
    /// The word that stands for the entry.
    fn to_u32(self) -> (r: u32)
        ensures
            r == self.to_wire(),
    {
        match self {
            error::missing_capability => 0,
        }
    }

    /// The entry that a word stands for, if any.
    fn from_u32(v: u32) -> (r: Option<error>)
        ensures
            r == error::of_wire(v),
    {
        match v {
            0 => Some(error::missing_capability),
            _ => None,
        }
    }
}

impl From<error> for u32 {
    fn from(v: error) -> (r: u32) {
        v.to_u32()
    }
}

impl FromSpecImpl<error> for u32 {
    open spec fn obeys_from_spec() -> bool {
        true
    }

    open spec fn from_spec(v: error) -> u32 {
        v.to_wire()
    }
}

impl TryFrom<u32> for error {
    type Error = TryFromIntError;

    fn try_from(v: u32) -> (r: Result<error, TryFromIntError>) {
        match error::from_u32(v) {
            Some(e) => Ok(e),
            None => match u32::try_from(-1i32) {
                Ok(_) => {
                    assert(false);
                    Ok(error::missing_capability)
                },
                Err(e) => Err(e),
            },
        }
    }
}

impl TryFromSpecImpl<u32> for error {
    open spec fn obeys_try_from_spec() -> bool {
        true
    }

    open spec fn try_from_spec(v: u32) -> Result<error, TryFromIntError> {
        match error::of_wire(v) {
            Some(e) => Ok(e),
            None => Err(arbitrary()),
        }
    }
}

impl Ser for error {
    open spec fn ser_ok(&self) -> bool {
        true
    }

    open spec fn ser_bytes(&self) -> Seq<u8> {
        u32_wire(self.to_wire())
    }

    open spec fn ser_fds(&self) -> Seq<Fd> {
        Seq::empty()
    }

    fn wire_len(&self) -> (n: usize) {
        4
    }

    fn checked_len(&self) -> (r: Option<usize>) {
        Some(4)
    }

    open spec fn ser_fits(&self, cap: int) -> bool {
        true
    }

    fn serialize(self, buf: &mut [u8], fds: &mut Vec<Fd>) -> (r: Result<usize, &'static str>) {
        self.to_u32().serialize(buf, fds)
    }

    proof fn lemma_fits(&self, cap: int) {
    }
}

impl DeepView for error {
    type V = error;

    open spec fn deep_view(&self) -> error {
        *self
    }
}

impl Dsr for error {
    open spec fn dsr_spec(buf: Seq<u8>, fds: Seq<Fd>) -> Decoded<error> {
        match u32::dsr_spec(buf, fds) {
            Decoded::Value(i, n, left) => match error::of_wire(i) {
                Some(v) => Decoded::Value(v, n, left),
                None => Decoded::Failure("invalid value for error", left),
            },
            Decoded::Failure(e, left) => Decoded::Failure(e, left),
            Decoded::Undefined => Decoded::Undefined,
        }
    }

    fn try_deserialize(buf: &[u8], fds: &mut Vec<Fd>) -> (r: Option<Result<(error, usize), &'static str>>) {
        let (i, n) = match u32::try_deserialize(buf, fds) {
            Some(Ok(p)) => p,
            Some(Err(e)) => return Some(Err(e)),
            None => return None,
        };
        match error::from_u32(i) {
            Some(v) => Some(Ok((v, n))),
            None => Some(Err("invalid value for error")),
        }
    }
}

impl Codec for error {
    open spec fn rt_ok(&self) -> bool {
        true
    }

    proof fn lemma_roundtrip(&self, tail: Seq<u8>, base: Seq<Fd>) {
        self.to_wire().lemma_roundtrip(tail, base);
        self.lemma_wire_enum(0);
    }
}
impl error {
    /// The protocol's word for each entry, and no other word names an entry.
    pub proof fn lemma_wire_values()
        ensures
            error::missing_capability.to_wire() == 0,
            error::of_wire(0) == Some(error::missing_capability),
            forall|v: u32| #[trigger] error::of_wire(v) is Some ==> (v == 0),
    {
    }
}


/// seat capability bitmask
///
/// This is a bitmask of capabilities this seat has; if a member is
/// set, then it is present on the seat.
///
#[derive(Debug, Clone, Copy, PartialEq, Eq, Hash, Default)]
pub struct capability {
    pub flags: u32,
}

#[allow(non_snake_case)]
impl capability {
    /// the seat has pointer devices
    pub fn pointer() -> (r: capability)
        ensures
            r.flags == 1,
    {
        capability { flags: 1 }
    }

    /// the seat has one or more keyboards
    pub fn keyboard() -> (r: capability)
        ensures
            r.flags == 2,
    {
        capability { flags: 2 }
    }

    /// the seat has touch devices
    pub fn touch() -> (r: capability)
        ensures
            r.flags == 4,
    {
        capability { flags: 4 }
    }

    /// No flag set.
    pub fn EMPTY() -> (r: capability)
        ensures
            r.flags == 0,
    {
        capability { flags: 0 }
    }

    /// Every flag of the enumeration set.
    pub fn ALL() -> (r: capability)
        ensures
            r.flags == 7,
    {
        capability { flags: 7 }
    }

    /// Each named flag, with its name.
    pub fn EACH() -> (r: [(&'static str, capability); 3])
        ensures
            r@ == seq![("pointer", (capability { flags: 1u32 })), ("keyboard", (capability { flags: 2u32 })), ("touch", (capability { flags: 4u32 }))],
    {
        let r = [("pointer", capability::pointer()), ("keyboard", capability::keyboard()), ("touch", capability::touch())];
        assert(r@ =~= seq![("pointer", (capability { flags: 1u32 })), ("keyboard", (capability { flags: 2u32 })), ("touch", (capability { flags: 4u32 }))]);
        r
    }

    /// The names of the flags that are set, in order; `EMPTY` when none is.
    pub fn names(&self) -> (r: Vec<&'static str>)
        ensures
            r@ == flag_names(self.flags, seq![("pointer", 1u32), ("keyboard", 2u32), ("touch", 4u32)]),
    {
        let each: [(&'static str, u32); 3] = [("pointer", 1u32), ("keyboard", 2u32), ("touch", 4u32)];
        proof {
            assert(each@ =~= seq![("pointer", 1u32), ("keyboard", 2u32), ("touch", 4u32)]);
        }
        names_of(self.flags, &each)
    }

    /// The set flags as text: their names joined by `|`, or `EMPTY`.
    pub fn debug_string(&self) -> (r: String)
        ensures
            r@ == join_names(flag_names(self.flags, seq![("pointer", 1u32), ("keyboard", 2u32), ("touch", 4u32)])),
    {
        let names = self.names();
        join_text(&names)
    }

    /// Whether every flag of `rhs` is set in `self`.
    pub fn contains(&self, rhs: capability) -> (r: bool)
        ensures
            r == (self.flags & rhs.flags == rhs.flags),
    {
        (self.flags & rhs.flags) == rhs.flags
    }

    /// The union of two sets of flags contains each of them.
    pub proof fn lemma_union_contains(a: capability, b: capability)
        ensures
            (a.flags | b.flags) & a.flags == a.flags,
            (a.flags | b.flags) & b.flags == b.flags,
    {
        let (x, y) = (a.flags, b.flags);
        assert((x | y) & x == x && (x | y) & y == y) by (bit_vector);
    }

    /// `|` is the union of two flag sets and `&` their intersection, bit by
    /// bit: the union holds every flag of each, the intersection only flags of both.
    pub proof fn lemma_bit_ops(a: capability, b: capability)
        ensures
            BitOrSpec::bitor_spec(a, b).flags == a.flags | b.flags,
            BitAndSpec::bitand_spec(a, b).flags == a.flags & b.flags,
            BitOrSpec::bitor_spec(a, b).flags & a.flags == a.flags,
            BitOrSpec::bitor_spec(a, b).flags & b.flags == b.flags,
            BitAndSpec::bitand_spec(a, b).flags & a.flags == BitAndSpec::bitand_spec(a, b).flags,
            BitAndSpec::bitand_spec(a, b).flags & b.flags == BitAndSpec::bitand_spec(a, b).flags,
    {
        let (x, y) = (a.flags, b.flags);
        assert((x | y) & x == x && (x | y) & y == y && (x & y) & x == x & y && (x & y) & y == x & y)
            by (bit_vector);
    }
}

impl core::ops::BitOr for capability {
    type Output = capability;

    fn bitor(self, rhs: capability) -> (r: capability) {
        capability { flags: self.flags | rhs.flags }
    }
}

impl BitOrSpecImpl for capability {
    open spec fn obeys_bitor_spec() -> bool {
        true
    }

    open spec fn bitor_req(self, rhs: capability) -> bool {
        true
    }

    open spec fn bitor_spec(self, rhs: capability) -> capability {
        capability { flags: self.flags | rhs.flags }
    }
}

impl core::ops::BitAnd for capability {
    type Output = capability;

    fn bitand(self, rhs: capability) -> (r: capability) {
        capability { flags: self.flags & rhs.flags }
    }
}

impl BitAndSpecImpl for capability {
    open spec fn obeys_bitand_spec() -> bool {
        true
    }

    open spec fn bitand_req(self, rhs: capability) -> bool {
        true
    }

    open spec fn bitand_spec(self, rhs: capability) -> capability {
        capability { flags: self.flags & rhs.flags }
    }
}

impl Ser for capability {
    open spec fn ser_ok(&self) -> bool {
        true
    }

    open spec fn ser_bytes(&self) -> Seq<u8> {
        u32_wire(self.flags)
    }

    open spec fn ser_fds(&self) -> Seq<Fd> {
        Seq::empty()
    }

    fn wire_len(&self) -> (n: usize) {
        4
    }

    fn checked_len(&self) -> (r: Option<usize>) {
        Some(4)
    }

    open spec fn ser_fits(&self, cap: int) -> bool {
        true
    }

    fn serialize(self, buf: &mut [u8], fds: &mut Vec<Fd>) -> (r: Result<usize, &'static str>) {
        self.flags.serialize(buf, fds)
    }

    proof fn lemma_fits(&self, cap: int) {
    }
}

impl DeepView for capability {
    type V = capability;

    open spec fn deep_view(&self) -> capability {
        *self
    }
}

impl Dsr for capability {
    open spec fn dsr_spec(buf: Seq<u8>, fds: Seq<Fd>) -> Decoded<capability> {
        match u32::dsr_spec(buf, fds) {
            Decoded::Value(flags, len, left) => Decoded::Value(capability { flags }, len, left),
            Decoded::Failure(e, left) => Decoded::Failure(e, left),
            Decoded::Undefined => Decoded::Undefined,
        }
    }

    fn try_deserialize(buf: &[u8], fds: &mut Vec<Fd>) -> (r: Option<Result<(capability, usize), &'static str>>) {
        match u32::try_deserialize(buf, fds) {
            Some(Ok((flags, n))) => Some(Ok((capability { flags }, n))),
            Some(Err(e)) => Some(Err(e)),
            None => None,
        }
    }
}

impl Codec for capability {
    open spec fn rt_ok(&self) -> bool {
        true
    }

    proof fn lemma_roundtrip(&self, tail: Seq<u8>, base: Seq<Fd>) {
        self.flags.lemma_roundtrip(tail, base);
    }
}

/// The interface's run-time name is its protocol name.
pub proof fn lemma_interface_name()
    ensures
        <Obj as Object>::interface_name() == "wl_seat"@,
{
}


#[derive(Debug, Clone, Copy)]
pub struct wl_seat;

pub type Obj = wl_seat;

#[allow(non_upper_case_globals)]
pub const Obj: Obj = wl_seat;

impl Ser for wl_seat {
    open spec fn ser_ok(&self) -> bool {
        true
    }

    open spec fn ser_bytes(&self) -> Seq<u8> {
        Seq::empty()
    }

    open spec fn ser_fds(&self) -> Seq<Fd> {
        Seq::empty()
    }

    fn wire_len(&self) -> (n: usize) {
        0
    }

    fn checked_len(&self) -> (r: Option<usize>) {
        Some(0)
    }

    open spec fn ser_fits(&self, cap: int) -> bool {
        true
    }

    fn serialize(self, buf: &mut [u8], fds: &mut Vec<Fd>) -> (r: Result<usize, &'static str>) {
        assert(buf@ =~= write_at(old(buf)@, 0, Seq::<u8>::empty()));
        assert(fds@ =~= old(fds)@ + Seq::<Fd>::empty());
        Ok(0)
    }

    proof fn lemma_fits(&self, cap: int) {
    }
}

impl DeepView for wl_seat {
    type V = ();

    open spec fn deep_view(&self) -> () {
        ()
    }
}

impl Dsr for wl_seat {
    open spec fn dsr_spec(buf: Seq<u8>, fds: Seq<Fd>) -> Decoded<()> {
        Decoded::Value((), 0, fds)
    }

    fn try_deserialize(buf: &[u8], fds: &mut Vec<Fd>) -> (r: Option<Result<(wl_seat, usize), &'static str>>) {
        Some(Ok((wl_seat, 0)))
    }
}

impl Codec for wl_seat {
    open spec fn rt_ok(&self) -> bool {
        true
    }

    proof fn lemma_roundtrip(&self, tail: Seq<u8>, base: Seq<Fd>) {
        assert(Seq::<Fd>::empty().reverse() =~= Seq::<Fd>::empty());
        assert(base + Seq::<Fd>::empty() =~= base);
    }
}

impl Object for wl_seat {
    open spec fn interface_name() -> Seq<char> {
        NAME@
    }

    open spec fn destructor_op() -> Option<u16> {
        Some(3)
    }

    fn new_obj() -> (r: wl_seat) {
        wl_seat
    }

    fn new_dyn(version: u32) -> (d: Dyn) {
        Dyn { name: NAME.to_owned(), version }
    }

    fn destructor() -> (r: Option<u16>) {
        Some(3)
    }

    proof fn lemma_unit(&self, buf: Seq<u8>, fds: Seq<Fd>) {
    }
}

} // verus!
