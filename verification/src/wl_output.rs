//! compositor output region
//!
//! An output describes part of the compositor geometry.  The
//! compositor works in the 'compositor coordinate system' and an
//! output corresponds to a rectangular area in that space that is
//! actually visible.  This typically corresponds to a monitor that
//! displays part of the compositor space.  This object is published
//! as global during start up, or when a monitor is hotplugged.
//!
#![allow(non_camel_case_types)]
use vstd::prelude::*;
use crate::objects::{Dyn, Object};
use crate::wire::{u32_wire, write_at, flag_names, names_of, join_names, join_text, Codec, Decoded, Dsr, Fd, Ser, WireEnum};
use vstd::std_specs::convert::{FromSpecImpl, TryFromSpecImpl};
use vstd::std_specs::ops::{BitAndSpec, BitAndSpecImpl, BitOrSpec, BitOrSpecImpl};
use core::num::TryFromIntError;

pub mod request;
pub mod event;

verus! {

pub const NAME: &'static str = "wl_output";

pub const VERSION: u32 = 4;

/// subpixel geometry information
///
/// This enumeration describes how the physical
/// pixels on an output are laid out.
///
#[derive(Debug, Clone, Copy, PartialEq, Eq, Hash)]
pub enum subpixel {
    /// unknown geometry
    unknown,
    /// no geometry
    none,
    /// horizontal RGB
    horizontal_rgb,
    /// horizontal BGR
    horizontal_bgr,
    /// vertical RGB
    vertical_rgb,
    /// vertical BGR
    vertical_bgr,
}

impl WireEnum for subpixel {
    open spec fn to_wire(self) -> u32 {
        match self {
            subpixel::unknown => 0,
            subpixel::none => 1,
            subpixel::horizontal_rgb => 2,
            subpixel::horizontal_bgr => 3,
            subpixel::vertical_rgb => 4,
            subpixel::vertical_bgr => 5,
        }
    }

    open spec fn of_wire(v: u32) -> Option<subpixel> {
        match v {
            0 => Some(subpixel::unknown),
            1 => Some(subpixel::none),
            2 => Some(subpixel::horizontal_rgb),
            3 => Some(subpixel::horizontal_bgr),
            4 => Some(subpixel::vertical_rgb),
            5 => Some(subpixel::vertical_bgr),
            _ => None,
        }
    }

    proof fn lemma_wire_enum(self, v: u32) {
    }
}

impl subpixel {
    /// The word that stands for the entry.
    fn to_u32(self) -> (r: u32)
        ensures
            r == self.to_wire(),
    {
        match self {
            subpixel::unknown => 0,
            subpixel::none => 1,
            subpixel::horizontal_rgb => 2,
            subpixel::horizontal_bgr => 3,
            subpixel::vertical_rgb => 4,
            subpixel::vertical_bgr => 5,
        }
    }

    /// The entry that a word stands for, if any.
    fn from_u32(v: u32) -> (r: Option<subpixel>)
        ensures
            r == subpixel::of_wire(v),
    {
        match v {
            0 => Some(subpixel::unknown),
            1 => Some(subpixel::none),
            2 => Some(subpixel::horizontal_rgb),
            3 => Some(subpixel::horizontal_bgr),
            4 => Some(subpixel::vertical_rgb),
            5 => Some(subpixel::vertical_bgr),
            _ => None,
        }
    }
}

impl From<subpixel> for u32 {
    fn from(v: subpixel) -> (r: u32) {
        v.to_u32()
    }
}

impl FromSpecImpl<subpixel> for u32 {
    open spec fn obeys_from_spec() -> bool {
        true
    }

    open spec fn from_spec(v: subpixel) -> u32 {
        v.to_wire()
    }
}

impl TryFrom<u32> for subpixel {
    type Error = TryFromIntError;

    fn try_from(v: u32) -> (r: Result<subpixel, TryFromIntError>) {
        match subpixel::from_u32(v) {
            Some(e) => Ok(e),
            None => match u32::try_from(-1i32) {
                Ok(_) => {
                    assert(false);
                    Ok(subpixel::unknown)
                },
                Err(e) => Err(e),
            },
        }
    }
}

impl TryFromSpecImpl<u32> for subpixel {
    open spec fn obeys_try_from_spec() -> bool {
        true
    }

    open spec fn try_from_spec(v: u32) -> Result<subpixel, TryFromIntError> {
        match subpixel::of_wire(v) {
            Some(e) => Ok(e),
            None => Err(arbitrary()),
        }
    }
}

impl Ser for subpixel {
    open spec fn ser_ok(&self) -> bool {
        true
    }

    open spec fn ser_bytes(&self) -> Seq<u8> {
        u32_wire(self.to_wire())
    }

    open spec fn ser_fds(&self) -> Seq<Fd> {
        Seq::empty()
    }

    fn wire_len(&self) -> (n: usize) {
        4
    }

    fn checked_len(&self) -> (r: Option<usize>) {
        Some(4)
    }

    open spec fn ser_fits(&self, cap: int) -> bool {
        true
    }

    fn serialize(self, buf: &mut [u8], fds: &mut Vec<Fd>) -> (r: Result<usize, &'static str>) {
        self.to_u32().serialize(buf, fds)
    }

    proof fn lemma_fits(&self, cap: int) {
    }
}

impl DeepView for subpixel {
    type V = subpixel;

    open spec fn deep_view(&self) -> subpixel {
        *self
    }
}

impl Dsr for subpixel {
    open spec fn dsr_spec(buf: Seq<u8>, fds: Seq<Fd>) -> Decoded<subpixel> {
        match u32::dsr_spec(buf, fds) {
            Decoded::Value(i, n, left) => match subpixel::of_wire(i) {
                Some(v) => Decoded::Value(v, n, left),
                None => Decoded::Failure("invalid value for subpixel", left),
            },
            Decoded::Failure(e, left) => Decoded::Failure(e, left),
            Decoded::Undefined => Decoded::Undefined,
        }
    }

    fn try_deserialize(buf: &[u8], fds: &mut Vec<Fd>) -> (r: Option<Result<(subpixel, usize), &'static str>>) {
        let (i, n) = match u32::try_deserialize(buf, fds) {
            Some(Ok(p)) => p,
            Some(Err(e)) => return Some(Err(e)),
            None => return None,
        };
        match subpixel::from_u32(i) {
            Some(v) => Some(Ok((v, n))),
            None => Some(Err("invalid value for subpixel")),
        }
    }
}

impl Codec for subpixel {
    open spec fn rt_ok(&self) -> bool {
        true
    }

    proof fn lemma_roundtrip(&self, tail: Seq<u8>, base: Seq<Fd>) {
        self.to_wire().lemma_roundtrip(tail, base);
        self.lemma_wire_enum(0);
    }
}
impl subpixel {
    /// The protocol's word for each entry, and no other word names an entry.
    pub proof fn lemma_wire_values()
        ensures
            subpixel::unknown.to_wire() == 0,
            subpixel::none.to_wire() == 1,
            subpixel::horizontal_rgb.to_wire() == 2,
            subpixel::horizontal_bgr.to_wire() == 3,
            subpixel::vertical_rgb.to_wire() == 4,
            subpixel::vertical_bgr.to_wire() == 5,
            subpixel::of_wire(0) == Some(subpixel::unknown),
            subpixel::of_wire(1) == Some(subpixel::none),
            subpixel::of_wire(2) == Some(subpixel::horizontal_rgb),
            subpixel::of_wire(3) == Some(subpixel::horizontal_bgr),
            subpixel::of_wire(4) == Some(subpixel::vertical_rgb),
            subpixel::of_wire(5) == Some(subpixel::vertical_bgr),
            forall|v: u32| #[trigger] subpixel::of_wire(v) is Some ==> (v == 0 || v == 1 || v == 2 || v == 3 || v == 4 || v == 5),
    {
    }
}


/// transform from framebuffer to output
///
/// This describes the transform that a compositor will apply to a
/// surface to compensate for the rotation or mirroring of an
/// output device.
///
/// The flipped values correspond to an initial flip around a
/// vertical axis followed by rotation.
///
/// The purpose is mainly to allow clients to render accordingly and
/// tell the compositor, so that for fullscreen surfaces, the
/// compositor will still be able to scan out directly from client
/// surfaces.
///
#[derive(Debug, Clone, Copy, PartialEq, Eq, Hash)]
pub enum transform {
    /// no transform
    normal,
    /// 90 degrees counter-clockwise
    N90,
    /// 180 degrees counter-clockwise
    N180,
    /// 270 degrees counter-clockwise
    N270,
    /// 180 degree flip around a vertical axis
    flipped,
    /// flip and rotate 90 degrees counter-clockwise
    flipped_90,
    /// flip and rotate 180 degrees counter-clockwise
    flipped_180,
    /// flip and rotate 270 degrees counter-clockwise
    flipped_270,
}

impl WireEnum for transform {
    open spec fn to_wire(self) -> u32 {
        match self {
            transform::normal => 0,
            transform::N90 => 1,
            transform::N180 => 2,
            transform::N270 => 3,
            transform::flipped => 4,
            transform::flipped_90 => 5,
            transform::flipped_180 => 6,
            transform::flipped_270 => 7,
        }
    }

    open spec fn of_wire(v: u32) -> Option<transform> {
        match v {
            0 => Some(transform::normal),
            1 => Some(transform::N90),
            2 => Some(transform::N180),
            3 => Some(transform::N270),
            4 => Some(transform::flipped),
            5 => Some(transform::flipped_90),
            6 => Some(transform::flipped_180),
            7 => Some(transform::flipped_270),
            _ => None,
        }
    }

    proof fn lemma_wire_enum(self, v: u32) {
    }
}

impl transform {
    /// The word that stands for the entry.
    fn to_u32(self) -> (r: u32)
        ensures
            r == self.to_wire(),
    {
        match self {
            transform::normal => 0,
            transform::N90 => 1,
            transform::N180 => 2,
            transform::N270 => 3,
            transform::flipped => 4,
            transform::flipped_90 => 5,
            transform::flipped_180 => 6,
            transform::flipped_270 => 7,
        }
    }

    /// The entry that a word stands for, if any.
    fn from_u32(v: u32) -> (r: Option<transform>)
        ensures
            r == transform::of_wire(v),
    {
        match v {
            0 => Some(transform::normal),
            1 => Some(transform::N90),
            2 => Some(transform::N180),
            3 => Some(transform::N270),
            4 => Some(transform::flipped),
            5 => Some(transform::flipped_90),
            6 => Some(transform::flipped_180),
            7 => Some(transform::flipped_270),
            _ => None,
        }
    }
}

impl From<transform> for u32 {
    fn from(v: transform) -> (r: u32) {
        v.to_u32()
    }
}

impl FromSpecImpl<transform> for u32 {
    open spec fn obeys_from_spec() -> bool {
        true
    }

    open spec fn from_spec(v: transform) -> u32 {
        v.to_wire()
    }
}

impl TryFrom<u32> for transform {
    type Error = TryFromIntError;

    fn try_from(v: u32) -> (r: Result<transform, TryFromIntError>) {
        match transform::from_u32(v) {
            Some(e) => Ok(e),
            None => match u32::try_from(-1i32) {
                Ok(_) => {
                    assert(false);
                    Ok(transform::normal)
                },
                Err(e) => Err(e),
            },
        }
    }
}

impl TryFromSpecImpl<u32> for transform {
    open spec fn obeys_try_from_spec() -> bool {
        true
    }

    open spec fn try_from_spec(v: u32) -> Result<transform, TryFromIntError> {
        match transform::of_wire(v) {
            Some(e) => Ok(e),
            None => Err(arbitrary()),
        }
    }
}

impl Ser for transform {
    open spec fn ser_ok(&self) -> bool {
        true
    }

    open spec fn ser_bytes(&self) -> Seq<u8> {
        u32_wire(self.to_wire())
    }

    open spec fn ser_fds(&self) -> Seq<Fd> {
        Seq::empty()
    }

    fn wire_len(&self) -> (n: usize) {
        4
    }

    fn checked_len(&self) -> (r: Option<usize>) {
        Some(4)
    }

    open spec fn ser_fits(&self, cap: int) -> bool {
        true
    }

    fn serialize(self, buf: &mut [u8], fds: &mut Vec<Fd>) -> (r: Result<usize, &'static str>) {
        self.to_u32().serialize(buf, fds)
    }

    proof fn lemma_fits(&self, cap: int) {
    }
}

impl DeepView for transform {
    type V = transform;

    open spec fn deep_view(&self) -> transform {
        *self
    }
}

impl Dsr for transform {
    open spec fn dsr_spec(buf: Seq<u8>, fds: Seq<Fd>) -> Decoded<transform> {
        match u32::dsr_spec(buf, fds) {
            Decoded::Value(i, n, left) => match transform::of_wire(i) {
                Some(v) => Decoded::Value(v, n, left),
                None => Decoded::Failure("invalid value for transform", left),
            },
            Decoded::Failure(e, left) => Decoded::Failure(e, left),
            Decoded::Undefined => Decoded::Undefined,
        }
    }

    fn try_deserialize(buf: &[u8], fds: &mut Vec<Fd>) -> (r: Option<Result<(transform, usize), &'static str>>) {
        let (i, n) = match u32::try_deserialize(buf, fds) {
            Some(Ok(p)) => p,
            Some(Err(e)) => return Some(Err(e)),
            None => return None,
        };
        match transform::from_u32(i) {
            Some(v) => Some(Ok((v, n))),
            None => Some(Err("invalid value for transform")),
        }
    }
}

impl Codec for transform {
    open spec fn rt_ok(&self) -> bool {
        true
    }

    proof fn lemma_roundtrip(&self, tail: Seq<u8>, base: Seq<Fd>) {
        self.to_wire().lemma_roundtrip(tail, base);
        self.lemma_wire_enum(0);
    }
}
impl transform {
    /// The protocol's word for each entry, and no other word names an entry.
    pub proof fn lemma_wire_values()
        ensures
            transform::normal.to_wire() == 0,
            transform::N90.to_wire() == 1,
            transform::N180.to_wire() == 2,
            transform::N270.to_wire() == 3,
            transform::flipped.to_wire() == 4,
            transform::flipped_90.to_wire() == 5,
            transform::flipped_180.to_wire() == 6,
            transform::flipped_270.to_wire() == 7,
            transform::of_wire(0) == Some(transform::normal),
            transform::of_wire(1) == Some(transform::N90),
            transform::of_wire(2) == Some(transform::N180),
            transform::of_wire(3) == Some(transform::N270),
            transform::of_wire(4) == Some(transform::flipped),
            transform::of_wire(5) == Some(transform::flipped_90),
            transform::of_wire(6) == Some(transform::flipped_180),
            transform::of_wire(7) == Some(transform::flipped_270),
            forall|v: u32| #[trigger] transform::of_wire(v) is Some ==> (v == 0 || v == 1 || v == 2 || v == 3 || v == 4 || v == 5 || v == 6 || v == 7),
    {
    }
}


/// mode information
///
/// These flags describe properties of an output mode.
/// They are used in the flags bitfield of the mode event.
///
#[derive(Debug, Clone, Copy, PartialEq, Eq, Hash, Default)]
pub struct mode {
    pub flags: u32,
}

#[allow(non_snake_case)]
impl mode {
    /// indicates this is the current mode
    pub fn current() -> (r: mode)
        ensures
            r.flags == 1,
    {
        mode { flags: 1 }
    }

    /// indicates this is the preferred mode
    pub fn preferred() -> (r: mode)
        ensures
            r.flags == 2,
    {
        mode { flags: 2 }
    }

    /// No flag set.
    pub fn EMPTY() -> (r: mode)
        ensures
            r.flags == 0,
    {
        mode { flags: 0 }
    }

    /// Every flag of the enumeration set.
    pub fn ALL() -> (r: mode)
        ensures
            r.flags == 3,
    {
        mode { flags: 3 }
    }

    /// Each named flag, with its name.
    pub fn EACH() -> (r: [(&'static str, mode); 2])
        ensures
            r@ == seq![("current", (mode { flags: 1u32 })), ("preferred", (mode { flags: 2u32 }))],
    {
        let r = [("current", mode::current()), ("preferred", mode::preferred())];
        assert(r@ =~= seq![("current", (mode { flags: 1u32 })), ("preferred", (mode { flags: 2u32 }))]);
        r
    }

    /// The names of the flags that are set, in order; `EMPTY` when none is.
    pub fn names(&self) -> (r: Vec<&'static str>)
        ensures
            r@ == flag_names(self.flags, seq![("current", 1u32), ("preferred", 2u32)]),
    {
        let each: [(&'static str, u32); 2] = [("current", 1u32), ("preferred", 2u32)];
        proof {
            assert(each@ =~= seq![("current", 1u32), ("preferred", 2u32)]);
        }
        names_of(self.flags, &each)
    }

    /// The set flags as text: their names joined by `|`, or `EMPTY`.
    pub fn debug_string(&self) -> (r: String)
        ensures
            r@ == join_names(flag_names(self.flags, seq![("current", 1u32), ("preferred", 2u32)])),
    {
        let names = self.names();
        join_text(&names)
    }

    /// Whether every flag of `rhs` is set in `self`.
    pub fn contains(&self, rhs: mode) -> (r: bool)
        ensures
            r == (self.flags & rhs.flags == rhs.flags),
    {
        (self.flags & rhs.flags) == rhs.flags
    }

    /// The union of two sets of flags contains each of them.
    pub proof fn lemma_union_contains(a: mode, b: mode)
        ensures
            (a.flags | b.flags) & a.flags == a.flags,
            (a.flags | b.flags) & b.flags == b.flags,
    {
        let (x, y) = (a.flags, b.flags);
        assert((x | y) & x == x && (x | y) & y == y) by (bit_vector);
    }

    /// `|` is the union of two flag sets and `&` their intersection, bit by
    /// bit: the union holds every flag of each, the intersection only flags of both.
    pub proof fn lemma_bit_ops(a: mode, b: mode)
        ensures
            BitOrSpec::bitor_spec(a, b).flags == a.flags | b.flags,
            BitAndSpec::bitand_spec(a, b).flags == a.flags & b.flags,
            BitOrSpec::bitor_spec(a, b).flags & a.flags == a.flags,
            BitOrSpec::bitor_spec(a, b).flags & b.flags == b.flags,
            BitAndSpec::bitand_spec(a, b).flags & a.flags == BitAndSpec::bitand_spec(a, b).flags,
            BitAndSpec::bitand_spec(a, b).flags & b.flags == BitAndSpec::bitand_spec(a, b).flags,
    {
        let (x, y) = (a.flags, b.flags);
        assert((x | y) & x == x && (x | y) & y == y && (x & y) & x == x & y && (x & y) & y == x & y)
            by (bit_vector);
    }
}

impl core::ops::BitOr for mode {
    type Output = mode;

    fn bitor(self, rhs: mode) -> (r: mode) {
        mode { flags: self.flags | rhs.flags }
    }
}

impl BitOrSpecImpl for mode {
    open spec fn obeys_bitor_spec() -> bool {
        true
    }

    open spec fn bitor_req(self, rhs: mode) -> bool {
        true
    }

    open spec fn bitor_spec(self, rhs: mode) -> mode {
        mode { flags: self.flags | rhs.flags }
    }
}

impl core::ops::BitAnd for mode {
    type Output = mode;

    fn bitand(self, rhs: mode) -> (r: mode) {
        mode { flags: self.flags & rhs.flags }
    }
}

impl BitAndSpecImpl for mode {
    open spec fn obeys_bitand_spec() -> bool {
        true
    }

    open spec fn bitand_req(self, rhs: mode) -> bool {
        true
    }

    open spec fn bitand_spec(self, rhs: mode) -> mode {
        mode { flags: self.flags & rhs.flags }
    }
}

impl Ser for mode {
    open spec fn ser_ok(&self) -> bool {
        true
    }

    open spec fn ser_bytes(&self) -> Seq<u8> {
        u32_wire(self.flags)
    }

    open spec fn ser_fds(&self) -> Seq<Fd> {
        Seq::empty()
    }

    fn wire_len(&self) -> (n: usize) {
        4
    }

    fn checked_len(&self) -> (r: Option<usize>) {
        Some(4)
    }

    open spec fn ser_fits(&self, cap: int) -> bool {
        true
    }

    fn serialize(self, buf: &mut [u8], fds: &mut Vec<Fd>) -> (r: Result<usize, &'static str>) {
        self.flags.serialize(buf, fds)
    }

    proof fn lemma_fits(&self, cap: int) {
    }
}

impl DeepView for mode {
    type V = mode;

    open spec fn deep_view(&self) -> mode {
        *self
    }
}

impl Dsr for mode {
    open spec fn dsr_spec(buf: Seq<u8>, fds: Seq<Fd>) -> Decoded<mode> {
        match u32::dsr_spec(buf, fds) {
            Decoded::Value(flags, len, left) => Decoded::Value(mode { flags }, len, left),
            Decoded::Failure(e, left) => Decoded::Failure(e, left),
            Decoded::Undefined => Decoded::Undefined,
        }
    }

    fn try_deserialize(buf: &[u8], fds: &mut Vec<Fd>) -> (r: Option<Result<(mode, usize), &'static str>>) {
        match u32::try_deserialize(buf, fds) {
            Some(Ok((flags, n))) => Some(Ok((mode { flags }, n))),
            Some(Err(e)) => Some(Err(e)),
            None => None,
        }
    }
}

impl Codec for mode {
    open spec fn rt_ok(&self) -> bool {
        true
    }

    proof fn lemma_roundtrip(&self, tail: Seq<u8>, base: Seq<Fd>) {
        self.flags.lemma_roundtrip(tail, base);
    }
}

/// The interface's run-time name is its protocol name.
pub proof fn lemma_interface_name()
    ensures
        <Obj as Object>::interface_name() == "wl_output"@,
{
}


#[derive(Debug, Clone, Copy)]
pub struct wl_output;

pub type Obj = wl_output;

#[allow(non_upper_case_globals)]
pub const Obj: Obj = wl_output;

impl Ser for wl_output {
    open spec fn ser_ok(&self) -> bool {
        true
    }

    open spec fn ser_bytes(&self) -> Seq<u8> {
        Seq::empty()
    }

    open spec fn ser_fds(&self) -> Seq<Fd> {
        Seq::empty()
    }

    fn wire_len(&self) -> (n: usize) {
        0
    }

    fn checked_len(&self) -> (r: Option<usize>) {
        Some(0)
    }

    open spec fn ser_fits(&self, cap: int) -> bool {
        true
    }

    fn serialize(self, buf: &mut [u8], fds: &mut Vec<Fd>) -> (r: Result<usize, &'static str>) {
        assert(buf@ =~= write_at(old(buf)@, 0, Seq::<u8>::empty()));
        assert(fds@ =~= old(fds)@ + Seq::<Fd>::empty());
        Ok(0)
    }

    proof fn lemma_fits(&self, cap: int) {
    }
}

impl DeepView for wl_output {
    type V = ();

    open spec fn deep_view(&self) -> () {
        ()
    }
}

impl Dsr for wl_output {
    open spec fn dsr_spec(buf: Seq<u8>, fds: Seq<Fd>) -> Decoded<()> {
        Decoded::Value((), 0, fds)
    }

    fn try_deserialize(buf: &[u8], fds: &mut Vec<Fd>) -> (r: Option<Result<(wl_output, usize), &'static str>>) {
        Some(Ok((wl_output, 0)))
    }
}

impl Codec for wl_output {
    open spec fn rt_ok(&self) -> bool {
        true
    }

    proof fn lemma_roundtrip(&self, tail: Seq<u8>, base: Seq<Fd>) {
        assert(Seq::<Fd>::empty().reverse() =~= Seq::<Fd>::empty());
        assert(base + Seq::<Fd>::empty() =~= base);
    }
}

impl Object for wl_output {
    open spec fn interface_name() -> Seq<char> {
        NAME@
    }

    open spec fn destructor_op() -> Option<u16> {
        Some(0)
    }

    fn new_obj() -> (r: wl_output) {
        wl_output
    }

    fn new_dyn(version: u32) -> (d: Dyn) {
        Dyn { name: NAME.to_owned(), version }
    }

    fn destructor() -> (r: Option<u16>) {
        Some(0)
    }

    proof fn lemma_unit(&self, buf: Seq<u8>, fds: Seq<Fd>) {
    }
}

} // verus!
