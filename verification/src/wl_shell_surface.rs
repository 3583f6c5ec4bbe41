//! desktop-style metadata interface
//!
//! An interface that may be implemented by a wl_surface, for
//! implementations that provide a desktop-style user interface.
//!
//! It provides requests to treat surfaces like toplevel, fullscreen
//! or popup windows, move, resize or maximize them, associate
//! metadata like title and class, etc.
//!
//! On the server side the object is automatically destroyed when
//! the related wl_surface is destroyed. On the client side,
//! wl_shell_surface_destroy() must be called before destroying
//! the wl_surface object.
//!
#![allow(non_camel_case_types)]
use vstd::prelude::*;
use crate::objects::{Dyn, Object};
use crate::wire::{u32_wire, write_at, flag_names, names_of, join_names, join_text, Codec, Decoded, Dsr, Fd, Ser, WireEnum};
use vstd::std_specs::convert::{FromSpecImpl, TryFromSpecImpl};
use vstd::std_specs::ops::{BitAndSpec, BitAndSpecImpl, BitOrSpec, BitOrSpecImpl};
use core::num::TryFromIntError;

pub mod request;
pub mod event;

verus! {

pub const NAME: &'static str = "wl_shell_surface";

pub const VERSION: u32 = 1;

/// different method to set the surface fullscreen
///
/// Hints to indicate to the compositor how to deal with a conflict
/// between the dimensions of the surface and the dimensions of the
/// output. The compositor is free to ignore this parameter.
///
#[derive(Debug, Clone, Copy, PartialEq, Eq, Hash)]
pub enum fullscreen_method {
    /// no preference, apply default policy
    default,
    /// scale, preserve the surface's aspect ratio and center on output
    scale,
    /// switch output mode to the smallest mode that can fit the surface, add black borders to compensate size mismatch
    driver,
    /// no upscaling, center on output and add black borders to compensate size mismatch
    fill,
}

impl WireEnum for fullscreen_method {
    open spec fn to_wire(self) -> u32 {
        match self {
            fullscreen_method::default => 0,
            fullscreen_method::scale => 1,
            fullscreen_method::driver => 2,
            fullscreen_method::fill => 3,
        }
    }

    open spec fn of_wire(v: u32) -> Option<fullscreen_method> {
        match v {
            0 => Some(fullscreen_method::default),
            1 => Some(fullscreen_method::scale),
            2 => Some(fullscreen_method::driver),
            3 => Some(fullscreen_method::fill),
            _ => None,
        }
    }

    proof fn lemma_wire_enum(self, v: u32) {
    }
}

impl fullscreen_method {
    /// The word that stands for the entry.
    fn to_u32(self) -> (r: u32)
        ensures
            r == self.to_wire(),
    {
        match self {
            fullscreen_method::default => 0,
            fullscreen_method::scale => 1,
            fullscreen_method::driver => 2,
            fullscreen_method::fill => 3,
        }
    }

    /// The entry that a word stands for, if any.
    fn from_u32(v: u32) -> (r: Option<fullscreen_method>)
        ensures
            r == fullscreen_method::of_wire(v),
    {
        match v {
            0 => Some(fullscreen_method::default),
            1 => Some(fullscreen_method::scale),
            2 => Some(fullscreen_method::driver),
            3 => Some(fullscreen_method::fill),
            _ => None,
        }
    }
}

impl From<fullscreen_method> for u32 {
    fn from(v: fullscreen_method) -> (r: u32) {
        v.to_u32()
    }
}

impl FromSpecImpl<fullscreen_method> for u32 {
    open spec fn obeys_from_spec() -> bool {
        true
    }

    open spec fn from_spec(v: fullscreen_method) -> u32 {
        v.to_wire()
    }
}

impl TryFrom<u32> for fullscreen_method {
    type Error = TryFromIntError;

    fn try_from(v: u32) -> (r: Result<fullscreen_method, TryFromIntError>) {
        match fullscreen_method::from_u32(v) {
            Some(e) => Ok(e),
            None => match u32::try_from(-1i32) {
                Ok(_) => {
                    assert(false);
                    Ok(fullscreen_method::default)
                },
                Err(e) => Err(e),
            },
        }
    }
}

impl TryFromSpecImpl<u32> for fullscreen_method {
    open spec fn obeys_try_from_spec() -> bool {
        true
    }

    open spec fn try_from_spec(v: u32) -> Result<fullscreen_method, TryFromIntError> {
        match fullscreen_method::of_wire(v) {
            Some(e) => Ok(e),
            None => Err(arbitrary()),
        }
    }
}

impl Ser for fullscreen_method {
    open spec fn ser_ok(&self) -> bool {
        true
    }

    open spec fn ser_bytes(&self) -> Seq<u8> {
        u32_wire(self.to_wire())
    }

    open spec fn ser_fds(&self) -> Seq<Fd> {
        Seq::empty()
    }

    fn wire_len(&self) -> (n: usize) {
        4
    }

    fn checked_len(&self) -> (r: Option<usize>) {
        Some(4)
    }

    open spec fn ser_fits(&self, cap: int) -> bool {
        true
    }

    fn serialize(self, buf: &mut [u8], fds: &mut Vec<Fd>) -> (r: Result<usize, &'static str>) {
        self.to_u32().serialize(buf, fds)
    }

    proof fn lemma_fits(&self, cap: int) {
    }
}

impl DeepView for fullscreen_method {
    type V = fullscreen_method;

    open spec fn deep_view(&self) -> fullscreen_method {
        *self
    }
}

impl Dsr for fullscreen_method {
    open spec fn dsr_spec(buf: Seq<u8>, fds: Seq<Fd>) -> Decoded<fullscreen_method> {
        match u32::dsr_spec(buf, fds) {
            Decoded::Value(i, n, left) => match fullscreen_method::of_wire(i) {
                Some(v) => Decoded::Value(v, n, left),
                None => Decoded::Failure("invalid value for fullscreen_method", left),
            },
            Decoded::Failure(e, left) => Decoded::Failure(e, left),
            Decoded::Undefined => Decoded::Undefined,
        }
    }

    fn try_deserialize(buf: &[u8], fds: &mut Vec<Fd>) -> (r: Option<Result<(fullscreen_method, usize), &'static str>>) {
        let (i, n) = match u32::try_deserialize(buf, fds) {
            Some(Ok(p)) => p,
            Some(Err(e)) => return Some(Err(e)),
            None => return None,
        };
        match fullscreen_method::from_u32(i) {
            Some(v) => Some(Ok((v, n))),
            None => Some(Err("invalid value for fullscreen_method")),
        }
    }
}

impl Codec for fullscreen_method {
    open spec fn rt_ok(&self) -> bool {
        true
    }

    proof fn lemma_roundtrip(&self, tail: Seq<u8>, base: Seq<Fd>) {
        self.to_wire().lemma_roundtrip(tail, base);
        self.lemma_wire_enum(0);
    }
}
impl fullscreen_method {
    /// The protocol's word for each entry, and no other word names an entry.
    pub proof fn lemma_wire_values()
        ensures
            fullscreen_method::default.to_wire() == 0,
            fullscreen_method::scale.to_wire() == 1,
            fullscreen_method::driver.to_wire() == 2,
            fullscreen_method::fill.to_wire() == 3,
            fullscreen_method::of_wire(0) == Some(fullscreen_method::default),
            fullscreen_method::of_wire(1) == Some(fullscreen_method::scale),
            fullscreen_method::of_wire(2) == Some(fullscreen_method::driver),
            fullscreen_method::of_wire(3) == Some(fullscreen_method::fill),
            forall|v: u32| #[trigger] fullscreen_method::of_wire(v) is Some ==> (v == 0 || v == 1 || v == 2 || v == 3),
    {
    }
}


/// edge values for resizing
///
/// These values are used to indicate which edge of a surface
/// is being dragged in a resize operation. The server may
/// use this information to adapt its behavior, e.g. choose
/// an appropriate cursor image.
///
#[derive(Debug, Clone, Copy, PartialEq, Eq, Hash, Default)]
pub struct resize {
    pub flags: u32,
}

#[allow(non_snake_case)]
impl resize {
    /// no edge
    pub fn none() -> (r: resize)
        ensures
            r.flags == 0,
    {
        resize { flags: 0 }
    }

    /// top edge
    pub fn top() -> (r: resize)
        ensures
            r.flags == 1,
    {
        resize { flags: 1 }
    }

    /// bottom edge
    pub fn bottom() -> (r: resize)
        ensures
            r.flags == 2,
    {
        resize { flags: 2 }
    }

    /// left edge
    pub fn left() -> (r: resize)
        ensures
            r.flags == 4,
    {
        resize { flags: 4 }
    }

    /// top and left edges
    pub fn top_left() -> (r: resize)
        ensures
            r.flags == 5,
    {
        resize { flags: 5 }
    }

    /// bottom and left edges
    pub fn bottom_left() -> (r: resize)
        ensures
            r.flags == 6,
    {
        resize { flags: 6 }
    }

    /// right edge
    pub fn right() -> (r: resize)
        ensures
            r.flags == 8,
    {
        resize { flags: 8 }
    }

    /// top and right edges
    pub fn top_right() -> (r: resize)
        ensures
            r.flags == 9,
    {
        resize { flags: 9 }
    }

    /// bottom and right edges
    pub fn bottom_right() -> (r: resize)
        ensures
            r.flags == 10,
    {
        resize { flags: 10 }
    }

    /// No flag set.
    pub fn EMPTY() -> (r: resize)
        ensures
            r.flags == 0,
    {
        resize { flags: 0 }
    }

    /// Every flag of the enumeration set.
    pub fn ALL() -> (r: resize)
        ensures
            r.flags == 15,
    {
        resize { flags: 15 }
    }

    /// Each named flag, with its name.
    pub fn EACH() -> (r: [(&'static str, resize); 9])
        ensures
            r@ == seq![("none", (resize { flags: 0u32 })), ("top", (resize { flags: 1u32 })), ("bottom", (resize { flags: 2u32 })), ("left", (resize { flags: 4u32 })), ("top_left", (resize { flags: 5u32 })), ("bottom_left", (resize { flags: 6u32 })), ("right", (resize { flags: 8u32 })), ("top_right", (resize { flags: 9u32 })), ("bottom_right", (resize { flags: 10u32 }))],
    {
        let r = [("none", resize::none()), ("top", resize::top()), ("bottom", resize::bottom()), ("left", resize::left()), ("top_left", resize::top_left()), ("bottom_left", resize::bottom_left()), ("right", resize::right()), ("top_right", resize::top_right()), ("bottom_right", resize::bottom_right())];
        assert(r@ =~= seq![("none", (resize { flags: 0u32 })), ("top", (resize { flags: 1u32 })), ("bottom", (resize { flags: 2u32 })), ("left", (resize { flags: 4u32 })), ("top_left", (resize { flags: 5u32 })), ("bottom_left", (resize { flags: 6u32 })), ("right", (resize { flags: 8u32 })), ("top_right", (resize { flags: 9u32 })), ("bottom_right", (resize { flags: 10u32 }))]);
        r
    }

    /// The names of the flags that are set, in order; `EMPTY` when none is.
    pub fn names(&self) -> (r: Vec<&'static str>)
        ensures
            r@ == flag_names(self.flags, seq![("none", 0u32), ("top", 1u32), ("bottom", 2u32), ("left", 4u32), ("top_left", 5u32), ("bottom_left", 6u32), ("right", 8u32), ("top_right", 9u32), ("bottom_right", 10u32)]),
    {
        let each: [(&'static str, u32); 9] = [("none", 0u32), ("top", 1u32), ("bottom", 2u32), ("left", 4u32), ("top_left", 5u32), ("bottom_left", 6u32), ("right", 8u32), ("top_right", 9u32), ("bottom_right", 10u32)];
        proof {
            assert(each@ =~= seq![("none", 0u32), ("top", 1u32), ("bottom", 2u32), ("left", 4u32), ("top_left", 5u32), ("bottom_left", 6u32), ("right", 8u32), ("top_right", 9u32), ("bottom_right", 10u32)]);
        }
        names_of(self.flags, &each)
    }

    /// The set flags as text: their names joined by `|`, or `EMPTY`.
    pub fn debug_string(&self) -> (r: String)
        ensures
            r@ == join_names(flag_names(self.flags, seq![("none", 0u32), ("top", 1u32), ("bottom", 2u32), ("left", 4u32), ("top_left", 5u32), ("bottom_left", 6u32), ("right", 8u32), ("top_right", 9u32), ("bottom_right", 10u32)])),
    {
        let names = self.names();
        join_text(&names)
    }

    /// Whether every flag of `rhs` is set in `self`.
    pub fn contains(&self, rhs: resize) -> (r: bool)
        ensures
            r == (self.flags & rhs.flags == rhs.flags),
    {
        (self.flags & rhs.flags) == rhs.flags
    }

    /// The union of two sets of flags contains each of them.
    pub proof fn lemma_union_contains(a: resize, b: resize)
        ensures
            (a.flags | b.flags) & a.flags == a.flags,
            (a.flags | b.flags) & b.flags == b.flags,
    {
        let (x, y) = (a.flags, b.flags);
        assert((x | y) & x == x && (x | y) & y == y) by (bit_vector);
    }

    /// `|` is the union of two flag sets and `&` their intersection, bit by
    /// bit: the union holds every flag of each, the intersection only flags of both.
    pub proof fn lemma_bit_ops(a: resize, b: resize)
        ensures
            BitOrSpec::bitor_spec(a, b).flags == a.flags | b.flags,
            BitAndSpec::bitand_spec(a, b).flags == a.flags & b.flags,
            BitOrSpec::bitor_spec(a, b).flags & a.flags == a.flags,
            BitOrSpec::bitor_spec(a, b).flags & b.flags == b.flags,
            BitAndSpec::bitand_spec(a, b).flags & a.flags == BitAndSpec::bitand_spec(a, b).flags,
            BitAndSpec::bitand_spec(a, b).flags & b.flags == BitAndSpec::bitand_spec(a, b).flags,
    {
        let (x, y) = (a.flags, b.flags);
        assert((x | y) & x == x && (x | y) & y == y && (x & y) & x == x & y && (x & y) & y == x & y)
            by (bit_vector);
    }
}

impl core::ops::BitOr for resize {
    type Output = resize;

    fn bitor(self, rhs: resize) -> (r: resize) {
        resize { flags: self.flags | rhs.flags }
    }
}

impl BitOrSpecImpl for resize {
    open spec fn obeys_bitor_spec() -> bool {
        true
    }

    open spec fn bitor_req(self, rhs: resize) -> bool {
        true
    }

    open spec fn bitor_spec(self, rhs: resize) -> resize {
        resize { flags: self.flags | rhs.flags }
    }
}

impl core::ops::BitAnd for resize {
    type Output = resize;

    fn bitand(self, rhs: resize) -> (r: resize) {
        resize { flags: self.flags & rhs.flags }
    }
}

impl BitAndSpecImpl for resize {
    open spec fn obeys_bitand_spec() -> bool {
        true
    }

    open spec fn bitand_req(self, rhs: resize) -> bool {
        true
    }

    open spec fn bitand_spec(self, rhs: resize) -> resize {
        resize { flags: self.flags & rhs.flags }
    }
}

impl Ser for resize {
    open spec fn ser_ok(&self) -> bool {
        true
    }

    open spec fn ser_bytes(&self) -> Seq<u8> {
        u32_wire(self.flags)
    }

    open spec fn ser_fds(&self) -> Seq<Fd> {
        Seq::empty()
    }

    fn wire_len(&self) -> (n: usize) {
        4
    }

    fn checked_len(&self) -> (r: Option<usize>) {
        Some(4)
    }

    open spec fn ser_fits(&self, cap: int) -> bool {
        true
    }

    fn serialize(self, buf: &mut [u8], fds: &mut Vec<Fd>) -> (r: Result<usize, &'static str>) {
        self.flags.serialize(buf, fds)
    }

    proof fn lemma_fits(&self, cap: int) {
    }
}

impl DeepView for resize {
    type V = resize;

    open spec fn deep_view(&self) -> resize {
        *self
    }
}

impl Dsr for resize {
    open spec fn dsr_spec(buf: Seq<u8>, fds: Seq<Fd>) -> Decoded<resize> {
        match u32::dsr_spec(buf, fds) {
            Decoded::Value(flags, len, left) => Decoded::Value(resize { flags }, len, left),
            Decoded::Failure(e, left) => Decoded::Failure(e, left),
            Decoded::Undefined => Decoded::Undefined,
        }
    }

    fn try_deserialize(buf: &[u8], fds: &mut Vec<Fd>) -> (r: Option<Result<(resize, usize), &'static str>>) {
        match u32::try_deserialize(buf, fds) {
            Some(Ok((flags, n))) => Some(Ok((resize { flags }, n))),
            Some(Err(e)) => Some(Err(e)),
            None => None,
        }
    }
}

impl Codec for resize {
    open spec fn rt_ok(&self) -> bool {
        true
    }

    proof fn lemma_roundtrip(&self, tail: Seq<u8>, base: Seq<Fd>) {
        self.flags.lemma_roundtrip(tail, base);
    }
}

/// details of transient behaviour
///
/// These flags specify details of the expected behaviour
/// of transient surfaces. Used in the set_transient request.
///
#[derive(Debug, Clone, Copy, PartialEq, Eq, Hash, Default)]
pub struct transient {
    pub flags: u32,
}

#[allow(non_snake_case)]
impl transient {
    /// do not set keyboard focus
    pub fn inactive() -> (r: transient)
        ensures
            r.flags == 1,
    {
        transient { flags: 1 }
    }

    /// No flag set.
    pub fn EMPTY() -> (r: transient)
        ensures
            r.flags == 0,
    {
        transient { flags: 0 }
    }

    /// Every flag of the enumeration set.
    pub fn ALL() -> (r: transient)
        ensures
            r.flags == 1,
    {
        transient { flags: 1 }
    }

    /// Each named flag, with its name.
    pub fn EACH() -> (r: [(&'static str, transient); 1])
        ensures
            r@ == seq![("inactive", (transient { flags: 1u32 }))],
    {
        let r = [("inactive", transient::inactive())];
        assert(r@ =~= seq![("inactive", (transient { flags: 1u32 }))]);
        r
    }

    /// The names of the flags that are set, in order; `EMPTY` when none is.
    pub fn names(&self) -> (r: Vec<&'static str>)
        ensures
            r@ == flag_names(self.flags, seq![("inactive", 1u32)]),
    {
        let each: [(&'static str, u32); 1] = [("inactive", 1u32)];
        proof {
            assert(each@ =~= seq![("inactive", 1u32)]);
        }
        names_of(self.flags, &each)
    }

    /// The set flags as text: their names joined by `|`, or `EMPTY`.
    pub fn debug_string(&self) -> (r: String)
        ensures
            r@ == join_names(flag_names(self.flags, seq![("inactive", 1u32)])),
    {
        let names = self.names();
        join_text(&names)
    }

    /// Whether every flag of `rhs` is set in `self`.
    pub fn contains(&self, rhs: transient) -> (r: bool)
        ensures
            r == (self.flags & rhs.flags == rhs.flags),
    {
        (self.flags & rhs.flags) == rhs.flags
    }

    /// The union of two sets of flags contains each of them.
    pub proof fn lemma_union_contains(a: transient, b: transient)
        ensures
            (a.flags | b.flags) & a.flags == a.flags,
            (a.flags | b.flags) & b.flags == b.flags,
    {
        let (x, y) = (a.flags, b.flags);
        assert((x | y) & x == x && (x | y) & y == y) by (bit_vector);
    }

    /// `|` is the union of two flag sets and `&` their intersection, bit by
    /// bit: the union holds every flag of each, the intersection only flags of both.
    pub proof fn lemma_bit_ops(a: transient, b: transient)
        ensures
            BitOrSpec::bitor_spec(a, b).flags == a.flags | b.flags,
            BitAndSpec::bitand_spec(a, b).flags == a.flags & b.flags,
            BitOrSpec::bitor_spec(a, b).flags & a.flags == a.flags,
            BitOrSpec::bitor_spec(a, b).flags & b.flags == b.flags,
            BitAndSpec::bitand_spec(a, b).flags & a.flags == BitAndSpec::bitand_spec(a, b).flags,
            BitAndSpec::bitand_spec(a, b).flags & b.flags == BitAndSpec::bitand_spec(a, b).flags,
    {
        let (x, y) = (a.flags, b.flags);
        assert((x | y) & x == x && (x | y) & y == y && (x & y) & x == x & y && (x & y) & y == x & y)
            by (bit_vector);
    }
}

impl core::ops::BitOr for transient {
    type Output = transient;

    fn bitor(self, rhs: transient) -> (r: transient) {
        transient { flags: self.flags | rhs.flags }
    }
}

impl BitOrSpecImpl for transient {
    open spec fn obeys_bitor_spec() -> bool {
        true
    }

    open spec fn bitor_req(self, rhs: transient) -> bool {
        true
    }

    open spec fn bitor_spec(self, rhs: transient) -> transient {
        transient { flags: self.flags | rhs.flags }
    }
}

impl core::ops::BitAnd for transient {
    type Output = transient;

    fn bitand(self, rhs: transient) -> (r: transient) {
        transient { flags: self.flags & rhs.flags }
    }
}

impl BitAndSpecImpl for transient {
    open spec fn obeys_bitand_spec() -> bool {
        true
    }

    open spec fn bitand_req(self, rhs: transient) -> bool {
        true
    }

    open spec fn bitand_spec(self, rhs: transient) -> transient {
        transient { flags: self.flags & rhs.flags }
    }
}

impl Ser for transient {
    open spec fn ser_ok(&self) -> bool {
        true
    }

    open spec fn ser_bytes(&self) -> Seq<u8> {
        u32_wire(self.flags)
    }

    open spec fn ser_fds(&self) -> Seq<Fd> {
        Seq::empty()
    }

    fn wire_len(&self) -> (n: usize) {
        4
    }

    fn checked_len(&self) -> (r: Option<usize>) {
        Some(4)
    }

    open spec fn ser_fits(&self, cap: int) -> bool {
        true
    }

    fn serialize(self, buf: &mut [u8], fds: &mut Vec<Fd>) -> (r: Result<usize, &'static str>) {
        self.flags.serialize(buf, fds)
    }

    proof fn lemma_fits(&self, cap: int) {
    }
}

impl DeepView for transient {
    type V = transient;

    open spec fn deep_view(&self) -> transient {
        *self
    }
}

impl Dsr for transient {
    open spec fn dsr_spec(buf: Seq<u8>, fds: Seq<Fd>) -> Decoded<transient> {
        match u32::dsr_spec(buf, fds) {
            Decoded::Value(flags, len, left) => Decoded::Value(transient { flags }, len, left),
            Decoded::Failure(e, left) => Decoded::Failure(e, left),
            Decoded::Undefined => Decoded::Undefined,
        }
    }

    fn try_deserialize(buf: &[u8], fds: &mut Vec<Fd>) -> (r: Option<Result<(transient, usize), &'static str>>) {
        match u32::try_deserialize(buf, fds) {
            Some(Ok((flags, n))) => Some(Ok((transient { flags }, n))),
            Some(Err(e)) => Some(Err(e)),
            None => None,
        }
    }
}

impl Codec for transient {
    open spec fn rt_ok(&self) -> bool {
        true
    }

    proof fn lemma_roundtrip(&self, tail: Seq<u8>, base: Seq<Fd>) {
        self.flags.lemma_roundtrip(tail, base);
    }
}

/// The interface's run-time name is its protocol name.
pub proof fn lemma_interface_name()
    ensures
        <Obj as Object>::interface_name() == "wl_shell_surface"@,
{
}


#[derive(Debug, Clone, Copy)]
pub struct wl_shell_surface;

pub type Obj = wl_shell_surface;

#[allow(non_upper_case_globals)]
pub const Obj: Obj = wl_shell_surface;

impl Ser for wl_shell_surface {
    open spec fn ser_ok(&self) -> bool {
        true
    }

    open spec fn ser_bytes(&self) -> Seq<u8> {
        Seq::empty()
    }

    open spec fn ser_fds(&self) -> Seq<Fd> {
        Seq::empty()
    }

    fn wire_len(&self) -> (n: usize) {
        0
    }

    fn checked_len(&self) -> (r: Option<usize>) {
        Some(0)
    }

    open spec fn ser_fits(&self, cap: int) -> bool {
        true
    }

    fn serialize(self, buf: &mut [u8], fds: &mut Vec<Fd>) -> (r: Result<usize, &'static str>) {
        assert(buf@ =~= write_at(old(buf)@, 0, Seq::<u8>::empty()));
        assert(fds@ =~= old(fds)@ + Seq::<Fd>::empty());
        Ok(0)
    }

    proof fn lemma_fits(&self, cap: int) {
    }
}

impl DeepView for wl_shell_surface {
    type V = ();

    open spec fn deep_view(&self) -> () {
        ()
    }
}

impl Dsr for wl_shell_surface {
    open spec fn dsr_spec(buf: Seq<u8>, fds: Seq<Fd>) -> Decoded<()> {
        Decoded::Value((), 0, fds)
    }

    fn try_deserialize(buf: &[u8], fds: &mut Vec<Fd>) -> (r: Option<Result<(wl_shell_surface, usize), &'static str>>) {
        Some(Ok((wl_shell_surface, 0)))
    }
}

impl Codec for wl_shell_surface {
    open spec fn rt_ok(&self) -> bool {
        true
    }

    proof fn lemma_roundtrip(&self, tail: Seq<u8>, base: Seq<Fd>) {
        assert(Seq::<Fd>::empty().reverse() =~= Seq::<Fd>::empty());
        assert(base + Seq::<Fd>::empty() =~= base);
    }
}

impl Object for wl_shell_surface {
    open spec fn interface_name() -> Seq<char> {
        NAME@
    }

    open spec fn destructor_op() -> Option<u16> {
        None
    }

    fn new_obj() -> (r: wl_shell_surface) {
        wl_shell_surface
    }

    fn new_dyn(version: u32) -> (d: Dyn) {
        Dyn { name: NAME.to_owned(), version }
    }

    fn destructor() -> (r: Option<u16>) {
        None
    }

    proof fn lemma_unit(&self, buf: Seq<u8>, fds: Seq<Fd>) {
    }
}

} // verus!
