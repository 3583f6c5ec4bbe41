//! child surface positioner
//!
//! The xdg_positioner provides a collection of rules for the placement of a
//! child surface relative to a parent surface. Rules can be defined to ensure
//! the child surface remains within the visible area's borders, and to
//! specify how the child surface changes its position, such as sliding along
//! an axis, or flipping around a rectangle. These positioner-created rules are
//! constrained by the requirement that a child surface must intersect with or
//! be at least partially adjacent to its parent surface.
//!
//! See the various requests for details about possible rules.
//!
//! At the time of the request, the compositor makes a copy of the rules
//! specified by the xdg_positioner. Thus, after the request is complete the
//! xdg_positioner object can be destroyed or reused; further changes to the
//! object will have no effect on previous usages.
//!
//! For an xdg_positioner object to be considered complete, it must have a
//! non-zero size set by set_size, and a non-zero anchor rectangle set by
//! set_anchor_rect. Passing an incomplete xdg_positioner object when
//! positioning a surface raises an invalid_positioner error.
//!
#![allow(non_camel_case_types)]
use vstd::prelude::*;
use crate::objects::{Dyn, Object};
use crate::wire::{u32_wire, write_at, flag_names, names_of, join_names, join_text, Codec, Decoded, Dsr, Fd, Ser, WireEnum};
use vstd::std_specs::convert::{FromSpecImpl, TryFromSpecImpl};
use vstd::std_specs::ops::{BitAndSpec, BitAndSpecImpl, BitOrSpec, BitOrSpecImpl};
use core::num::TryFromIntError;

pub mod request;
pub mod event;

verus! {

pub const NAME: &'static str = "xdg_positioner";

pub const VERSION: u32 = 6;

#[derive(Debug, Clone, Copy, PartialEq, Eq, Hash)]
pub enum error {
    /// invalid input provided
    invalid_input,
}

impl WireEnum for error {
    open spec fn to_wire(self) -> u32 {
        match self {
            error::invalid_input => 0,
        }
    }

    open spec fn of_wire(v: u32) -> Option<error> {
        match v {
            0 => Some(error::invalid_input),
            _ => None,
        }
    }

    proof fn lemma_wire_enum(self, v: u32) {
    }
}

impl error {
    /// The word that stands for the entry.
    fn to_u32(self) -> (r: u32)
        ensures
            r == self.to_wire(),
    {
        match self {
            error::invalid_input => 0,
        }
    }

    /// The entry that a word stands for, if any.
    fn from_u32(v: u32) -> (r: Option<error>)
        ensures
            r == error::of_wire(v),
    {
        match v {
            0 => Some(error::invalid_input),
            _ => None,
        }
    }
}

impl From<error> for u32 {
    fn from(v: error) -> (r: u32) {
        v.to_u32()
    }
}

impl FromSpecImpl<error> for u32 {
    open spec fn obeys_from_spec() -> bool {
        true
    }

    open spec fn from_spec(v: error) -> u32 {
        v.to_wire()
    }
}

impl TryFrom<u32> for error {
    type Error = TryFromIntError;

    fn try_from(v: u32) -> (r: Result<error, TryFromIntError>) {
        match error::from_u32(v) {
            Some(e) => Ok(e),
            None => match u32::try_from(-1i32) {
                Ok(_) => {
                    assert(false);
                    Ok(error::invalid_input)
                },
                Err(e) => Err(e),
            },
        }
    }
}

impl TryFromSpecImpl<u32> for error {
    open spec fn obeys_try_from_spec() -> bool {
        true
    }

    open spec fn try_from_spec(v: u32) -> Result<error, TryFromIntError> {
        match error::of_wire(v) {
            Some(e) => Ok(e),
            None => Err(arbitrary()),
        }
    }
}

impl Ser for error {
    open spec fn ser_ok(&self) -> bool {
        true
    }

    open spec fn ser_bytes(&self) -> Seq<u8> {
        u32_wire(self.to_wire())
    }

    open spec fn ser_fds(&self) -> Seq<Fd> {
        Seq::empty()
    }

    fn wire_len(&self) -> (n: usize) {
        4
    }

    fn checked_len(&self) -> (r: Option<usize>) {
        Some(4)
    }

    open spec fn ser_fits(&self, cap: int) -> bool {
        true
    }

    fn serialize(self, buf: &mut [u8], fds: &mut Vec<Fd>) -> (r: Result<usize, &'static str>) {
        self.to_u32().serialize(buf, fds)
    }

    proof fn lemma_fits(&self, cap: int) {
    }
}

impl DeepView for error {
    type V = error;

    open spec fn deep_view(&self) -> error {
        *self
    }
}

impl Dsr for error {
    open spec fn dsr_spec(buf: Seq<u8>, fds: Seq<Fd>) -> Decoded<error> {
        match u32::dsr_spec(buf, fds) {
            Decoded::Value(i, n, left) => match error::of_wire(i) {
                Some(v) => Decoded::Value(v, n, left),
                None => Decoded::Failure("invalid value for error", left),
            },
            Decoded::Failure(e, left) => Decoded::Failure(e, left),
            Decoded::Undefined => Decoded::Undefined,
        }
    }

    fn try_deserialize(buf: &[u8], fds: &mut Vec<Fd>) -> (r: Option<Result<(error, usize), &'static str>>) {
        let (i, n) = match u32::try_deserialize(buf, fds) {
            Some(Ok(p)) => p,
            Some(Err(e)) => return Some(Err(e)),
            None => return None,
        };
        match error::from_u32(i) {
            Some(v) => Some(Ok((v, n))),
            None => Some(Err("invalid value for error")),
        }
    }
}

impl Codec for error {
    open spec fn rt_ok(&self) -> bool {
        true
    }

    proof fn lemma_roundtrip(&self, tail: Seq<u8>, base: Seq<Fd>) {
        self.to_wire().lemma_roundtrip(tail, base);
        self.lemma_wire_enum(0);
    }
}
impl error {
    /// The protocol's word for each entry, and no other word names an entry.
    pub proof fn lemma_wire_values()
        ensures
            error::invalid_input.to_wire() == 0,
            error::of_wire(0) == Some(error::invalid_input),
            forall|v: u32| #[trigger] error::of_wire(v) is Some ==> (v == 0),
    {
    }
}


#[derive(Debug, Clone, Copy, PartialEq, Eq, Hash)]
pub enum anchor {
    none,
    top,
    bottom,
    left,
    right,
    top_left,
    bottom_left,
    top_right,
    bottom_right,
}

impl WireEnum for anchor {
    open spec fn to_wire(self) -> u32 {
        match self {
            anchor::none => 0,
            anchor::top => 1,
            anchor::bottom => 2,
            anchor::left => 3,
            anchor::right => 4,
            anchor::top_left => 5,
            anchor::bottom_left => 6,
            anchor::top_right => 7,
            anchor::bottom_right => 8,
        }
    }

    open spec fn of_wire(v: u32) -> Option<anchor> {
        match v {
            0 => Some(anchor::none),
            1 => Some(anchor::top),
            2 => Some(anchor::bottom),
            3 => Some(anchor::left),
            4 => Some(anchor::right),
            5 => Some(anchor::top_left),
            6 => Some(anchor::bottom_left),
            7 => Some(anchor::top_right),
            8 => Some(anchor::bottom_right),
            _ => None,
        }
    }

    proof fn lemma_wire_enum(self, v: u32) {
    }
}

impl anchor {
    /// The word that stands for the entry.
    fn to_u32(self) -> (r: u32)
        ensures
            r == self.to_wire(),
    {
        match self {
            anchor::none => 0,
            anchor::top => 1,
            anchor::bottom => 2,
            anchor::left => 3,
            anchor::right => 4,
            anchor::top_left => 5,
            anchor::bottom_left => 6,
            anchor::top_right => 7,
            anchor::bottom_right => 8,
        }
    }

    /// The entry that a word stands for, if any.
    fn from_u32(v: u32) -> (r: Option<anchor>)
        ensures
            r == anchor::of_wire(v),
    {
        match v {
            0 => Some(anchor::none),
            1 => Some(anchor::top),
            2 => Some(anchor::bottom),
            3 => Some(anchor::left),
            4 => Some(anchor::right),
            5 => Some(anchor::top_left),
            6 => Some(anchor::bottom_left),
            7 => Some(anchor::top_right),
            8 => Some(anchor::bottom_right),
            _ => None,
        }
    }
}

impl From<anchor> for u32 {
    fn from(v: anchor) -> (r: u32) {
        v.to_u32()
    }
}

impl FromSpecImpl<anchor> for u32 {
    open spec fn obeys_from_spec() -> bool {
        true
    }

    open spec fn from_spec(v: anchor) -> u32 {
        v.to_wire()
    }
}

impl TryFrom<u32> for anchor {
    type Error = TryFromIntError;

    fn try_from(v: u32) -> (r: Result<anchor, TryFromIntError>) {
        match anchor::from_u32(v) {
            Some(e) => Ok(e),
            None => match u32::try_from(-1i32) {
                Ok(_) => {
                    assert(false);
                    Ok(anchor::none)
                },
                Err(e) => Err(e),
            },
        }
    }
}

impl TryFromSpecImpl<u32> for anchor {
    open spec fn obeys_try_from_spec() -> bool {
        true
    }

    open spec fn try_from_spec(v: u32) -> Result<anchor, TryFromIntError> {
        match anchor::of_wire(v) {
            Some(e) => Ok(e),
            None => Err(arbitrary()),
        }
    }
}

impl Ser for anchor {
    open spec fn ser_ok(&self) -> bool {
        true
    }

    open spec fn ser_bytes(&self) -> Seq<u8> {
        u32_wire(self.to_wire())
    }

    open spec fn ser_fds(&self) -> Seq<Fd> {
        Seq::empty()
    }

    fn wire_len(&self) -> (n: usize) {
        4
    }

    fn checked_len(&self) -> (r: Option<usize>) {
        Some(4)
    }

    open spec fn ser_fits(&self, cap: int) -> bool {
        true
    }

    fn serialize(self, buf: &mut [u8], fds: &mut Vec<Fd>) -> (r: Result<usize, &'static str>) {
        self.to_u32().serialize(buf, fds)
    }

    proof fn lemma_fits(&self, cap: int) {
    }
}

impl DeepView for anchor {
    type V = anchor;

    open spec fn deep_view(&self) -> anchor {
        *self
    }
}

impl Dsr for anchor {
    open spec fn dsr_spec(buf: Seq<u8>, fds: Seq<Fd>) -> Decoded<anchor> {
        match u32::dsr_spec(buf, fds) {
            Decoded::Value(i, n, left) => match anchor::of_wire(i) {
                Some(v) => Decoded::Value(v, n, left),
                None => Decoded::Failure("invalid value for anchor", left),
            },
            Decoded::Failure(e, left) => Decoded::Failure(e, left),
            Decoded::Undefined => Decoded::Undefined,
        }
    }

    fn try_deserialize(buf: &[u8], fds: &mut Vec<Fd>) -> (r: Option<Result<(anchor, usize), &'static str>>) {
        let (i, n) = match u32::try_deserialize(buf, fds) {
            Some(Ok(p)) => p,
            Some(Err(e)) => return Some(Err(e)),
            None => return None,
        };
        match anchor::from_u32(i) {
            Some(v) => Some(Ok((v, n))),
            None => Some(Err("invalid value for anchor")),
        }
    }
}

impl Codec for anchor {
    open spec fn rt_ok(&self) -> bool {
        true
    }

    proof fn lemma_roundtrip(&self, tail: Seq<u8>, base: Seq<Fd>) {
        self.to_wire().lemma_roundtrip(tail, base);
        self.lemma_wire_enum(0);
    }
}
impl anchor {
    /// The protocol's word for each entry, and no other word names an entry.
    pub proof fn lemma_wire_values()
        ensures
            anchor::none.to_wire() == 0,
            anchor::top.to_wire() == 1,
            anchor::bottom.to_wire() == 2,
            anchor::left.to_wire() == 3,
            anchor::right.to_wire() == 4,
            anchor::top_left.to_wire() == 5,
            anchor::bottom_left.to_wire() == 6,
            anchor::top_right.to_wire() == 7,
            anchor::bottom_right.to_wire() == 8,
            anchor::of_wire(0) == Some(anchor::none),
            anchor::of_wire(1) == Some(anchor::top),
            anchor::of_wire(2) == Some(anchor::bottom),
            anchor::of_wire(3) == Some(anchor::left),
            anchor::of_wire(4) == Some(anchor::right),
            anchor::of_wire(5) == Some(anchor::top_left),
            anchor::of_wire(6) == Some(anchor::bottom_left),
            anchor::of_wire(7) == Some(anchor::top_right),
            anchor::of_wire(8) == Some(anchor::bottom_right),
            forall|v: u32| #[trigger] anchor::of_wire(v) is Some ==> (v == 0 || v == 1 || v == 2 || v == 3 || v == 4 || v == 5 || v == 6 || v == 7 || v == 8),
    {
    }
}


#[derive(Debug, Clone, Copy, PartialEq, Eq, Hash)]
pub enum gravity {
    none,
    top,
    bottom,
    left,
    right,
    top_left,
    bottom_left,
    top_right,
    bottom_right,
}

impl WireEnum for gravity {
    open spec fn to_wire(self) -> u32 {
        match self {
            gravity::none => 0,
            gravity::top => 1,
            gravity::bottom => 2,
            gravity::left => 3,
            gravity::right => 4,
            gravity::top_left => 5,
            gravity::bottom_left => 6,
            gravity::top_right => 7,
            gravity::bottom_right => 8,
        }
    }

    open spec fn of_wire(v: u32) -> Option<gravity> {
        match v {
            0 => Some(gravity::none),
            1 => Some(gravity::top),
            2 => Some(gravity::bottom),
            3 => Some(gravity::left),
            4 => Some(gravity::right),
            5 => Some(gravity::top_left),
            6 => Some(gravity::bottom_left),
            7 => Some(gravity::top_right),
            8 => Some(gravity::bottom_right),
            _ => None,
        }
    }

    proof fn lemma_wire_enum(self, v: u32) {
    }
}

impl gravity {
    /// The word that stands for the entry.
    fn to_u32(self) -> (r: u32)
        ensures
            r == self.to_wire(),
    {
        match self {
            gravity::none => 0,
            gravity::top => 1,
            gravity::bottom => 2,
            gravity::left => 3,
            gravity::right => 4,
            gravity::top_left => 5,
            gravity::bottom_left => 6,
            gravity::top_right => 7,
            gravity::bottom_right => 8,
        }
    }

    /// The entry that a word stands for, if any.
    fn from_u32(v: u32) -> (r: Option<gravity>)
        ensures
            r == gravity::of_wire(v),
    {
        match v {
            0 => Some(gravity::none),
            1 => Some(gravity::top),
            2 => Some(gravity::bottom),
            3 => Some(gravity::left),
            4 => Some(gravity::right),
            5 => Some(gravity::top_left),
            6 => Some(gravity::bottom_left),
            7 => Some(gravity::top_right),
            8 => Some(gravity::bottom_right),
            _ => None,
        }
    }
}

impl From<gravity> for u32 {
    fn from(v: gravity) -> (r: u32) {
        v.to_u32()
    }
}

impl FromSpecImpl<gravity> for u32 {
    open spec fn obeys_from_spec() -> bool {
        true
    }

    open spec fn from_spec(v: gravity) -> u32 {
        v.to_wire()
    }
}

impl TryFrom<u32> for gravity {
    type Error = TryFromIntError;

    fn try_from(v: u32) -> (r: Result<gravity, TryFromIntError>) {
        match gravity::from_u32(v) {
            Some(e) => Ok(e),
            None => match u32::try_from(-1i32) {
                Ok(_) => {
                    assert(false);
                    Ok(gravity::none)
                },
                Err(e) => Err(e),
            },
        }
    }
}

impl TryFromSpecImpl<u32> for gravity {
    open spec fn obeys_try_from_spec() -> bool {
        true
    }

    open spec fn try_from_spec(v: u32) -> Result<gravity, TryFromIntError> {
        match gravity::of_wire(v) {
            Some(e) => Ok(e),
            None => Err(arbitrary()),
        }
    }
}

impl Ser for gravity {
    open spec fn ser_ok(&self) -> bool {
        true
    }

    open spec fn ser_bytes(&self) -> Seq<u8> {
        u32_wire(self.to_wire())
    }

    open spec fn ser_fds(&self) -> Seq<Fd> {
        Seq::empty()
    }

    fn wire_len(&self) -> (n: usize) {
        4
    }

    fn checked_len(&self) -> (r: Option<usize>) {
        Some(4)
    }

    open spec fn ser_fits(&self, cap: int) -> bool {
        true
    }

    fn serialize(self, buf: &mut [u8], fds: &mut Vec<Fd>) -> (r: Result<usize, &'static str>) {
        self.to_u32().serialize(buf, fds)
    }

    proof fn lemma_fits(&self, cap: int) {
    }
}

impl DeepView for gravity {
    type V = gravity;

    open spec fn deep_view(&self) -> gravity {
        *self
    }
}

impl Dsr for gravity {
    open spec fn dsr_spec(buf: Seq<u8>, fds: Seq<Fd>) -> Decoded<gravity> {
        match u32::dsr_spec(buf, fds) {
            Decoded::Value(i, n, left) => match gravity::of_wire(i) {
                Some(v) => Decoded::Value(v, n, left),
                None => Decoded::Failure("invalid value for gravity", left),
            },
            Decoded::Failure(e, left) => Decoded::Failure(e, left),
            Decoded::Undefined => Decoded::Undefined,
        }
    }

    fn try_deserialize(buf: &[u8], fds: &mut Vec<Fd>) -> (r: Option<Result<(gravity, usize), &'static str>>) {
        let (i, n) = match u32::try_deserialize(buf, fds) {
            Some(Ok(p)) => p,
            Some(Err(e)) => return Some(Err(e)),
            None => return None,
        };
        match gravity::from_u32(i) {
            Some(v) => Some(Ok((v, n))),
            None => Some(Err("invalid value for gravity")),
        }
    }
}

impl Codec for gravity {
    open spec fn rt_ok(&self) -> bool {
        true
    }

    proof fn lemma_roundtrip(&self, tail: Seq<u8>, base: Seq<Fd>) {
        self.to_wire().lemma_roundtrip(tail, base);
        self.lemma_wire_enum(0);
    }
}
impl gravity {
    /// The protocol's word for each entry, and no other word names an entry.
    pub proof fn lemma_wire_values()
        ensures
            gravity::none.to_wire() == 0,
            gravity::top.to_wire() == 1,
            gravity::bottom.to_wire() == 2,
            gravity::left.to_wire() == 3,
            gravity::right.to_wire() == 4,
            gravity::top_left.to_wire() == 5,
            gravity::bottom_left.to_wire() == 6,
            gravity::top_right.to_wire() == 7,
            gravity::bottom_right.to_wire() == 8,
            gravity::of_wire(0) == Some(gravity::none),
            gravity::of_wire(1) == Some(gravity::top),
            gravity::of_wire(2) == Some(gravity::bottom),
            gravity::of_wire(3) == Some(gravity::left),
            gravity::of_wire(4) == Some(gravity::right),
            gravity::of_wire(5) == Some(gravity::top_left),
            gravity::of_wire(6) == Some(gravity::bottom_left),
            gravity::of_wire(7) == Some(gravity::top_right),
            gravity::of_wire(8) == Some(gravity::bottom_right),
            forall|v: u32| #[trigger] gravity::of_wire(v) is Some ==> (v == 0 || v == 1 || v == 2 || v == 3 || v == 4 || v == 5 || v == 6 || v == 7 || v == 8),
    {
    }
}


/// constraint adjustments
///
/// The constraint adjustment value define ways the compositor will adjust
/// the position of the surface, if the unadjusted position would result
/// in the surface being partly constrained.
///
/// Whether a surface is considered 'constrained' is left to the compositor
/// to determine. For example, the surface may be partly outside the
/// compositor's defined 'work area', thus necessitating the child surface's
/// position be adjusted until it is entirely inside the work area.
///
/// The adjustments can be combined, according to a defined precedence: 1)
/// Flip, 2) Slide, 3) Resize.
///
#[derive(Debug, Clone, Copy, PartialEq, Eq, Hash, Default)]
pub struct constraint_adjustment {
    pub flags: u32,
}

#[allow(non_snake_case)]
impl constraint_adjustment {
    /// don't move the child surface when constrained
    ///
    /// Don't alter the surface position even if it is constrained on some
    /// axis, for example partially outside the edge of an output.
    ///
    pub fn none() -> (r: constraint_adjustment)
        ensures
            r.flags == 0,
    {
        constraint_adjustment { flags: 0 }
    }

    /// move along the x axis until unconstrained
    ///
    /// Slide the surface along the x axis until it is no longer constrained.
    ///
    /// First try to slide towards the direction of the gravity on the x axis
    /// until either the edge in the opposite direction of the gravity is
    /// unconstrained or the edge in the direction of the gravity is
    /// constrained.
    ///
    /// Then try to slide towards the opposite direction of the gravity on the
    /// x axis until either the edge in the direction of the gravity is
    /// unconstrained or the edge in the opposite direction of the gravity is
    /// constrained.
    ///
    pub fn slide_x() -> (r: constraint_adjustment)
        ensures
            r.flags == 1,
    {
        constraint_adjustment { flags: 1 }
    }

    /// move along the y axis until unconstrained
    ///
    /// Slide the surface along the y axis until it is no longer constrained.
    ///
    /// First try to slide towards the direction of the gravity on the y axis
    /// until either the edge in the opposite direction of the gravity is
    /// unconstrained or the edge in the direction of the gravity is
    /// constrained.
    ///
    /// Then try to slide towards the opposite direction of the gravity on the
    /// y axis until either the edge in the direction of the gravity is
    /// unconstrained or the edge in the opposite direction of the gravity is
    /// constrained.
    ///
    pub fn slide_y() -> (r: constraint_adjustment)
        ensures
            r.flags == 2,
    {
        constraint_adjustment { flags: 2 }
    }

    /// invert the anchor and gravity on the x axis
    ///
    /// Invert the anchor and gravity on the x axis if the surface is
    /// constrained on the x axis. For example, if the left edge of the
    /// surface is constrained, the gravity is 'left' and the anchor is
    /// 'left', change the gravity to 'right' and the anchor to 'right'.
    ///
    /// If the adjusted position also ends up being constrained, the resulting
    /// position of the flip_x adjustment will be the one before the
    /// adjustment.
    ///
    pub fn flip_x() -> (r: constraint_adjustment)
        ensures
            r.flags == 4,
    {
        constraint_adjustment { flags: 4 }
    }

    /// invert the anchor and gravity on the y axis
    ///
    /// Invert the anchor and gravity on the y axis if the surface is
    /// constrained on the y axis. For example, if the bottom edge of the
    /// surface is constrained, the gravity is 'bottom' and the anchor is
    /// 'bottom', change the gravity to 'top' and the anchor to 'top'.
    ///
    /// The adjusted position is calculated given the original anchor
    /// rectangle and offset, but with the new flipped anchor and gravity
    /// values.
    ///
    /// If the adjusted position also ends up being constrained, the resulting
    /// position of the flip_y adjustment will be the one before the
    /// adjustment.
    ///
    pub fn flip_y() -> (r: constraint_adjustment)
        ensures
            r.flags == 8,
    {
        constraint_adjustment { flags: 8 }
    }

    /// horizontally resize the surface
    ///
    /// Resize the surface horizontally so that it is completely
    /// unconstrained.
    ///
    pub fn resize_x() -> (r: constraint_adjustment)
        ensures
            r.flags == 16,
    {
        constraint_adjustment { flags: 16 }
    }

    /// vertically resize the surface
    ///
    /// Resize the surface vertically so that it is completely unconstrained.
    ///
    pub fn resize_y() -> (r: constraint_adjustment)
        ensures
            r.flags == 32,
    {
        constraint_adjustment { flags: 32 }
    }

    /// No flag set.
    pub fn EMPTY() -> (r: constraint_adjustment)
        ensures
            r.flags == 0,
    {
        constraint_adjustment { flags: 0 }
    }

    /// Every flag of the enumeration set.
    pub fn ALL() -> (r: constraint_adjustment)
        ensures
            r.flags == 63,
    {
        constraint_adjustment { flags: 63 }
    }

    /// Each named flag, with its name.
    pub fn EACH() -> (r: [(&'static str, constraint_adjustment); 7])
        ensures
            r@ == seq![("none", (constraint_adjustment { flags: 0u32 })), ("slide_x", (constraint_adjustment { flags: 1u32 })), ("slide_y", (constraint_adjustment { flags: 2u32 })), ("flip_x", (constraint_adjustment { flags: 4u32 })), ("flip_y", (constraint_adjustment { flags: 8u32 })), ("resize_x", (constraint_adjustment { flags: 16u32 })), ("resize_y", (constraint_adjustment { flags: 32u32 }))],
    {
        let r = [("none", constraint_adjustment::none()), ("slide_x", constraint_adjustment::slide_x()), ("slide_y", constraint_adjustment::slide_y()), ("flip_x", constraint_adjustment::flip_x()), ("flip_y", constraint_adjustment::flip_y()), ("resize_x", constraint_adjustment::resize_x()), ("resize_y", constraint_adjustment::resize_y())];
        assert(r@ =~= seq![("none", (constraint_adjustment { flags: 0u32 })), ("slide_x", (constraint_adjustment { flags: 1u32 })), ("slide_y", (constraint_adjustment { flags: 2u32 })), ("flip_x", (constraint_adjustment { flags: 4u32 })), ("flip_y", (constraint_adjustment { flags: 8u32 })), ("resize_x", (constraint_adjustment { flags: 16u32 })), ("resize_y", (constraint_adjustment { flags: 32u32 }))]);
        r
    }

    /// The names of the flags that are set, in order; `EMPTY` when none is.
    pub fn names(&self) -> (r: Vec<&'static str>)
        ensures
            r@ == flag_names(self.flags, seq![("none", 0u32), ("slide_x", 1u32), ("slide_y", 2u32), ("flip_x", 4u32), ("flip_y", 8u32), ("resize_x", 16u32), ("resize_y", 32u32)]),
    {
        let each: [(&'static str, u32); 7] = [("none", 0u32), ("slide_x", 1u32), ("slide_y", 2u32), ("flip_x", 4u32), ("flip_y", 8u32), ("resize_x", 16u32), ("resize_y", 32u32)];
        proof {
            assert(each@ =~= seq![("none", 0u32), ("slide_x", 1u32), ("slide_y", 2u32), ("flip_x", 4u32), ("flip_y", 8u32), ("resize_x", 16u32), ("resize_y", 32u32)]);
        }
        names_of(self.flags, &each)
    }

    /// The set flags as text: their names joined by `|`, or `EMPTY`.
    pub fn debug_string(&self) -> (r: String)
        ensures
            r@ == join_names(flag_names(self.flags, seq![("none", 0u32), ("slide_x", 1u32), ("slide_y", 2u32), ("flip_x", 4u32), ("flip_y", 8u32), ("resize_x", 16u32), ("resize_y", 32u32)])),
    {
        let names = self.names();
        join_text(&names)
    }

    /// Whether every flag of `rhs` is set in `self`.
    pub fn contains(&self, rhs: constraint_adjustment) -> (r: bool)
        ensures
            r == (self.flags & rhs.flags == rhs.flags),
    {
        (self.flags & rhs.flags) == rhs.flags
    }

    /// The union of two sets of flags contains each of them.
    pub proof fn lemma_union_contains(a: constraint_adjustment, b: constraint_adjustment)
        ensures
            (a.flags | b.flags) & a.flags == a.flags,
            (a.flags | b.flags) & b.flags == b.flags,
    {
        let (x, y) = (a.flags, b.flags);
        assert((x | y) & x == x && (x | y) & y == y) by (bit_vector);
    }

    /// `|` is the union of two flag sets and `&` their intersection, bit by
    /// bit: the union holds every flag of each, the intersection only flags of both.
    pub proof fn lemma_bit_ops(a: constraint_adjustment, b: constraint_adjustment)
        ensures
            BitOrSpec::bitor_spec(a, b).flags == a.flags | b.flags,
            BitAndSpec::bitand_spec(a, b).flags == a.flags & b.flags,
            BitOrSpec::bitor_spec(a, b).flags & a.flags == a.flags,
            BitOrSpec::bitor_spec(a, b).flags & b.flags == b.flags,
            BitAndSpec::bitand_spec(a, b).flags & a.flags == BitAndSpec::bitand_spec(a, b).flags,
            BitAndSpec::bitand_spec(a, b).flags & b.flags == BitAndSpec::bitand_spec(a, b).flags,
    {
        let (x, y) = (a.flags, b.flags);
        assert((x | y) & x == x && (x | y) & y == y && (x & y) & x == x & y && (x & y) & y == x & y)
            by (bit_vector);
    }
}

impl core::ops::BitOr for constraint_adjustment {
    type Output = constraint_adjustment;

    fn bitor(self, rhs: constraint_adjustment) -> (r: constraint_adjustment) {
        constraint_adjustment { flags: self.flags | rhs.flags }
    }
}

impl BitOrSpecImpl for constraint_adjustment {
    open spec fn obeys_bitor_spec() -> bool {
        true
    }

    open spec fn bitor_req(self, rhs: constraint_adjustment) -> bool {
        true
    }

    open spec fn bitor_spec(self, rhs: constraint_adjustment) -> constraint_adjustment {
        constraint_adjustment { flags: self.flags | rhs.flags }
    }
}

impl core::ops::BitAnd for constraint_adjustment {
    type Output = constraint_adjustment;

    fn bitand(self, rhs: constraint_adjustment) -> (r: constraint_adjustment) {
        constraint_adjustment { flags: self.flags & rhs.flags }
    }
}

impl BitAndSpecImpl for constraint_adjustment {
    open spec fn obeys_bitand_spec() -> bool {
        true
    }

    open spec fn bitand_req(self, rhs: constraint_adjustment) -> bool {
        true
    }

    open spec fn bitand_spec(self, rhs: constraint_adjustment) -> constraint_adjustment {
        constraint_adjustment { flags: self.flags & rhs.flags }
    }
}

impl Ser for constraint_adjustment {
    open spec fn ser_ok(&self) -> bool {
        true
    }

    open spec fn ser_bytes(&self) -> Seq<u8> {
        u32_wire(self.flags)
    }

    open spec fn ser_fds(&self) -> Seq<Fd> {
        Seq::empty()
    }

    fn wire_len(&self) -> (n: usize) {
        4
    }

    fn checked_len(&self) -> (r: Option<usize>) {
        Some(4)
    }

    open spec fn ser_fits(&self, cap: int) -> bool {
        true
    }

    fn serialize(self, buf: &mut [u8], fds: &mut Vec<Fd>) -> (r: Result<usize, &'static str>) {
        self.flags.serialize(buf, fds)
    }

    proof fn lemma_fits(&self, cap: int) {
    }
}

impl DeepView for constraint_adjustment {
    type V = constraint_adjustment;

    open spec fn deep_view(&self) -> constraint_adjustment {
        *self
    }
}

impl Dsr for constraint_adjustment {
    open spec fn dsr_spec(buf: Seq<u8>, fds: Seq<Fd>) -> Decoded<constraint_adjustment> {
        match u32::dsr_spec(buf, fds) {
            Decoded::Value(flags, len, left) => Decoded::Value(constraint_adjustment { flags }, len, left),
            Decoded::Failure(e, left) => Decoded::Failure(e, left),
            Decoded::Undefined => Decoded::Undefined,
        }
    }

    fn try_deserialize(buf: &[u8], fds: &mut Vec<Fd>) -> (r: Option<Result<(constraint_adjustment, usize), &'static str>>) {
        match u32::try_deserialize(buf, fds) {
            Some(Ok((flags, n))) => Some(Ok((constraint_adjustment { flags }, n))),
            Some(Err(e)) => Some(Err(e)),
            None => None,
        }
    }
}

impl Codec for constraint_adjustment {
    open spec fn rt_ok(&self) -> bool {
        true
    }

    proof fn lemma_roundtrip(&self, tail: Seq<u8>, base: Seq<Fd>) {
        self.flags.lemma_roundtrip(tail, base);
    }
}

/// The interface's run-time name is its protocol name.
pub proof fn lemma_interface_name()
    ensures
        <Obj as Object>::interface_name() == "xdg_positioner"@,
{
}


#[derive(Debug, Clone, Copy)]
pub struct xdg_positioner;

pub type Obj = xdg_positioner;

#[allow(non_upper_case_globals)]
pub const Obj: Obj = xdg_positioner;

impl Ser for xdg_positioner {
    open spec fn ser_ok(&self) -> bool {
        true
    }

    open spec fn ser_bytes(&self) -> Seq<u8> {
        Seq::empty()
    }

    open spec fn ser_fds(&self) -> Seq<Fd> {
        Seq::empty()
    }

    fn wire_len(&self) -> (n: usize) {
        0
    }

    fn checked_len(&self) -> (r: Option<usize>) {
        Some(0)
    }

    open spec fn ser_fits(&self, cap: int) -> bool {
        true
    }

    fn serialize(self, buf: &mut [u8], fds: &mut Vec<Fd>) -> (r: Result<usize, &'static str>) {
        assert(buf@ =~= write_at(old(buf)@, 0, Seq::<u8>::empty()));
        assert(fds@ =~= old(fds)@ + Seq::<Fd>::empty());
        Ok(0)
    }

    proof fn lemma_fits(&self, cap: int) {
    }
}

impl DeepView for xdg_positioner {
    type V = ();

    open spec fn deep_view(&self) -> () {
        ()
    }
}

impl Dsr for xdg_positioner {
    open spec fn dsr_spec(buf: Seq<u8>, fds: Seq<Fd>) -> Decoded<()> {
        Decoded::Value((), 0, fds)
    }

    fn try_deserialize(buf: &[u8], fds: &mut Vec<Fd>) -> (r: Option<Result<(xdg_positioner, usize), &'static str>>) {
        Some(Ok((xdg_positioner, 0)))
    }
}

impl Codec for xdg_positioner {
    open spec fn rt_ok(&self) -> bool {
        true
    }

    proof fn lemma_roundtrip(&self, tail: Seq<u8>, base: Seq<Fd>) {
        assert(Seq::<Fd>::empty().reverse() =~= Seq::<Fd>::empty());
        assert(base + Seq::<Fd>::empty() =~= base);
    }
}

impl Object for xdg_positioner {
    open spec fn interface_name() -> Seq<char> {
        NAME@
    }

    open spec fn destructor_op() -> Option<u16> {
        Some(0)
    }

    fn new_obj() -> (r: xdg_positioner) {
        xdg_positioner
    }

    fn new_dyn(version: u32) -> (d: Dyn) {
        Dyn { name: NAME.to_owned(), version }
    }

    fn destructor() -> (r: Option<u16>) {
        Some(0)
    }

    proof fn lemma_unit(&self, buf: Seq<u8>, fds: Seq<Fd>) {
    }
}

} // verus!
