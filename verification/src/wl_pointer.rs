//! pointer input device
//!
//! The wl_pointer interface represents one or more input devices,
//! such as mice, which control the pointer location and pointer_focus
//! of a seat.
//!
//! The wl_pointer interface generates motion, enter and leave
//! events for the surfaces that the pointer is located over,
//! and button and axis events for button presses, button releases
//! and scrolling.
//!
#![allow(non_camel_case_types)]
use vstd::prelude::*;
use crate::objects::{Dyn, Object};
use crate::wire::{u32_wire, write_at, flag_names, names_of, join_names, join_text, Codec, Decoded, Dsr, Fd, Ser, WireEnum};
use vstd::std_specs::convert::{FromSpecImpl, TryFromSpecImpl};
use vstd::std_specs::ops::{BitAndSpec, BitAndSpecImpl, BitOrSpec, BitOrSpecImpl};
use core::num::TryFromIntError;

pub mod request;
pub mod event;

verus! {

pub const NAME: &'static str = "wl_pointer";

pub const VERSION: u32 = 9;

#[derive(Debug, Clone, Copy, PartialEq, Eq, Hash)]
pub enum error {
    /// given wl_surface has another role
    role,
}

impl WireEnum for error {
    open spec fn to_wire(self) -> u32 {
        match self {
            error::role => 0,
        }
    }

    open spec fn of_wire(v: u32) -> Option<error> {
        match v {
            0 => Some(error::role),
            _ => None,
        }
    }

    proof fn lemma_wire_enum(self, v: u32) {
    }
}

impl error {
    /// The word that stands for the entry.
    fn to_u32(self) -> (r: u32)
        ensures
            r == self.to_wire(),
    {
        match self {
            error::role => 0,
        }
    }

    /// The entry that a word stands for, if any.
    fn from_u32(v: u32) -> (r: Option<error>)
        ensures
            r == error::of_wire(v),
    {
        match v {
            0 => Some(error::role),
            _ => None,
        }
    }
}

impl From<error> for u32 {
    fn from(v: error) -> (r: u32) {
        v.to_u32()
    }
}

impl FromSpecImpl<error> for u32 {
    open spec fn obeys_from_spec() -> bool {
        true
    }

    open spec fn from_spec(v: error) -> u32 {
        v.to_wire()
    }
}

impl TryFrom<u32> for error {
    type Error = TryFromIntError;

    fn try_from(v: u32) -> (r: Result<error, TryFromIntError>) {
        match error::from_u32(v) {
            Some(e) => Ok(e),
            None => match u32::try_from(-1i32) {
                Ok(_) => {
                    assert(false);
                    Ok(error::role)
                },
                Err(e) => Err(e),
            },
        }
    }
}

impl TryFromSpecImpl<u32> for error {
    open spec fn obeys_try_from_spec() -> bool {
        true
    }

    open spec fn try_from_spec(v: u32) -> Result<error, TryFromIntError> {
        match error::of_wire(v) {
            Some(e) => Ok(e),
            None => Err(arbitrary()),
        }
    }
}

impl Ser for error {
    open spec fn ser_ok(&self) -> bool {
        true
    }

    open spec fn ser_bytes(&self) -> Seq<u8> {
        u32_wire(self.to_wire())
    }

    open spec fn ser_fds(&self) -> Seq<Fd> {
        Seq::empty()
    }

    fn wire_len(&self) -> (n: usize) {
        4
    }

    fn checked_len(&self) -> (r: Option<usize>) {
        Some(4)
    }

    open spec fn ser_fits(&self, cap: int) -> bool {
        true
    }

    fn serialize(self, buf: &mut [u8], fds: &mut Vec<Fd>) -> (r: Result<usize, &'static str>) {
        self.to_u32().serialize(buf, fds)
    }

    proof fn lemma_fits(&self, cap: int) {
    }
}

impl DeepView for error {
    type V = error;

    open spec fn deep_view(&self) -> error {
        *self
    }
}

impl Dsr for error {
    open spec fn dsr_spec(buf: Seq<u8>, fds: Seq<Fd>) -> Decoded<error> {
        match u32::dsr_spec(buf, fds) {
            Decoded::Value(i, n, left) => match error::of_wire(i) {
                Some(v) => Decoded::Value(v, n, left),
                None => Decoded::Failure("invalid value for error", left),
            },
            Decoded::Failure(e, left) => Decoded::Failure(e, left),
            Decoded::Undefined => Decoded::Undefined,
        }
    }

    fn try_deserialize(buf: &[u8], fds: &mut Vec<Fd>) -> (r: Option<Result<(error, usize), &'static str>>) {
        let (i, n) = match u32::try_deserialize(buf, fds) {
            Some(Ok(p)) => p,
            Some(Err(e)) => return Some(Err(e)),
            None => return None,
        };
        match error::from_u32(i) {
            Some(v) => Some(Ok((v, n))),
            None => Some(Err("invalid value for error")),
        }
    }
}

impl Codec for error {
    open spec fn rt_ok(&self) -> bool {
        true
    }

    proof fn lemma_roundtrip(&self, tail: Seq<u8>, base: Seq<Fd>) {
        self.to_wire().lemma_roundtrip(tail, base);
        self.lemma_wire_enum(0);
    }
}
impl error {
    /// The protocol's word for each entry, and no other word names an entry.
    pub proof fn lemma_wire_values()
        ensures
            error::role.to_wire() == 0,
            error::of_wire(0) == Some(error::role),
            forall|v: u32| #[trigger] error::of_wire(v) is Some ==> (v == 0),
    {
    }
}


/// physical button state
///
/// Describes the physical state of a button that produced the button
/// event.
///
#[derive(Debug, Clone, Copy, PartialEq, Eq, Hash)]
pub enum button_state {
    /// the button is not pressed
    released,
    /// the button is pressed
    pressed,
}

impl WireEnum for button_state {
    open spec fn to_wire(self) -> u32 {
        match self {
            button_state::released => 0,
            button_state::pressed => 1,
        }
    }

    open spec fn of_wire(v: u32) -> Option<button_state> {
        match v {
            0 => Some(button_state::released),
            1 => Some(button_state::pressed),
            _ => None,
        }
    }

    proof fn lemma_wire_enum(self, v: u32) {
    }
}

impl button_state {
    /// The word that stands for the entry.
    fn to_u32(self) -> (r: u32)
        ensures
            r == self.to_wire(),
    {
        match self {
            button_state::released => 0,
            button_state::pressed => 1,
        }
    }

    /// The entry that a word stands for, if any.
    fn from_u32(v: u32) -> (r: Option<button_state>)
        ensures
            r == button_state::of_wire(v),
    {
        match v {
            0 => Some(button_state::released),
            1 => Some(button_state::pressed),
            _ => None,
        }
    }
}

impl From<button_state> for u32 {
    fn from(v: button_state) -> (r: u32) {
        v.to_u32()
    }
}

impl FromSpecImpl<button_state> for u32 {
    open spec fn obeys_from_spec() -> bool {
        true
    }

    open spec fn from_spec(v: button_state) -> u32 {
        v.to_wire()
    }
}

impl TryFrom<u32> for button_state {
    type Error = TryFromIntError;

    fn try_from(v: u32) -> (r: Result<button_state, TryFromIntError>) {
        match button_state::from_u32(v) {
            Some(e) => Ok(e),
            None => match u32::try_from(-1i32) {
                Ok(_) => {
                    assert(false);
                    Ok(button_state::released)
                },
                Err(e) => Err(e),
            },
        }
    }
}

impl TryFromSpecImpl<u32> for button_state {
    open spec fn obeys_try_from_spec() -> bool {
        true
    }

    open spec fn try_from_spec(v: u32) -> Result<button_state, TryFromIntError> {
        match button_state::of_wire(v) {
            Some(e) => Ok(e),
            None => Err(arbitrary()),
        }
    }
}

impl Ser for button_state {
    open spec fn ser_ok(&self) -> bool {
        true
    }

    open spec fn ser_bytes(&self) -> Seq<u8> {
        u32_wire(self.to_wire())
    }

    open spec fn ser_fds(&self) -> Seq<Fd> {
        Seq::empty()
    }

    fn wire_len(&self) -> (n: usize) {
        4
    }

    fn checked_len(&self) -> (r: Option<usize>) {
        Some(4)
    }

    open spec fn ser_fits(&self, cap: int) -> bool {
        true
    }

    fn serialize(self, buf: &mut [u8], fds: &mut Vec<Fd>) -> (r: Result<usize, &'static str>) {
        self.to_u32().serialize(buf, fds)
    }

    proof fn lemma_fits(&self, cap: int) {
    }
}

impl DeepView for button_state {
    type V = button_state;

    open spec fn deep_view(&self) -> button_state {
        *self
    }
}

impl Dsr for button_state {
    open spec fn dsr_spec(buf: Seq<u8>, fds: Seq<Fd>) -> Decoded<button_state> {
        match u32::dsr_spec(buf, fds) {
            Decoded::Value(i, n, left) => match button_state::of_wire(i) {
                Some(v) => Decoded::Value(v, n, left),
                None => Decoded::Failure("invalid value for button_state", left),
            },
            Decoded::Failure(e, left) => Decoded::Failure(e, left),
            Decoded::Undefined => Decoded::Undefined,
        }
    }

    fn try_deserialize(buf: &[u8], fds: &mut Vec<Fd>) -> (r: Option<Result<(button_state, usize), &'static str>>) {
        let (i, n) = match u32::try_deserialize(buf, fds) {
            Some(Ok(p)) => p,
            Some(Err(e)) => return Some(Err(e)),
            None => return None,
        };
        match button_state::from_u32(i) {
            Some(v) => Some(Ok((v, n))),
            None => Some(Err("invalid value for button_state")),
        }
    }
}

impl Codec for button_state {
    open spec fn rt_ok(&self) -> bool {
        true
    }

    proof fn lemma_roundtrip(&self, tail: Seq<u8>, base: Seq<Fd>) {
        self.to_wire().lemma_roundtrip(tail, base);
        self.lemma_wire_enum(0);
    }
}
impl button_state {
    /// The protocol's word for each entry, and no other word names an entry.
    pub proof fn lemma_wire_values()
        ensures
            button_state::released.to_wire() == 0,
            button_state::pressed.to_wire() == 1,
            button_state::of_wire(0) == Some(button_state::released),
            button_state::of_wire(1) == Some(button_state::pressed),
            forall|v: u32| #[trigger] button_state::of_wire(v) is Some ==> (v == 0 || v == 1),
    {
    }
}


/// axis types
///
/// Describes the axis types of scroll events.
///
#[derive(Debug, Clone, Copy, PartialEq, Eq, Hash)]
pub enum axis {
    /// vertical axis
    vertical_scroll,
    /// horizontal axis
    horizontal_scroll,
}

impl WireEnum for axis {
    open spec fn to_wire(self) -> u32 {
        match self {
            axis::vertical_scroll => 0,
            axis::horizontal_scroll => 1,
        }
    }

    open spec fn of_wire(v: u32) -> Option<axis> {
        match v {
            0 => Some(axis::vertical_scroll),
            1 => Some(axis::horizontal_scroll),
            _ => None,
        }
    }

    proof fn lemma_wire_enum(self, v: u32) {
    }
}

impl axis {
    /// The word that stands for the entry.
    fn to_u32(self) -> (r: u32)
        ensures
            r == self.to_wire(),
    {
        match self {
            axis::vertical_scroll => 0,
            axis::horizontal_scroll => 1,
        }
    }

    /// The entry that a word stands for, if any.
    fn from_u32(v: u32) -> (r: Option<axis>)
        ensures
            r == axis::of_wire(v),
    {
        match v {
            0 => Some(axis::vertical_scroll),
            1 => Some(axis::horizontal_scroll),
            _ => None,
        }
    }
}

impl From<axis> for u32 {
    fn from(v: axis) -> (r: u32) {
        v.to_u32()
    }
}

impl FromSpecImpl<axis> for u32 {
    open spec fn obeys_from_spec() -> bool {
        true
    }

    open spec fn from_spec(v: axis) -> u32 {
        v.to_wire()
    }
}

impl TryFrom<u32> for axis {
    type Error = TryFromIntError;

    fn try_from(v: u32) -> (r: Result<axis, TryFromIntError>) {
        match axis::from_u32(v) {
            Some(e) => Ok(e),
            None => match u32::try_from(-1i32) {
                Ok(_) => {
                    assert(false);
                    Ok(axis::vertical_scroll)
                },
                Err(e) => Err(e),
            },
        }
    }
}

impl TryFromSpecImpl<u32> for axis {
    open spec fn obeys_try_from_spec() -> bool {
        true
    }

    open spec fn try_from_spec(v: u32) -> Result<axis, TryFromIntError> {
        match axis::of_wire(v) {
            Some(e) => Ok(e),
            None => Err(arbitrary()),
        }
    }
}

impl Ser for axis {
    open spec fn ser_ok(&self) -> bool {
        true
    }

    open spec fn ser_bytes(&self) -> Seq<u8> {
        u32_wire(self.to_wire())
    }

    open spec fn ser_fds(&self) -> Seq<Fd> {
        Seq::empty()
    }

    fn wire_len(&self) -> (n: usize) {
        4
    }

    fn checked_len(&self) -> (r: Option<usize>) {
        Some(4)
    }

    open spec fn ser_fits(&self, cap: int) -> bool {
        true
    }

    fn serialize(self, buf: &mut [u8], fds: &mut Vec<Fd>) -> (r: Result<usize, &'static str>) {
        self.to_u32().serialize(buf, fds)
    }

    proof fn lemma_fits(&self, cap: int) {
    }
}

impl DeepView for axis {
    type V = axis;

    open spec fn deep_view(&self) -> axis {
        *self
    }
}

impl Dsr for axis {
    open spec fn dsr_spec(buf: Seq<u8>, fds: Seq<Fd>) -> Decoded<axis> {
        match u32::dsr_spec(buf, fds) {
            Decoded::Value(i, n, left) => match axis::of_wire(i) {
                Some(v) => Decoded::Value(v, n, left),
                None => Decoded::Failure("invalid value for axis", left),
            },
            Decoded::Failure(e, left) => Decoded::Failure(e, left),
            Decoded::Undefined => Decoded::Undefined,
        }
    }

    fn try_deserialize(buf: &[u8], fds: &mut Vec<Fd>) -> (r: Option<Result<(axis, usize), &'static str>>) {
        let (i, n) = match u32::try_deserialize(buf, fds) {
            Some(Ok(p)) => p,
            Some(Err(e)) => return Some(Err(e)),
            None => return None,
        };
        match axis::from_u32(i) {
            Some(v) => Some(Ok((v, n))),
            None => Some(Err("invalid value for axis")),
        }
    }
}

impl Codec for axis {
    open spec fn rt_ok(&self) -> bool {
        true
    }

    proof fn lemma_roundtrip(&self, tail: Seq<u8>, base: Seq<Fd>) {
        self.to_wire().lemma_roundtrip(tail, base);
        self.lemma_wire_enum(0);
    }
}
impl axis {
    /// The protocol's word for each entry, and no other word names an entry.
    pub proof fn lemma_wire_values()
        ensures
            axis::vertical_scroll.to_wire() == 0,
            axis::horizontal_scroll.to_wire() == 1,
            axis::of_wire(0) == Some(axis::vertical_scroll),
            axis::of_wire(1) == Some(axis::horizontal_scroll),
            forall|v: u32| #[trigger] axis::of_wire(v) is Some ==> (v == 0 || v == 1),
    {
    }
}


/// axis source types
///
/// Describes the source types for axis events. This indicates to the
/// client how an axis event was physically generated; a client may
/// adjust the user interface accordingly. For example, scroll events
/// from a "finger" source may be in a smooth coordinate space with
/// kinetic scrolling whereas a "wheel" source may be in discrete steps
/// of a number of lines.
///
/// The "continuous" axis source is a device generating events in a
/// continuous coordinate space, but using something other than a
/// finger. One example for this source is button-based scrolling where
/// the vertical motion of a device is converted to scroll events while
/// a button is held down.
///
/// The "wheel tilt" axis source indicates that the actual device is a
/// wheel but the scroll event is not caused by a rotation but a
/// (usually sideways) tilt of the wheel.
///
#[derive(Debug, Clone, Copy, PartialEq, Eq, Hash)]
pub enum axis_source {
    /// a physical wheel rotation
    wheel,
    /// finger on a touch surface
    finger,
    /// continuous coordinate space
    continuous,
    /// a physical wheel tilt
    wheel_tilt,
}

impl WireEnum for axis_source {
    open spec fn to_wire(self) -> u32 {
        match self {
            axis_source::wheel => 0,
            axis_source::finger => 1,
            axis_source::continuous => 2,
            axis_source::wheel_tilt => 3,
        }
    }

    open spec fn of_wire(v: u32) -> Option<axis_source> {
        match v {
            0 => Some(axis_source::wheel),
            1 => Some(axis_source::finger),
            2 => Some(axis_source::continuous),
            3 => Some(axis_source::wheel_tilt),
            _ => None,
        }
    }

    proof fn lemma_wire_enum(self, v: u32) {
    }
}

impl axis_source {
    /// The word that stands for the entry.
    fn to_u32(self) -> (r: u32)
        ensures
            r == self.to_wire(),
    {
        match self {
            axis_source::wheel => 0,
            axis_source::finger => 1,
            axis_source::continuous => 2,
            axis_source::wheel_tilt => 3,
        }
    }

    /// The entry that a word stands for, if any.
    fn from_u32(v: u32) -> (r: Option<axis_source>)
        ensures
            r == axis_source::of_wire(v),
    {
        match v {
            0 => Some(axis_source::wheel),
            1 => Some(axis_source::finger),
            2 => Some(axis_source::continuous),
            3 => Some(axis_source::wheel_tilt),
            _ => None,
        }
    }
}

impl From<axis_source> for u32 {
    fn from(v: axis_source) -> (r: u32) {
        v.to_u32()
    }
}

impl FromSpecImpl<axis_source> for u32 {
    open spec fn obeys_from_spec() -> bool {
        true
    }

    open spec fn from_spec(v: axis_source) -> u32 {
        v.to_wire()
    }
}

impl TryFrom<u32> for axis_source {
    type Error = TryFromIntError;

    fn try_from(v: u32) -> (r: Result<axis_source, TryFromIntError>) {
        match axis_source::from_u32(v) {
            Some(e) => Ok(e),
            None => match u32::try_from(-1i32) {
                Ok(_) => {
                    assert(false);
                    Ok(axis_source::wheel)
                },
                Err(e) => Err(e),
            },
        }
    }
}

impl TryFromSpecImpl<u32> for axis_source {
    open spec fn obeys_try_from_spec() -> bool {
        true
    }

    open spec fn try_from_spec(v: u32) -> Result<axis_source, TryFromIntError> {
        match axis_source::of_wire(v) {
            Some(e) => Ok(e),
            None => Err(arbitrary()),
        }
    }
}

impl Ser for axis_source {
    open spec fn ser_ok(&self) -> bool {
        true
    }

    open spec fn ser_bytes(&self) -> Seq<u8> {
        u32_wire(self.to_wire())
    }

    open spec fn ser_fds(&self) -> Seq<Fd> {
        Seq::empty()
    }

    fn wire_len(&self) -> (n: usize) {
        4
    }

    fn checked_len(&self) -> (r: Option<usize>) {
        Some(4)
    }

    open spec fn ser_fits(&self, cap: int) -> bool {
        true
    }

    fn serialize(self, buf: &mut [u8], fds: &mut Vec<Fd>) -> (r: Result<usize, &'static str>) {
        self.to_u32().serialize(buf, fds)
    }

    proof fn lemma_fits(&self, cap: int) {
    }
}

impl DeepView for axis_source {
    type V = axis_source;

    open spec fn deep_view(&self) -> axis_source {
        *self
    }
}

impl Dsr for axis_source {
    open spec fn dsr_spec(buf: Seq<u8>, fds: Seq<Fd>) -> Decoded<axis_source> {
        match u32::dsr_spec(buf, fds) {
            Decoded::Value(i, n, left) => match axis_source::of_wire(i) {
                Some(v) => Decoded::Value(v, n, left),
                None => Decoded::Failure("invalid value for axis_source", left),
            },
            Decoded::Failure(e, left) => Decoded::Failure(e, left),
            Decoded::Undefined => Decoded::Undefined,
        }
    }

    fn try_deserialize(buf: &[u8], fds: &mut Vec<Fd>) -> (r: Option<Result<(axis_source, usize), &'static str>>) {
        let (i, n) = match u32::try_deserialize(buf, fds) {
            Some(Ok(p)) => p,
            Some(Err(e)) => return Some(Err(e)),
            None => return None,
        };
        match axis_source::from_u32(i) {
            Some(v) => Some(Ok((v, n))),
            None => Some(Err("invalid value for axis_source")),
        }
    }
}

impl Codec for axis_source {
    open spec fn rt_ok(&self) -> bool {
        true
    }

    proof fn lemma_roundtrip(&self, tail: Seq<u8>, base: Seq<Fd>) {
        self.to_wire().lemma_roundtrip(tail, base);
        self.lemma_wire_enum(0);
    }
}
impl axis_source {
    /// The protocol's word for each entry, and no other word names an entry.
    pub proof fn lemma_wire_values()
        ensures
            axis_source::wheel.to_wire() == 0,
            axis_source::finger.to_wire() == 1,
            axis_source::continuous.to_wire() == 2,
            axis_source::wheel_tilt.to_wire() == 3,
            axis_source::of_wire(0) == Some(axis_source::wheel),
            axis_source::of_wire(1) == Some(axis_source::finger),
            axis_source::of_wire(2) == Some(axis_source::continuous),
            axis_source::of_wire(3) == Some(axis_source::wheel_tilt),
            forall|v: u32| #[trigger] axis_source::of_wire(v) is Some ==> (v == 0 || v == 1 || v == 2 || v == 3),
    {
    }
}


/// axis relative direction
///
/// This specifies the direction of the physical motion that caused a
/// wl_pointer.axis event, relative to the wl_pointer.axis direction.
///
#[derive(Debug, Clone, Copy, PartialEq, Eq, Hash)]
pub enum axis_relative_direction {
    /// physical motion matches axis direction
    identical,
    /// physical motion is the inverse of the axis direction
    inverted,
}

impl WireEnum for axis_relative_direction {
    open spec fn to_wire(self) -> u32 {
        match self {
            axis_relative_direction::identical => 0,
            axis_relative_direction::inverted => 1,
        }
    }

    open spec fn of_wire(v: u32) -> Option<axis_relative_direction> {
        match v {
            0 => Some(axis_relative_direction::identical),
            1 => Some(axis_relative_direction::inverted),
            _ => None,
        }
    }

    proof fn lemma_wire_enum(self, v: u32) {
    }
}

impl axis_relative_direction {
    /// The word that stands for the entry.
    fn to_u32(self) -> (r: u32)
        ensures
            r == self.to_wire(),
    {
        match self {
            axis_relative_direction::identical => 0,
            axis_relative_direction::inverted => 1,
        }
    }

    /// The entry that a word stands for, if any.
    fn from_u32(v: u32) -> (r: Option<axis_relative_direction>)
        ensures
            r == axis_relative_direction::of_wire(v),
    {
        match v {
            0 => Some(axis_relative_direction::identical),
            1 => Some(axis_relative_direction::inverted),
            _ => None,
        }
    }
}

impl From<axis_relative_direction> for u32 {
    fn from(v: axis_relative_direction) -> (r: u32) {
        v.to_u32()
    }
}

impl FromSpecImpl<axis_relative_direction> for u32 {
    open spec fn obeys_from_spec() -> bool {
        true
    }

    open spec fn from_spec(v: axis_relative_direction) -> u32 {
        v.to_wire()
    }
}

impl TryFrom<u32> for axis_relative_direction {
    type Error = TryFromIntError;

    fn try_from(v: u32) -> (r: Result<axis_relative_direction, TryFromIntError>) {
        match axis_relative_direction::from_u32(v) {
            Some(e) => Ok(e),
            None => match u32::try_from(-1i32) {
                Ok(_) => {
                    assert(false);
                    Ok(axis_relative_direction::identical)
                },
                Err(e) => Err(e),
            },
        }
    }
}

impl TryFromSpecImpl<u32> for axis_relative_direction {
    open spec fn obeys_try_from_spec() -> bool {
        true
    }

    open spec fn try_from_spec(v: u32) -> Result<axis_relative_direction, TryFromIntError> {
        match axis_relative_direction::of_wire(v) {
            Some(e) => Ok(e),
            None => Err(arbitrary()),
        }
    }
}

impl Ser for axis_relative_direction {
    open spec fn ser_ok(&self) -> bool {
        true
    }

    open spec fn ser_bytes(&self) -> Seq<u8> {
        u32_wire(self.to_wire())
    }

    open spec fn ser_fds(&self) -> Seq<Fd> {
        Seq::empty()
    }

    fn wire_len(&self) -> (n: usize) {
        4
    }

    fn checked_len(&self) -> (r: Option<usize>) {
        Some(4)
    }

    open spec fn ser_fits(&self, cap: int) -> bool {
        true
    }

    fn serialize(self, buf: &mut [u8], fds: &mut Vec<Fd>) -> (r: Result<usize, &'static str>) {
        self.to_u32().serialize(buf, fds)
    }

    proof fn lemma_fits(&self, cap: int) {
    }
}

impl DeepView for axis_relative_direction {
    type V = axis_relative_direction;

    open spec fn deep_view(&self) -> axis_relative_direction {
        *self
    }
}

impl Dsr for axis_relative_direction {
    open spec fn dsr_spec(buf: Seq<u8>, fds: Seq<Fd>) -> Decoded<axis_relative_direction> {
        match u32::dsr_spec(buf, fds) {
            Decoded::Value(i, n, left) => match axis_relative_direction::of_wire(i) {
                Some(v) => Decoded::Value(v, n, left),
                None => Decoded::Failure("invalid value for axis_relative_direction", left),
            },
            Decoded::Failure(e, left) => Decoded::Failure(e, left),
            Decoded::Undefined => Decoded::Undefined,
        }
    }

    fn try_deserialize(buf: &[u8], fds: &mut Vec<Fd>) -> (r: Option<Result<(axis_relative_direction, usize), &'static str>>) {
        let (i, n) = match u32::try_deserialize(buf, fds) {
            Some(Ok(p)) => p,
            Some(Err(e)) => return Some(Err(e)),
            None => return None,
        };
        match axis_relative_direction::from_u32(i) {
            Some(v) => Some(Ok((v, n))),
            None => Some(Err("invalid value for axis_relative_direction")),
        }
    }
}

impl Codec for axis_relative_direction {
    open spec fn rt_ok(&self) -> bool {
        true
    }

    proof fn lemma_roundtrip(&self, tail: Seq<u8>, base: Seq<Fd>) {
        self.to_wire().lemma_roundtrip(tail, base);
        self.lemma_wire_enum(0);
    }
}
impl axis_relative_direction {
    /// The protocol's word for each entry, and no other word names an entry.
    pub proof fn lemma_wire_values()
        ensures
            axis_relative_direction::identical.to_wire() == 0,
            axis_relative_direction::inverted.to_wire() == 1,
            axis_relative_direction::of_wire(0) == Some(axis_relative_direction::identical),
            axis_relative_direction::of_wire(1) == Some(axis_relative_direction::inverted),
            forall|v: u32| #[trigger] axis_relative_direction::of_wire(v) is Some ==> (v == 0 || v == 1),
    {
    }
}


/// The interface's run-time name is its protocol name.
pub proof fn lemma_interface_name()
    ensures
        <Obj as Object>::interface_name() == "wl_pointer"@,
{
}


#[derive(Debug, Clone, Copy)]
pub struct wl_pointer;

pub type Obj = wl_pointer;

#[allow(non_upper_case_globals)]
pub const Obj: Obj = wl_pointer;

impl Ser for wl_pointer {
    open spec fn ser_ok(&self) -> bool {
        true
    }

    open spec fn ser_bytes(&self) -> Seq<u8> {
        Seq::empty()
    }

    open spec fn ser_fds(&self) -> Seq<Fd> {
        Seq::empty()
    }

    fn wire_len(&self) -> (n: usize) {
        0
    }

    fn checked_len(&self) -> (r: Option<usize>) {
        Some(0)
    }

    open spec fn ser_fits(&self, cap: int) -> bool {
        true
    }

    fn serialize(self, buf: &mut [u8], fds: &mut Vec<Fd>) -> (r: Result<usize, &'static str>) {
        assert(buf@ =~= write_at(old(buf)@, 0, Seq::<u8>::empty()));
        assert(fds@ =~= old(fds)@ + Seq::<Fd>::empty());
        Ok(0)
    }

    proof fn lemma_fits(&self, cap: int) {
    }
}

impl DeepView for wl_pointer {
    type V = ();

    open spec fn deep_view(&self) -> () {
        ()
    }
}

impl Dsr for wl_pointer {
    open spec fn dsr_spec(buf: Seq<u8>, fds: Seq<Fd>) -> Decoded<()> {
        Decoded::Value((), 0, fds)
    }

    fn try_deserialize(buf: &[u8], fds: &mut Vec<Fd>) -> (r: Option<Result<(wl_pointer, usize), &'static str>>) {
        Some(Ok((wl_pointer, 0)))
    }
}

impl Codec for wl_pointer {
    open spec fn rt_ok(&self) -> bool {
        true
    }

    proof fn lemma_roundtrip(&self, tail: Seq<u8>, base: Seq<Fd>) {
        assert(Seq::<Fd>::empty().reverse() =~= Seq::<Fd>::empty());
        assert(base + Seq::<Fd>::empty() =~= base);
    }
}

impl Object for wl_pointer {
    open spec fn interface_name() -> Seq<char> {
        NAME@
    }

    open spec fn destructor_op() -> Option<u16> {
        Some(1)
    }

    fn new_obj() -> (r: wl_pointer) {
        wl_pointer
    }

    fn new_dyn(version: u32) -> (d: Dyn) {
        Dyn { name: NAME.to_owned(), version }
    }

    fn destructor() -> (r: Option<u16>) {
        Some(1)
    }

    proof fn lemma_unit(&self, buf: Seq<u8>, fds: Seq<Fd>) {
    }
}

} // verus!
