//! keyboard input device
//!
//! The wl_keyboard interface represents one or more keyboards
//! associated with a seat.
//!
#![allow(non_camel_case_types)]
use vstd::prelude::*;
use crate::objects::{Dyn, Object};
use crate::wire::{u32_wire, write_at, flag_names, names_of, join_names, join_text, Codec, Decoded, Dsr, Fd, Ser, WireEnum};
use vstd::std_specs::convert::{FromSpecImpl, TryFromSpecImpl};
use vstd::std_specs::ops::{BitAndSpec, BitAndSpecImpl, BitOrSpec, BitOrSpecImpl};
use core::num::TryFromIntError;

pub mod request;
pub mod event;

verus! {

pub const NAME: &'static str = "wl_keyboard";

pub const VERSION: u32 = 9;

/// keyboard mapping format
///
/// This specifies the format of the keymap provided to the
/// client with the wl_keyboard.keymap event.
///
#[derive(Debug, Clone, Copy, PartialEq, Eq, Hash)]
pub enum keymap_format {
    /// no keymap; client must understand how to interpret the raw keycode
    no_keymap,
    /// libxkbcommon compatible, null-terminated string; to determine the xkb keycode, clients must add 8 to the key event keycode
    xkb_v1,
}

impl WireEnum for keymap_format {
    open spec fn to_wire(self) -> u32 {
        match self {
            keymap_format::no_keymap => 0,
            keymap_format::xkb_v1 => 1,
        }
    }

    open spec fn of_wire(v: u32) -> Option<keymap_format> {
        match v {
            0 => Some(keymap_format::no_keymap),
            1 => Some(keymap_format::xkb_v1),
            _ => None,
        }
    }

    proof fn lemma_wire_enum(self, v: u32) {
    }
}

impl keymap_format {
    /// The word that stands for the entry.
    fn to_u32(self) -> (r: u32)
        ensures
            r == self.to_wire(),
    {
        match self {
            keymap_format::no_keymap => 0,
            keymap_format::xkb_v1 => 1,
        }
    }

    /// The entry that a word stands for, if any.
    fn from_u32(v: u32) -> (r: Option<keymap_format>)
        ensures
            r == keymap_format::of_wire(v),
    {
        match v {
            0 => Some(keymap_format::no_keymap),
            1 => Some(keymap_format::xkb_v1),
            _ => None,
        }
    }
}

impl From<keymap_format> for u32 {
    fn from(v: keymap_format) -> (r: u32) {
        v.to_u32()
    }
}

impl FromSpecImpl<keymap_format> for u32 {
    open spec fn obeys_from_spec() -> bool {
        true
    }

    open spec fn from_spec(v: keymap_format) -> u32 {
        v.to_wire()
    }
}

impl TryFrom<u32> for keymap_format {
    type Error = TryFromIntError;

    fn try_from(v: u32) -> (r: Result<keymap_format, TryFromIntError>) {
        match keymap_format::from_u32(v) {
            Some(e) => Ok(e),
            None => match u32::try_from(-1i32) {
                Ok(_) => {
                    assert(false);
                    Ok(keymap_format::no_keymap)
                },
                Err(e) => Err(e),
            },
        }
    }
}

impl TryFromSpecImpl<u32> for keymap_format {
    open spec fn obeys_try_from_spec() -> bool {
        true
    }

    open spec fn try_from_spec(v: u32) -> Result<keymap_format, TryFromIntError> {
        match keymap_format::of_wire(v) {
            Some(e) => Ok(e),
            None => Err(arbitrary()),
        }
    }
}

impl Ser for keymap_format {
    open spec fn ser_ok(&self) -> bool {
        true
    }

    open spec fn ser_bytes(&self) -> Seq<u8> {
        u32_wire(self.to_wire())
    }

    open spec fn ser_fds(&self) -> Seq<Fd> {
        Seq::empty()
    }

    fn wire_len(&self) -> (n: usize) {
        4
    }

    fn checked_len(&self) -> (r: Option<usize>) {
        Some(4)
    }

    open spec fn ser_fits(&self, cap: int) -> bool {
        true
    }

    fn serialize(self, buf: &mut [u8], fds: &mut Vec<Fd>) -> (r: Result<usize, &'static str>) {
        self.to_u32().serialize(buf, fds)
    }

    proof fn lemma_fits(&self, cap: int) {
    }
}

impl DeepView for keymap_format {
    type V = keymap_format;

    open spec fn deep_view(&self) -> keymap_format {
        *self
    }
}

impl Dsr for keymap_format {
    open spec fn dsr_spec(buf: Seq<u8>, fds: Seq<Fd>) -> Decoded<keymap_format> {
        match u32::dsr_spec(buf, fds) {
            Decoded::Value(i, n, left) => match keymap_format::of_wire(i) {
                Some(v) => Decoded::Value(v, n, left),
                None => Decoded::Failure("invalid value for keymap_format", left),
            },
            Decoded::Failure(e, left) => Decoded::Failure(e, left),
            Decoded::Undefined => Decoded::Undefined,
        }
    }

    fn try_deserialize(buf: &[u8], fds: &mut Vec<Fd>) -> (r: Option<Result<(keymap_format, usize), &'static str>>) {
        let (i, n) = match u32::try_deserialize(buf, fds) {
            Some(Ok(p)) => p,
            Some(Err(e)) => return Some(Err(e)),
            None => return None,
        };
        match keymap_format::from_u32(i) {
            Some(v) => Some(Ok((v, n))),
            None => Some(Err("invalid value for keymap_format")),
        }
    }
}

impl Codec for keymap_format {
    open spec fn rt_ok(&self) -> bool {
        true
    }

    proof fn lemma_roundtrip(&self, tail: Seq<u8>, base: Seq<Fd>) {
        self.to_wire().lemma_roundtrip(tail, base);
        self.lemma_wire_enum(0);
    }
}
impl keymap_format {
    /// The protocol's word for each entry, and no other word names an entry.
    pub proof fn lemma_wire_values()
        ensures
            keymap_format::no_keymap.to_wire() == 0,
            keymap_format::xkb_v1.to_wire() == 1,
            keymap_format::of_wire(0) == Some(keymap_format::no_keymap),
            keymap_format::of_wire(1) == Some(keymap_format::xkb_v1),
            forall|v: u32| #[trigger] keymap_format::of_wire(v) is Some ==> (v == 0 || v == 1),
    {
    }
}


/// physical key state
///
/// Describes the physical state of a key that produced the key event.
///
#[derive(Debug, Clone, Copy, PartialEq, Eq, Hash)]
pub enum key_state {
    /// key is not pressed
    released,
    /// key is pressed
    pressed,
}

impl WireEnum for key_state {
    open spec fn to_wire(self) -> u32 {
        match self {
            key_state::released => 0,
            key_state::pressed => 1,
        }
    }

    open spec fn of_wire(v: u32) -> Option<key_state> {
        match v {
            0 => Some(key_state::released),
            1 => Some(key_state::pressed),
            _ => None,
        }
    }

    proof fn lemma_wire_enum(self, v: u32) {
    }
}

impl key_state {
    /// The word that stands for the entry.
    fn to_u32(self) -> (r: u32)
        ensures
            r == self.to_wire(),
    {
        match self {
            key_state::released => 0,
            key_state::pressed => 1,
        }
    }

    /// The entry that a word stands for, if any.
    fn from_u32(v: u32) -> (r: Option<key_state>)
        ensures
            r == key_state::of_wire(v),
    {
        match v {
            0 => Some(key_state::released),
            1 => Some(key_state::pressed),
            _ => None,
        }
    }
}

impl From<key_state> for u32 {
    fn from(v: key_state) -> (r: u32) {
        v.to_u32()
    }
}

impl FromSpecImpl<key_state> for u32 {
    open spec fn obeys_from_spec() -> bool {
        true
    }

    open spec fn from_spec(v: key_state) -> u32 {
        v.to_wire()
    }
}

impl TryFrom<u32> for key_state {
    type Error = TryFromIntError;

    fn try_from(v: u32) -> (r: Result<key_state, TryFromIntError>) {
        match key_state::from_u32(v) {
            Some(e) => Ok(e),
            None => match u32::try_from(-1i32) {
                Ok(_) => {
                    assert(false);
                    Ok(key_state::released)
                },
                Err(e) => Err(e),
            },
        }
    }
}

impl TryFromSpecImpl<u32> for key_state {
    open spec fn obeys_try_from_spec() -> bool {
        true
    }

    open spec fn try_from_spec(v: u32) -> Result<key_state, TryFromIntError> {
        match key_state::of_wire(v) {
            Some(e) => Ok(e),
            None => Err(arbitrary()),
        }
    }
}

impl Ser for key_state {
    open spec fn ser_ok(&self) -> bool {
        true
    }

    open spec fn ser_bytes(&self) -> Seq<u8> {
        u32_wire(self.to_wire())
    }

    open spec fn ser_fds(&self) -> Seq<Fd> {
        Seq::empty()
    }

    fn wire_len(&self) -> (n: usize) {
        4
    }

    fn checked_len(&self) -> (r: Option<usize>) {
        Some(4)
    }

    open spec fn ser_fits(&self, cap: int) -> bool {
        true
    }

    fn serialize(self, buf: &mut [u8], fds: &mut Vec<Fd>) -> (r: Result<usize, &'static str>) {
        self.to_u32().serialize(buf, fds)
    }

    proof fn lemma_fits(&self, cap: int) {
    }
}

impl DeepView for key_state {
    type V = key_state;

    open spec fn deep_view(&self) -> key_state {
        *self
    }
}

impl Dsr for key_state {
    open spec fn dsr_spec(buf: Seq<u8>, fds: Seq<Fd>) -> Decoded<key_state> {
        match u32::dsr_spec(buf, fds) {
            Decoded::Value(i, n, left) => match key_state::of_wire(i) {
                Some(v) => Decoded::Value(v, n, left),
                None => Decoded::Failure("invalid value for key_state", left),
            },
            Decoded::Failure(e, left) => Decoded::Failure(e, left),
            Decoded::Undefined => Decoded::Undefined,
        }
    }

    fn try_deserialize(buf: &[u8], fds: &mut Vec<Fd>) -> (r: Option<Result<(key_state, usize), &'static str>>) {
        let (i, n) = match u32::try_deserialize(buf, fds) {
            Some(Ok(p)) => p,
            Some(Err(e)) => return Some(Err(e)),
            None => return None,
        };
        match key_state::from_u32(i) {
            Some(v) => Some(Ok((v, n))),
            None => Some(Err("invalid value for key_state")),
        }
    }
}

impl Codec for key_state {
    open spec fn rt_ok(&self) -> bool {
        true
    }

    proof fn lemma_roundtrip(&self, tail: Seq<u8>, base: Seq<Fd>) {
        self.to_wire().lemma_roundtrip(tail, base);
        self.lemma_wire_enum(0);
    }
}
impl key_state {
    /// The protocol's word for each entry, and no other word names an entry.
    pub proof fn lemma_wire_values()
        ensures
            key_state::released.to_wire() == 0,
            key_state::pressed.to_wire() == 1,
            key_state::of_wire(0) == Some(key_state::released),
            key_state::of_wire(1) == Some(key_state::pressed),
            forall|v: u32| #[trigger] key_state::of_wire(v) is Some ==> (v == 0 || v == 1),
    {
    }
}


/// The interface's run-time name is its protocol name.
pub proof fn lemma_interface_name()
    ensures
        <Obj as Object>::interface_name() == "wl_keyboard"@,
{
}


#[derive(Debug, Clone, Copy)]
pub struct wl_keyboard;

pub type Obj = wl_keyboard;

#[allow(non_upper_case_globals)]
pub const Obj: Obj = wl_keyboard;

impl Ser for wl_keyboard {
    open spec fn ser_ok(&self) -> bool {
        true
    }

    open spec fn ser_bytes(&self) -> Seq<u8> {
        Seq::empty()
    }

    open spec fn ser_fds(&self) -> Seq<Fd> {
        Seq::empty()
    }

    fn wire_len(&self) -> (n: usize) {
        0
    }

    fn checked_len(&self) -> (r: Option<usize>) {
        Some(0)
    }

    open spec fn ser_fits(&self, cap: int) -> bool {
        true
    }

    fn serialize(self, buf: &mut [u8], fds: &mut Vec<Fd>) -> (r: Result<usize, &'static str>) {
        assert(buf@ =~= write_at(old(buf)@, 0, Seq::<u8>::empty()));
        assert(fds@ =~= old(fds)@ + Seq::<Fd>::empty());
        Ok(0)
    }

    proof fn lemma_fits(&self, cap: int) {
    }
}

impl DeepView for wl_keyboard {
    type V = ();

    open spec fn deep_view(&self) -> () {
        ()
    }
}

impl Dsr for wl_keyboard {
    open spec fn dsr_spec(buf: Seq<u8>, fds: Seq<Fd>) -> Decoded<()> {
        Decoded::Value((), 0, fds)
    }

    fn try_deserialize(buf: &[u8], fds: &mut Vec<Fd>) -> (r: Option<Result<(wl_keyboard, usize), &'static str>>) {
        Some(Ok((wl_keyboard, 0)))
    }
}

impl Codec for wl_keyboard {
    open spec fn rt_ok(&self) -> bool {
        true
    }

    proof fn lemma_roundtrip(&self, tail: Seq<u8>, base: Seq<Fd>) {
        assert(Seq::<Fd>::empty().reverse() =~= Seq::<Fd>::empty());
        assert(base + Seq::<Fd>::empty() =~= base);
    }
}

impl Object for wl_keyboard {
    open spec fn interface_name() -> Seq<char> {
        NAME@
    }

    open spec fn destructor_op() -> Option<u16> {
        Some(0)
    }

    fn new_obj() -> (r: wl_keyboard) {
        wl_keyboard
    }

    fn new_dyn(version: u32) -> (d: Dyn) {
        Dyn { name: NAME.to_owned(), version }
    }

    fn destructor() -> (r: Option<u16>) {
        Some(0)
    }

    proof fn lemma_unit(&self, buf: Seq<u8>, fds: Seq<Fd>) {
    }
}

} // verus!
