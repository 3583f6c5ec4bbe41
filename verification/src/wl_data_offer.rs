//! offer to transfer data
//!
//! A wl_data_offer represents a piece of data offered for transfer
//! by another client (the source client).  It is used by the
//! copy-and-paste and drag-and-drop mechanisms.  The offer
//! describes the different mime types that the data can be
//! converted to and provides the mechanism for transferring the
//! data directly from the source client.
//!
#![allow(non_camel_case_types)]
use vstd::prelude::*;
use crate::objects::{Dyn, Object};
use crate::wire::{u32_wire, write_at, flag_names, names_of, join_names, join_text, Codec, Decoded, Dsr, Fd, Ser, WireEnum};
use vstd::std_specs::convert::{FromSpecImpl, TryFromSpecImpl};
use vstd::std_specs::ops::{BitAndSpec, BitAndSpecImpl, BitOrSpec, BitOrSpecImpl};
use core::num::TryFromIntError;

pub mod request;
pub mod event;

verus! {

pub const NAME: &'static str = "wl_data_offer";

pub const VERSION: u32 = 3;

#[derive(Debug, Clone, Copy, PartialEq, Eq, Hash)]
pub enum error {
    /// finish request was called untimely
    invalid_finish,
    /// action mask contains invalid values
    invalid_action_mask,
    /// action argument has an invalid value
    invalid_action,
    /// offer doesn't accept this request
    invalid_offer,
}

impl WireEnum for error {
    open spec fn to_wire(self) -> u32 {
        match self {
            error::invalid_finish => 0,
            error::invalid_action_mask => 1,
            error::invalid_action => 2,
            error::invalid_offer => 3,
        }
    }

    open spec fn of_wire(v: u32) -> Option<error> {
        match v {
            0 => Some(error::invalid_finish),
            1 => Some(error::invalid_action_mask),
            2 => Some(error::invalid_action),
            3 => Some(error::invalid_offer),
            _ => None,
        }
    }

    proof fn lemma_wire_enum(self, v: u32) {
    }
}

impl error {
    /// The word that stands for the entry.
    fn to_u32(self) -> (r: u32)
        ensures
            r == self.to_wire(),
    {
        match self {
            error::invalid_finish => 0,
            error::invalid_action_mask => 1,
            error::invalid_action => 2,
            error::invalid_offer => 3,
        }
    }

    /// The entry that a word stands for, if any.
    fn from_u32(v: u32) -> (r: Option<error>)
        ensures
            r == error::of_wire(v),
    {
        match v {
            0 => Some(error::invalid_finish),
            1 => Some(error::invalid_action_mask),
            2 => Some(error::invalid_action),
            3 => Some(error::invalid_offer),
            _ => None,
        }
    }
}

impl From<error> for u32 {
    fn from(v: error) -> (r: u32) {
        v.to_u32()
    }
}

impl FromSpecImpl<error> for u32 {
    open spec fn obeys_from_spec() -> bool {
        true
    }

    open spec fn from_spec(v: error) -> u32 {
        v.to_wire()
    }
}

impl TryFrom<u32> for error {
    type Error = TryFromIntError;

    fn try_from(v: u32) -> (r: Result<error, TryFromIntError>) {
        match error::from_u32(v) {
            Some(e) => Ok(e),
            None => match u32::try_from(-1i32) {
                Ok(_) => {
                    assert(false);
                    Ok(error::invalid_finish)
                },
                Err(e) => Err(e),
            },
        }
    }
}

impl TryFromSpecImpl<u32> for error {
    open spec fn obeys_try_from_spec() -> bool {
        true
    }

    open spec fn try_from_spec(v: u32) -> Result<error, TryFromIntError> {
        match error::of_wire(v) {
            Some(e) => Ok(e),
            None => Err(arbitrary()),
        }
    }
}

impl Ser for error {
    open spec fn ser_ok(&self) -> bool {
        true
    }

    open spec fn ser_bytes(&self) -> Seq<u8> {
        u32_wire(self.to_wire())
    }

    open spec fn ser_fds(&self) -> Seq<Fd> {
        Seq::empty()
    }

    fn wire_len(&self) -> (n: usize) {
        4
    }

    fn checked_len(&self) -> (r: Option<usize>) {
        Some(4)
    }

    open spec fn ser_fits(&self, cap: int) -> bool {
        true
    }

    fn serialize(self, buf: &mut [u8], fds: &mut Vec<Fd>) -> (r: Result<usize, &'static str>) {
        self.to_u32().serialize(buf, fds)
    }

    proof fn lemma_fits(&self, cap: int) {
    }
}

impl DeepView for error {
    type V = error;

    open spec fn deep_view(&self) -> error {
        *self
    }
}

impl Dsr for error {
    open spec fn dsr_spec(buf: Seq<u8>, fds: Seq<Fd>) -> Decoded<error> {
        match u32::dsr_spec(buf, fds) {
            Decoded::Value(i, n, left) => match error::of_wire(i) {
                Some(v) => Decoded::Value(v, n, left),
                None => Decoded::Failure("invalid value for error", left),
            },
            Decoded::Failure(e, left) => Decoded::Failure(e, left),
            Decoded::Undefined => Decoded::Undefined,
        }
    }

    fn try_deserialize(buf: &[u8], fds: &mut Vec<Fd>) -> (r: Option<Result<(error, usize), &'static str>>) {
        let (i, n) = match u32::try_deserialize(buf, fds) {
            Some(Ok(p)) => p,
            Some(Err(e)) => return Some(Err(e)),
            None => return None,
        };
        match error::from_u32(i) {
            Some(v) => Some(Ok((v, n))),
            None => Some(Err("invalid value for error")),
        }
    }
}

impl Codec for error {
    open spec fn rt_ok(&self) -> bool {
        true
    }

    proof fn lemma_roundtrip(&self, tail: Seq<u8>, base: Seq<Fd>) {
        self.to_wire().lemma_roundtrip(tail, base);
        self.lemma_wire_enum(0);
    }
}
impl error {
    /// The protocol's word for each entry, and no other word names an entry.
    pub proof fn lemma_wire_values()
        ensures
            error::invalid_finish.to_wire() == 0,
            error::invalid_action_mask.to_wire() == 1,
            error::invalid_action.to_wire() == 2,
            error::invalid_offer.to_wire() == 3,
            error::of_wire(0) == Some(error::invalid_finish),
            error::of_wire(1) == Some(error::invalid_action_mask),
            error::of_wire(2) == Some(error::invalid_action),
            error::of_wire(3) == Some(error::invalid_offer),
            forall|v: u32| #[trigger] error::of_wire(v) is Some ==> (v == 0 || v == 1 || v == 2 || v == 3),
    {
    }
}


/// The interface's run-time name is its protocol name.
pub proof fn lemma_interface_name()
    ensures
        <Obj as Object>::interface_name() == "wl_data_offer"@,
{
}


#[derive(Debug, Clone, Copy)]
pub struct wl_data_offer;

pub type Obj = wl_data_offer;

#[allow(non_upper_case_globals)]
pub const Obj: Obj = wl_data_offer;

impl Ser for wl_data_offer {
    open spec fn ser_ok(&self) -> bool {
        true
    }

    open spec fn ser_bytes(&self) -> Seq<u8> {
        Seq::empty()
    }

    open spec fn ser_fds(&self) -> Seq<Fd> {
        Seq::empty()
    }

    fn wire_len(&self) -> (n: usize) {
        0
    }

    fn checked_len(&self) -> (r: Option<usize>) {
        Some(0)
    }

    open spec fn ser_fits(&self, cap: int) -> bool {
        true
    }

    fn serialize(self, buf: &mut [u8], fds: &mut Vec<Fd>) -> (r: Result<usize, &'static str>) {
        assert(buf@ =~= write_at(old(buf)@, 0, Seq::<u8>::empty()));
        assert(fds@ =~= old(fds)@ + Seq::<Fd>::empty());
        Ok(0)
    }

    proof fn lemma_fits(&self, cap: int) {
    }
}

impl DeepView for wl_data_offer {
    type V = ();

    open spec fn deep_view(&self) -> () {
        ()
    }
}

impl Dsr for wl_data_offer {
    open spec fn dsr_spec(buf: Seq<u8>, fds: Seq<Fd>) -> Decoded<()> {
        Decoded::Value((), 0, fds)
    }

    fn try_deserialize(buf: &[u8], fds: &mut Vec<Fd>) -> (r: Option<Result<(wl_data_offer, usize), &'static str>>) {
        Some(Ok((wl_data_offer, 0)))
    }
}

impl Codec for wl_data_offer {
    open spec fn rt_ok(&self) -> bool {
        true
    }

    proof fn lemma_roundtrip(&self, tail: Seq<u8>, base: Seq<Fd>) {
        assert(Seq::<Fd>::empty().reverse() =~= Seq::<Fd>::empty());
        assert(base + Seq::<Fd>::empty() =~= base);
    }
}

impl Object for wl_data_offer {
    open spec fn interface_name() -> Seq<char> {
        NAME@
    }

    open spec fn destructor_op() -> Option<u16> {
        Some(2)
    }

    fn new_obj() -> (r: wl_data_offer) {
        wl_data_offer
    }

    fn new_dyn(version: u32) -> (d: Dyn) {
        Dyn { name: NAME.to_owned(), version }
    }

    fn destructor() -> (r: Option<u16>) {
        Some(2)
    }

    proof fn lemma_unit(&self, buf: Seq<u8>, fds: Seq<Fd>) {
    }
}

} // verus!
