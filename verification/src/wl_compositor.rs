//! the compositor singleton
//!
//! A compositor.  This object is a singleton global.  The
//! compositor is in charge of combining the contents of multiple
//! surfaces into one displayable output.
//!
#![allow(non_camel_case_types)]
use vstd::prelude::*;
use crate::objects::{Dyn, Object};
use crate::wire::{u32_wire, write_at, flag_names, names_of, join_names, join_text, Codec, Decoded, Dsr, Fd, Ser, WireEnum};
use vstd::std_specs::convert::{FromSpecImpl, TryFromSpecImpl};
use vstd::std_specs::ops::{BitAndSpec, BitAndSpecImpl, BitOrSpec, BitOrSpecImpl};
use core::num::TryFromIntError;

pub mod request;
pub mod event;

verus! {

pub const NAME: &'static str = "wl_compositor";

pub const VERSION: u32 = 6;

/// The interface's run-time name is its protocol name.
pub proof fn lemma_interface_name()
    ensures
        <Obj as Object>::interface_name() == "wl_compositor"@,
{
}


#[derive(Debug, Clone, Copy)]
pub struct wl_compositor;

pub type Obj = wl_compositor;

#[allow(non_upper_case_globals)]
pub const Obj: Obj = wl_compositor;

impl Ser for wl_compositor {
    open spec fn ser_ok(&self) -> bool {
        true
    }

    open spec fn ser_bytes(&self) -> Seq<u8> {
        Seq::empty()
    }

    open spec fn ser_fds(&self) -> Seq<Fd> {
        Seq::empty()
    }

    fn wire_len(&self) -> (n: usize) {
        0
    }

    fn checked_len(&self) -> (r: Option<usize>) {
        Some(0)
    }

    open spec fn ser_fits(&self, cap: int) -> bool {
        true
    }

    fn serialize(self, buf: &mut [u8], fds: &mut Vec<Fd>) -> (r: Result<usize, &'static str>) {
        assert(buf@ =~= write_at(old(buf)@, 0, Seq::<u8>::empty()));
        assert(fds@ =~= old(fds)@ + Seq::<Fd>::empty());
        Ok(0)
    }

    proof fn lemma_fits(&self, cap: int) {
    }
}

impl DeepView for wl_compositor {
    type V = ();

    open spec fn deep_view(&self) -> () {
        ()
    }
}

impl Dsr for wl_compositor {
    open spec fn dsr_spec(buf: Seq<u8>, fds: Seq<Fd>) -> Decoded<()> {
        Decoded::Value((), 0, fds)
    }

    fn try_deserialize(buf: &[u8], fds: &mut Vec<Fd>) -> (r: Option<Result<(wl_compositor, usize), &'static str>>) {
        Some(Ok((wl_compositor, 0)))
    }
}

impl Codec for wl_compositor {
    open spec fn rt_ok(&self) -> bool {
        true
    }

    proof fn lemma_roundtrip(&self, tail: Seq<u8>, base: Seq<Fd>) {
        assert(Seq::<Fd>::empty().reverse() =~= Seq::<Fd>::empty());
        assert(base + Seq::<Fd>::empty() =~= base);
    }
}

impl Object for wl_compositor {
    open spec fn interface_name() -> Seq<char> {
        NAME@
    }

    open spec fn destructor_op() -> Option<u16> {
        None
    }

    fn new_obj() -> (r: wl_compositor) {
        wl_compositor
    }

    fn new_dyn(version: u32) -> (d: Dyn) {
        Dyn { name: NAME.to_owned(), version }
    }

    fn destructor() -> (r: Option<u16>) {
        None
    }

    proof fn lemma_unit(&self, buf: Seq<u8>, fds: Seq<Fd>) {
    }
}

} // verus!
