use vstd::prelude::*;
use crate::objects::{type_id_of, new_id, object, Dyn, ObjMeta, Object, Msg, Request};
use crate::wire::{ser_at, write_at, lemma_write_then, lemma_reverse_add, lemma_skip_step, fixed, Codec, Decoded, Dsr, Fd, Ser};
use super::Obj;

verus! {

/// destroy a buffer
///
/// Destroy a buffer. If and how you need to release the backing
/// storage is defined by the buffer factory interface.
///
/// For possible side-effects to a surface, see wl_surface.attach.
///
#[derive(Debug)]
pub struct destroy {}

impl Ser for destroy {
    open spec fn ser_ok(&self) -> bool {
        true
    }

    open spec fn ser_bytes(&self) -> Seq<u8> {
        Seq::empty()
    }

    open spec fn ser_fds(&self) -> Seq<Fd> {
        Seq::empty()
    }

    fn wire_len(&self) -> (n: usize) {
        0
    }

    fn checked_len(&self) -> (r: Option<usize>) {
        Some(0)
    }

    open spec fn ser_fits(&self, cap: int) -> bool {
        true
    }

    fn serialize(self, buf: &mut [u8], fds: &mut Vec<Fd>) -> (r: Result<usize, &'static str>) {
        assert(buf@ =~= write_at(old(buf)@, 0, Seq::<u8>::empty()));
        assert(fds@ =~= old(fds)@ + Seq::<Fd>::empty());
        Ok(0)
    }

    proof fn lemma_fits(&self, cap: int) {
    }
}

impl DeepView for destroy {
    type V = ();

    open spec fn deep_view(&self) -> () {
        ()
    }
}

impl Dsr for destroy {
    open spec fn dsr_spec(buf: Seq<u8>, fds: Seq<Fd>) -> Decoded<()> {
        Decoded::Value((), 0, fds)
    }

    fn try_deserialize(buf: &[u8], fds: &mut Vec<Fd>) -> (r: Option<Result<(destroy, usize), &'static str>>) {
        Some(Ok((destroy {}, 0)))
    }
}

impl Codec for destroy {
    open spec fn rt_ok(&self) -> bool {
        true
    }

    proof fn lemma_roundtrip(&self, tail: Seq<u8>, base: Seq<Fd>) {
        assert(Seq::<Fd>::empty().reverse() =~= Seq::<Fd>::empty());
        assert(base + Seq::<Fd>::empty() =~= base);
    }
}

impl destroy {
    /// The arguments are read in the protocol's order, no arguments: the bytes
    /// and descriptors written for such arguments, one after the other,
    /// decode to exactly those arguments.
    pub proof fn lemma_layout(rest: Seq<u8>, queue: Seq<Fd>)
        ensures
            ({
                let bytes = Seq::<u8>::empty();
                let fds = Seq::<Fd>::empty();
                destroy::dsr_spec(bytes + rest, queue + fds.reverse()) == Decoded::Value(
                    (),
                    bytes.len(),
                    queue,
                )
            }),
    {
        let m = destroy {};
        m.lemma_roundtrip(rest, queue);
    }

    /// The message creates no object.
    pub proof fn lemma_creates(&self)
        ensures
            self.created_id() is None,
    {
    }
}

impl Msg<Obj> for destroy {
    open spec fn opcode() -> u16 {
        0
    }

    open spec fn since_version() -> u32 {
        1
    }

    open spec fn created_id(&self) -> Option<u32> {
        None
    }

    open spec fn created_destructor(&self) -> Option<u16> {
        None
    }

    fn op() -> (r: u16) {
        0
    }

    fn since() -> u32 {
        1
    }

    fn new_id(&self) -> (r: Option<(u32, ObjMeta)>) {
        None
    }
}

impl Request<Obj> for destroy {

}

/// The opcode of each request: its index in the protocol's list of the
/// interface's requests, so that no two requests share one.
pub proof fn lemma_opcodes()
    ensures
        <destroy as Msg<Obj>>::opcode() == 0,
        <Obj as Object>::destructor_op() == Some(<destroy as Msg<Obj>>::opcode()),
{
}

} // verus!
