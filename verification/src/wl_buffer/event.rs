use vstd::prelude::*;
use crate::objects::{type_id_of, new_id, object, Dyn, ObjMeta, Object, Msg, Event};
use crate::wire::{ser_at, write_at, lemma_write_then, lemma_reverse_add, lemma_skip_step, fixed, Codec, Decoded, Dsr, Fd, Ser};
use super::Obj;

verus! {

/// compositor releases buffer
///
/// Sent when this wl_buffer is no longer used by the compositor.
/// The client is now free to reuse or destroy this buffer and its
/// backing storage.
///
/// If a client receives a release event before the frame callback
/// requested in the same wl_surface.commit that attaches this
/// wl_buffer to a surface, then the client is immediately free to
/// reuse the buffer and its backing storage, and does not need a
/// second buffer for the next surface content update. Typically
/// this is possible, when the compositor maintains a copy of the
/// wl_surface contents, e.g. as a GL texture. This is an important
/// optimization for GL(ES) compositors with wl_shm clients.
///
#[derive(Debug)]
pub struct release {}

impl Ser for release {
    open spec fn ser_ok(&self) -> bool {
        true
    }

    open spec fn ser_bytes(&self) -> Seq<u8> {
        Seq::empty()
    }

    open spec fn ser_fds(&self) -> Seq<Fd> {
        Seq::empty()
    }

    fn wire_len(&self) -> (n: usize) {
        0
    }

    fn checked_len(&self) -> (r: Option<usize>) {
        Some(0)
    }

    open spec fn ser_fits(&self, cap: int) -> bool {
        true
    }

    fn serialize(self, buf: &mut [u8], fds: &mut Vec<Fd>) -> (r: Result<usize, &'static str>) {
        assert(buf@ =~= write_at(old(buf)@, 0, Seq::<u8>::empty()));
        assert(fds@ =~= old(fds)@ + Seq::<Fd>::empty());
        Ok(0)
    }

    proof fn lemma_fits(&self, cap: int) {
    }
}

impl DeepView for release {
    type V = ();

    open spec fn deep_view(&self) -> () {
        ()
    }
}

impl Dsr for release {
    open spec fn dsr_spec(buf: Seq<u8>, fds: Seq<Fd>) -> Decoded<()> {
        Decoded::Value((), 0, fds)
    }

    fn try_deserialize(buf: &[u8], fds: &mut Vec<Fd>) -> (r: Option<Result<(release, usize), &'static str>>) {
        Some(Ok((release {}, 0)))
    }
}

impl Codec for release {
    open spec fn rt_ok(&self) -> bool {
        true
    }

    proof fn lemma_roundtrip(&self, tail: Seq<u8>, base: Seq<Fd>) {
        assert(Seq::<Fd>::empty().reverse() =~= Seq::<Fd>::empty());
        assert(base + Seq::<Fd>::empty() =~= base);
    }
}

impl release {
    /// The arguments are read in the protocol's order, no arguments: the bytes
    /// and descriptors written for such arguments, one after the other,
    /// decode to exactly those arguments.
    pub proof fn lemma_layout(rest: Seq<u8>, queue: Seq<Fd>)
        ensures
            ({
                let bytes = Seq::<u8>::empty();
                let fds = Seq::<Fd>::empty();
                release::dsr_spec(bytes + rest, queue + fds.reverse()) == Decoded::Value(
                    (),
                    bytes.len(),
                    queue,
                )
            }),
    {
        let m = release {};
        m.lemma_roundtrip(rest, queue);
    }

    /// The message creates no object.
    pub proof fn lemma_creates(&self)
        ensures
            self.created_id() is None,
    {
    }
}

impl Msg<Obj> for release {
    open spec fn opcode() -> u16 {
        0
    }

    open spec fn since_version() -> u32 {
        1
    }

    open spec fn created_id(&self) -> Option<u32> {
        None
    }

    open spec fn created_destructor(&self) -> Option<u16> {
        None
    }

    fn op() -> (r: u16) {
        0
    }

    fn since() -> u32 {
        1
    }

    fn new_id(&self) -> (r: Option<(u32, ObjMeta)>) {
        None
    }
}

impl Event<Obj> for release {

}

/// The opcode of each event: its index in the protocol's list of the
/// interface's events, so that no two events share one.
pub proof fn lemma_opcodes()
    ensures
        <release as Msg<Obj>>::opcode() == 0,
{
}

} // verus!
