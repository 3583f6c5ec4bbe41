use vstd::prelude::*;
use crate::objects::{type_id_of, new_id, object, Dyn, ObjMeta, Object, Msg, Event};
use crate::wire::{ser_at, write_at, lemma_write_then, lemma_reverse_add, lemma_skip_step, fixed, Codec, Decoded, Dsr, Fd, Ser};
use super::Obj;

verus! {

/// done event
///
/// Notify the client when the related request is done.
///
#[derive(Debug)]
pub struct done {
    // request-specific data for the callback
    pub callback_data: u32,
}

impl Ser for done {
    open spec fn ser_ok(&self) -> bool {
        &&& self.callback_data.ser_ok()
        &&& self.ser_bytes().len() <= usize::MAX
    }

    open spec fn ser_bytes(&self) -> Seq<u8> {
        self.callback_data.ser_bytes()
    }

    open spec fn ser_fds(&self) -> Seq<Fd> {
        self.callback_data.ser_fds()
    }

    fn wire_len(&self) -> (n: usize) {
        self.callback_data.wire_len()
    }

    fn checked_len(&self) -> (r: Option<usize>) {
        let n0 = match self.callback_data.checked_len() {
            Some(m) => m,
            None => return None,
        };
        Some(n0)
    }

    open spec fn ser_fits(&self, cap: int) -> bool {
        &&& 0 <= cap && self.callback_data.ser_fits(cap - (0))
    }

    fn serialize(self, buf: &mut [u8], fds: &mut Vec<Fd>) -> (r: Result<usize, &'static str>) {
        let ghost me = self;
        let ghost b0 = buf@;
        let mut n: usize = 0;
        n = n + ser_at(self.callback_data, buf, n, fds);
        assert(fds@ =~= old(fds)@ + me.ser_fds());
        Ok(n)
    }

    proof fn lemma_fits(&self, cap: int) {
        self.callback_data.lemma_fits(cap - (0));
    }
}

impl DeepView for done {
    type V = (<u32 as DeepView>::V,);

    open spec fn deep_view(&self) -> (<u32 as DeepView>::V,) {
        (self.callback_data.deep_view(),)
    }
}

impl Dsr for done {
    open spec fn dsr_spec(buf: Seq<u8>, fds: Seq<Fd>) -> Decoded<(<u32 as DeepView>::V,)> {
        match <u32>::dsr_spec(buf, fds) {
            Decoded::Value(callback_data, n0, q0) => Decoded::Value((callback_data,), n0, q0),
            d => d.fail(),
        }
    }

    fn try_deserialize(buf: &[u8], fds: &mut Vec<Fd>) -> (r: Option<Result<(done, usize), &'static str>>) {
        let mut n: usize = 0;
        let rest = &buf[n..buf.len()];
        assert(rest@ =~= buf@.skip(n as int));
        assert(n == 0 ==> rest@ =~= buf@);
        let (callback_data, m) = match <u32>::try_deserialize(rest, fds) {
            Some(Ok(p)) => p,
            Some(Err(e)) => return Some(Err(e)),
            None => return None,
        };
        n = n + m;
        Some(Ok((done { callback_data }, n)))
    }
}

impl Codec for done {
    open spec fn rt_ok(&self) -> bool {
        &&& self.callback_data.rt_ok()
    }

    proof fn lemma_roundtrip(&self, tail: Seq<u8>, base: Seq<Fd>) {
        let b0 = self.callback_data.ser_bytes();
        let d0 = self.callback_data.ser_fds();
        let s1 = tail;
        let s0 = b0 + s1;
        let buf = self.ser_bytes() + tail;
        assert(buf =~= s0);
        assert(buf.skip(0) =~= s0);
        assert(self.ser_fds() =~= Seq::<Fd>::empty());
        assert(base + self.ser_fds().reverse() =~= base);
        assert(d0 =~= Seq::<Fd>::empty());
        assert(base + d0.reverse() =~= base);
        self.callback_data.lemma_roundtrip(s1, base);
    }
}

impl done {
    /// The arguments are read in the protocol's order, `callback_data`: the bytes
    /// and descriptors written for such arguments, one after the other,
    /// decode to exactly those arguments.
    pub proof fn lemma_layout(callback_data: u32, rest: Seq<u8>, queue: Seq<Fd>)
        requires
            callback_data.ser_ok(),
            callback_data.rt_ok(),
            callback_data.ser_bytes().len() <= usize::MAX,
        ensures
            ({
                let bytes = callback_data.ser_bytes();
                let fds = callback_data.ser_fds();
                done::dsr_spec(bytes + rest, queue + fds.reverse()) == Decoded::Value(
                    (callback_data.deep_view(),),
                    bytes.len(),
                    queue,
                )
            }),
    {
        let m = done { callback_data };
        m.lemma_roundtrip(rest, queue);
    }

    /// The message creates no object.
    pub proof fn lemma_creates(&self)
        ensures
            self.created_id() is None,
    {
    }
}

impl Msg<Obj> for done {
    open spec fn opcode() -> u16 {
        0
    }

    open spec fn since_version() -> u32 {
        1
    }

    open spec fn created_id(&self) -> Option<u32> {
        None
    }

    open spec fn created_destructor(&self) -> Option<u16> {
        None
    }

    fn op() -> (r: u16) {
        0
    }

    fn since() -> u32 {
        1
    }

    fn new_id(&self) -> (r: Option<(u32, ObjMeta)>) {
        None
    }
}

impl Event<Obj> for done {

}

/// The opcode of each event: its index in the protocol's list of the
/// interface's events, so that no two events share one.
pub proof fn lemma_opcodes()
    ensures
        <done as Msg<Obj>>::opcode() == 0,
{
}

} // verus!
