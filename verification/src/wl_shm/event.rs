use vstd::prelude::*;
use crate::objects::{type_id_of, new_id, object, Dyn, ObjMeta, Object, Msg, Event};
use crate::wire::{ser_at, write_at, lemma_write_then, lemma_reverse_add, lemma_skip_step, fixed, Codec, Decoded, Dsr, Fd, Ser};
use super::Obj;

verus! {

/// pixel format description
///
/// Informs the client about a valid pixel format that
/// can be used for buffers. Known formats include
/// argb8888 and xrgb8888.
///
#[derive(Debug)]
pub struct format {
    // buffer pixel format
    pub format: super::format,
}

impl Ser for format {
    open spec fn ser_ok(&self) -> bool {
        &&& self.format.ser_ok()
        &&& self.ser_bytes().len() <= usize::MAX
    }

    open spec fn ser_bytes(&self) -> Seq<u8> {
        self.format.ser_bytes()
    }

    open spec fn ser_fds(&self) -> Seq<Fd> {
        self.format.ser_fds()
    }

    fn wire_len(&self) -> (n: usize) {
        self.format.wire_len()
    }

    fn checked_len(&self) -> (r: Option<usize>) {
        let n0 = match self.format.checked_len() {
            Some(m) => m,
            None => return None,
        };
        Some(n0)
    }

    open spec fn ser_fits(&self, cap: int) -> bool {
        &&& 0 <= cap && self.format.ser_fits(cap - (0))
    }

    fn serialize(self, buf: &mut [u8], fds: &mut Vec<Fd>) -> (r: Result<usize, &'static str>) {
        let ghost me = self;
        let ghost b0 = buf@;
        let mut n: usize = 0;
        n = n + ser_at(self.format, buf, n, fds);
        assert(fds@ =~= old(fds)@ + me.ser_fds());
        Ok(n)
    }

    proof fn lemma_fits(&self, cap: int) {
        self.format.lemma_fits(cap - (0));
    }
}

impl DeepView for format {
    type V = (<super::format as DeepView>::V,);

    open spec fn deep_view(&self) -> (<super::format as DeepView>::V,) {
        (self.format.deep_view(),)
    }
}

impl Dsr for format {
    open spec fn dsr_spec(buf: Seq<u8>, fds: Seq<Fd>) -> Decoded<(<super::format as DeepView>::V,)> {
        match <super::format>::dsr_spec(buf, fds) {
            Decoded::Value(format, n0, q0) => Decoded::Value((format,), n0, q0),
            d => d.fail(),
        }
    }

    fn try_deserialize(buf: &[u8], fds: &mut Vec<Fd>) -> (r: Option<Result<(format, usize), &'static str>>) {
        let mut n: usize = 0;
        let rest = &buf[n..buf.len()];
        assert(rest@ =~= buf@.skip(n as int));
        assert(n == 0 ==> rest@ =~= buf@);
        let (format, m) = match <super::format>::try_deserialize(rest, fds) {
            Some(Ok(p)) => p,
            Some(Err(e)) => return Some(Err(e)),
            None => return None,
        };
        n = n + m;
        Some(Ok((format { format }, n)))
    }
}

impl Codec for format {
    open spec fn rt_ok(&self) -> bool {
        &&& self.format.rt_ok()
    }

    proof fn lemma_roundtrip(&self, tail: Seq<u8>, base: Seq<Fd>) {
        let b0 = self.format.ser_bytes();
        let d0 = self.format.ser_fds();
        let s1 = tail;
        let s0 = b0 + s1;
        let buf = self.ser_bytes() + tail;
        assert(buf =~= s0);
        assert(buf.skip(0) =~= s0);
        assert(self.ser_fds() =~= Seq::<Fd>::empty());
        assert(base + self.ser_fds().reverse() =~= base);
        assert(d0 =~= Seq::<Fd>::empty());
        assert(base + d0.reverse() =~= base);
        self.format.lemma_roundtrip(s1, base);
    }
}

impl format {
    /// The arguments are read in the protocol's order, `format`: the bytes
    /// and descriptors written for such arguments, one after the other,
    /// decode to exactly those arguments.
    pub proof fn lemma_layout(format: super::format, rest: Seq<u8>, queue: Seq<Fd>)
        requires
            format.ser_ok(),
            format.rt_ok(),
            format.ser_bytes().len() <= usize::MAX,
        ensures
            ({
                let bytes = format.ser_bytes();
                let fds = format.ser_fds();
                format::dsr_spec(bytes + rest, queue + fds.reverse()) == Decoded::Value(
                    (format.deep_view(),),
                    bytes.len(),
                    queue,
                )
            }),
    {
        let m = format { format };
        m.lemma_roundtrip(rest, queue);
    }

    /// The message creates no object.
    pub proof fn lemma_creates(&self)
        ensures
            self.created_id() is None,
    {
    }
}

impl Msg<Obj> for format {
    open spec fn opcode() -> u16 {
        0
    }

    open spec fn since_version() -> u32 {
        1
    }

    open spec fn created_id(&self) -> Option<u32> {
        None
    }

    open spec fn created_destructor(&self) -> Option<u16> {
        None
    }

    fn op() -> (r: u16) {
        0
    }

    fn since() -> u32 {
        1
    }

    fn new_id(&self) -> (r: Option<(u32, ObjMeta)>) {
        None
    }
}

impl Event<Obj> for format {

}

/// The opcode of each event: its index in the protocol's list of the
/// interface's events, so that no two events share one.
pub proof fn lemma_opcodes()
    ensures
        <format as Msg<Obj>>::opcode() == 0,
{
}

} // verus!
