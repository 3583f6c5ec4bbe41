use vstd::prelude::*;
use crate::objects::{type_id_of, new_id, object, Dyn, ObjMeta, Object, Msg, Request};
use crate::wire::{ser_at, write_at, lemma_write_then, lemma_reverse_add, lemma_skip_step, fixed, Codec, Decoded, Dsr, Fd, Ser};
use super::Obj;

verus! {

/// bind an object to the display
///
/// Binds a new, client-created object to the server using the
/// specified name as the identifier.
///
#[derive(Debug)]
pub struct bind {
    // unique numeric name of the object
    pub name: u32,
    // bounded object
    pub id: new_id<Dyn>,
}

impl Ser for bind {
    open spec fn ser_ok(&self) -> bool {
        &&& self.name.ser_ok()
        &&& self.id.ser_ok()
        &&& self.ser_bytes().len() <= usize::MAX
    }

    open spec fn ser_bytes(&self) -> Seq<u8> {
        self.name.ser_bytes() + self.id.ser_bytes()
    }

    open spec fn ser_fds(&self) -> Seq<Fd> {
        self.name.ser_fds() + self.id.ser_fds()
    }

    fn wire_len(&self) -> (n: usize) {
        self.name.wire_len() + self.id.wire_len()
    }

    fn checked_len(&self) -> (r: Option<usize>) {
        let n0 = match self.name.checked_len() {
            Some(m) => m,
            None => return None,
        };
        let n1 = match self.id.checked_len() {
            Some(m) => match n0.checked_add(m) {
                Some(t) => t,
                None => return None,
            },
            None => return None,
        };
        Some(n1)
    }

    open spec fn ser_fits(&self, cap: int) -> bool {
        &&& 0 <= cap && self.name.ser_fits(cap - (0))
        &&& self.name.ser_bytes().len() <= cap && self.id.ser_fits(cap - (self.name.ser_bytes().len()))
    }

    fn serialize(self, buf: &mut [u8], fds: &mut Vec<Fd>) -> (r: Result<usize, &'static str>) {
        let ghost me = self;
        let ghost b0 = buf@;
        let mut n: usize = 0;
        n = n + ser_at(self.name, buf, n, fds);
        assert(fds@ =~= old(fds)@ + me.name.ser_fds());
        n = n + ser_at(self.id, buf, n, fds);
        proof {
            lemma_write_then(b0, 0, me.name.ser_bytes(), me.id.ser_bytes());
        }
        assert(fds@ =~= old(fds)@ + me.ser_fds());
        Ok(n)
    }

    proof fn lemma_fits(&self, cap: int) {
        self.name.lemma_fits(cap - (0));
        self.id.lemma_fits(cap - (self.name.ser_bytes().len()));
    }
}

impl DeepView for bind {
    type V = (<u32 as DeepView>::V, <new_id<Dyn> as DeepView>::V,);

    open spec fn deep_view(&self) -> (<u32 as DeepView>::V, <new_id<Dyn> as DeepView>::V,) {
        (self.name.deep_view(), self.id.deep_view(),)
    }
}

impl Dsr for bind {
    open spec fn dsr_spec(buf: Seq<u8>, fds: Seq<Fd>) -> Decoded<(<u32 as DeepView>::V, <new_id<Dyn> as DeepView>::V,)> {
        match <u32>::dsr_spec(buf, fds) {
            Decoded::Value(name, n0, q0) => {
                match <new_id<Dyn>>::dsr_spec(buf.skip(n0 as int), q0) {
                    Decoded::Value(id, m1, q1) => {
                        let n1 = n0 + m1;
                        Decoded::Value((name, id,), n1, q1)
                    },
                    d => d.fail(),
                }
            },
            d => d.fail(),
        }
    }

    fn try_deserialize(buf: &[u8], fds: &mut Vec<Fd>) -> (r: Option<Result<(bind, usize), &'static str>>) {
        let mut n: usize = 0;
        let rest = &buf[n..buf.len()];
        assert(rest@ =~= buf@.skip(n as int));
        assert(n == 0 ==> rest@ =~= buf@);
        let (name, m) = match <u32>::try_deserialize(rest, fds) {
            Some(Ok(p)) => p,
            Some(Err(e)) => return Some(Err(e)),
            None => return None,
        };
        n = n + m;
        let rest = &buf[n..buf.len()];
        assert(rest@ =~= buf@.skip(n as int));
        assert(n == 0 ==> rest@ =~= buf@);
        let (id, m) = match <new_id<Dyn>>::try_deserialize(rest, fds) {
            Some(Ok(p)) => p,
            Some(Err(e)) => return Some(Err(e)),
            None => return None,
        };
        n = n + m;
        Some(Ok((bind { name, id }, n)))
    }
}

impl Codec for bind {
    open spec fn rt_ok(&self) -> bool {
        &&& self.name.rt_ok()
        &&& self.id.rt_ok()
    }

    proof fn lemma_roundtrip(&self, tail: Seq<u8>, base: Seq<Fd>) {
        let b0 = self.name.ser_bytes();
        let b1 = self.id.ser_bytes();
        let d0 = self.name.ser_fds();
        let d1 = self.id.ser_fds();
        let s2 = tail;
        let s1 = b1 + s2;
        let s0 = b0 + s1;
        let buf = self.ser_bytes() + tail;
        assert(buf =~= s0);
        assert(buf.skip(0) =~= s0);
        assert(self.ser_fds() =~= Seq::<Fd>::empty());
        assert(base + self.ser_fds().reverse() =~= base);
        assert(d0 =~= Seq::<Fd>::empty());
        assert(base + d0.reverse() =~= base);
        self.name.lemma_roundtrip(s1, base);
        assert(buf.skip((b0.len()) as int) == s1) by {
            lemma_skip_step(buf, (0) as int, b0, s1);
        }
        assert(d1 =~= Seq::<Fd>::empty());
        assert(base + d1.reverse() =~= base);
        self.id.lemma_roundtrip(s2, base);
    }
}

impl bind {
    /// The arguments are read in the protocol's order, `name`, then `id`: the bytes
    /// and descriptors written for such arguments, one after the other,
    /// decode to exactly those arguments.
    pub proof fn lemma_layout(name: u32, id: new_id<Dyn>, rest: Seq<u8>, queue: Seq<Fd>)
        requires
            name.ser_ok(),
            name.rt_ok(),
            id.ser_ok(),
            id.rt_ok(),
            name.ser_bytes().len() + id.ser_bytes().len() <= usize::MAX,
        ensures
            ({
                let bytes = name.ser_bytes() + id.ser_bytes();
                let fds = name.ser_fds() + id.ser_fds();
                bind::dsr_spec(bytes + rest, queue + fds.reverse()) == Decoded::Value(
                    (name.deep_view(), id.deep_view(),),
                    bytes.len(),
                    queue,
                )
            }),
    {
        let m = bind { name, id };
        m.lemma_roundtrip(rest, queue);
    }

    /// The object the message creates is the one its `id` argument names,
    /// with the destructor of that argument's interface.
    pub proof fn lemma_creates(&self)
        ensures
            self.created_id() == Some(self.id.0),
            self.created_destructor() is None,
    {
    }
}

impl Msg<Obj> for bind {
    open spec fn opcode() -> u16 {
        0
    }

    open spec fn since_version() -> u32 {
        1
    }

    open spec fn created_id(&self) -> Option<u32> {
        Some(self.id.0)
    }

    open spec fn created_destructor(&self) -> Option<u16> {
        None
    }

    fn op() -> (r: u16) {
        0
    }

    fn since() -> u32 {
        1
    }

    fn new_id(&self) -> (r: Option<(u32, ObjMeta)>) {
        let id = self.id.0;
        let meta = ObjMeta { alive: true, destructor: None, type_id: type_id_of::<()>() };
        Some((id, meta))
    }
}

impl Request<Obj> for bind {

}

/// The opcode of each request: its index in the protocol's list of the
/// interface's requests, so that no two requests share one.
pub proof fn lemma_opcodes()
    ensures
        <bind as Msg<Obj>>::opcode() == 0,
        <Obj as Object>::destructor_op() is None,
{
}

} // verus!
