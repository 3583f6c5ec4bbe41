use vstd::prelude::*;
use crate::objects::{type_id_of, new_id, object, Dyn, ObjMeta, Object, Msg, Request};
use crate::wire::{ser_at, write_at, lemma_write_then, lemma_reverse_add, lemma_skip_step, fixed, Codec, Decoded, Dsr, Fd, Ser};
use super::Obj;

verus! {

/// create a shm pool
///
/// Create a new wl_shm_pool object.
///
/// The pool can be used to create shared memory based buffer
/// objects.  The server will mmap size bytes of the passed file
/// descriptor, to use as backing memory for the pool.
///
#[derive(Debug)]
pub struct create_pool {
    // pool to create
    pub id: new_id<crate::wl_shm_pool::Obj>,
    // file descriptor for the pool
    pub fd: Fd,
    // pool size, in bytes
    pub size: i32,
}

impl Ser for create_pool {
    open spec fn ser_ok(&self) -> bool {
        &&& self.id.ser_ok()
        &&& self.fd.ser_ok()
        &&& self.size.ser_ok()
        &&& self.ser_bytes().len() <= usize::MAX
    }

    open spec fn ser_bytes(&self) -> Seq<u8> {
        self.id.ser_bytes() + self.fd.ser_bytes() + self.size.ser_bytes()
    }

    open spec fn ser_fds(&self) -> Seq<Fd> {
        self.id.ser_fds() + self.fd.ser_fds() + self.size.ser_fds()
    }

    fn wire_len(&self) -> (n: usize) {
        self.id.wire_len() + self.fd.wire_len() + self.size.wire_len()
    }

    fn checked_len(&self) -> (r: Option<usize>) {
        let n0 = match self.id.checked_len() {
            Some(m) => m,
            None => return None,
        };
        let n1 = match self.fd.checked_len() {
            Some(m) => match n0.checked_add(m) {
                Some(t) => t,
                None => return None,
            },
            None => return None,
        };
        let n2 = match self.size.checked_len() {
            Some(m) => match n1.checked_add(m) {
                Some(t) => t,
                None => return None,
            },
            None => return None,
        };
        Some(n2)
    }

    open spec fn ser_fits(&self, cap: int) -> bool {
        &&& 0 <= cap && self.id.ser_fits(cap - (0))
        &&& self.id.ser_bytes().len() <= cap && self.fd.ser_fits(cap - (self.id.ser_bytes().len()))
        &&& self.id.ser_bytes().len() + self.fd.ser_bytes().len() <= cap && self.size.ser_fits(cap - (self.id.ser_bytes().len() + self.fd.ser_bytes().len()))
    }

    fn serialize(self, buf: &mut [u8], fds: &mut Vec<Fd>) -> (r: Result<usize, &'static str>) {
        let ghost me = self;
        let ghost b0 = buf@;
        let mut n: usize = 0;
        n = n + ser_at(self.id, buf, n, fds);
        assert(fds@ =~= old(fds)@ + me.id.ser_fds());
        n = n + ser_at(self.fd, buf, n, fds);
        proof {
            lemma_write_then(b0, 0, me.id.ser_bytes(), me.fd.ser_bytes());
        }
        assert(fds@ =~= old(fds)@ + me.id.ser_fds() + me.fd.ser_fds());
        n = n + ser_at(self.size, buf, n, fds);
        proof {
            lemma_write_then(b0, 0, me.id.ser_bytes() + me.fd.ser_bytes(), me.size.ser_bytes());
        }
        assert(fds@ =~= old(fds)@ + me.ser_fds());
        Ok(n)
    }

    proof fn lemma_fits(&self, cap: int) {
        self.id.lemma_fits(cap - (0));
        self.fd.lemma_fits(cap - (self.id.ser_bytes().len()));
        self.size.lemma_fits(cap - (self.id.ser_bytes().len() + self.fd.ser_bytes().len()));
    }
}

impl DeepView for create_pool {
    type V = (<new_id<crate::wl_shm_pool::Obj> as DeepView>::V, <Fd as DeepView>::V, <i32 as DeepView>::V,);

    open spec fn deep_view(&self) -> (<new_id<crate::wl_shm_pool::Obj> as DeepView>::V, <Fd as DeepView>::V, <i32 as DeepView>::V,) {
        (self.id.deep_view(), self.fd.deep_view(), self.size.deep_view(),)
    }
}

impl Dsr for create_pool {
    open spec fn dsr_spec(buf: Seq<u8>, fds: Seq<Fd>) -> Decoded<(<new_id<crate::wl_shm_pool::Obj> as DeepView>::V, <Fd as DeepView>::V, <i32 as DeepView>::V,)> {
        match <new_id<crate::wl_shm_pool::Obj>>::dsr_spec(buf, fds) {
            Decoded::Value(id, n0, q0) => {
                match <Fd>::dsr_spec(buf.skip(n0 as int), q0) {
                    Decoded::Value(fd, m1, q1) => {
                        let n1 = n0 + m1;
                        match <i32>::dsr_spec(buf.skip(n1 as int), q1) {
                            Decoded::Value(size, m2, q2) => {
                                let n2 = n1 + m2;
                                Decoded::Value((id, fd, size,), n2, q2)
                            },
                            d => d.fail(),
                        }
                    },
                    d => d.fail(),
                }
            },
            d => d.fail(),
        }
    }

    fn try_deserialize(buf: &[u8], fds: &mut Vec<Fd>) -> (r: Option<Result<(create_pool, usize), &'static str>>) {
        let mut n: usize = 0;
        let rest = &buf[n..buf.len()];
        assert(rest@ =~= buf@.skip(n as int));
        assert(n == 0 ==> rest@ =~= buf@);
        let (id, m) = match <new_id<crate::wl_shm_pool::Obj>>::try_deserialize(rest, fds) {
            Some(Ok(p)) => p,
            Some(Err(e)) => return Some(Err(e)),
            None => return None,
        };
        n = n + m;
        let rest = &buf[n..buf.len()];
        assert(rest@ =~= buf@.skip(n as int));
        assert(n == 0 ==> rest@ =~= buf@);
        let (fd, m) = match <Fd>::try_deserialize(rest, fds) {
            Some(Ok(p)) => p,
            Some(Err(e)) => return Some(Err(e)),
            None => return None,
        };
        n = n + m;
        let rest = &buf[n..buf.len()];
        assert(rest@ =~= buf@.skip(n as int));
        assert(n == 0 ==> rest@ =~= buf@);
        let (size, m) = match <i32>::try_deserialize(rest, fds) {
            Some(Ok(p)) => p,
            Some(Err(e)) => return Some(Err(e)),
            None => return None,
        };
        n = n + m;
        Some(Ok((create_pool { id, fd, size }, n)))
    }
}

impl Codec for create_pool {
    open spec fn rt_ok(&self) -> bool {
        &&& self.id.rt_ok()
        &&& self.fd.rt_ok()
        &&& self.size.rt_ok()
    }

    proof fn lemma_roundtrip(&self, tail: Seq<u8>, base: Seq<Fd>) {
        let b0 = self.id.ser_bytes();
        let b1 = self.fd.ser_bytes();
        let b2 = self.size.ser_bytes();
        let d0 = self.id.ser_fds();
        let d1 = self.fd.ser_fds();
        let d2 = self.size.ser_fds();
        let s3 = tail;
        let s2 = b2 + s3;
        let s1 = b1 + s2;
        let s0 = b0 + s1;
        let buf = self.ser_bytes() + tail;
        assert(buf =~= s0);
        assert(buf.skip(0) =~= s0);
        lemma_reverse_add(d0 + d1, d2);
        lemma_reverse_add(d0, d1);
        let q2 = base;
        let q1 = q2 + d2.reverse();
        let q0 = q1 + d1.reverse();
        assert(base + self.ser_fds().reverse() =~= q0 + d0.reverse());
        self.id.lemma_roundtrip(s1, q0);
        assert(buf.skip((b0.len()) as int) == s1) by {
            lemma_skip_step(buf, (0) as int, b0, s1);
        }
        self.fd.lemma_roundtrip(s2, q1);
        assert(buf.skip((b0.len() + b1.len()) as int) == s2) by {
            lemma_skip_step(buf, (b0.len()) as int, b1, s2);
        }
        self.size.lemma_roundtrip(s3, q2);
    }
}

impl create_pool {
    /// The arguments are read in the protocol's order, `id`, then `fd`, then `size`: the bytes
    /// and descriptors written for such arguments, one after the other,
    /// decode to exactly those arguments.
    pub proof fn lemma_layout(id: new_id<crate::wl_shm_pool::Obj>, fd: Fd, size: i32, rest: Seq<u8>, queue: Seq<Fd>)
        requires
            id.ser_ok(),
            id.rt_ok(),
            fd.ser_ok(),
            fd.rt_ok(),
            size.ser_ok(),
            size.rt_ok(),
            id.ser_bytes().len() + fd.ser_bytes().len() + size.ser_bytes().len() <= usize::MAX,
        ensures
            ({
                let bytes = id.ser_bytes() + fd.ser_bytes() + size.ser_bytes();
                let fds = id.ser_fds() + fd.ser_fds() + size.ser_fds();
                create_pool::dsr_spec(bytes + rest, queue + fds.reverse()) == Decoded::Value(
                    (id.deep_view(), fd.deep_view(), size.deep_view(),),
                    bytes.len(),
                    queue,
                )
            }),
    {
        let m = create_pool { id, fd, size };
        m.lemma_roundtrip(rest, queue);
    }

    /// The object the message creates is the one its `id` argument names,
    /// with the destructor of that argument's interface.
    pub proof fn lemma_creates(&self)
        ensures
            self.created_id() == Some(self.id.0),
            self.created_destructor() == <crate::wl_shm_pool::Obj as Object>::destructor_op(),
    {
    }
}

impl Msg<Obj> for create_pool {
    open spec fn opcode() -> u16 {
        0
    }

    open spec fn since_version() -> u32 {
        1
    }

    open spec fn created_id(&self) -> Option<u32> {
        Some(self.id.0)
    }

    open spec fn created_destructor(&self) -> Option<u16> {
        crate::wl_shm_pool::Obj::destructor_op()
    }

    fn op() -> (r: u16) {
        0
    }

    fn since() -> u32 {
        1
    }

    fn new_id(&self) -> (r: Option<(u32, ObjMeta)>) {
        let id = self.id.0;
        let meta = ObjMeta {
            alive: true,
            destructor: crate::wl_shm_pool::Obj::destructor(),
            type_id: type_id_of::<crate::wl_shm_pool::Obj>(),
        };
        Some((id, meta))
    }
}

impl Request<Obj> for create_pool {

}

/// The opcode of each request: its index in the protocol's list of the
/// interface's requests, so that no two requests share one.
pub proof fn lemma_opcodes()
    ensures
        <create_pool as Msg<Obj>>::opcode() == 0,
        <Obj as Object>::destructor_op() is None,
{
}

} // verus!
