use vstd::prelude::*;
use crate::objects::{type_id_of, new_id, object, Dyn, ObjMeta, Object, Msg, Request};
use crate::wire::{ser_at, write_at, lemma_write_then, lemma_reverse_add, lemma_skip_step, fixed, Codec, Decoded, Dsr, Fd, Ser};
use super::Obj;

verus! {

/// create a buffer from the pool
///
/// Create a wl_buffer object from the pool.
///
/// The buffer is created offset bytes into the pool and has
/// width and height as specified.  The stride argument specifies
/// the number of bytes from the beginning of one row to the beginning
/// of the next.  The format is the pixel format of the buffer and
/// must be one of those advertised through the wl_shm.format event.
///
/// A buffer will keep a reference to the pool it was created from
/// so it is valid to destroy the pool immediately after creating
/// a buffer from it.
///
#[derive(Debug)]
pub struct create_buffer {
    // buffer to create
    pub id: new_id<crate::wl_buffer::Obj>,
    // buffer byte offset within the pool
    pub offset: i32,
    // buffer width, in pixels
    pub width: i32,
    // buffer height, in pixels
    pub height: i32,
    // number of bytes from the beginning of one row to the beginning of the next row
    pub stride: i32,
    // buffer pixel format
    pub format: crate::wl_shm::format,
}

impl Ser for create_buffer {
    open spec fn ser_ok(&self) -> bool {
        &&& self.id.ser_ok()
        &&& self.offset.ser_ok()
        &&& self.width.ser_ok()
        &&& self.height.ser_ok()
        &&& self.stride.ser_ok()
        &&& self.format.ser_ok()
        &&& self.ser_bytes().len() <= usize::MAX
    }

    open spec fn ser_bytes(&self) -> Seq<u8> {
        self.id.ser_bytes() + self.offset.ser_bytes() + self.width.ser_bytes() + self.height.ser_bytes() + self.stride.ser_bytes() + self.format.ser_bytes()
    }

    open spec fn ser_fds(&self) -> Seq<Fd> {
        self.id.ser_fds() + self.offset.ser_fds() + self.width.ser_fds() + self.height.ser_fds() + self.stride.ser_fds() + self.format.ser_fds()
    }

    fn wire_len(&self) -> (n: usize) {
        self.id.wire_len() + self.offset.wire_len() + self.width.wire_len() + self.height.wire_len() + self.stride.wire_len() + self.format.wire_len()
    }

    fn checked_len(&self) -> (r: Option<usize>) {
        let n0 = match self.id.checked_len() {
            Some(m) => m,
            None => return None,
        };
        let n1 = match self.offset.checked_len() {
            Some(m) => match n0.checked_add(m) {
                Some(t) => t,
                None => return None,
            },
            None => return None,
        };
        let n2 = match self.width.checked_len() {
            Some(m) => match n1.checked_add(m) {
                Some(t) => t,
                None => return None,
            },
            None => return None,
        };
        let n3 = match self.height.checked_len() {
            Some(m) => match n2.checked_add(m) {
                Some(t) => t,
                None => return None,
            },
            None => return None,
        };
        let n4 = match self.stride.checked_len() {
            Some(m) => match n3.checked_add(m) {
                Some(t) => t,
                None => return None,
            },
            None => return None,
        };
        let n5 = match self.format.checked_len() {
            Some(m) => match n4.checked_add(m) {
                Some(t) => t,
                None => return None,
            },
            None => return None,
        };
        Some(n5)
    }

    open spec fn ser_fits(&self, cap: int) -> bool {
        &&& 0 <= cap && self.id.ser_fits(cap - (0))
        &&& self.id.ser_bytes().len() <= cap && self.offset.ser_fits(cap - (self.id.ser_bytes().len()))
        &&& self.id.ser_bytes().len() + self.offset.ser_bytes().len() <= cap && self.width.ser_fits(cap - (self.id.ser_bytes().len() + self.offset.ser_bytes().len()))
        &&& self.id.ser_bytes().len() + self.offset.ser_bytes().len() + self.width.ser_bytes().len() <= cap && self.height.ser_fits(cap - (self.id.ser_bytes().len() + self.offset.ser_bytes().len() + self.width.ser_bytes().len()))
        &&& self.id.ser_bytes().len() + self.offset.ser_bytes().len() + self.width.ser_bytes().len() + self.height.ser_bytes().len() <= cap && self.stride.ser_fits(cap - (self.id.ser_bytes().len() + self.offset.ser_bytes().len() + self.width.ser_bytes().len() + self.height.ser_bytes().len()))
        &&& self.id.ser_bytes().len() + self.offset.ser_bytes().len() + self.width.ser_bytes().len() + self.height.ser_bytes().len() + self.stride.ser_bytes().len() <= cap && self.format.ser_fits(cap - (self.id.ser_bytes().len() + self.offset.ser_bytes().len() + self.width.ser_bytes().len() + self.height.ser_bytes().len() + self.stride.ser_bytes().len()))
    }

    #[verifier::rlimit(60)]
    fn serialize(self, buf: &mut [u8], fds: &mut Vec<Fd>) -> (r: Result<usize, &'static str>) {
        let ghost me = self;
        let ghost b0 = buf@;
        let mut n: usize = 0;
        n = n + ser_at(self.id, buf, n, fds);
        assert(fds@ =~= old(fds)@ + me.id.ser_fds());
        n = n + ser_at(self.offset, buf, n, fds);
        proof {
            lemma_write_then(b0, 0, me.id.ser_bytes(), me.offset.ser_bytes());
        }
        assert(fds@ =~= old(fds)@ + me.id.ser_fds() + me.offset.ser_fds());
        n = n + ser_at(self.width, buf, n, fds);
        proof {
            lemma_write_then(b0, 0, me.id.ser_bytes() + me.offset.ser_bytes(), me.width.ser_bytes());
        }
        assert(fds@ =~= old(fds)@ + me.id.ser_fds() + me.offset.ser_fds() + me.width.ser_fds());
        n = n + ser_at(self.height, buf, n, fds);
        proof {
            lemma_write_then(b0, 0, me.id.ser_bytes() + me.offset.ser_bytes() + me.width.ser_bytes(), me.height.ser_bytes());
        }
        assert(fds@ =~= old(fds)@ + me.id.ser_fds() + me.offset.ser_fds() + me.width.ser_fds() + me.height.ser_fds());
        n = n + ser_at(self.stride, buf, n, fds);
        proof {
            lemma_write_then(b0, 0, me.id.ser_bytes() + me.offset.ser_bytes() + me.width.ser_bytes() + me.height.ser_bytes(), me.stride.ser_bytes());
        }
        assert(fds@ =~= old(fds)@ + me.id.ser_fds() + me.offset.ser_fds() + me.width.ser_fds() + me.height.ser_fds() + me.stride.ser_fds());
        n = n + ser_at(self.format, buf, n, fds);
        proof {
            lemma_write_then(b0, 0, me.id.ser_bytes() + me.offset.ser_bytes() + me.width.ser_bytes() + me.height.ser_bytes() + me.stride.ser_bytes(), me.format.ser_bytes());
        }
        assert(fds@ =~= old(fds)@ + me.ser_fds());
        Ok(n)
    }

    proof fn lemma_fits(&self, cap: int) {
        self.id.lemma_fits(cap - (0));
        self.offset.lemma_fits(cap - (self.id.ser_bytes().len()));
        self.width.lemma_fits(cap - (self.id.ser_bytes().len() + self.offset.ser_bytes().len()));
        self.height.lemma_fits(cap - (self.id.ser_bytes().len() + self.offset.ser_bytes().len() + self.width.ser_bytes().len()));
        self.stride.lemma_fits(cap - (self.id.ser_bytes().len() + self.offset.ser_bytes().len() + self.width.ser_bytes().len() + self.height.ser_bytes().len()));
        self.format.lemma_fits(cap - (self.id.ser_bytes().len() + self.offset.ser_bytes().len() + self.width.ser_bytes().len() + self.height.ser_bytes().len() + self.stride.ser_bytes().len()));
    }
}

impl DeepView for create_buffer {
    type V = (<new_id<crate::wl_buffer::Obj> as DeepView>::V, <i32 as DeepView>::V, <i32 as DeepView>::V, <i32 as DeepView>::V, <i32 as DeepView>::V, <crate::wl_shm::format as DeepView>::V,);

    open spec fn deep_view(&self) -> (<new_id<crate::wl_buffer::Obj> as DeepView>::V, <i32 as DeepView>::V, <i32 as DeepView>::V, <i32 as DeepView>::V, <i32 as DeepView>::V, <crate::wl_shm::format as DeepView>::V,) {
        (self.id.deep_view(), self.offset.deep_view(), self.width.deep_view(), self.height.deep_view(), self.stride.deep_view(), self.format.deep_view(),)
    }
}

impl Dsr for create_buffer {
    open spec fn dsr_spec(buf: Seq<u8>, fds: Seq<Fd>) -> Decoded<(<new_id<crate::wl_buffer::Obj> as DeepView>::V, <i32 as DeepView>::V, <i32 as DeepView>::V, <i32 as DeepView>::V, <i32 as DeepView>::V, <crate::wl_shm::format as DeepView>::V,)> {
        match <new_id<crate::wl_buffer::Obj>>::dsr_spec(buf, fds) {
            Decoded::Value(id, n0, q0) => {
                match <i32>::dsr_spec(buf.skip(n0 as int), q0) {
                    Decoded::Value(offset, m1, q1) => {
                        let n1 = n0 + m1;
                        match <i32>::dsr_spec(buf.skip(n1 as int), q1) {
                            Decoded::Value(width, m2, q2) => {
                                let n2 = n1 + m2;
                                match <i32>::dsr_spec(buf.skip(n2 as int), q2) {
                                    Decoded::Value(height, m3, q3) => {
                                        let n3 = n2 + m3;
                                        match <i32>::dsr_spec(buf.skip(n3 as int), q3) {
                                            Decoded::Value(stride, m4, q4) => {
                                                let n4 = n3 + m4;
                                                match <crate::wl_shm::format>::dsr_spec(buf.skip(n4 as int), q4) {
                                                    Decoded::Value(format, m5, q5) => {
                                                        let n5 = n4 + m5;
                                                        Decoded::Value((id, offset, width, height, stride, format,), n5, q5)
                                                    },
                                                    d => d.fail(),
                                                }
                                            },
                                            d => d.fail(),
                                        }
                                    },
                                    d => d.fail(),
                                }
                            },
                            d => d.fail(),
                        }
                    },
                    d => d.fail(),
                }
            },
            d => d.fail(),
        }
    }

    #[verifier::rlimit(60)]
    fn try_deserialize(buf: &[u8], fds: &mut Vec<Fd>) -> (r: Option<Result<(create_buffer, usize), &'static str>>) {
        let mut n: usize = 0;
        let rest = &buf[n..buf.len()];
        assert(rest@ =~= buf@.skip(n as int));
        assert(n == 0 ==> rest@ =~= buf@);
        let (id, m) = match <new_id<crate::wl_buffer::Obj>>::try_deserialize(rest, fds) {
            Some(Ok(p)) => p,
            Some(Err(e)) => return Some(Err(e)),
            None => return None,
        };
        n = n + m;
        let rest = &buf[n..buf.len()];
        assert(rest@ =~= buf@.skip(n as int));
        assert(n == 0 ==> rest@ =~= buf@);
        let (offset, m) = match <i32>::try_deserialize(rest, fds) {
            Some(Ok(p)) => p,
            Some(Err(e)) => return Some(Err(e)),
            None => return None,
        };
        n = n + m;
        let rest = &buf[n..buf.len()];
        assert(rest@ =~= buf@.skip(n as int));
        assert(n == 0 ==> rest@ =~= buf@);
        let (width, m) = match <i32>::try_deserialize(rest, fds) {
            Some(Ok(p)) => p,
            Some(Err(e)) => return Some(Err(e)),
            None => return None,
        };
        n = n + m;
        let rest = &buf[n..buf.len()];
        assert(rest@ =~= buf@.skip(n as int));
        assert(n == 0 ==> rest@ =~= buf@);
        let (height, m) = match <i32>::try_deserialize(rest, fds) {
            Some(Ok(p)) => p,
            Some(Err(e)) => return Some(Err(e)),
            None => return None,
        };
        n = n + m;
        let rest = &buf[n..buf.len()];
        assert(rest@ =~= buf@.skip(n as int));
        assert(n == 0 ==> rest@ =~= buf@);
        let (stride, m) = match <i32>::try_deserialize(rest, fds) {
            Some(Ok(p)) => p,
            Some(Err(e)) => return Some(Err(e)),
            None => return None,
        };
        n = n + m;
        let rest = &buf[n..buf.len()];
        assert(rest@ =~= buf@.skip(n as int));
        assert(n == 0 ==> rest@ =~= buf@);
        let (format, m) = match <crate::wl_shm::format>::try_deserialize(rest, fds) {
            Some(Ok(p)) => p,
            Some(Err(e)) => return Some(Err(e)),
            None => return None,
        };
        n = n + m;
        Some(Ok((create_buffer { id, offset, width, height, stride, format }, n)))
    }
}

impl Codec for create_buffer {
    open spec fn rt_ok(&self) -> bool {
        &&& self.id.rt_ok()
        &&& self.offset.rt_ok()
        &&& self.width.rt_ok()
        &&& self.height.rt_ok()
        &&& self.stride.rt_ok()
        &&& self.format.rt_ok()
    }

    #[verifier::rlimit(60)]
    proof fn lemma_roundtrip(&self, tail: Seq<u8>, base: Seq<Fd>) {
        let b0 = self.id.ser_bytes();
        let b1 = self.offset.ser_bytes();
        let b2 = self.width.ser_bytes();
        let b3 = self.height.ser_bytes();
        let b4 = self.stride.ser_bytes();
        let b5 = self.format.ser_bytes();
        let d0 = self.id.ser_fds();
        let d1 = self.offset.ser_fds();
        let d2 = self.width.ser_fds();
        let d3 = self.height.ser_fds();
        let d4 = self.stride.ser_fds();
        let d5 = self.format.ser_fds();
        let s6 = tail;
        let s5 = b5 + s6;
        let s4 = b4 + s5;
        let s3 = b3 + s4;
        let s2 = b2 + s3;
        let s1 = b1 + s2;
        let s0 = b0 + s1;
        let buf = self.ser_bytes() + tail;
        assert(buf =~= s0);
        assert(buf.skip(0) =~= s0);
        assert(self.ser_fds() =~= Seq::<Fd>::empty());
        assert(base + self.ser_fds().reverse() =~= base);
        assert(d0 =~= Seq::<Fd>::empty());
        assert(base + d0.reverse() =~= base);
        self.id.lemma_roundtrip(s1, base);
        assert(buf.skip((b0.len()) as int) == s1) by {
            lemma_skip_step(buf, (0) as int, b0, s1);
        }
        assert(d1 =~= Seq::<Fd>::empty());
        assert(base + d1.reverse() =~= base);
        self.offset.lemma_roundtrip(s2, base);
        assert(buf.skip((b0.len() + b1.len()) as int) == s2) by {
            lemma_skip_step(buf, (b0.len()) as int, b1, s2);
        }
        assert(d2 =~= Seq::<Fd>::empty());
        assert(base + d2.reverse() =~= base);
        self.width.lemma_roundtrip(s3, base);
        assert(buf.skip((b0.len() + b1.len() + b2.len()) as int) == s3) by {
            lemma_skip_step(buf, (b0.len() + b1.len()) as int, b2, s3);
        }
        assert(d3 =~= Seq::<Fd>::empty());
        assert(base + d3.reverse() =~= base);
        self.height.lemma_roundtrip(s4, base);
        assert(buf.skip((b0.len() + b1.len() + b2.len() + b3.len()) as int) == s4) by {
            lemma_skip_step(buf, (b0.len() + b1.len() + b2.len()) as int, b3, s4);
        }
        assert(d4 =~= Seq::<Fd>::empty());
        assert(base + d4.reverse() =~= base);
        self.stride.lemma_roundtrip(s5, base);
        assert(buf.skip((b0.len() + b1.len() + b2.len() + b3.len() + b4.len()) as int) == s5) by {
            lemma_skip_step(buf, (b0.len() + b1.len() + b2.len() + b3.len()) as int, b4, s5);
        }
        assert(d5 =~= Seq::<Fd>::empty());
        assert(base + d5.reverse() =~= base);
        self.format.lemma_roundtrip(s6, base);
    }
}

impl create_buffer {
    /// The arguments are read in the protocol's order, `id`, then `offset`, then `width`, then `height`, then `stride`, then `format`: the bytes
    /// and descriptors written for such arguments, one after the other,
    /// decode to exactly those arguments.
    pub proof fn lemma_layout(id: new_id<crate::wl_buffer::Obj>, offset: i32, width: i32, height: i32, stride: i32, format: crate::wl_shm::format, rest: Seq<u8>, queue: Seq<Fd>)
        requires
            id.ser_ok(),
            id.rt_ok(),
            offset.ser_ok(),
            offset.rt_ok(),
            width.ser_ok(),
            width.rt_ok(),
            height.ser_ok(),
            height.rt_ok(),
            stride.ser_ok(),
            stride.rt_ok(),
            format.ser_ok(),
            format.rt_ok(),
            id.ser_bytes().len() + offset.ser_bytes().len() + width.ser_bytes().len() + height.ser_bytes().len() + stride.ser_bytes().len() + format.ser_bytes().len() <= usize::MAX,
        ensures
            ({
                let bytes = id.ser_bytes() + offset.ser_bytes() + width.ser_bytes() + height.ser_bytes() + stride.ser_bytes() + format.ser_bytes();
                let fds = id.ser_fds() + offset.ser_fds() + width.ser_fds() + height.ser_fds() + stride.ser_fds() + format.ser_fds();
                create_buffer::dsr_spec(bytes + rest, queue + fds.reverse()) == Decoded::Value(
                    (id.deep_view(), offset.deep_view(), width.deep_view(), height.deep_view(), stride.deep_view(), format.deep_view(),),
                    bytes.len(),
                    queue,
                )
            }),
    {
        let m = create_buffer { id, offset, width, height, stride, format };
        m.lemma_roundtrip(rest, queue);
    }

    /// The object the message creates is the one its `id` argument names,
    /// with the destructor of that argument's interface.
    pub proof fn lemma_creates(&self)
        ensures
            self.created_id() == Some(self.id.0),
            self.created_destructor() == <crate::wl_buffer::Obj as Object>::destructor_op(),
    {
    }
}

impl Msg<Obj> for create_buffer {
    open spec fn opcode() -> u16 {
        0
    }

    open spec fn since_version() -> u32 {
        1
    }

    open spec fn created_id(&self) -> Option<u32> {
        Some(self.id.0)
    }

    open spec fn created_destructor(&self) -> Option<u16> {
        crate::wl_buffer::Obj::destructor_op()
    }

    fn op() -> (r: u16) {
        0
    }

    fn since() -> u32 {
        1
    }

    fn new_id(&self) -> (r: Option<(u32, ObjMeta)>) {
        let id = self.id.0;
        let meta = ObjMeta {
            alive: true,
            destructor: crate::wl_buffer::Obj::destructor(),
            type_id: type_id_of::<crate::wl_buffer::Obj>(),
        };
        Some((id, meta))
    }
}

impl Request<Obj> for create_buffer {

}

/// destroy the pool
///
/// Destroy the shared memory pool.
///
/// The mmapped memory will be released when all
/// buffers that have been created from this pool
/// are gone.
///
#[derive(Debug)]
pub struct destroy {}

impl Ser for destroy {
    open spec fn ser_ok(&self) -> bool {
        true
    }

    open spec fn ser_bytes(&self) -> Seq<u8> {
        Seq::empty()
    }

    open spec fn ser_fds(&self) -> Seq<Fd> {
        Seq::empty()
    }

    fn wire_len(&self) -> (n: usize) {
        0
    }

    fn checked_len(&self) -> (r: Option<usize>) {
        Some(0)
    }

    open spec fn ser_fits(&self, cap: int) -> bool {
        true
    }

    fn serialize(self, buf: &mut [u8], fds: &mut Vec<Fd>) -> (r: Result<usize, &'static str>) {
        assert(buf@ =~= write_at(old(buf)@, 0, Seq::<u8>::empty()));
        assert(fds@ =~= old(fds)@ + Seq::<Fd>::empty());
        Ok(0)
    }

    proof fn lemma_fits(&self, cap: int) {
    }
}

impl DeepView for destroy {
    type V = ();

    open spec fn deep_view(&self) -> () {
        ()
    }
}

impl Dsr for destroy {
    open spec fn dsr_spec(buf: Seq<u8>, fds: Seq<Fd>) -> Decoded<()> {
        Decoded::Value((), 0, fds)
    }

    fn try_deserialize(buf: &[u8], fds: &mut Vec<Fd>) -> (r: Option<Result<(destroy, usize), &'static str>>) {
        Some(Ok((destroy {}, 0)))
    }
}

impl Codec for destroy {
    open spec fn rt_ok(&self) -> bool {
        true
    }

    proof fn lemma_roundtrip(&self, tail: Seq<u8>, base: Seq<Fd>) {
        assert(Seq::<Fd>::empty().reverse() =~= Seq::<Fd>::empty());
        assert(base + Seq::<Fd>::empty() =~= base);
    }
}

impl destroy {
    /// The arguments are read in the protocol's order, no arguments: the bytes
    /// and descriptors written for such arguments, one after the other,
    /// decode to exactly those arguments.
    pub proof fn lemma_layout(rest: Seq<u8>, queue: Seq<Fd>)
        ensures
            ({
                let bytes = Seq::<u8>::empty();
                let fds = Seq::<Fd>::empty();
                destroy::dsr_spec(bytes + rest, queue + fds.reverse()) == Decoded::Value(
                    (),
                    bytes.len(),
                    queue,
                )
            }),
    {
        let m = destroy {};
        m.lemma_roundtrip(rest, queue);
    }

    /// The message creates no object.
    pub proof fn lemma_creates(&self)
        ensures
            self.created_id() is None,
    {
    }
}

impl Msg<Obj> for destroy {
    open spec fn opcode() -> u16 {
        1
    }

    open spec fn since_version() -> u32 {
        1
    }

    open spec fn created_id(&self) -> Option<u32> {
        None
    }

    open spec fn created_destructor(&self) -> Option<u16> {
        None
    }

    fn op() -> (r: u16) {
        1
    }

    fn since() -> u32 {
        1
    }

    fn new_id(&self) -> (r: Option<(u32, ObjMeta)>) {
        None
    }
}

impl Request<Obj> for destroy {

}

/// change the size of the pool mapping
///
/// This request will cause the server to remap the backing memory
/// for the pool from the file descriptor passed when the pool was
/// created, but using the new size.  This request can only be
/// used to make the pool bigger.
///
/// This request only changes the amount of bytes that are mmapped
/// by the server and does not touch the file corresponding to the
/// file descriptor passed at creation time. It is the client's
/// responsibility to ensure that the file is at least as big as
/// the new pool size.
///
#[derive(Debug)]
pub struct resize {
    // new size of the pool, in bytes
    pub size: i32,
}

impl Ser for resize {
    open spec fn ser_ok(&self) -> bool {
        &&& self.size.ser_ok()
        &&& self.ser_bytes().len() <= usize::MAX
    }

    open spec fn ser_bytes(&self) -> Seq<u8> {
        self.size.ser_bytes()
    }

    open spec fn ser_fds(&self) -> Seq<Fd> {
        self.size.ser_fds()
    }

    fn wire_len(&self) -> (n: usize) {
        self.size.wire_len()
    }

    fn checked_len(&self) -> (r: Option<usize>) {
        let n0 = match self.size.checked_len() {
            Some(m) => m,
            None => return None,
        };
        Some(n0)
    }

    open spec fn ser_fits(&self, cap: int) -> bool {
        &&& 0 <= cap && self.size.ser_fits(cap - (0))
    }

    fn serialize(self, buf: &mut [u8], fds: &mut Vec<Fd>) -> (r: Result<usize, &'static str>) {
        let ghost me = self;
        let ghost b0 = buf@;
        let mut n: usize = 0;
        n = n + ser_at(self.size, buf, n, fds);
        assert(fds@ =~= old(fds)@ + me.ser_fds());
        Ok(n)
    }

    proof fn lemma_fits(&self, cap: int) {
        self.size.lemma_fits(cap - (0));
    }
}

impl DeepView for resize {
    type V = (<i32 as DeepView>::V,);

    open spec fn deep_view(&self) -> (<i32 as DeepView>::V,) {
        (self.size.deep_view(),)
    }
}

impl Dsr for resize {
    open spec fn dsr_spec(buf: Seq<u8>, fds: Seq<Fd>) -> Decoded<(<i32 as DeepView>::V,)> {
        match <i32>::dsr_spec(buf, fds) {
            Decoded::Value(size, n0, q0) => Decoded::Value((size,), n0, q0),
            d => d.fail(),
        }
    }

    fn try_deserialize(buf: &[u8], fds: &mut Vec<Fd>) -> (r: Option<Result<(resize, usize), &'static str>>) {
        let mut n: usize = 0;
        let rest = &buf[n..buf.len()];
        assert(rest@ =~= buf@.skip(n as int));
        assert(n == 0 ==> rest@ =~= buf@);
        let (size, m) = match <i32>::try_deserialize(rest, fds) {
            Some(Ok(p)) => p,
            Some(Err(e)) => return Some(Err(e)),
            None => return None,
        };
        n = n + m;
        Some(Ok((resize { size }, n)))
    }
}

impl Codec for resize {
    open spec fn rt_ok(&self) -> bool {
        &&& self.size.rt_ok()
    }

    proof fn lemma_roundtrip(&self, tail: Seq<u8>, base: Seq<Fd>) {
        let b0 = self.size.ser_bytes();
        let d0 = self.size.ser_fds();
        let s1 = tail;
        let s0 = b0 + s1;
        let buf = self.ser_bytes() + tail;
        assert(buf =~= s0);
        assert(buf.skip(0) =~= s0);
        assert(self.ser_fds() =~= Seq::<Fd>::empty());
        assert(base + self.ser_fds().reverse() =~= base);
        assert(d0 =~= Seq::<Fd>::empty());
        assert(base + d0.reverse() =~= base);
        self.size.lemma_roundtrip(s1, base);
    }
}

impl resize {
    /// The arguments are read in the protocol's order, `size`: the bytes
    /// and descriptors written for such arguments, one after the other,
    /// decode to exactly those arguments.
    pub proof fn lemma_layout(size: i32, rest: Seq<u8>, queue: Seq<Fd>)
        requires
            size.ser_ok(),
            size.rt_ok(),
            size.ser_bytes().len() <= usize::MAX,
        ensures
            ({
                let bytes = size.ser_bytes();
                let fds = size.ser_fds();
                resize::dsr_spec(bytes + rest, queue + fds.reverse()) == Decoded::Value(
                    (size.deep_view(),),
                    bytes.len(),
                    queue,
                )
            }),
    {
        let m = resize { size };
        m.lemma_roundtrip(rest, queue);
    }

    /// The message creates no object.
    pub proof fn lemma_creates(&self)
        ensures
            self.created_id() is None,
    {
    }
}

impl Msg<Obj> for resize {
    open spec fn opcode() -> u16 {
        2
    }

    open spec fn since_version() -> u32 {
        1
    }

    open spec fn created_id(&self) -> Option<u32> {
        None
    }

    open spec fn created_destructor(&self) -> Option<u16> {
        None
    }

    fn op() -> (r: u16) {
        2
    }

    fn since() -> u32 {
        1
    }

    fn new_id(&self) -> (r: Option<(u32, ObjMeta)>) {
        None
    }
}

impl Request<Obj> for resize {

}

/// The opcode of each request: its index in the protocol's list of the
/// interface's requests, so that no two requests share one.
pub proof fn lemma_opcodes()
    ensures
        <create_buffer as Msg<Obj>>::opcode() == 0,
        <destroy as Msg<Obj>>::opcode() == 1,
        <resize as Msg<Obj>>::opcode() == 2,
        <create_buffer as Msg<Obj>>::opcode() != <destroy as Msg<Obj>>::opcode(),
        <create_buffer as Msg<Obj>>::opcode() != <resize as Msg<Obj>>::opcode(),
        <destroy as Msg<Obj>>::opcode() != <resize as Msg<Obj>>::opcode(),
        <Obj as Object>::destructor_op() == Some(<destroy as Msg<Obj>>::opcode()),
{
}

} // verus!
