use vstd::prelude::*;
use crate::objects::{type_id_of, new_id, object, Dyn, ObjMeta, Object, Msg, Request};
use crate::wire::{ser_at, write_at, lemma_write_then, lemma_reverse_add, lemma_skip_step, fixed, Codec, Decoded, Dsr, Fd, Ser};
use super::Obj;

verus! {

/// delete surface
///
/// Deletes the surface and invalidates its object ID.
///
#[derive(Debug)]
pub struct destroy {}

impl Ser for destroy {
    open spec fn ser_ok(&self) -> bool {
        true
    }

    open spec fn ser_bytes(&self) -> Seq<u8> {
        Seq::empty()
    }

    open spec fn ser_fds(&self) -> Seq<Fd> {
        Seq::empty()
    }

    fn wire_len(&self) -> (n: usize) {
        0
    }

    fn checked_len(&self) -> (r: Option<usize>) {
        Some(0)
    }

    open spec fn ser_fits(&self, cap: int) -> bool {
        true
    }

    fn serialize(self, buf: &mut [u8], fds: &mut Vec<Fd>) -> (r: Result<usize, &'static str>) {
        assert(buf@ =~= write_at(old(buf)@, 0, Seq::<u8>::empty()));
        assert(fds@ =~= old(fds)@ + Seq::<Fd>::empty());
        Ok(0)
    }

    proof fn lemma_fits(&self, cap: int) {
    }
}

impl DeepView for destroy {
    type V = ();

    open spec fn deep_view(&self) -> () {
        ()
    }
}

impl Dsr for destroy {
    open spec fn dsr_spec(buf: Seq<u8>, fds: Seq<Fd>) -> Decoded<()> {
        Decoded::Value((), 0, fds)
    }

    fn try_deserialize(buf: &[u8], fds: &mut Vec<Fd>) -> (r: Option<Result<(destroy, usize), &'static str>>) {
        Some(Ok((destroy {}, 0)))
    }
}

impl Codec for destroy {
    open spec fn rt_ok(&self) -> bool {
        true
    }

    proof fn lemma_roundtrip(&self, tail: Seq<u8>, base: Seq<Fd>) {
        assert(Seq::<Fd>::empty().reverse() =~= Seq::<Fd>::empty());
        assert(base + Seq::<Fd>::empty() =~= base);
    }
}

impl destroy {
    /// The arguments are read in the protocol's order, no arguments: the bytes
    /// and descriptors written for such arguments, one after the other,
    /// decode to exactly those arguments.
    pub proof fn lemma_layout(rest: Seq<u8>, queue: Seq<Fd>)
        ensures
            ({
                let bytes = Seq::<u8>::empty();
                let fds = Seq::<Fd>::empty();
                destroy::dsr_spec(bytes + rest, queue + fds.reverse()) == Decoded::Value(
                    (),
                    bytes.len(),
                    queue,
                )
            }),
    {
        let m = destroy {};
        m.lemma_roundtrip(rest, queue);
    }

    /// The message creates no object.
    pub proof fn lemma_creates(&self)
        ensures
            self.created_id() is None,
    {
    }
}

impl Msg<Obj> for destroy {
    open spec fn opcode() -> u16 {
        0
    }

    open spec fn since_version() -> u32 {
        1
    }

    open spec fn created_id(&self) -> Option<u32> {
        None
    }

    open spec fn created_destructor(&self) -> Option<u16> {
        None
    }

    fn op() -> (r: u16) {
        0
    }

    fn since() -> u32 {
        1
    }

    fn new_id(&self) -> (r: Option<(u32, ObjMeta)>) {
        None
    }
}

impl Request<Obj> for destroy {

}

/// set the surface contents
///
/// Set a buffer as the content of this surface.
///
/// The new size of the surface is calculated based on the buffer
/// size transformed by the inverse buffer_transform and the
/// inverse buffer_scale. This means that at commit time the supplied
/// buffer size must be an integer multiple of the buffer_scale. If
/// that's not the case, an invalid_size error is sent.
///
/// The x and y arguments specify the location of the new pending
/// buffer's upper left corner, relative to the current buffer's upper
/// left corner, in surface-local coordinates. In other words, the
/// x and y, combined with the new surface size define in which
/// directions the surface's size changes. Setting anything other than 0
/// as x and y arguments is discouraged, and should instead be replaced
/// with using the separate wl_surface.offset request.
///
/// When the bound wl_surface version is 5 or higher, passing any
/// non-zero x or y is a protocol violation, and will result in an
/// 'invalid_offset' error being raised. The x and y arguments are ignored
/// and do not change the pending state. To achieve equivalent semantics,
/// use wl_surface.offset.
///
/// Surface contents are double-buffered state, see wl_surface.commit.
///
/// The initial surface contents are void; there is no content.
/// wl_surface.attach assigns the given wl_buffer as the pending
/// wl_buffer. wl_surface.commit makes the pending wl_buffer the new
/// surface contents, and the size of the surface becomes the size
/// calculated from the wl_buffer, as described above. After commit,
/// there is no pending buffer until the next attach.
///
/// Committing a pending wl_buffer allows the compositor to read the
/// pixels in the wl_buffer. The compositor may access the pixels at
/// any time after the wl_surface.commit request. When the compositor
/// will not access the pixels anymore, it will send the
/// wl_buffer.release event. Only after receiving wl_buffer.release,
/// the client may reuse the wl_buffer. A wl_buffer that has been
/// attached and then replaced by another attach instead of committed
/// will not receive a release event, and is not used by the
/// compositor.
///
/// If a pending wl_buffer has been committed to more than one wl_surface,
/// the delivery of wl_buffer.release events becomes undefined. A well
/// behaved client should not rely on wl_buffer.release events in this
/// case. Alternatively, a client could create multiple wl_buffer objects
/// from the same backing storage or use wp_linux_buffer_release.
///
/// Destroying the wl_buffer after wl_buffer.release does not change
/// the surface contents. Destroying the wl_buffer before wl_buffer.release
/// is allowed as long as the underlying buffer storage isn't re-used (this
/// can happen e.g. on client process termination). However, if the client
/// destroys the wl_buffer before receiving the wl_buffer.release event and
/// mutates the underlying buffer storage, the surface contents become
/// undefined immediately.
///
/// If wl_surface.attach is sent with a NULL wl_buffer, the
/// following wl_surface.commit will remove the surface content.
///
#[derive(Debug)]
pub struct attach {
    // buffer of surface contents
    pub buffer: Option<object<crate::wl_buffer::Obj>>,
    // surface-local x coordinate
    pub x: i32,
    // surface-local y coordinate
    pub y: i32,
}

impl Ser for attach {
    open spec fn ser_ok(&self) -> bool {
        &&& self.buffer.ser_ok()
        &&& self.x.ser_ok()
        &&& self.y.ser_ok()
        &&& self.ser_bytes().len() <= usize::MAX
    }

    open spec fn ser_bytes(&self) -> Seq<u8> {
        self.buffer.ser_bytes() + self.x.ser_bytes() + self.y.ser_bytes()
    }

    open spec fn ser_fds(&self) -> Seq<Fd> {
        self.buffer.ser_fds() + self.x.ser_fds() + self.y.ser_fds()
    }

    fn wire_len(&self) -> (n: usize) {
        self.buffer.wire_len() + self.x.wire_len() + self.y.wire_len()
    }

    fn checked_len(&self) -> (r: Option<usize>) {
        let n0 = match self.buffer.checked_len() {
            Some(m) => m,
            None => return None,
        };
        let n1 = match self.x.checked_len() {
            Some(m) => match n0.checked_add(m) {
                Some(t) => t,
                None => return None,
            },
            None => return None,
        };
        let n2 = match self.y.checked_len() {
            Some(m) => match n1.checked_add(m) {
                Some(t) => t,
                None => return None,
            },
            None => return None,
        };
        Some(n2)
    }

    open spec fn ser_fits(&self, cap: int) -> bool {
        &&& 0 <= cap && self.buffer.ser_fits(cap - (0))
        &&& self.buffer.ser_bytes().len() <= cap && self.x.ser_fits(cap - (self.buffer.ser_bytes().len()))
        &&& self.buffer.ser_bytes().len() + self.x.ser_bytes().len() <= cap && self.y.ser_fits(cap - (self.buffer.ser_bytes().len() + self.x.ser_bytes().len()))
    }

    fn serialize(self, buf: &mut [u8], fds: &mut Vec<Fd>) -> (r: Result<usize, &'static str>) {
        let ghost me = self;
        let ghost b0 = buf@;
        let mut n: usize = 0;
        n = n + ser_at(self.buffer, buf, n, fds);
        assert(fds@ =~= old(fds)@ + me.buffer.ser_fds());
        n = n + ser_at(self.x, buf, n, fds);
        proof {
            lemma_write_then(b0, 0, me.buffer.ser_bytes(), me.x.ser_bytes());
        }
        assert(fds@ =~= old(fds)@ + me.buffer.ser_fds() + me.x.ser_fds());
        n = n + ser_at(self.y, buf, n, fds);
        proof {
            lemma_write_then(b0, 0, me.buffer.ser_bytes() + me.x.ser_bytes(), me.y.ser_bytes());
        }
        assert(fds@ =~= old(fds)@ + me.ser_fds());
        Ok(n)
    }

    proof fn lemma_fits(&self, cap: int) {
        self.buffer.lemma_fits(cap - (0));
        self.x.lemma_fits(cap - (self.buffer.ser_bytes().len()));
        self.y.lemma_fits(cap - (self.buffer.ser_bytes().len() + self.x.ser_bytes().len()));
    }
}

impl DeepView for attach {
    type V = (<Option<object<crate::wl_buffer::Obj>> as DeepView>::V, <i32 as DeepView>::V, <i32 as DeepView>::V,);

    open spec fn deep_view(&self) -> (<Option<object<crate::wl_buffer::Obj>> as DeepView>::V, <i32 as DeepView>::V, <i32 as DeepView>::V,) {
        (self.buffer.deep_view(), self.x.deep_view(), self.y.deep_view(),)
    }
}

impl Dsr for attach {
    open spec fn dsr_spec(buf: Seq<u8>, fds: Seq<Fd>) -> Decoded<(<Option<object<crate::wl_buffer::Obj>> as DeepView>::V, <i32 as DeepView>::V, <i32 as DeepView>::V,)> {
        match <Option<object<crate::wl_buffer::Obj>>>::dsr_spec(buf, fds) {
            Decoded::Value(buffer, n0, q0) => {
                match <i32>::dsr_spec(buf.skip(n0 as int), q0) {
                    Decoded::Value(x, m1, q1) => {
                        let n1 = n0 + m1;
                        match <i32>::dsr_spec(buf.skip(n1 as int), q1) {
                            Decoded::Value(y, m2, q2) => {
                                let n2 = n1 + m2;
                                Decoded::Value((buffer, x, y,), n2, q2)
                            },
                            d => d.fail(),
                        }
                    },
                    d => d.fail(),
                }
            },
            d => d.fail(),
        }
    }

    fn try_deserialize(buf: &[u8], fds: &mut Vec<Fd>) -> (r: Option<Result<(attach, usize), &'static str>>) {
        let mut n: usize = 0;
        let rest = &buf[n..buf.len()];
        assert(rest@ =~= buf@.skip(n as int));
        assert(n == 0 ==> rest@ =~= buf@);
        let (buffer, m) = match <Option<object<crate::wl_buffer::Obj>>>::try_deserialize(rest, fds) {
            Some(Ok(p)) => p,
            Some(Err(e)) => return Some(Err(e)),
            None => return None,
        };
        n = n + m;
        let rest = &buf[n..buf.len()];
        assert(rest@ =~= buf@.skip(n as int));
        assert(n == 0 ==> rest@ =~= buf@);
        let (x, m) = match <i32>::try_deserialize(rest, fds) {
            Some(Ok(p)) => p,
            Some(Err(e)) => return Some(Err(e)),
            None => return None,
        };
        n = n + m;
        let rest = &buf[n..buf.len()];
        assert(rest@ =~= buf@.skip(n as int));
        assert(n == 0 ==> rest@ =~= buf@);
        let (y, m) = match <i32>::try_deserialize(rest, fds) {
            Some(Ok(p)) => p,
            Some(Err(e)) => return Some(Err(e)),
            None => return None,
        };
        n = n + m;
        Some(Ok((attach { buffer, x, y }, n)))
    }
}

impl Codec for attach {
    open spec fn rt_ok(&self) -> bool {
        &&& self.buffer.rt_ok()
        &&& self.x.rt_ok()
        &&& self.y.rt_ok()
    }

    proof fn lemma_roundtrip(&self, tail: Seq<u8>, base: Seq<Fd>) {
        let b0 = self.buffer.ser_bytes();
        let b1 = self.x.ser_bytes();
        let b2 = self.y.ser_bytes();
        let d0 = self.buffer.ser_fds();
        let d1 = self.x.ser_fds();
        let d2 = self.y.ser_fds();
        let s3 = tail;
        let s2 = b2 + s3;
        let s1 = b1 + s2;
        let s0 = b0 + s1;
        let buf = self.ser_bytes() + tail;
        assert(buf =~= s0);
        assert(buf.skip(0) =~= s0);
        assert(self.ser_fds() =~= Seq::<Fd>::empty());
        assert(base + self.ser_fds().reverse() =~= base);
        assert(d0 =~= Seq::<Fd>::empty());
        assert(base + d0.reverse() =~= base);
        self.buffer.lemma_roundtrip(s1, base);
        assert(buf.skip((b0.len()) as int) == s1) by {
            lemma_skip_step(buf, (0) as int, b0, s1);
        }
        assert(d1 =~= Seq::<Fd>::empty());
        assert(base + d1.reverse() =~= base);
        self.x.lemma_roundtrip(s2, base);
        assert(buf.skip((b0.len() + b1.len()) as int) == s2) by {
            lemma_skip_step(buf, (b0.len()) as int, b1, s2);
        }
        assert(d2 =~= Seq::<Fd>::empty());
        assert(base + d2.reverse() =~= base);
        self.y.lemma_roundtrip(s3, base);
    }
}

impl attach {
    /// The arguments are read in the protocol's order, `buffer`, then `x`, then `y`: the bytes
    /// and descriptors written for such arguments, one after the other,
    /// decode to exactly those arguments.
    pub proof fn lemma_layout(buffer: Option<object<crate::wl_buffer::Obj>>, x: i32, y: i32, rest: Seq<u8>, queue: Seq<Fd>)
        requires
            buffer.ser_ok(),
            buffer.rt_ok(),
            x.ser_ok(),
            x.rt_ok(),
            y.ser_ok(),
            y.rt_ok(),
            buffer.ser_bytes().len() + x.ser_bytes().len() + y.ser_bytes().len() <= usize::MAX,
        ensures
            ({
                let bytes = buffer.ser_bytes() + x.ser_bytes() + y.ser_bytes();
                let fds = buffer.ser_fds() + x.ser_fds() + y.ser_fds();
                attach::dsr_spec(bytes + rest, queue + fds.reverse()) == Decoded::Value(
                    (buffer.deep_view(), x.deep_view(), y.deep_view(),),
                    bytes.len(),
                    queue,
                )
            }),
    {
        let m = attach { buffer, x, y };
        m.lemma_roundtrip(rest, queue);
    }

    /// The message creates no object.
    pub proof fn lemma_creates(&self)
        ensures
            self.created_id() is None,
    {
    }
}

impl Msg<Obj> for attach {
    open spec fn opcode() -> u16 {
        1
    }

    open spec fn since_version() -> u32 {
        1
    }

    open spec fn created_id(&self) -> Option<u32> {
        None
    }

    open spec fn created_destructor(&self) -> Option<u16> {
        None
    }

    fn op() -> (r: u16) {
        1
    }

    fn since() -> u32 {
        1
    }

    fn new_id(&self) -> (r: Option<(u32, ObjMeta)>) {
        None
    }
}

impl Request<Obj> for attach {

}

/// mark part of the surface damaged
///
/// This request is used to describe the regions where the pending
/// buffer is different from the current surface contents, and where
/// the surface therefore needs to be repainted. The compositor
/// ignores the parts of the damage that fall outside of the surface.
///
/// Damage is double-buffered state, see wl_surface.commit.
///
/// The damage rectangle is specified in surface-local coordinates,
/// where x and y specify the upper left corner of the damage rectangle.
///
/// The initial value for pending damage is empty: no damage.
/// wl_surface.damage adds pending damage: the new pending damage
/// is the union of old pending damage and the given rectangle.
///
/// wl_surface.commit assigns pending damage as the current damage,
/// and clears pending damage. The server will clear the current
/// damage as it repaints the surface.
///
/// Note! New clients should not use this request. Instead damage can be
/// posted with wl_surface.damage_buffer which uses buffer coordinates
/// instead of surface coordinates.
///
#[derive(Debug)]
pub struct damage {
    // surface-local x coordinate
    pub x: i32,
    // surface-local y coordinate
    pub y: i32,
    // width of damage rectangle
    pub width: i32,
    // height of damage rectangle
    pub height: i32,
}

impl Ser for damage {
    open spec fn ser_ok(&self) -> bool {
        &&& self.x.ser_ok()
        &&& self.y.ser_ok()
        &&& self.width.ser_ok()
        &&& self.height.ser_ok()
        &&& self.ser_bytes().len() <= usize::MAX
    }

    open spec fn ser_bytes(&self) -> Seq<u8> {
        self.x.ser_bytes() + self.y.ser_bytes() + self.width.ser_bytes() + self.height.ser_bytes()
    }

    open spec fn ser_fds(&self) -> Seq<Fd> {
        self.x.ser_fds() + self.y.ser_fds() + self.width.ser_fds() + self.height.ser_fds()
    }

    fn wire_len(&self) -> (n: usize) {
        self.x.wire_len() + self.y.wire_len() + self.width.wire_len() + self.height.wire_len()
    }

    fn checked_len(&self) -> (r: Option<usize>) {
        let n0 = match self.x.checked_len() {
            Some(m) => m,
            None => return None,
        };
        let n1 = match self.y.checked_len() {
            Some(m) => match n0.checked_add(m) {
                Some(t) => t,
                None => return None,
            },
            None => return None,
        };
        let n2 = match self.width.checked_len() {
            Some(m) => match n1.checked_add(m) {
                Some(t) => t,
                None => return None,
            },
            None => return None,
        };
        let n3 = match self.height.checked_len() {
            Some(m) => match n2.checked_add(m) {
                Some(t) => t,
                None => return None,
            },
            None => return None,
        };
        Some(n3)
    }

    open spec fn ser_fits(&self, cap: int) -> bool {
        &&& 0 <= cap && self.x.ser_fits(cap - (0))
        &&& self.x.ser_bytes().len() <= cap && self.y.ser_fits(cap - (self.x.ser_bytes().len()))
        &&& self.x.ser_bytes().len() + self.y.ser_bytes().len() <= cap && self.width.ser_fits(cap - (self.x.ser_bytes().len() + self.y.ser_bytes().len()))
        &&& self.x.ser_bytes().len() + self.y.ser_bytes().len() + self.width.ser_bytes().len() <= cap && self.height.ser_fits(cap - (self.x.ser_bytes().len() + self.y.ser_bytes().len() + self.width.ser_bytes().len()))
    }

    fn serialize(self, buf: &mut [u8], fds: &mut Vec<Fd>) -> (r: Result<usize, &'static str>) {
        let ghost me = self;
        let ghost b0 = buf@;
        let mut n: usize = 0;
        n = n + ser_at(self.x, buf, n, fds);
        assert(fds@ =~= old(fds)@ + me.x.ser_fds());
        n = n + ser_at(self.y, buf, n, fds);
        proof {
            lemma_write_then(b0, 0, me.x.ser_bytes(), me.y.ser_bytes());
        }
        assert(fds@ =~= old(fds)@ + me.x.ser_fds() + me.y.ser_fds());
        n = n + ser_at(self.width, buf, n, fds);
        proof {
            lemma_write_then(b0, 0, me.x.ser_bytes() + me.y.ser_bytes(), me.width.ser_bytes());
        }
        assert(fds@ =~= old(fds)@ + me.x.ser_fds() + me.y.ser_fds() + me.width.ser_fds());
        n = n + ser_at(self.height, buf, n, fds);
        proof {
            lemma_write_then(b0, 0, me.x.ser_bytes() + me.y.ser_bytes() + me.width.ser_bytes(), me.height.ser_bytes());
        }
        assert(fds@ =~= old(fds)@ + me.ser_fds());
        Ok(n)
    }

    proof fn lemma_fits(&self, cap: int) {
        self.x.lemma_fits(cap - (0));
        self.y.lemma_fits(cap - (self.x.ser_bytes().len()));
        self.width.lemma_fits(cap - (self.x.ser_bytes().len() + self.y.ser_bytes().len()));
        self.height.lemma_fits(cap - (self.x.ser_bytes().len() + self.y.ser_bytes().len() + self.width.ser_bytes().len()));
    }
}

impl DeepView for damage {
    type V = (<i32 as DeepView>::V, <i32 as DeepView>::V, <i32 as DeepView>::V, <i32 as DeepView>::V,);

    open spec fn deep_view(&self) -> (<i32 as DeepView>::V, <i32 as DeepView>::V, <i32 as DeepView>::V, <i32 as DeepView>::V,) {
        (self.x.deep_view(), self.y.deep_view(), self.width.deep_view(), self.height.deep_view(),)
    }
}

impl Dsr for damage {
    open spec fn dsr_spec(buf: Seq<u8>, fds: Seq<Fd>) -> Decoded<(<i32 as DeepView>::V, <i32 as DeepView>::V, <i32 as DeepView>::V, <i32 as DeepView>::V,)> {
        match <i32>::dsr_spec(buf, fds) {
            Decoded::Value(x, n0, q0) => {
                match <i32>::dsr_spec(buf.skip(n0 as int), q0) {
                    Decoded::Value(y, m1, q1) => {
                        let n1 = n0 + m1;
                        match <i32>::dsr_spec(buf.skip(n1 as int), q1) {
                            Decoded::Value(width, m2, q2) => {
                                let n2 = n1 + m2;
                                match <i32>::dsr_spec(buf.skip(n2 as int), q2) {
                                    Decoded::Value(height, m3, q3) => {
                                        let n3 = n2 + m3;
                                        Decoded::Value((x, y, width, height,), n3, q3)
                                    },
                                    d => d.fail(),
                                }
                            },
                            d => d.fail(),
                        }
                    },
                    d => d.fail(),
                }
            },
            d => d.fail(),
        }
    }

    fn try_deserialize(buf: &[u8], fds: &mut Vec<Fd>) -> (r: Option<Result<(damage, usize), &'static str>>) {
        let mut n: usize = 0;
        let rest = &buf[n..buf.len()];
        assert(rest@ =~= buf@.skip(n as int));
        assert(n == 0 ==> rest@ =~= buf@);
        let (x, m) = match <i32>::try_deserialize(rest, fds) {
            Some(Ok(p)) => p,
            Some(Err(e)) => return Some(Err(e)),
            None => return None,
        };
        n = n + m;
        let rest = &buf[n..buf.len()];
        assert(rest@ =~= buf@.skip(n as int));
        assert(n == 0 ==> rest@ =~= buf@);
        let (y, m) = match <i32>::try_deserialize(rest, fds) {
            Some(Ok(p)) => p,
            Some(Err(e)) => return Some(Err(e)),
            None => return None,
        };
        n = n + m;
        let rest = &buf[n..buf.len()];
        assert(rest@ =~= buf@.skip(n as int));
        assert(n == 0 ==> rest@ =~= buf@);
        let (width, m) = match <i32>::try_deserialize(rest, fds) {
            Some(Ok(p)) => p,
            Some(Err(e)) => return Some(Err(e)),
            None => return None,
        };
        n = n + m;
        let rest = &buf[n..buf.len()];
        assert(rest@ =~= buf@.skip(n as int));
        assert(n == 0 ==> rest@ =~= buf@);
        let (height, m) = match <i32>::try_deserialize(rest, fds) {
            Some(Ok(p)) => p,
            Some(Err(e)) => return Some(Err(e)),
            None => return None,
        };
        n = n + m;
        Some(Ok((damage { x, y, width, height }, n)))
    }
}

impl Codec for damage {
    open spec fn rt_ok(&self) -> bool {
        &&& self.x.rt_ok()
        &&& self.y.rt_ok()
        &&& self.width.rt_ok()
        &&& self.height.rt_ok()
    }

    proof fn lemma_roundtrip(&self, tail: Seq<u8>, base: Seq<Fd>) {
        let b0 = self.x.ser_bytes();
        let b1 = self.y.ser_bytes();
        let b2 = self.width.ser_bytes();
        let b3 = self.height.ser_bytes();
        let d0 = self.x.ser_fds();
        let d1 = self.y.ser_fds();
        let d2 = self.width.ser_fds();
        let d3 = self.height.ser_fds();
        let s4 = tail;
        let s3 = b3 + s4;
        let s2 = b2 + s3;
        let s1 = b1 + s2;
        let s0 = b0 + s1;
        let buf = self.ser_bytes() + tail;
        assert(buf =~= s0);
        assert(buf.skip(0) =~= s0);
        assert(self.ser_fds() =~= Seq::<Fd>::empty());
        assert(base + self.ser_fds().reverse() =~= base);
        assert(d0 =~= Seq::<Fd>::empty());
        assert(base + d0.reverse() =~= base);
        self.x.lemma_roundtrip(s1, base);
        assert(buf.skip((b0.len()) as int) == s1) by {
            lemma_skip_step(buf, (0) as int, b0, s1);
        }
        assert(d1 =~= Seq::<Fd>::empty());
        assert(base + d1.reverse() =~= base);
        self.y.lemma_roundtrip(s2, base);
        assert(buf.skip((b0.len() + b1.len()) as int) == s2) by {
            lemma_skip_step(buf, (b0.len()) as int, b1, s2);
        }
        assert(d2 =~= Seq::<Fd>::empty());
        assert(base + d2.reverse() =~= base);
        self.width.lemma_roundtrip(s3, base);
        assert(buf.skip((b0.len() + b1.len() + b2.len()) as int) == s3) by {
            lemma_skip_step(buf, (b0.len() + b1.len()) as int, b2, s3);
        }
        assert(d3 =~= Seq::<Fd>::empty());
        assert(base + d3.reverse() =~= base);
        self.height.lemma_roundtrip(s4, base);
    }
}

impl damage {
    /// The arguments are read in the protocol's order, `x`, then `y`, then `width`, then `height`: the bytes
    /// and descriptors written for such arguments, one after the other,
    /// decode to exactly those arguments.
    pub proof fn lemma_layout(x: i32, y: i32, width: i32, height: i32, rest: Seq<u8>, queue: Seq<Fd>)
        requires
            x.ser_ok(),
            x.rt_ok(),
            y.ser_ok(),
            y.rt_ok(),
            width.ser_ok(),
            width.rt_ok(),
            height.ser_ok(),
            height.rt_ok(),
            x.ser_bytes().len() + y.ser_bytes().len() + width.ser_bytes().len() + height.ser_bytes().len() <= usize::MAX,
        ensures
            ({
                let bytes = x.ser_bytes() + y.ser_bytes() + width.ser_bytes() + height.ser_bytes();
                let fds = x.ser_fds() + y.ser_fds() + width.ser_fds() + height.ser_fds();
                damage::dsr_spec(bytes + rest, queue + fds.reverse()) == Decoded::Value(
                    (x.deep_view(), y.deep_view(), width.deep_view(), height.deep_view(),),
                    bytes.len(),
                    queue,
                )
            }),
    {
        let m = damage { x, y, width, height };
        m.lemma_roundtrip(rest, queue);
    }

    /// The message creates no object.
    pub proof fn lemma_creates(&self)
        ensures
            self.created_id() is None,
    {
    }
}

impl Msg<Obj> for damage {
    open spec fn opcode() -> u16 {
        2
    }

    open spec fn since_version() -> u32 {
        1
    }

    open spec fn created_id(&self) -> Option<u32> {
        None
    }

    open spec fn created_destructor(&self) -> Option<u16> {
        None
    }

    fn op() -> (r: u16) {
        2
    }

    fn since() -> u32 {
        1
    }

    fn new_id(&self) -> (r: Option<(u32, ObjMeta)>) {
        None
    }
}

impl Request<Obj> for damage {

}

/// request a frame throttling hint
///
/// Request a notification when it is a good time to start drawing a new
/// frame, by creating a frame callback. This is useful for throttling
/// redrawing operations, and driving animations.
///
/// When a client is animating on a wl_surface, it can use the 'frame'
/// request to get notified when it is a good time to draw and commit the
/// next frame of animation. If the client commits an update earlier than
/// that, it is likely that some updates will not make it to the display,
/// and the client is wasting resources by drawing too often.
///
/// The frame request will take effect on the next wl_surface.commit.
/// The notification will only be posted for one frame unless
/// requested again. For a wl_surface, the notifications are posted in
/// the order the frame requests were committed.
///
/// The server must send the notifications so that a client
/// will not send excessive updates, while still allowing
/// the highest possible update rate for clients that wait for the reply
/// before drawing again. The server should give some time for the client
/// to draw and commit after sending the frame callback events to let it
/// hit the next output refresh.
///
/// A server should avoid signaling the frame callbacks if the
/// surface is not visible in any way, e.g. the surface is off-screen,
/// or completely obscured by other opaque surfaces.
///
/// The object returned by this request will be destroyed by the
/// compositor after the callback is fired and as such the client must not
/// attempt to use it after that point.
///
/// The callback_data passed in the callback is the current time, in
/// milliseconds, with an undefined base.
///
#[derive(Debug)]
pub struct frame {
    // callback object for the frame request
    pub callback: new_id<crate::wl_callback::Obj>,
}

impl Ser for frame {
    open spec fn ser_ok(&self) -> bool {
        &&& self.callback.ser_ok()
        &&& self.ser_bytes().len() <= usize::MAX
    }

    open spec fn ser_bytes(&self) -> Seq<u8> {
        self.callback.ser_bytes()
    }

    open spec fn ser_fds(&self) -> Seq<Fd> {
        self.callback.ser_fds()
    }

    fn wire_len(&self) -> (n: usize) {
        self.callback.wire_len()
    }

    fn checked_len(&self) -> (r: Option<usize>) {
        let n0 = match self.callback.checked_len() {
            Some(m) => m,
            None => return None,
        };
        Some(n0)
    }

    open spec fn ser_fits(&self, cap: int) -> bool {
        &&& 0 <= cap && self.callback.ser_fits(cap - (0))
    }

    fn serialize(self, buf: &mut [u8], fds: &mut Vec<Fd>) -> (r: Result<usize, &'static str>) {
        let ghost me = self;
        let ghost b0 = buf@;
        let mut n: usize = 0;
        n = n + ser_at(self.callback, buf, n, fds);
        assert(fds@ =~= old(fds)@ + me.ser_fds());
        Ok(n)
    }

    proof fn lemma_fits(&self, cap: int) {
        self.callback.lemma_fits(cap - (0));
    }
}

impl DeepView for frame {
    type V = (<new_id<crate::wl_callback::Obj> as DeepView>::V,);

    open spec fn deep_view(&self) -> (<new_id<crate::wl_callback::Obj> as DeepView>::V,) {
        (self.callback.deep_view(),)
    }
}

impl Dsr for frame {
    open spec fn dsr_spec(buf: Seq<u8>, fds: Seq<Fd>) -> Decoded<(<new_id<crate::wl_callback::Obj> as DeepView>::V,)> {
        match <new_id<crate::wl_callback::Obj>>::dsr_spec(buf, fds) {
            Decoded::Value(callback, n0, q0) => Decoded::Value((callback,), n0, q0),
            d => d.fail(),
        }
    }

    fn try_deserialize(buf: &[u8], fds: &mut Vec<Fd>) -> (r: Option<Result<(frame, usize), &'static str>>) {
        let mut n: usize = 0;
        let rest = &buf[n..buf.len()];
        assert(rest@ =~= buf@.skip(n as int));
        assert(n == 0 ==> rest@ =~= buf@);
        let (callback, m) = match <new_id<crate::wl_callback::Obj>>::try_deserialize(rest, fds) {
            Some(Ok(p)) => p,
            Some(Err(e)) => return Some(Err(e)),
            None => return None,
        };
        n = n + m;
        Some(Ok((frame { callback }, n)))
    }
}

impl Codec for frame {
    open spec fn rt_ok(&self) -> bool {
        &&& self.callback.rt_ok()
    }

    proof fn lemma_roundtrip(&self, tail: Seq<u8>, base: Seq<Fd>) {
        let b0 = self.callback.ser_bytes();
        let d0 = self.callback.ser_fds();
        let s1 = tail;
        let s0 = b0 + s1;
        let buf = self.ser_bytes() + tail;
        assert(buf =~= s0);
        assert(buf.skip(0) =~= s0);
        assert(self.ser_fds() =~= Seq::<Fd>::empty());
        assert(base + self.ser_fds().reverse() =~= base);
        assert(d0 =~= Seq::<Fd>::empty());
        assert(base + d0.reverse() =~= base);
        self.callback.lemma_roundtrip(s1, base);
    }
}

impl frame {
    /// The arguments are read in the protocol's order, `callback`: the bytes
    /// and descriptors written for such arguments, one after the other,
    /// decode to exactly those arguments.
    pub proof fn lemma_layout(callback: new_id<crate::wl_callback::Obj>, rest: Seq<u8>, queue: Seq<Fd>)
        requires
            callback.ser_ok(),
            callback.rt_ok(),
            callback.ser_bytes().len() <= usize::MAX,
        ensures
            ({
                let bytes = callback.ser_bytes();
                let fds = callback.ser_fds();
                frame::dsr_spec(bytes + rest, queue + fds.reverse()) == Decoded::Value(
                    (callback.deep_view(),),
                    bytes.len(),
                    queue,
                )
            }),
    {
        let m = frame { callback };
        m.lemma_roundtrip(rest, queue);
    }

    /// The object the message creates is the one its `callback` argument names,
    /// with the destructor of that argument's interface.
    pub proof fn lemma_creates(&self)
        ensures
            self.created_id() == Some(self.callback.0),
            self.created_destructor() == <crate::wl_callback::Obj as Object>::destructor_op(),
    {
    }
}

impl Msg<Obj> for frame {
    open spec fn opcode() -> u16 {
        3
    }

    open spec fn since_version() -> u32 {
        1
    }

    open spec fn created_id(&self) -> Option<u32> {
        Some(self.callback.0)
    }

    open spec fn created_destructor(&self) -> Option<u16> {
        crate::wl_callback::Obj::destructor_op()
    }

    fn op() -> (r: u16) {
        3
    }

    fn since() -> u32 {
        1
    }

    fn new_id(&self) -> (r: Option<(u32, ObjMeta)>) {
        let id = self.callback.0;
        let meta = ObjMeta {
            alive: true,
            destructor: crate::wl_callback::Obj::destructor(),
            type_id: type_id_of::<crate::wl_callback::Obj>(),
        };
        Some((id, meta))
    }
}

impl Request<Obj> for frame {

}

/// set opaque region
///
/// This request sets the region of the surface that contains
/// opaque content.
///
/// The opaque region is an optimization hint for the compositor
/// that lets it optimize the redrawing of content behind opaque
/// regions.  Setting an opaque region is not required for correct
/// behaviour, but marking transparent content as opaque will result
/// in repaint artifacts.
///
/// The opaque region is specified in surface-local coordinates.
///
/// The compositor ignores the parts of the opaque region that fall
/// outside of the surface.
///
/// Opaque region is double-buffered state, see wl_surface.commit.
///
/// wl_surface.set_opaque_region changes the pending opaque region.
/// wl_surface.commit copies the pending region to the current region.
/// Otherwise, the pending and current regions are never changed.
///
/// The initial value for an opaque region is empty. Setting the pending
/// opaque region has copy semantics, and the wl_region object can be
/// destroyed immediately. A NULL wl_region causes the pending opaque
/// region to be set to empty.
///
#[derive(Debug)]
pub struct set_opaque_region {
    // opaque region of the surface
    pub region: Option<object<crate::wl_region::Obj>>,
}

impl Ser for set_opaque_region {
    open spec fn ser_ok(&self) -> bool {
        &&& self.region.ser_ok()
        &&& self.ser_bytes().len() <= usize::MAX
    }

    open spec fn ser_bytes(&self) -> Seq<u8> {
        self.region.ser_bytes()
    }

    open spec fn ser_fds(&self) -> Seq<Fd> {
        self.region.ser_fds()
    }

    fn wire_len(&self) -> (n: usize) {
        self.region.wire_len()
    }

    fn checked_len(&self) -> (r: Option<usize>) {
        let n0 = match self.region.checked_len() {
            Some(m) => m,
            None => return None,
        };
        Some(n0)
    }

    open spec fn ser_fits(&self, cap: int) -> bool {
        &&& 0 <= cap && self.region.ser_fits(cap - (0))
    }

    fn serialize(self, buf: &mut [u8], fds: &mut Vec<Fd>) -> (r: Result<usize, &'static str>) {
        let ghost me = self;
        let ghost b0 = buf@;
        let mut n: usize = 0;
        n = n + ser_at(self.region, buf, n, fds);
        assert(fds@ =~= old(fds)@ + me.ser_fds());
        Ok(n)
    }

    proof fn lemma_fits(&self, cap: int) {
        self.region.lemma_fits(cap - (0));
    }
}

impl DeepView for set_opaque_region {
    type V = (<Option<object<crate::wl_region::Obj>> as DeepView>::V,);

    open spec fn deep_view(&self) -> (<Option<object<crate::wl_region::Obj>> as DeepView>::V,) {
        (self.region.deep_view(),)
    }
}

impl Dsr for set_opaque_region {
    open spec fn dsr_spec(buf: Seq<u8>, fds: Seq<Fd>) -> Decoded<(<Option<object<crate::wl_region::Obj>> as DeepView>::V,)> {
        match <Option<object<crate::wl_region::Obj>>>::dsr_spec(buf, fds) {
            Decoded::Value(region, n0, q0) => Decoded::Value((region,), n0, q0),
            d => d.fail(),
        }
    }

    fn try_deserialize(buf: &[u8], fds: &mut Vec<Fd>) -> (r: Option<Result<(set_opaque_region, usize), &'static str>>) {
        let mut n: usize = 0;
        let rest = &buf[n..buf.len()];
        assert(rest@ =~= buf@.skip(n as int));
        assert(n == 0 ==> rest@ =~= buf@);
        let (region, m) = match <Option<object<crate::wl_region::Obj>>>::try_deserialize(rest, fds) {
            Some(Ok(p)) => p,
            Some(Err(e)) => return Some(Err(e)),
            None => return None,
        };
        n = n + m;
        Some(Ok((set_opaque_region { region }, n)))
    }
}

impl Codec for set_opaque_region {
    open spec fn rt_ok(&self) -> bool {
        &&& self.region.rt_ok()
    }

    proof fn lemma_roundtrip(&self, tail: Seq<u8>, base: Seq<Fd>) {
        let b0 = self.region.ser_bytes();
        let d0 = self.region.ser_fds();
        let s1 = tail;
        let s0 = b0 + s1;
        let buf = self.ser_bytes() + tail;
        assert(buf =~= s0);
        assert(buf.skip(0) =~= s0);
        assert(self.ser_fds() =~= Seq::<Fd>::empty());
        assert(base + self.ser_fds().reverse() =~= base);
        assert(d0 =~= Seq::<Fd>::empty());
        assert(base + d0.reverse() =~= base);
        self.region.lemma_roundtrip(s1, base);
    }
}

impl set_opaque_region {
    /// The arguments are read in the protocol's order, `region`: the bytes
    /// and descriptors written for such arguments, one after the other,
    /// decode to exactly those arguments.
    pub proof fn lemma_layout(region: Option<object<crate::wl_region::Obj>>, rest: Seq<u8>, queue: Seq<Fd>)
        requires
            region.ser_ok(),
            region.rt_ok(),
            region.ser_bytes().len() <= usize::MAX,
        ensures
            ({
                let bytes = region.ser_bytes();
                let fds = region.ser_fds();
                set_opaque_region::dsr_spec(bytes + rest, queue + fds.reverse()) == Decoded::Value(
                    (region.deep_view(),),
                    bytes.len(),
                    queue,
                )
            }),
    {
        let m = set_opaque_region { region };
        m.lemma_roundtrip(rest, queue);
    }

    /// The message creates no object.
    pub proof fn lemma_creates(&self)
        ensures
            self.created_id() is None,
    {
    }
}

impl Msg<Obj> for set_opaque_region {
    open spec fn opcode() -> u16 {
        4
    }

    open spec fn since_version() -> u32 {
        1
    }

    open spec fn created_id(&self) -> Option<u32> {
        None
    }

    open spec fn created_destructor(&self) -> Option<u16> {
        None
    }

    fn op() -> (r: u16) {
        4
    }

    fn since() -> u32 {
        1
    }

    fn new_id(&self) -> (r: Option<(u32, ObjMeta)>) {
        None
    }
}

impl Request<Obj> for set_opaque_region {

}

/// set input region
///
/// This request sets the region of the surface that can receive
/// pointer and touch events.
///
/// Input events happening outside of this region will try the next
/// surface in the server surface stack. The compositor ignores the
/// parts of the input region that fall outside of the surface.
///
/// The input region is specified in surface-local coordinates.
///
/// Input region is double-buffered state, see wl_surface.commit.
///
/// wl_surface.set_input_region changes the pending input region.
/// wl_surface.commit copies the pending region to the current region.
/// Otherwise the pending and current regions are never changed,
/// except cursor and icon surfaces are special cases, see
/// wl_pointer.set_cursor and wl_data_device.start_drag.
///
/// The initial value for an input region is infinite. That means the
/// whole surface will accept input. Setting the pending input region
/// has copy semantics, and the wl_region object can be destroyed
/// immediately. A NULL wl_region causes the input region to be set
/// to infinite.
///
#[derive(Debug)]
pub struct set_input_region {
    // input region of the surface
    pub region: Option<object<crate::wl_region::Obj>>,
}

impl Ser for set_input_region {
    open spec fn ser_ok(&self) -> bool {
        &&& self.region.ser_ok()
        &&& self.ser_bytes().len() <= usize::MAX
    }

    open spec fn ser_bytes(&self) -> Seq<u8> {
        self.region.ser_bytes()
    }

    open spec fn ser_fds(&self) -> Seq<Fd> {
        self.region.ser_fds()
    }

    fn wire_len(&self) -> (n: usize) {
        self.region.wire_len()
    }

    fn checked_len(&self) -> (r: Option<usize>) {
        let n0 = match self.region.checked_len() {
            Some(m) => m,
            None => return None,
        };
        Some(n0)
    }

    open spec fn ser_fits(&self, cap: int) -> bool {
        &&& 0 <= cap && self.region.ser_fits(cap - (0))
    }

    fn serialize(self, buf: &mut [u8], fds: &mut Vec<Fd>) -> (r: Result<usize, &'static str>) {
        let ghost me = self;
        let ghost b0 = buf@;
        let mut n: usize = 0;
        n = n + ser_at(self.region, buf, n, fds);
        assert(fds@ =~= old(fds)@ + me.ser_fds());
        Ok(n)
    }

    proof fn lemma_fits(&self, cap: int) {
        self.region.lemma_fits(cap - (0));
    }
}

impl DeepView for set_input_region {
    type V = (<Option<object<crate::wl_region::Obj>> as DeepView>::V,);

    open spec fn deep_view(&self) -> (<Option<object<crate::wl_region::Obj>> as DeepView>::V,) {
        (self.region.deep_view(),)
    }
}

impl Dsr for set_input_region {
    open spec fn dsr_spec(buf: Seq<u8>, fds: Seq<Fd>) -> Decoded<(<Option<object<crate::wl_region::Obj>> as DeepView>::V,)> {
        match <Option<object<crate::wl_region::Obj>>>::dsr_spec(buf, fds) {
            Decoded::Value(region, n0, q0) => Decoded::Value((region,), n0, q0),
            d => d.fail(),
        }
    }

    fn try_deserialize(buf: &[u8], fds: &mut Vec<Fd>) -> (r: Option<Result<(set_input_region, usize), &'static str>>) {
        let mut n: usize = 0;
        let rest = &buf[n..buf.len()];
        assert(rest@ =~= buf@.skip(n as int));
        assert(n == 0 ==> rest@ =~= buf@);
        let (region, m) = match <Option<object<crate::wl_region::Obj>>>::try_deserialize(rest, fds) {
            Some(Ok(p)) => p,
            Some(Err(e)) => return Some(Err(e)),
            None => return None,
        };
        n = n + m;
        Some(Ok((set_input_region { region }, n)))
    }
}

impl Codec for set_input_region {
    open spec fn rt_ok(&self) -> bool {
        &&& self.region.rt_ok()
    }

    proof fn lemma_roundtrip(&self, tail: Seq<u8>, base: Seq<Fd>) {
        let b0 = self.region.ser_bytes();
        let d0 = self.region.ser_fds();
        let s1 = tail;
        let s0 = b0 + s1;
        let buf = self.ser_bytes() + tail;
        assert(buf =~= s0);
        assert(buf.skip(0) =~= s0);
        assert(self.ser_fds() =~= Seq::<Fd>::empty());
        assert(base + self.ser_fds().reverse() =~= base);
        assert(d0 =~= Seq::<Fd>::empty());
        assert(base + d0.reverse() =~= base);
        self.region.lemma_roundtrip(s1, base);
    }
}

impl set_input_region {
    /// The arguments are read in the protocol's order, `region`: the bytes
    /// and descriptors written for such arguments, one after the other,
    /// decode to exactly those arguments.
    pub proof fn lemma_layout(region: Option<object<crate::wl_region::Obj>>, rest: Seq<u8>, queue: Seq<Fd>)
        requires
            region.ser_ok(),
            region.rt_ok(),
            region.ser_bytes().len() <= usize::MAX,
        ensures
            ({
                let bytes = region.ser_bytes();
                let fds = region.ser_fds();
                set_input_region::dsr_spec(bytes + rest, queue + fds.reverse()) == Decoded::Value(
                    (region.deep_view(),),
                    bytes.len(),
                    queue,
                )
            }),
    {
        let m = set_input_region { region };
        m.lemma_roundtrip(rest, queue);
    }

    /// The message creates no object.
    pub proof fn lemma_creates(&self)
        ensures
            self.created_id() is None,
    {
    }
}

impl Msg<Obj> for set_input_region {
    open spec fn opcode() -> u16 {
        5
    }

    open spec fn since_version() -> u32 {
        1
    }

    open spec fn created_id(&self) -> Option<u32> {
        None
    }

    open spec fn created_destructor(&self) -> Option<u16> {
        None
    }

    fn op() -> (r: u16) {
        5
    }

    fn since() -> u32 {
        1
    }

    fn new_id(&self) -> (r: Option<(u32, ObjMeta)>) {
        None
    }
}

impl Request<Obj> for set_input_region {

}

/// commit pending surface state
///
/// Surface state (input, opaque, and damage regions, attached buffers,
/// etc.) is double-buffered. Protocol requests modify the pending state,
/// as opposed to the current state in use by the compositor. A commit
/// request atomically applies all pending state, replacing the current
/// state. After commit, the new pending state is as documented for each
/// related request.
///
/// On commit, a pending wl_buffer is applied first, and all other state
/// second. This means that all coordinates in double-buffered state are
/// relative to the new wl_buffer coming into use, except for
/// wl_surface.attach itself. If there is no pending wl_buffer, the
/// coordinates are relative to the current surface contents.
///
/// All requests that need a commit to become effective are documented
/// to affect double-buffered state.
///
/// Other interfaces may add further double-buffered surface state.
///
#[derive(Debug)]
pub struct commit {}

impl Ser for commit {
    open spec fn ser_ok(&self) -> bool {
        true
    }

    open spec fn ser_bytes(&self) -> Seq<u8> {
        Seq::empty()
    }

    open spec fn ser_fds(&self) -> Seq<Fd> {
        Seq::empty()
    }

    fn wire_len(&self) -> (n: usize) {
        0
    }

    fn checked_len(&self) -> (r: Option<usize>) {
        Some(0)
    }

    open spec fn ser_fits(&self, cap: int) -> bool {
        true
    }

    fn serialize(self, buf: &mut [u8], fds: &mut Vec<Fd>) -> (r: Result<usize, &'static str>) {
        assert(buf@ =~= write_at(old(buf)@, 0, Seq::<u8>::empty()));
        assert(fds@ =~= old(fds)@ + Seq::<Fd>::empty());
        Ok(0)
    }

    proof fn lemma_fits(&self, cap: int) {
    }
}

impl DeepView for commit {
    type V = ();

    open spec fn deep_view(&self) -> () {
        ()
    }
}

impl Dsr for commit {
    open spec fn dsr_spec(buf: Seq<u8>, fds: Seq<Fd>) -> Decoded<()> {
        Decoded::Value((), 0, fds)
    }

    fn try_deserialize(buf: &[u8], fds: &mut Vec<Fd>) -> (r: Option<Result<(commit, usize), &'static str>>) {
        Some(Ok((commit {}, 0)))
    }
}

impl Codec for commit {
    open spec fn rt_ok(&self) -> bool {
        true
    }

    proof fn lemma_roundtrip(&self, tail: Seq<u8>, base: Seq<Fd>) {
        assert(Seq::<Fd>::empty().reverse() =~= Seq::<Fd>::empty());
        assert(base + Seq::<Fd>::empty() =~= base);
    }
}

impl commit {
    /// The arguments are read in the protocol's order, no arguments: the bytes
    /// and descriptors written for such arguments, one after the other,
    /// decode to exactly those arguments.
    pub proof fn lemma_layout(rest: Seq<u8>, queue: Seq<Fd>)
        ensures
            ({
                let bytes = Seq::<u8>::empty();
                let fds = Seq::<Fd>::empty();
                commit::dsr_spec(bytes + rest, queue + fds.reverse()) == Decoded::Value(
                    (),
                    bytes.len(),
                    queue,
                )
            }),
    {
        let m = commit {};
        m.lemma_roundtrip(rest, queue);
    }

    /// The message creates no object.
    pub proof fn lemma_creates(&self)
        ensures
            self.created_id() is None,
    {
    }
}

impl Msg<Obj> for commit {
    open spec fn opcode() -> u16 {
        6
    }

    open spec fn since_version() -> u32 {
        1
    }

    open spec fn created_id(&self) -> Option<u32> {
        None
    }

    open spec fn created_destructor(&self) -> Option<u16> {
        None
    }

    fn op() -> (r: u16) {
        6
    }

    fn since() -> u32 {
        1
    }

    fn new_id(&self) -> (r: Option<(u32, ObjMeta)>) {
        None
    }
}

impl Request<Obj> for commit {

}

/// sets the buffer transformation
///
/// This request sets an optional transformation on how the compositor
/// interprets the contents of the buffer attached to the surface. The
/// accepted values for the transform parameter are the values for
/// wl_output.transform.
///
/// Buffer transform is double-buffered state, see wl_surface.commit.
///
/// A newly created surface has its buffer transformation set to normal.
///
/// wl_surface.set_buffer_transform changes the pending buffer
/// transformation. wl_surface.commit copies the pending buffer
/// transformation to the current one. Otherwise, the pending and current
/// values are never changed.
///
/// The purpose of this request is to allow clients to render content
/// according to the output transform, thus permitting the compositor to
/// use certain optimizations even if the display is rotated. Using
/// hardware overlays and scanning out a client buffer for fullscreen
/// surfaces are examples of such optimizations. Those optimizations are
/// highly dependent on the compositor implementation, so the use of this
/// request should be considered on a case-by-case basis.
///
/// Note that if the transform value includes 90 or 270 degree rotation,
/// the width of the buffer will become the surface height and the height
/// of the buffer will become the surface width.
///
/// If transform is not one of the values from the
/// wl_output.transform enum the invalid_transform protocol error
/// is raised.
///
#[derive(Debug)]
pub struct set_buffer_transform {
    // transform for interpreting buffer contents
    pub transform: crate::wl_output::transform,
}

impl Ser for set_buffer_transform {
    open spec fn ser_ok(&self) -> bool {
        &&& self.transform.ser_ok()
        &&& self.ser_bytes().len() <= usize::MAX
    }

    open spec fn ser_bytes(&self) -> Seq<u8> {
        self.transform.ser_bytes()
    }

    open spec fn ser_fds(&self) -> Seq<Fd> {
        self.transform.ser_fds()
    }

    fn wire_len(&self) -> (n: usize) {
        self.transform.wire_len()
    }

    fn checked_len(&self) -> (r: Option<usize>) {
        let n0 = match self.transform.checked_len() {
            Some(m) => m,
            None => return None,
        };
        Some(n0)
    }

    open spec fn ser_fits(&self, cap: int) -> bool {
        &&& 0 <= cap && self.transform.ser_fits(cap - (0))
    }

    fn serialize(self, buf: &mut [u8], fds: &mut Vec<Fd>) -> (r: Result<usize, &'static str>) {
        let ghost me = self;
        let ghost b0 = buf@;
        let mut n: usize = 0;
        n = n + ser_at(self.transform, buf, n, fds);
        assert(fds@ =~= old(fds)@ + me.ser_fds());
        Ok(n)
    }

    proof fn lemma_fits(&self, cap: int) {
        self.transform.lemma_fits(cap - (0));
    }
}

impl DeepView for set_buffer_transform {
    type V = (<crate::wl_output::transform as DeepView>::V,);

    open spec fn deep_view(&self) -> (<crate::wl_output::transform as DeepView>::V,) {
        (self.transform.deep_view(),)
    }
}

impl Dsr for set_buffer_transform {
    open spec fn dsr_spec(buf: Seq<u8>, fds: Seq<Fd>) -> Decoded<(<crate::wl_output::transform as DeepView>::V,)> {
        match <crate::wl_output::transform>::dsr_spec(buf, fds) {
            Decoded::Value(transform, n0, q0) => Decoded::Value((transform,), n0, q0),
            d => d.fail(),
        }
    }

    fn try_deserialize(buf: &[u8], fds: &mut Vec<Fd>) -> (r: Option<Result<(set_buffer_transform, usize), &'static str>>) {
        let mut n: usize = 0;
        let rest = &buf[n..buf.len()];
        assert(rest@ =~= buf@.skip(n as int));
        assert(n == 0 ==> rest@ =~= buf@);
        let (transform, m) = match <crate::wl_output::transform>::try_deserialize(rest, fds) {
            Some(Ok(p)) => p,
            Some(Err(e)) => return Some(Err(e)),
            None => return None,
        };
        n = n + m;
        Some(Ok((set_buffer_transform { transform }, n)))
    }
}

impl Codec for set_buffer_transform {
    open spec fn rt_ok(&self) -> bool {
        &&& self.transform.rt_ok()
    }

    proof fn lemma_roundtrip(&self, tail: Seq<u8>, base: Seq<Fd>) {
        let b0 = self.transform.ser_bytes();
        let d0 = self.transform.ser_fds();
        let s1 = tail;
        let s0 = b0 + s1;
        let buf = self.ser_bytes() + tail;
        assert(buf =~= s0);
        assert(buf.skip(0) =~= s0);
        assert(self.ser_fds() =~= Seq::<Fd>::empty());
        assert(base + self.ser_fds().reverse() =~= base);
        assert(d0 =~= Seq::<Fd>::empty());
        assert(base + d0.reverse() =~= base);
        self.transform.lemma_roundtrip(s1, base);
    }
}

impl set_buffer_transform {
    /// The arguments are read in the protocol's order, `transform`: the bytes
    /// and descriptors written for such arguments, one after the other,
    /// decode to exactly those arguments.
    pub proof fn lemma_layout(transform: crate::wl_output::transform, rest: Seq<u8>, queue: Seq<Fd>)
        requires
            transform.ser_ok(),
            transform.rt_ok(),
            transform.ser_bytes().len() <= usize::MAX,
        ensures
            ({
                let bytes = transform.ser_bytes();
                let fds = transform.ser_fds();
                set_buffer_transform::dsr_spec(bytes + rest, queue + fds.reverse()) == Decoded::Value(
                    (transform.deep_view(),),
                    bytes.len(),
                    queue,
                )
            }),
    {
        let m = set_buffer_transform { transform };
        m.lemma_roundtrip(rest, queue);
    }

    /// The message creates no object.
    pub proof fn lemma_creates(&self)
        ensures
            self.created_id() is None,
    {
    }
}

impl Msg<Obj> for set_buffer_transform {
    open spec fn opcode() -> u16 {
        7
    }

    open spec fn since_version() -> u32 {
        1
    }

    open spec fn created_id(&self) -> Option<u32> {
        None
    }

    open spec fn created_destructor(&self) -> Option<u16> {
        None
    }

    fn op() -> (r: u16) {
        7
    }

    fn since() -> u32 {
        1
    }

    fn new_id(&self) -> (r: Option<(u32, ObjMeta)>) {
        None
    }
}

impl Request<Obj> for set_buffer_transform {

}

/// sets the buffer scaling factor
///
/// This request sets an optional scaling factor on how the compositor
/// interprets the contents of the buffer attached to the window.
///
/// Buffer scale is double-buffered state, see wl_surface.commit.
///
/// A newly created surface has its buffer scale set to 1.
///
/// wl_surface.set_buffer_scale changes the pending buffer scale.
/// wl_surface.commit copies the pending buffer scale to the current one.
/// Otherwise, the pending and current values are never changed.
///
/// The purpose of this request is to allow clients to supply higher
/// resolution buffer data for use on high resolution outputs. It is
/// intended that you pick the same buffer scale as the scale of the
/// output that the surface is displayed on. This means the compositor
/// can avoid scaling when rendering the surface on that output.
///
/// Note that if the scale is larger than 1, then you have to attach
/// a buffer that is larger (by a factor of scale in each dimension)
/// than the desired surface size.
///
/// If scale is not positive the invalid_scale protocol error is
/// raised.
///
#[derive(Debug)]
pub struct set_buffer_scale {
    // positive scale for interpreting buffer contents
    pub scale: i32,
}

impl Ser for set_buffer_scale {
    open spec fn ser_ok(&self) -> bool {
        &&& self.scale.ser_ok()
        &&& self.ser_bytes().len() <= usize::MAX
    }

    open spec fn ser_bytes(&self) -> Seq<u8> {
        self.scale.ser_bytes()
    }

    open spec fn ser_fds(&self) -> Seq<Fd> {
        self.scale.ser_fds()
    }

    fn wire_len(&self) -> (n: usize) {
        self.scale.wire_len()
    }

    fn checked_len(&self) -> (r: Option<usize>) {
        let n0 = match self.scale.checked_len() {
            Some(m) => m,
            None => return None,
        };
        Some(n0)
    }

    open spec fn ser_fits(&self, cap: int) -> bool {
        &&& 0 <= cap && self.scale.ser_fits(cap - (0))
    }

    fn serialize(self, buf: &mut [u8], fds: &mut Vec<Fd>) -> (r: Result<usize, &'static str>) {
        let ghost me = self;
        let ghost b0 = buf@;
        let mut n: usize = 0;
        n = n + ser_at(self.scale, buf, n, fds);
        assert(fds@ =~= old(fds)@ + me.ser_fds());
        Ok(n)
    }

    proof fn lemma_fits(&self, cap: int) {
        self.scale.lemma_fits(cap - (0));
    }
}

impl DeepView for set_buffer_scale {
    type V = (<i32 as DeepView>::V,);

    open spec fn deep_view(&self) -> (<i32 as DeepView>::V,) {
        (self.scale.deep_view(),)
    }
}

impl Dsr for set_buffer_scale {
    open spec fn dsr_spec(buf: Seq<u8>, fds: Seq<Fd>) -> Decoded<(<i32 as DeepView>::V,)> {
        match <i32>::dsr_spec(buf, fds) {
            Decoded::Value(scale, n0, q0) => Decoded::Value((scale,), n0, q0),
            d => d.fail(),
        }
    }

    fn try_deserialize(buf: &[u8], fds: &mut Vec<Fd>) -> (r: Option<Result<(set_buffer_scale, usize), &'static str>>) {
        let mut n: usize = 0;
        let rest = &buf[n..buf.len()];
        assert(rest@ =~= buf@.skip(n as int));
        assert(n == 0 ==> rest@ =~= buf@);
        let (scale, m) = match <i32>::try_deserialize(rest, fds) {
            Some(Ok(p)) => p,
            Some(Err(e)) => return Some(Err(e)),
            None => return None,
        };
        n = n + m;
        Some(Ok((set_buffer_scale { scale }, n)))
    }
}

impl Codec for set_buffer_scale {
    open spec fn rt_ok(&self) -> bool {
        &&& self.scale.rt_ok()
    }

    proof fn lemma_roundtrip(&self, tail: Seq<u8>, base: Seq<Fd>) {
        let b0 = self.scale.ser_bytes();
        let d0 = self.scale.ser_fds();
        let s1 = tail;
        let s0 = b0 + s1;
        let buf = self.ser_bytes() + tail;
        assert(buf =~= s0);
        assert(buf.skip(0) =~= s0);
        assert(self.ser_fds() =~= Seq::<Fd>::empty());
        assert(base + self.ser_fds().reverse() =~= base);
        assert(d0 =~= Seq::<Fd>::empty());
        assert(base + d0.reverse() =~= base);
        self.scale.lemma_roundtrip(s1, base);
    }
}

impl set_buffer_scale {
    /// The arguments are read in the protocol's order, `scale`: the bytes
    /// and descriptors written for such arguments, one after the other,
    /// decode to exactly those arguments.
    pub proof fn lemma_layout(scale: i32, rest: Seq<u8>, queue: Seq<Fd>)
        requires
            scale.ser_ok(),
            scale.rt_ok(),
            scale.ser_bytes().len() <= usize::MAX,
        ensures
            ({
                let bytes = scale.ser_bytes();
                let fds = scale.ser_fds();
                set_buffer_scale::dsr_spec(bytes + rest, queue + fds.reverse()) == Decoded::Value(
                    (scale.deep_view(),),
                    bytes.len(),
                    queue,
                )
            }),
    {
        let m = set_buffer_scale { scale };
        m.lemma_roundtrip(rest, queue);
    }

    /// The message creates no object.
    pub proof fn lemma_creates(&self)
        ensures
            self.created_id() is None,
    {
    }
}

impl Msg<Obj> for set_buffer_scale {
    open spec fn opcode() -> u16 {
        8
    }

    open spec fn since_version() -> u32 {
        1
    }

    open spec fn created_id(&self) -> Option<u32> {
        None
    }

    open spec fn created_destructor(&self) -> Option<u16> {
        None
    }

    fn op() -> (r: u16) {
        8
    }

    fn since() -> u32 {
        1
    }

    fn new_id(&self) -> (r: Option<(u32, ObjMeta)>) {
        None
    }
}

impl Request<Obj> for set_buffer_scale {

}

/// mark part of the surface damaged using buffer coordinates
///
/// This request is used to describe the regions where the pending
/// buffer is different from the current surface contents, and where
/// the surface therefore needs to be repainted. The compositor
/// ignores the parts of the damage that fall outside of the surface.
///
/// Damage is double-buffered state, see wl_surface.commit.
///
/// The damage rectangle is specified in buffer coordinates,
/// where x and y specify the upper left corner of the damage rectangle.
///
/// The initial value for pending damage is empty: no damage.
/// wl_surface.damage_buffer adds pending damage: the new pending
/// damage is the union of old pending damage and the given rectangle.
///
/// wl_surface.commit assigns pending damage as the current damage,
/// and clears pending damage. The server will clear the current
/// damage as it repaints the surface.
///
/// This request differs from wl_surface.damage in only one way - it
/// takes damage in buffer coordinates instead of surface-local
/// coordinates. While this generally is more intuitive than surface
/// coordinates, it is especially desirable when using wp_viewport
/// or when a drawing library (like EGL) is unaware of buffer scale
/// and buffer transform.
///
/// Note: Because buffer transformation changes and damage requests may
/// be interleaved in the protocol stream, it is impossible to determine
/// the actual mapping between surface and buffer damage until
/// wl_surface.commit time. Therefore, compositors wishing to take both
/// kinds of damage into account will have to accumulate damage from the
/// two requests separately and only transform from one to the other
/// after receiving the wl_surface.commit.
///
#[derive(Debug)]
pub struct damage_buffer {
    // buffer-local x coordinate
    pub x: i32,
    // buffer-local y coordinate
    pub y: i32,
    // width of damage rectangle
    pub width: i32,
    // height of damage rectangle
    pub height: i32,
}

impl Ser for damage_buffer {
    open spec fn ser_ok(&self) -> bool {
        &&& self.x.ser_ok()
        &&& self.y.ser_ok()
        &&& self.width.ser_ok()
        &&& self.height.ser_ok()
        &&& self.ser_bytes().len() <= usize::MAX
    }

    open spec fn ser_bytes(&self) -> Seq<u8> {
        self.x.ser_bytes() + self.y.ser_bytes() + self.width.ser_bytes() + self.height.ser_bytes()
    }

    open spec fn ser_fds(&self) -> Seq<Fd> {
        self.x.ser_fds() + self.y.ser_fds() + self.width.ser_fds() + self.height.ser_fds()
    }

    fn wire_len(&self) -> (n: usize) {
        self.x.wire_len() + self.y.wire_len() + self.width.wire_len() + self.height.wire_len()
    }

    fn checked_len(&self) -> (r: Option<usize>) {
        let n0 = match self.x.checked_len() {
            Some(m) => m,
            None => return None,
        };
        let n1 = match self.y.checked_len() {
            Some(m) => match n0.checked_add(m) {
                Some(t) => t,
                None => return None,
            },
            None => return None,
        };
        let n2 = match self.width.checked_len() {
            Some(m) => match n1.checked_add(m) {
                Some(t) => t,
                None => return None,
            },
            None => return None,
        };
        let n3 = match self.height.checked_len() {
            Some(m) => match n2.checked_add(m) {
                Some(t) => t,
                None => return None,
            },
            None => return None,
        };
        Some(n3)
    }

    open spec fn ser_fits(&self, cap: int) -> bool {
        &&& 0 <= cap && self.x.ser_fits(cap - (0))
        &&& self.x.ser_bytes().len() <= cap && self.y.ser_fits(cap - (self.x.ser_bytes().len()))
        &&& self.x.ser_bytes().len() + self.y.ser_bytes().len() <= cap && self.width.ser_fits(cap - (self.x.ser_bytes().len() + self.y.ser_bytes().len()))
        &&& self.x.ser_bytes().len() + self.y.ser_bytes().len() + self.width.ser_bytes().len() <= cap && self.height.ser_fits(cap - (self.x.ser_bytes().len() + self.y.ser_bytes().len() + self.width.ser_bytes().len()))
    }

    fn serialize(self, buf: &mut [u8], fds: &mut Vec<Fd>) -> (r: Result<usize, &'static str>) {
        let ghost me = self;
        let ghost b0 = buf@;
        let mut n: usize = 0;
        n = n + ser_at(self.x, buf, n, fds);
        assert(fds@ =~= old(fds)@ + me.x.ser_fds());
        n = n + ser_at(self.y, buf, n, fds);
        proof {
            lemma_write_then(b0, 0, me.x.ser_bytes(), me.y.ser_bytes());
        }
        assert(fds@ =~= old(fds)@ + me.x.ser_fds() + me.y.ser_fds());
        n = n + ser_at(self.width, buf, n, fds);
        proof {
            lemma_write_then(b0, 0, me.x.ser_bytes() + me.y.ser_bytes(), me.width.ser_bytes());
        }
        assert(fds@ =~= old(fds)@ + me.x.ser_fds() + me.y.ser_fds() + me.width.ser_fds());
        n = n + ser_at(self.height, buf, n, fds);
        proof {
            lemma_write_then(b0, 0, me.x.ser_bytes() + me.y.ser_bytes() + me.width.ser_bytes(), me.height.ser_bytes());
        }
        assert(fds@ =~= old(fds)@ + me.ser_fds());
        Ok(n)
    }

    proof fn lemma_fits(&self, cap: int) {
        self.x.lemma_fits(cap - (0));
        self.y.lemma_fits(cap - (self.x.ser_bytes().len()));
        self.width.lemma_fits(cap - (self.x.ser_bytes().len() + self.y.ser_bytes().len()));
        self.height.lemma_fits(cap - (self.x.ser_bytes().len() + self.y.ser_bytes().len() + self.width.ser_bytes().len()));
    }
}

impl DeepView for damage_buffer {
    type V = (<i32 as DeepView>::V, <i32 as DeepView>::V, <i32 as DeepView>::V, <i32 as DeepView>::V,);

    open spec fn deep_view(&self) -> (<i32 as DeepView>::V, <i32 as DeepView>::V, <i32 as DeepView>::V, <i32 as DeepView>::V,) {
        (self.x.deep_view(), self.y.deep_view(), self.width.deep_view(), self.height.deep_view(),)
    }
}

impl Dsr for damage_buffer {
    open spec fn dsr_spec(buf: Seq<u8>, fds: Seq<Fd>) -> Decoded<(<i32 as DeepView>::V, <i32 as DeepView>::V, <i32 as DeepView>::V, <i32 as DeepView>::V,)> {
        match <i32>::dsr_spec(buf, fds) {
            Decoded::Value(x, n0, q0) => {
                match <i32>::dsr_spec(buf.skip(n0 as int), q0) {
                    Decoded::Value(y, m1, q1) => {
                        let n1 = n0 + m1;
                        match <i32>::dsr_spec(buf.skip(n1 as int), q1) {
                            Decoded::Value(width, m2, q2) => {
                                let n2 = n1 + m2;
                                match <i32>::dsr_spec(buf.skip(n2 as int), q2) {
                                    Decoded::Value(height, m3, q3) => {
                                        let n3 = n2 + m3;
                                        Decoded::Value((x, y, width, height,), n3, q3)
                                    },
                                    d => d.fail(),
                                }
                            },
                            d => d.fail(),
                        }
                    },
                    d => d.fail(),
                }
            },
            d => d.fail(),
        }
    }

    fn try_deserialize(buf: &[u8], fds: &mut Vec<Fd>) -> (r: Option<Result<(damage_buffer, usize), &'static str>>) {
        let mut n: usize = 0;
        let rest = &buf[n..buf.len()];
        assert(rest@ =~= buf@.skip(n as int));
        assert(n == 0 ==> rest@ =~= buf@);
        let (x, m) = match <i32>::try_deserialize(rest, fds) {
            Some(Ok(p)) => p,
            Some(Err(e)) => return Some(Err(e)),
            None => return None,
        };
        n = n + m;
        let rest = &buf[n..buf.len()];
        assert(rest@ =~= buf@.skip(n as int));
        assert(n == 0 ==> rest@ =~= buf@);
        let (y, m) = match <i32>::try_deserialize(rest, fds) {
            Some(Ok(p)) => p,
            Some(Err(e)) => return Some(Err(e)),
            None => return None,
        };
        n = n + m;
        let rest = &buf[n..buf.len()];
        assert(rest@ =~= buf@.skip(n as int));
        assert(n == 0 ==> rest@ =~= buf@);
        let (width, m) = match <i32>::try_deserialize(rest, fds) {
            Some(Ok(p)) => p,
            Some(Err(e)) => return Some(Err(e)),
            None => return None,
        };
        n = n + m;
        let rest = &buf[n..buf.len()];
        assert(rest@ =~= buf@.skip(n as int));
        assert(n == 0 ==> rest@ =~= buf@);
        let (height, m) = match <i32>::try_deserialize(rest, fds) {
            Some(Ok(p)) => p,
            Some(Err(e)) => return Some(Err(e)),
            None => return None,
        };
        n = n + m;
        Some(Ok((damage_buffer { x, y, width, height }, n)))
    }
}

impl Codec for damage_buffer {
    open spec fn rt_ok(&self) -> bool {
        &&& self.x.rt_ok()
        &&& self.y.rt_ok()
        &&& self.width.rt_ok()
        &&& self.height.rt_ok()
    }

    proof fn lemma_roundtrip(&self, tail: Seq<u8>, base: Seq<Fd>) {
        let b0 = self.x.ser_bytes();
        let b1 = self.y.ser_bytes();
        let b2 = self.width.ser_bytes();
        let b3 = self.height.ser_bytes();
        let d0 = self.x.ser_fds();
        let d1 = self.y.ser_fds();
        let d2 = self.width.ser_fds();
        let d3 = self.height.ser_fds();
        let s4 = tail;
        let s3 = b3 + s4;
        let s2 = b2 + s3;
        let s1 = b1 + s2;
        let s0 = b0 + s1;
        let buf = self.ser_bytes() + tail;
        assert(buf =~= s0);
        assert(buf.skip(0) =~= s0);
        assert(self.ser_fds() =~= Seq::<Fd>::empty());
        assert(base + self.ser_fds().reverse() =~= base);
        assert(d0 =~= Seq::<Fd>::empty());
        assert(base + d0.reverse() =~= base);
        self.x.lemma_roundtrip(s1, base);
        assert(buf.skip((b0.len()) as int) == s1) by {
            lemma_skip_step(buf, (0) as int, b0, s1);
        }
        assert(d1 =~= Seq::<Fd>::empty());
        assert(base + d1.reverse() =~= base);
        self.y.lemma_roundtrip(s2, base);
        assert(buf.skip((b0.len() + b1.len()) as int) == s2) by {
            lemma_skip_step(buf, (b0.len()) as int, b1, s2);
        }
        assert(d2 =~= Seq::<Fd>::empty());
        assert(base + d2.reverse() =~= base);
        self.width.lemma_roundtrip(s3, base);
        assert(buf.skip((b0.len() + b1.len() + b2.len()) as int) == s3) by {
            lemma_skip_step(buf, (b0.len() + b1.len()) as int, b2, s3);
        }
        assert(d3 =~= Seq::<Fd>::empty());
        assert(base + d3.reverse() =~= base);
        self.height.lemma_roundtrip(s4, base);
    }
}

impl damage_buffer {
    /// The arguments are read in the protocol's order, `x`, then `y`, then `width`, then `height`: the bytes
    /// and descriptors written for such arguments, one after the other,
    /// decode to exactly those arguments.
    pub proof fn lemma_layout(x: i32, y: i32, width: i32, height: i32, rest: Seq<u8>, queue: Seq<Fd>)
        requires
            x.ser_ok(),
            x.rt_ok(),
            y.ser_ok(),
            y.rt_ok(),
            width.ser_ok(),
            width.rt_ok(),
            height.ser_ok(),
            height.rt_ok(),
            x.ser_bytes().len() + y.ser_bytes().len() + width.ser_bytes().len() + height.ser_bytes().len() <= usize::MAX,
        ensures
            ({
                let bytes = x.ser_bytes() + y.ser_bytes() + width.ser_bytes() + height.ser_bytes();
                let fds = x.ser_fds() + y.ser_fds() + width.ser_fds() + height.ser_fds();
                damage_buffer::dsr_spec(bytes + rest, queue + fds.reverse()) == Decoded::Value(
                    (x.deep_view(), y.deep_view(), width.deep_view(), height.deep_view(),),
                    bytes.len(),
                    queue,
                )
            }),
    {
        let m = damage_buffer { x, y, width, height };
        m.lemma_roundtrip(rest, queue);
    }

    /// The message creates no object.
    pub proof fn lemma_creates(&self)
        ensures
            self.created_id() is None,
    {
    }
}

impl Msg<Obj> for damage_buffer {
    open spec fn opcode() -> u16 {
        9
    }

    open spec fn since_version() -> u32 {
        1
    }

    open spec fn created_id(&self) -> Option<u32> {
        None
    }

    open spec fn created_destructor(&self) -> Option<u16> {
        None
    }

    fn op() -> (r: u16) {
        9
    }

    fn since() -> u32 {
        1
    }

    fn new_id(&self) -> (r: Option<(u32, ObjMeta)>) {
        None
    }
}

impl Request<Obj> for damage_buffer {

}

/// set the surface contents offset
///
/// The x and y arguments specify the location of the new pending
/// buffer's upper left corner, relative to the current buffer's upper
/// left corner, in surface-local coordinates. In other words, the
/// x and y, combined with the new surface size define in which
/// directions the surface's size changes.
///
/// Surface location offset is double-buffered state, see
/// wl_surface.commit.
///
/// This request is semantically equivalent to and the replaces the x and y
/// arguments in the wl_surface.attach request in wl_surface versions prior
/// to 5. See wl_surface.attach for details.
///
#[derive(Debug)]
pub struct offset {
    // surface-local x coordinate
    pub x: i32,
    // surface-local y coordinate
    pub y: i32,
}

impl Ser for offset {
    open spec fn ser_ok(&self) -> bool {
        &&& self.x.ser_ok()
        &&& self.y.ser_ok()
        &&& self.ser_bytes().len() <= usize::MAX
    }

    open spec fn ser_bytes(&self) -> Seq<u8> {
        self.x.ser_bytes() + self.y.ser_bytes()
    }

    open spec fn ser_fds(&self) -> Seq<Fd> {
        self.x.ser_fds() + self.y.ser_fds()
    }

    fn wire_len(&self) -> (n: usize) {
        self.x.wire_len() + self.y.wire_len()
    }

    fn checked_len(&self) -> (r: Option<usize>) {
        let n0 = match self.x.checked_len() {
            Some(m) => m,
            None => return None,
        };
        let n1 = match self.y.checked_len() {
            Some(m) => match n0.checked_add(m) {
                Some(t) => t,
                None => return None,
            },
            None => return None,
        };
        Some(n1)
    }

    open spec fn ser_fits(&self, cap: int) -> bool {
        &&& 0 <= cap && self.x.ser_fits(cap - (0))
        &&& self.x.ser_bytes().len() <= cap && self.y.ser_fits(cap - (self.x.ser_bytes().len()))
    }

    fn serialize(self, buf: &mut [u8], fds: &mut Vec<Fd>) -> (r: Result<usize, &'static str>) {
        let ghost me = self;
        let ghost b0 = buf@;
        let mut n: usize = 0;
        n = n + ser_at(self.x, buf, n, fds);
        assert(fds@ =~= old(fds)@ + me.x.ser_fds());
        n = n + ser_at(self.y, buf, n, fds);
        proof {
            lemma_write_then(b0, 0, me.x.ser_bytes(), me.y.ser_bytes());
        }
        assert(fds@ =~= old(fds)@ + me.ser_fds());
        Ok(n)
    }

    proof fn lemma_fits(&self, cap: int) {
        self.x.lemma_fits(cap - (0));
        self.y.lemma_fits(cap - (self.x.ser_bytes().len()));
    }
}

impl DeepView for offset {
    type V = (<i32 as DeepView>::V, <i32 as DeepView>::V,);

    open spec fn deep_view(&self) -> (<i32 as DeepView>::V, <i32 as DeepView>::V,) {
        (self.x.deep_view(), self.y.deep_view(),)
    }
}

impl Dsr for offset {
    open spec fn dsr_spec(buf: Seq<u8>, fds: Seq<Fd>) -> Decoded<(<i32 as DeepView>::V, <i32 as DeepView>::V,)> {
        match <i32>::dsr_spec(buf, fds) {
            Decoded::Value(x, n0, q0) => {
                match <i32>::dsr_spec(buf.skip(n0 as int), q0) {
                    Decoded::Value(y, m1, q1) => {
                        let n1 = n0 + m1;
                        Decoded::Value((x, y,), n1, q1)
                    },
                    d => d.fail(),
                }
            },
            d => d.fail(),
        }
    }

    fn try_deserialize(buf: &[u8], fds: &mut Vec<Fd>) -> (r: Option<Result<(offset, usize), &'static str>>) {
        let mut n: usize = 0;
        let rest = &buf[n..buf.len()];
        assert(rest@ =~= buf@.skip(n as int));
        assert(n == 0 ==> rest@ =~= buf@);
        let (x, m) = match <i32>::try_deserialize(rest, fds) {
            Some(Ok(p)) => p,
            Some(Err(e)) => return Some(Err(e)),
            None => return None,
        };
        n = n + m;
        let rest = &buf[n..buf.len()];
        assert(rest@ =~= buf@.skip(n as int));
        assert(n == 0 ==> rest@ =~= buf@);
        let (y, m) = match <i32>::try_deserialize(rest, fds) {
            Some(Ok(p)) => p,
            Some(Err(e)) => return Some(Err(e)),
            None => return None,
        };
        n = n + m;
        Some(Ok((offset { x, y }, n)))
    }
}

impl Codec for offset {
    open spec fn rt_ok(&self) -> bool {
        &&& self.x.rt_ok()
        &&& self.y.rt_ok()
    }

    proof fn lemma_roundtrip(&self, tail: Seq<u8>, base: Seq<Fd>) {
        let b0 = self.x.ser_bytes();
        let b1 = self.y.ser_bytes();
        let d0 = self.x.ser_fds();
        let d1 = self.y.ser_fds();
        let s2 = tail;
        let s1 = b1 + s2;
        let s0 = b0 + s1;
        let buf = self.ser_bytes() + tail;
        assert(buf =~= s0);
        assert(buf.skip(0) =~= s0);
        assert(self.ser_fds() =~= Seq::<Fd>::empty());
        assert(base + self.ser_fds().reverse() =~= base);
        assert(d0 =~= Seq::<Fd>::empty());
        assert(base + d0.reverse() =~= base);
        self.x.lemma_roundtrip(s1, base);
        assert(buf.skip((b0.len()) as int) == s1) by {
            lemma_skip_step(buf, (0) as int, b0, s1);
        }
        assert(d1 =~= Seq::<Fd>::empty());
        assert(base + d1.reverse() =~= base);
        self.y.lemma_roundtrip(s2, base);
    }
}

impl offset {
    /// The arguments are read in the protocol's order, `x`, then `y`: the bytes
    /// and descriptors written for such arguments, one after the other,
    /// decode to exactly those arguments.
    pub proof fn lemma_layout(x: i32, y: i32, rest: Seq<u8>, queue: Seq<Fd>)
        requires
            x.ser_ok(),
            x.rt_ok(),
            y.ser_ok(),
            y.rt_ok(),
            x.ser_bytes().len() + y.ser_bytes().len() <= usize::MAX,
        ensures
            ({
                let bytes = x.ser_bytes() + y.ser_bytes();
                let fds = x.ser_fds() + y.ser_fds();
                offset::dsr_spec(bytes + rest, queue + fds.reverse()) == Decoded::Value(
                    (x.deep_view(), y.deep_view(),),
                    bytes.len(),
                    queue,
                )
            }),
    {
        let m = offset { x, y };
        m.lemma_roundtrip(rest, queue);
    }

    /// The message creates no object.
    pub proof fn lemma_creates(&self)
        ensures
            self.created_id() is None,
    {
    }
}

impl Msg<Obj> for offset {
    open spec fn opcode() -> u16 {
        10
    }

    open spec fn since_version() -> u32 {
        1
    }

    open spec fn created_id(&self) -> Option<u32> {
        None
    }

    open spec fn created_destructor(&self) -> Option<u16> {
        None
    }

    fn op() -> (r: u16) {
        10
    }

    fn since() -> u32 {
        1
    }

    fn new_id(&self) -> (r: Option<(u32, ObjMeta)>) {
        None
    }
}

impl Request<Obj> for offset {

}

/// The opcode of each request: its index in the protocol's list of the
/// interface's requests, so that no two requests share one.
pub proof fn lemma_opcodes()
    ensures
        <destroy as Msg<Obj>>::opcode() == 0,
        <attach as Msg<Obj>>::opcode() == 1,
        <damage as Msg<Obj>>::opcode() == 2,
        <frame as Msg<Obj>>::opcode() == 3,
        <set_opaque_region as Msg<Obj>>::opcode() == 4,
        <set_input_region as Msg<Obj>>::opcode() == 5,
        <commit as Msg<Obj>>::opcode() == 6,
        <set_buffer_transform as Msg<Obj>>::opcode() == 7,
        <set_buffer_scale as Msg<Obj>>::opcode() == 8,
        <damage_buffer as Msg<Obj>>::opcode() == 9,
        <offset as Msg<Obj>>::opcode() == 10,
        <destroy as Msg<Obj>>::opcode() != <attach as Msg<Obj>>::opcode(),
        <destroy as Msg<Obj>>::opcode() != <damage as Msg<Obj>>::opcode(),
        <destroy as Msg<Obj>>::opcode() != <frame as Msg<Obj>>::opcode(),
        <destroy as Msg<Obj>>::opcode() != <set_opaque_region as Msg<Obj>>::opcode(),
        <destroy as Msg<Obj>>::opcode() != <set_input_region as Msg<Obj>>::opcode(),
        <destroy as Msg<Obj>>::opcode() != <commit as Msg<Obj>>::opcode(),
        <destroy as Msg<Obj>>::opcode() != <set_buffer_transform as Msg<Obj>>::opcode(),
        <destroy as Msg<Obj>>::opcode() != <set_buffer_scale as Msg<Obj>>::opcode(),
        <destroy as Msg<Obj>>::opcode() != <damage_buffer as Msg<Obj>>::opcode(),
        <destroy as Msg<Obj>>::opcode() != <offset as Msg<Obj>>::opcode(),
        <attach as Msg<Obj>>::opcode() != <damage as Msg<Obj>>::opcode(),
        <attach as Msg<Obj>>::opcode() != <frame as Msg<Obj>>::opcode(),
        <attach as Msg<Obj>>::opcode() != <set_opaque_region as Msg<Obj>>::opcode(),
        <attach as Msg<Obj>>::opcode() != <set_input_region as Msg<Obj>>::opcode(),
        <attach as Msg<Obj>>::opcode() != <commit as Msg<Obj>>::opcode(),
        <attach as Msg<Obj>>::opcode() != <set_buffer_transform as Msg<Obj>>::opcode(),
        <attach as Msg<Obj>>::opcode() != <set_buffer_scale as Msg<Obj>>::opcode(),
        <attach as Msg<Obj>>::opcode() != <damage_buffer as Msg<Obj>>::opcode(),
        <attach as Msg<Obj>>::opcode() != <offset as Msg<Obj>>::opcode(),
        <damage as Msg<Obj>>::opcode() != <frame as Msg<Obj>>::opcode(),
        <damage as Msg<Obj>>::opcode() != <set_opaque_region as Msg<Obj>>::opcode(),
        <damage as Msg<Obj>>::opcode() != <set_input_region as Msg<Obj>>::opcode(),
        <damage as Msg<Obj>>::opcode() != <commit as Msg<Obj>>::opcode(),
        <damage as Msg<Obj>>::opcode() != <set_buffer_transform as Msg<Obj>>::opcode(),
        <damage as Msg<Obj>>::opcode() != <set_buffer_scale as Msg<Obj>>::opcode(),
        <damage as Msg<Obj>>::opcode() != <damage_buffer as Msg<Obj>>::opcode(),
        <damage as Msg<Obj>>::opcode() != <offset as Msg<Obj>>::opcode(),
        <frame as Msg<Obj>>::opcode() != <set_opaque_region as Msg<Obj>>::opcode(),
        <frame as Msg<Obj>>::opcode() != <set_input_region as Msg<Obj>>::opcode(),
        <frame as Msg<Obj>>::opcode() != <commit as Msg<Obj>>::opcode(),
        <frame as Msg<Obj>>::opcode() != <set_buffer_transform as Msg<Obj>>::opcode(),
        <frame as Msg<Obj>>::opcode() != <set_buffer_scale as Msg<Obj>>::opcode(),
        <frame as Msg<Obj>>::opcode() != <damage_buffer as Msg<Obj>>::opcode(),
        <frame as Msg<Obj>>::opcode() != <offset as Msg<Obj>>::opcode(),
        <set_opaque_region as Msg<Obj>>::opcode() != <set_input_region as Msg<Obj>>::opcode(),
        <set_opaque_region as Msg<Obj>>::opcode() != <commit as Msg<Obj>>::opcode(),
        <set_opaque_region as Msg<Obj>>::opcode() != <set_buffer_transform as Msg<Obj>>::opcode(),
        <set_opaque_region as Msg<Obj>>::opcode() != <set_buffer_scale as Msg<Obj>>::opcode(),
        <set_opaque_region as Msg<Obj>>::opcode() != <damage_buffer as Msg<Obj>>::opcode(),
        <set_opaque_region as Msg<Obj>>::opcode() != <offset as Msg<Obj>>::opcode(),
        <set_input_region as Msg<Obj>>::opcode() != <commit as Msg<Obj>>::opcode(),
        <set_input_region as Msg<Obj>>::opcode() != <set_buffer_transform as Msg<Obj>>::opcode(),
        <set_input_region as Msg<Obj>>::opcode() != <set_buffer_scale as Msg<Obj>>::opcode(),
        <set_input_region as Msg<Obj>>::opcode() != <damage_buffer as Msg<Obj>>::opcode(),
        <set_input_region as Msg<Obj>>::opcode() != <offset as Msg<Obj>>::opcode(),
        <commit as Msg<Obj>>::opcode() != <set_buffer_transform as Msg<Obj>>::opcode(),
        <commit as Msg<Obj>>::opcode() != <set_buffer_scale as Msg<Obj>>::opcode(),
        <commit as Msg<Obj>>::opcode() != <damage_buffer as Msg<Obj>>::opcode(),
        <commit as Msg<Obj>>::opcode() != <offset as Msg<Obj>>::opcode(),
        <set_buffer_transform as Msg<Obj>>::opcode() != <set_buffer_scale as Msg<Obj>>::opcode(),
        <set_buffer_transform as Msg<Obj>>::opcode() != <damage_buffer as Msg<Obj>>::opcode(),
        <set_buffer_transform as Msg<Obj>>::opcode() != <offset as Msg<Obj>>::opcode(),
        <set_buffer_scale as Msg<Obj>>::opcode() != <damage_buffer as Msg<Obj>>::opcode(),
        <set_buffer_scale as Msg<Obj>>::opcode() != <offset as Msg<Obj>>::opcode(),
        <damage_buffer as Msg<Obj>>::opcode() != <offset as Msg<Obj>>::opcode(),
        <Obj as Object>::destructor_op() == Some(<destroy as Msg<Obj>>::opcode()),
{
}

} // verus!
