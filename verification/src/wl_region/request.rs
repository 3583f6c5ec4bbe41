use vstd::prelude::*;
use crate::objects::{type_id_of, new_id, object, Dyn, ObjMeta, Object, Msg, Request};
use crate::wire::{ser_at, write_at, lemma_write_then, lemma_reverse_add, lemma_skip_step, fixed, Codec, Decoded, Dsr, Fd, Ser};
use super::Obj;

verus! {

/// destroy region
///
/// Destroy the region.  This will invalidate the object ID.
///
#[derive(Debug)]
pub struct destroy {}

impl Ser for destroy {
    open spec fn ser_ok(&self) -> bool {
        true
    }

    open spec fn ser_bytes(&self) -> Seq<u8> {
        Seq::empty()
    }

    open spec fn ser_fds(&self) -> Seq<Fd> {
        Seq::empty()
    }

    fn wire_len(&self) -> (n: usize) {
        0
    }

    fn checked_len(&self) -> (r: Option<usize>) {
        Some(0)
    }

    open spec fn ser_fits(&self, cap: int) -> bool {
        true
    }

    fn serialize(self, buf: &mut [u8], fds: &mut Vec<Fd>) -> (r: Result<usize, &'static str>) {
        assert(buf@ =~= write_at(old(buf)@, 0, Seq::<u8>::empty()));
        assert(fds@ =~= old(fds)@ + Seq::<Fd>::empty());
        Ok(0)
    }

    proof fn lemma_fits(&self, cap: int) {
    }
}

impl DeepView for destroy {
    type V = ();

    open spec fn deep_view(&self) -> () {
        ()
    }
}

impl Dsr for destroy {
    open spec fn dsr_spec(buf: Seq<u8>, fds: Seq<Fd>) -> Decoded<()> {
        Decoded::Value((), 0, fds)
    }

    fn try_deserialize(buf: &[u8], fds: &mut Vec<Fd>) -> (r: Option<Result<(destroy, usize), &'static str>>) {
        Some(Ok((destroy {}, 0)))
    }
}

impl Codec for destroy {
    open spec fn rt_ok(&self) -> bool {
        true
    }

    proof fn lemma_roundtrip(&self, tail: Seq<u8>, base: Seq<Fd>) {
        assert(Seq::<Fd>::empty().reverse() =~= Seq::<Fd>::empty());
        assert(base + Seq::<Fd>::empty() =~= base);
    }
}

impl destroy {
    /// The arguments are read in the protocol's order, no arguments: the bytes
    /// and descriptors written for such arguments, one after the other,
    /// decode to exactly those arguments.
    pub proof fn lemma_layout(rest: Seq<u8>, queue: Seq<Fd>)
        ensures
            ({
                let bytes = Seq::<u8>::empty();
                let fds = Seq::<Fd>::empty();
                destroy::dsr_spec(bytes + rest, queue + fds.reverse()) == Decoded::Value(
                    (),
                    bytes.len(),
                    queue,
                )
            }),
    {
        let m = destroy {};
        m.lemma_roundtrip(rest, queue);
    }

    /// The message creates no object.
    pub proof fn lemma_creates(&self)
        ensures
            self.created_id() is None,
    {
    }
}

impl Msg<Obj> for destroy {
    open spec fn opcode() -> u16 {
        0
    }

    open spec fn since_version() -> u32 {
        1
    }

    open spec fn created_id(&self) -> Option<u32> {
        None
    }

    open spec fn created_destructor(&self) -> Option<u16> {
        None
    }

    fn op() -> (r: u16) {
        0
    }

    fn since() -> u32 {
        1
    }

    fn new_id(&self) -> (r: Option<(u32, ObjMeta)>) {
        None
    }
}

impl Request<Obj> for destroy {

}

/// add rectangle to region
///
/// Add the specified rectangle to the region.
///
#[derive(Debug)]
pub struct add {
    // region-local x coordinate
    pub x: i32,
    // region-local y coordinate
    pub y: i32,
    // rectangle width
    pub width: i32,
    // rectangle height
    pub height: i32,
}

impl Ser for add {
    open spec fn ser_ok(&self) -> bool {
        &&& self.x.ser_ok()
        &&& self.y.ser_ok()
        &&& self.width.ser_ok()
        &&& self.height.ser_ok()
        &&& self.ser_bytes().len() <= usize::MAX
    }

    open spec fn ser_bytes(&self) -> Seq<u8> {
        self.x.ser_bytes() + self.y.ser_bytes() + self.width.ser_bytes() + self.height.ser_bytes()
    }

    open spec fn ser_fds(&self) -> Seq<Fd> {
        self.x.ser_fds() + self.y.ser_fds() + self.width.ser_fds() + self.height.ser_fds()
    }

    fn wire_len(&self) -> (n: usize) {
        self.x.wire_len() + self.y.wire_len() + self.width.wire_len() + self.height.wire_len()
    }

    fn checked_len(&self) -> (r: Option<usize>) {
        let n0 = match self.x.checked_len() {
            Some(m) => m,
            None => return None,
        };
        let n1 = match self.y.checked_len() {
            Some(m) => match n0.checked_add(m) {
                Some(t) => t,
                None => return None,
            },
            None => return None,
        };
        let n2 = match self.width.checked_len() {
            Some(m) => match n1.checked_add(m) {
                Some(t) => t,
                None => return None,
            },
            None => return None,
        };
        let n3 = match self.height.checked_len() {
            Some(m) => match n2.checked_add(m) {
                Some(t) => t,
                None => return None,
            },
            None => return None,
        };
        Some(n3)
    }

    open spec fn ser_fits(&self, cap: int) -> bool {
        &&& 0 <= cap && self.x.ser_fits(cap - (0))
        &&& self.x.ser_bytes().len() <= cap && self.y.ser_fits(cap - (self.x.ser_bytes().len()))
        &&& self.x.ser_bytes().len() + self.y.ser_bytes().len() <= cap && self.width.ser_fits(cap - (self.x.ser_bytes().len() + self.y.ser_bytes().len()))
        &&& self.x.ser_bytes().len() + self.y.ser_bytes().len() + self.width.ser_bytes().len() <= cap && self.height.ser_fits(cap - (self.x.ser_bytes().len() + self.y.ser_bytes().len() + self.width.ser_bytes().len()))
    }

    fn serialize(self, buf: &mut [u8], fds: &mut Vec<Fd>) -> (r: Result<usize, &'static str>) {
        let ghost me = self;
        let ghost b0 = buf@;
        let mut n: usize = 0;
        n = n + ser_at(self.x, buf, n, fds);
        assert(fds@ =~= old(fds)@ + me.x.ser_fds());
        n = n + ser_at(self.y, buf, n, fds);
        proof {
            lemma_write_then(b0, 0, me.x.ser_bytes(), me.y.ser_bytes());
        }
        assert(fds@ =~= old(fds)@ + me.x.ser_fds() + me.y.ser_fds());
        n = n + ser_at(self.width, buf, n, fds);
        proof {
            lemma_write_then(b0, 0, me.x.ser_bytes() + me.y.ser_bytes(), me.width.ser_bytes());
        }
        assert(fds@ =~= old(fds)@ + me.x.ser_fds() + me.y.ser_fds() + me.width.ser_fds());
        n = n + ser_at(self.height, buf, n, fds);
        proof {
            lemma_write_then(b0, 0, me.x.ser_bytes() + me.y.ser_bytes() + me.width.ser_bytes(), me.height.ser_bytes());
        }
        assert(fds@ =~= old(fds)@ + me.ser_fds());
        Ok(n)
    }

    proof fn lemma_fits(&self, cap: int) {
        self.x.lemma_fits(cap - (0));
        self.y.lemma_fits(cap - (self.x.ser_bytes().len()));
        self.width.lemma_fits(cap - (self.x.ser_bytes().len() + self.y.ser_bytes().len()));
        self.height.lemma_fits(cap - (self.x.ser_bytes().len() + self.y.ser_bytes().len() + self.width.ser_bytes().len()));
    }
}

impl DeepView for add {
    type V = (<i32 as DeepView>::V, <i32 as DeepView>::V, <i32 as DeepView>::V, <i32 as DeepView>::V,);

    open spec fn deep_view(&self) -> (<i32 as DeepView>::V, <i32 as DeepView>::V, <i32 as DeepView>::V, <i32 as DeepView>::V,) {
        (self.x.deep_view(), self.y.deep_view(), self.width.deep_view(), self.height.deep_view(),)
    }
}

impl Dsr for add {
    open spec fn dsr_spec(buf: Seq<u8>, fds: Seq<Fd>) -> Decoded<(<i32 as DeepView>::V, <i32 as DeepView>::V, <i32 as DeepView>::V, <i32 as DeepView>::V,)> {
        match <i32>::dsr_spec(buf, fds) {
            Decoded::Value(x, n0, q0) => {
                match <i32>::dsr_spec(buf.skip(n0 as int), q0) {
                    Decoded::Value(y, m1, q1) => {
                        let n1 = n0 + m1;
                        match <i32>::dsr_spec(buf.skip(n1 as int), q1) {
                            Decoded::Value(width, m2, q2) => {
                                let n2 = n1 + m2;
                                match <i32>::dsr_spec(buf.skip(n2 as int), q2) {
                                    Decoded::Value(height, m3, q3) => {
                                        let n3 = n2 + m3;
                                        Decoded::Value((x, y, width, height,), n3, q3)
                                    },
                                    d => d.fail(),
                                }
                            },
                            d => d.fail(),
                        }
                    },
                    d => d.fail(),
                }
            },
            d => d.fail(),
        }
    }

    fn try_deserialize(buf: &[u8], fds: &mut Vec<Fd>) -> (r: Option<Result<(add, usize), &'static str>>) {
        let mut n: usize = 0;
        let rest = &buf[n..buf.len()];
        assert(rest@ =~= buf@.skip(n as int));
        assert(n == 0 ==> rest@ =~= buf@);
        let (x, m) = match <i32>::try_deserialize(rest, fds) {
            Some(Ok(p)) => p,
            Some(Err(e)) => return Some(Err(e)),
            None => return None,
        };
        n = n + m;
        let rest = &buf[n..buf.len()];
        assert(rest@ =~= buf@.skip(n as int));
        assert(n == 0 ==> rest@ =~= buf@);
        let (y, m) = match <i32>::try_deserialize(rest, fds) {
            Some(Ok(p)) => p,
            Some(Err(e)) => return Some(Err(e)),
            None => return None,
        };
        n = n + m;
        let rest = &buf[n..buf.len()];
        assert(rest@ =~= buf@.skip(n as int));
        assert(n == 0 ==> rest@ =~= buf@);
        let (width, m) = match <i32>::try_deserialize(rest, fds) {
            Some(Ok(p)) => p,
            Some(Err(e)) => return Some(Err(e)),
            None => return None,
        };
        n = n + m;
        let rest = &buf[n..buf.len()];
        assert(rest@ =~= buf@.skip(n as int));
        assert(n == 0 ==> rest@ =~= buf@);
        let (height, m) = match <i32>::try_deserialize(rest, fds) {
            Some(Ok(p)) => p,
            Some(Err(e)) => return Some(Err(e)),
            None => return None,
        };
        n = n + m;
        Some(Ok((add { x, y, width, height }, n)))
    }
}

impl Codec for add {
    open spec fn rt_ok(&self) -> bool {
        &&& self.x.rt_ok()
        &&& self.y.rt_ok()
        &&& self.width.rt_ok()
        &&& self.height.rt_ok()
    }

    proof fn lemma_roundtrip(&self, tail: Seq<u8>, base: Seq<Fd>) {
        let b0 = self.x.ser_bytes();
        let b1 = self.y.ser_bytes();
        let b2 = self.width.ser_bytes();
        let b3 = self.height.ser_bytes();
        let d0 = self.x.ser_fds();
        let d1 = self.y.ser_fds();
        let d2 = self.width.ser_fds();
        let d3 = self.height.ser_fds();
        let s4 = tail;
        let s3 = b3 + s4;
        let s2 = b2 + s3;
        let s1 = b1 + s2;
        let s0 = b0 + s1;
        let buf = self.ser_bytes() + tail;
        assert(buf =~= s0);
        assert(buf.skip(0) =~= s0);
        assert(self.ser_fds() =~= Seq::<Fd>::empty());
        assert(base + self.ser_fds().reverse() =~= base);
        assert(d0 =~= Seq::<Fd>::empty());
        assert(base + d0.reverse() =~= base);
        self.x.lemma_roundtrip(s1, base);
        assert(buf.skip((b0.len()) as int) == s1) by {
            lemma_skip_step(buf, (0) as int, b0, s1);
        }
        assert(d1 =~= Seq::<Fd>::empty());
        assert(base + d1.reverse() =~= base);
        self.y.lemma_roundtrip(s2, base);
        assert(buf.skip((b0.len() + b1.len()) as int) == s2) by {
            lemma_skip_step(buf, (b0.len()) as int, b1, s2);
        }
        assert(d2 =~= Seq::<Fd>::empty());
        assert(base + d2.reverse() =~= base);
        self.width.lemma_roundtrip(s3, base);
        assert(buf.skip((b0.len() + b1.len() + b2.len()) as int) == s3) by {
            lemma_skip_step(buf, (b0.len() + b1.len()) as int, b2, s3);
        }
        assert(d3 =~= Seq::<Fd>::empty());
        assert(base + d3.reverse() =~= base);
        self.height.lemma_roundtrip(s4, base);
    }
}

impl add {
    /// The arguments are read in the protocol's order, `x`, then `y`, then `width`, then `height`: the bytes
    /// and descriptors written for such arguments, one after the other,
    /// decode to exactly those arguments.
    pub proof fn lemma_layout(x: i32, y: i32, width: i32, height: i32, rest: Seq<u8>, queue: Seq<Fd>)
        requires
            x.ser_ok(),
            x.rt_ok(),
            y.ser_ok(),
            y.rt_ok(),
            width.ser_ok(),
            width.rt_ok(),
            height.ser_ok(),
            height.rt_ok(),
            x.ser_bytes().len() + y.ser_bytes().len() + width.ser_bytes().len() + height.ser_bytes().len() <= usize::MAX,
        ensures
            ({
                let bytes = x.ser_bytes() + y.ser_bytes() + width.ser_bytes() + height.ser_bytes();
                let fds = x.ser_fds() + y.ser_fds() + width.ser_fds() + height.ser_fds();
                add::dsr_spec(bytes + rest, queue + fds.reverse()) == Decoded::Value(
                    (x.deep_view(), y.deep_view(), width.deep_view(), height.deep_view(),),
                    bytes.len(),
                    queue,
                )
            }),
    {
        let m = add { x, y, width, height };
        m.lemma_roundtrip(rest, queue);
    }

    /// The message creates no object.
    pub proof fn lemma_creates(&self)
        ensures
            self.created_id() is None,
    {
    }
}

impl Msg<Obj> for add {
    open spec fn opcode() -> u16 {
        1
    }

    open spec fn since_version() -> u32 {
        1
    }

    open spec fn created_id(&self) -> Option<u32> {
        None
    }

    open spec fn created_destructor(&self) -> Option<u16> {
        None
    }

    fn op() -> (r: u16) {
        1
    }

    fn since() -> u32 {
        1
    }

    fn new_id(&self) -> (r: Option<(u32, ObjMeta)>) {
        None
    }
}

impl Request<Obj> for add {

}

/// subtract rectangle from region
///
/// Subtract the specified rectangle from the region.
///
#[derive(Debug)]
pub struct subtract {
    // region-local x coordinate
    pub x: i32,
    // region-local y coordinate
    pub y: i32,
    // rectangle width
    pub width: i32,
    // rectangle height
    pub height: i32,
}

impl Ser for subtract {
    open spec fn ser_ok(&self) -> bool {
        &&& self.x.ser_ok()
        &&& self.y.ser_ok()
        &&& self.width.ser_ok()
        &&& self.height.ser_ok()
        &&& self.ser_bytes().len() <= usize::MAX
    }

    open spec fn ser_bytes(&self) -> Seq<u8> {
        self.x.ser_bytes() + self.y.ser_bytes() + self.width.ser_bytes() + self.height.ser_bytes()
    }

    open spec fn ser_fds(&self) -> Seq<Fd> {
        self.x.ser_fds() + self.y.ser_fds() + self.width.ser_fds() + self.height.ser_fds()
    }

    fn wire_len(&self) -> (n: usize) {
        self.x.wire_len() + self.y.wire_len() + self.width.wire_len() + self.height.wire_len()
    }

    fn checked_len(&self) -> (r: Option<usize>) {
        let n0 = match self.x.checked_len() {
            Some(m) => m,
            None => return None,
        };
        let n1 = match self.y.checked_len() {
            Some(m) => match n0.checked_add(m) {
                Some(t) => t,
                None => return None,
            },
            None => return None,
        };
        let n2 = match self.width.checked_len() {
            Some(m) => match n1.checked_add(m) {
                Some(t) => t,
                None => return None,
            },
            None => return None,
        };
        let n3 = match self.height.checked_len() {
            Some(m) => match n2.checked_add(m) {
                Some(t) => t,
                None => return None,
            },
            None => return None,
        };
        Some(n3)
    }

    open spec fn ser_fits(&self, cap: int) -> bool {
        &&& 0 <= cap && self.x.ser_fits(cap - (0))
        &&& self.x.ser_bytes().len() <= cap && self.y.ser_fits(cap - (self.x.ser_bytes().len()))
        &&& self.x.ser_bytes().len() + self.y.ser_bytes().len() <= cap && self.width.ser_fits(cap - (self.x.ser_bytes().len() + self.y.ser_bytes().len()))
        &&& self.x.ser_bytes().len() + self.y.ser_bytes().len() + self.width.ser_bytes().len() <= cap && self.height.ser_fits(cap - (self.x.ser_bytes().len() + self.y.ser_bytes().len() + self.width.ser_bytes().len()))
    }

    fn serialize(self, buf: &mut [u8], fds: &mut Vec<Fd>) -> (r: Result<usize, &'static str>) {
        let ghost me = self;
        let ghost b0 = buf@;
        let mut n: usize = 0;
        n = n + ser_at(self.x, buf, n, fds);
        assert(fds@ =~= old(fds)@ + me.x.ser_fds());
        n = n + ser_at(self.y, buf, n, fds);
        proof {
            lemma_write_then(b0, 0, me.x.ser_bytes(), me.y.ser_bytes());
        }
        assert(fds@ =~= old(fds)@ + me.x.ser_fds() + me.y.ser_fds());
        n = n + ser_at(self.width, buf, n, fds);
        proof {
            lemma_write_then(b0, 0, me.x.ser_bytes() + me.y.ser_bytes(), me.width.ser_bytes());
        }
        assert(fds@ =~= old(fds)@ + me.x.ser_fds() + me.y.ser_fds() + me.width.ser_fds());
        n = n + ser_at(self.height, buf, n, fds);
        proof {
            lemma_write_then(b0, 0, me.x.ser_bytes() + me.y.ser_bytes() + me.width.ser_bytes(), me.height.ser_bytes());
        }
        assert(fds@ =~= old(fds)@ + me.ser_fds());
        Ok(n)
    }

    proof fn lemma_fits(&self, cap: int) {
        self.x.lemma_fits(cap - (0));
        self.y.lemma_fits(cap - (self.x.ser_bytes().len()));
        self.width.lemma_fits(cap - (self.x.ser_bytes().len() + self.y.ser_bytes().len()));
        self.height.lemma_fits(cap - (self.x.ser_bytes().len() + self.y.ser_bytes().len() + self.width.ser_bytes().len()));
    }
}

impl DeepView for subtract {
    type V = (<i32 as DeepView>::V, <i32 as DeepView>::V, <i32 as DeepView>::V, <i32 as DeepView>::V,);

    open spec fn deep_view(&self) -> (<i32 as DeepView>::V, <i32 as DeepView>::V, <i32 as DeepView>::V, <i32 as DeepView>::V,) {
        (self.x.deep_view(), self.y.deep_view(), self.width.deep_view(), self.height.deep_view(),)
    }
}

impl Dsr for subtract {
    open spec fn dsr_spec(buf: Seq<u8>, fds: Seq<Fd>) -> Decoded<(<i32 as DeepView>::V, <i32 as DeepView>::V, <i32 as DeepView>::V, <i32 as DeepView>::V,)> {
        match <i32>::dsr_spec(buf, fds) {
            Decoded::Value(x, n0, q0) => {
                match <i32>::dsr_spec(buf.skip(n0 as int), q0) {
                    Decoded::Value(y, m1, q1) => {
                        let n1 = n0 + m1;
                        match <i32>::dsr_spec(buf.skip(n1 as int), q1) {
                            Decoded::Value(width, m2, q2) => {
                                let n2 = n1 + m2;
                                match <i32>::dsr_spec(buf.skip(n2 as int), q2) {
                                    Decoded::Value(height, m3, q3) => {
                                        let n3 = n2 + m3;
                                        Decoded::Value((x, y, width, height,), n3, q3)
                                    },
                                    d => d.fail(),
                                }
                            },
                            d => d.fail(),
                        }
                    },
                    d => d.fail(),
                }
            },
            d => d.fail(),
        }
    }

    fn try_deserialize(buf: &[u8], fds: &mut Vec<Fd>) -> (r: Option<Result<(subtract, usize), &'static str>>) {
        let mut n: usize = 0;
        let rest = &buf[n..buf.len()];
        assert(rest@ =~= buf@.skip(n as int));
        assert(n == 0 ==> rest@ =~= buf@);
        let (x, m) = match <i32>::try_deserialize(rest, fds) {
            Some(Ok(p)) => p,
            Some(Err(e)) => return Some(Err(e)),
            None => return None,
        };
        n = n + m;
        let rest = &buf[n..buf.len()];
        assert(rest@ =~= buf@.skip(n as int));
        assert(n == 0 ==> rest@ =~= buf@);
        let (y, m) = match <i32>::try_deserialize(rest, fds) {
            Some(Ok(p)) => p,
            Some(Err(e)) => return Some(Err(e)),
            None => return None,
        };
        n = n + m;
        let rest = &buf[n..buf.len()];
        assert(rest@ =~= buf@.skip(n as int));
        assert(n == 0 ==> rest@ =~= buf@);
        let (width, m) = match <i32>::try_deserialize(rest, fds) {
            Some(Ok(p)) => p,
            Some(Err(e)) => return Some(Err(e)),
            None => return None,
        };
        n = n + m;
        let rest = &buf[n..buf.len()];
        assert(rest@ =~= buf@.skip(n as int));
        assert(n == 0 ==> rest@ =~= buf@);
        let (height, m) = match <i32>::try_deserialize(rest, fds) {
            Some(Ok(p)) => p,
            Some(Err(e)) => return Some(Err(e)),
            None => return None,
        };
        n = n + m;
        Some(Ok((subtract { x, y, width, height }, n)))
    }
}

impl Codec for subtract {
    open spec fn rt_ok(&self) -> bool {
        &&& self.x.rt_ok()
        &&& self.y.rt_ok()
        &&& self.width.rt_ok()
        &&& self.height.rt_ok()
    }

    proof fn lemma_roundtrip(&self, tail: Seq<u8>, base: Seq<Fd>) {
        let b0 = self.x.ser_bytes();
        let b1 = self.y.ser_bytes();
        let b2 = self.width.ser_bytes();
        let b3 = self.height.ser_bytes();
        let d0 = self.x.ser_fds();
        let d1 = self.y.ser_fds();
        let d2 = self.width.ser_fds();
        let d3 = self.height.ser_fds();
        let s4 = tail;
        let s3 = b3 + s4;
        let s2 = b2 + s3;
        let s1 = b1 + s2;
        let s0 = b0 + s1;
        let buf = self.ser_bytes() + tail;
        assert(buf =~= s0);
        assert(buf.skip(0) =~= s0);
        assert(self.ser_fds() =~= Seq::<Fd>::empty());
        assert(base + self.ser_fds().reverse() =~= base);
        assert(d0 =~= Seq::<Fd>::empty());
        assert(base + d0.reverse() =~= base);
        self.x.lemma_roundtrip(s1, base);
        assert(buf.skip((b0.len()) as int) == s1) by {
            lemma_skip_step(buf, (0) as int, b0, s1);
        }
        assert(d1 =~= Seq::<Fd>::empty());
        assert(base + d1.reverse() =~= base);
        self.y.lemma_roundtrip(s2, base);
        assert(buf.skip((b0.len() + b1.len()) as int) == s2) by {
            lemma_skip_step(buf, (b0.len()) as int, b1, s2);
        }
        assert(d2 =~= Seq::<Fd>::empty());
        assert(base + d2.reverse() =~= base);
        self.width.lemma_roundtrip(s3, base);
        assert(buf.skip((b0.len() + b1.len() + b2.len()) as int) == s3) by {
            lemma_skip_step(buf, (b0.len() + b1.len()) as int, b2, s3);
        }
        assert(d3 =~= Seq::<Fd>::empty());
        assert(base + d3.reverse() =~= base);
        self.height.lemma_roundtrip(s4, base);
    }
}

impl subtract {
    /// The arguments are read in the protocol's order, `x`, then `y`, then `width`, then `height`: the bytes
    /// and descriptors written for such arguments, one after the other,
    /// decode to exactly those arguments.
    pub proof fn lemma_layout(x: i32, y: i32, width: i32, height: i32, rest: Seq<u8>, queue: Seq<Fd>)
        requires
            x.ser_ok(),
            x.rt_ok(),
            y.ser_ok(),
            y.rt_ok(),
            width.ser_ok(),
            width.rt_ok(),
            height.ser_ok(),
            height.rt_ok(),
            x.ser_bytes().len() + y.ser_bytes().len() + width.ser_bytes().len() + height.ser_bytes().len() <= usize::MAX,
        ensures
            ({
                let bytes = x.ser_bytes() + y.ser_bytes() + width.ser_bytes() + height.ser_bytes();
                let fds = x.ser_fds() + y.ser_fds() + width.ser_fds() + height.ser_fds();
                subtract::dsr_spec(bytes + rest, queue + fds.reverse()) == Decoded::Value(
                    (x.deep_view(), y.deep_view(), width.deep_view(), height.deep_view(),),
                    bytes.len(),
                    queue,
                )
            }),
    {
        let m = subtract { x, y, width, height };
        m.lemma_roundtrip(rest, queue);
    }

    /// The message creates no object.
    pub proof fn lemma_creates(&self)
        ensures
            self.created_id() is None,
    {
    }
}

impl Msg<Obj> for subtract {
    open spec fn opcode() -> u16 {
        2
    }

    open spec fn since_version() -> u32 {
        1
    }

    open spec fn created_id(&self) -> Option<u32> {
        None
    }

    open spec fn created_destructor(&self) -> Option<u16> {
        None
    }

    fn op() -> (r: u16) {
        2
    }

    fn since() -> u32 {
        1
    }

    fn new_id(&self) -> (r: Option<(u32, ObjMeta)>) {
        None
    }
}

impl Request<Obj> for subtract {

}

/// The opcode of each request: its index in the protocol's list of the
/// interface's requests, so that no two requests share one.
pub proof fn lemma_opcodes()
    ensures
        <destroy as Msg<Obj>>::opcode() == 0,
        <add as Msg<Obj>>::opcode() == 1,
        <subtract as Msg<Obj>>::opcode() == 2,
        <destroy as Msg<Obj>>::opcode() != <add as Msg<Obj>>::opcode(),
        <destroy as Msg<Obj>>::opcode() != <subtract as Msg<Obj>>::opcode(),
        <add as Msg<Obj>>::opcode() != <subtract as Msg<Obj>>::opcode(),
        <Obj as Object>::destructor_op() == Some(<destroy as Msg<Obj>>::opcode()),
{
}

} // verus!
