use vstd::prelude::*;
use crate::objects::{type_id_of, new_id, object, Dyn, ObjMeta, Object, Msg, Event};
use crate::wire::{ser_at, write_at, lemma_write_then, lemma_reverse_add, lemma_skip_step, fixed, Codec, Decoded, Dsr, Fd, Ser};
use super::Obj;

verus! {

/// touch down event and beginning of a touch sequence
///
/// A new touch point has appeared on the surface. This touch point is
/// assigned a unique ID. Future events from this touch point reference
/// this ID. The ID ceases to be valid after a touch up event and may be
/// reused in the future.
///
#[derive(Debug)]
pub struct down {
    // serial number of the touch down event
    pub serial: u32,
    // timestamp with millisecond granularity
    pub time: u32,
    // surface touched
    pub surface: object<crate::wl_surface::Obj>,
    // the unique ID of this touch point
    pub id: i32,
    // surface-local x coordinate
    pub x: fixed,
    // surface-local y coordinate
    pub y: fixed,
}

impl Ser for down {
    open spec fn ser_ok(&self) -> bool {
        &&& self.serial.ser_ok()
        &&& self.time.ser_ok()
        &&& self.surface.ser_ok()
        &&& self.id.ser_ok()
        &&& self.x.ser_ok()
        &&& self.y.ser_ok()
        &&& self.ser_bytes().len() <= usize::MAX
    }

    open spec fn ser_bytes(&self) -> Seq<u8> {
        self.serial.ser_bytes() + self.time.ser_bytes() + self.surface.ser_bytes() + self.id.ser_bytes() + self.x.ser_bytes() + self.y.ser_bytes()
    }

    open spec fn ser_fds(&self) -> Seq<Fd> {
        self.serial.ser_fds() + self.time.ser_fds() + self.surface.ser_fds() + self.id.ser_fds() + self.x.ser_fds() + self.y.ser_fds()
    }

    fn wire_len(&self) -> (n: usize) {
        self.serial.wire_len() + self.time.wire_len() + self.surface.wire_len() + self.id.wire_len() + self.x.wire_len() + self.y.wire_len()
    }

    fn checked_len(&self) -> (r: Option<usize>) {
        let n0 = match self.serial.checked_len() {
            Some(m) => m,
            None => return None,
        };
        let n1 = match self.time.checked_len() {
            Some(m) => match n0.checked_add(m) {
                Some(t) => t,
                None => return None,
            },
            None => return None,
        };
        let n2 = match self.surface.checked_len() {
            Some(m) => match n1.checked_add(m) {
                Some(t) => t,
                None => return None,
            },
            None => return None,
        };
        let n3 = match self.id.checked_len() {
            Some(m) => match n2.checked_add(m) {
                Some(t) => t,
                None => return None,
            },
            None => return None,
        };
        let n4 = match self.x.checked_len() {
            Some(m) => match n3.checked_add(m) {
                Some(t) => t,
                None => return None,
            },
            None => return None,
        };
        let n5 = match self.y.checked_len() {
            Some(m) => match n4.checked_add(m) {
                Some(t) => t,
                None => return None,
            },
            None => return None,
        };
        Some(n5)
    }

    open spec fn ser_fits(&self, cap: int) -> bool {
        &&& 0 <= cap && self.serial.ser_fits(cap - (0))
        &&& self.serial.ser_bytes().len() <= cap && self.time.ser_fits(cap - (self.serial.ser_bytes().len()))
        &&& self.serial.ser_bytes().len() + self.time.ser_bytes().len() <= cap && self.surface.ser_fits(cap - (self.serial.ser_bytes().len() + self.time.ser_bytes().len()))
        &&& self.serial.ser_bytes().len() + self.time.ser_bytes().len() + self.surface.ser_bytes().len() <= cap && self.id.ser_fits(cap - (self.serial.ser_bytes().len() + self.time.ser_bytes().len() + self.surface.ser_bytes().len()))
        &&& self.serial.ser_bytes().len() + self.time.ser_bytes().len() + self.surface.ser_bytes().len() + self.id.ser_bytes().len() <= cap && self.x.ser_fits(cap - (self.serial.ser_bytes().len() + self.time.ser_bytes().len() + self.surface.ser_bytes().len() + self.id.ser_bytes().len()))
        &&& self.serial.ser_bytes().len() + self.time.ser_bytes().len() + self.surface.ser_bytes().len() + self.id.ser_bytes().len() + self.x.ser_bytes().len() <= cap && self.y.ser_fits(cap - (self.serial.ser_bytes().len() + self.time.ser_bytes().len() + self.surface.ser_bytes().len() + self.id.ser_bytes().len() + self.x.ser_bytes().len()))
    }

    #[verifier::rlimit(60)]
    fn serialize(self, buf: &mut [u8], fds: &mut Vec<Fd>) -> (r: Result<usize, &'static str>) {
        let ghost me = self;
        let ghost b0 = buf@;
        let mut n: usize = 0;
        n = n + ser_at(self.serial, buf, n, fds);
        assert(fds@ =~= old(fds)@ + me.serial.ser_fds());
        n = n + ser_at(self.time, buf, n, fds);
        proof {
            lemma_write_then(b0, 0, me.serial.ser_bytes(), me.time.ser_bytes());
        }
        assert(fds@ =~= old(fds)@ + me.serial.ser_fds() + me.time.ser_fds());
        n = n + ser_at(self.surface, buf, n, fds);
        proof {
            lemma_write_then(b0, 0, me.serial.ser_bytes() + me.time.ser_bytes(), me.surface.ser_bytes());
        }
        assert(fds@ =~= old(fds)@ + me.serial.ser_fds() + me.time.ser_fds() + me.surface.ser_fds());
        n = n + ser_at(self.id, buf, n, fds);
        proof {
            lemma_write_then(b0, 0, me.serial.ser_bytes() + me.time.ser_bytes() + me.surface.ser_bytes(), me.id.ser_bytes());
        }
        assert(fds@ =~= old(fds)@ + me.serial.ser_fds() + me.time.ser_fds() + me.surface.ser_fds() + me.id.ser_fds());
        n = n + ser_at(self.x, buf, n, fds);
        proof {
            lemma_write_then(b0, 0, me.serial.ser_bytes() + me.time.ser_bytes() + me.surface.ser_bytes() + me.id.ser_bytes(), me.x.ser_bytes());
        }
        assert(fds@ =~= old(fds)@ + me.serial.ser_fds() + me.time.ser_fds() + me.surface.ser_fds() + me.id.ser_fds() + me.x.ser_fds());
        n = n + ser_at(self.y, buf, n, fds);
        proof {
            lemma_write_then(b0, 0, me.serial.ser_bytes() + me.time.ser_bytes() + me.surface.ser_bytes() + me.id.ser_bytes() + me.x.ser_bytes(), me.y.ser_bytes());
        }
        assert(fds@ =~= old(fds)@ + me.ser_fds());
        Ok(n)
    }

    proof fn lemma_fits(&self, cap: int) {
        self.serial.lemma_fits(cap - (0));
        self.time.lemma_fits(cap - (self.serial.ser_bytes().len()));
        self.surface.lemma_fits(cap - (self.serial.ser_bytes().len() + self.time.ser_bytes().len()));
        self.id.lemma_fits(cap - (self.serial.ser_bytes().len() + self.time.ser_bytes().len() + self.surface.ser_bytes().len()));
        self.x.lemma_fits(cap - (self.serial.ser_bytes().len() + self.time.ser_bytes().len() + self.surface.ser_bytes().len() + self.id.ser_bytes().len()));
        self.y.lemma_fits(cap - (self.serial.ser_bytes().len() + self.time.ser_bytes().len() + self.surface.ser_bytes().len() + self.id.ser_bytes().len() + self.x.ser_bytes().len()));
    }
}

impl DeepView for down {
    type V = (<u32 as DeepView>::V, <u32 as DeepView>::V, <object<crate::wl_surface::Obj> as DeepView>::V, <i32 as DeepView>::V, <fixed as DeepView>::V, <fixed as DeepView>::V,);

    open spec fn deep_view(&self) -> (<u32 as DeepView>::V, <u32 as DeepView>::V, <object<crate::wl_surface::Obj> as DeepView>::V, <i32 as DeepView>::V, <fixed as DeepView>::V, <fixed as DeepView>::V,) {
        (self.serial.deep_view(), self.time.deep_view(), self.surface.deep_view(), self.id.deep_view(), self.x.deep_view(), self.y.deep_view(),)
    }
}

impl Dsr for down {
    open spec fn dsr_spec(buf: Seq<u8>, fds: Seq<Fd>) -> Decoded<(<u32 as DeepView>::V, <u32 as DeepView>::V, <object<crate::wl_surface::Obj> as DeepView>::V, <i32 as DeepView>::V, <fixed as DeepView>::V, <fixed as DeepView>::V,)> {
        match <u32>::dsr_spec(buf, fds) {
            Decoded::Value(serial, n0, q0) => {
                match <u32>::dsr_spec(buf.skip(n0 as int), q0) {
                    Decoded::Value(time, m1, q1) => {
                        let n1 = n0 + m1;
                        match <object<crate::wl_surface::Obj>>::dsr_spec(buf.skip(n1 as int), q1) {
                            Decoded::Value(surface, m2, q2) => {
                                let n2 = n1 + m2;
                                match <i32>::dsr_spec(buf.skip(n2 as int), q2) {
                                    Decoded::Value(id, m3, q3) => {
                                        let n3 = n2 + m3;
                                        match <fixed>::dsr_spec(buf.skip(n3 as int), q3) {
                                            Decoded::Value(x, m4, q4) => {
                                                let n4 = n3 + m4;
                                                match <fixed>::dsr_spec(buf.skip(n4 as int), q4) {
                                                    Decoded::Value(y, m5, q5) => {
                                                        let n5 = n4 + m5;
                                                        Decoded::Value((serial, time, surface, id, x, y,), n5, q5)
                                                    },
                                                    d => d.fail(),
                                                }
                                            },
                                            d => d.fail(),
                                        }
                                    },
                                    d => d.fail(),
                                }
                            },
                            d => d.fail(),
                        }
                    },
                    d => d.fail(),
                }
            },
            d => d.fail(),
        }
    }

    #[verifier::rlimit(60)]
    fn try_deserialize(buf: &[u8], fds: &mut Vec<Fd>) -> (r: Option<Result<(down, usize), &'static str>>) {
        let mut n: usize = 0;
        let rest = &buf[n..buf.len()];
        assert(rest@ =~= buf@.skip(n as int));
        assert(n == 0 ==> rest@ =~= buf@);
        let (serial, m) = match <u32>::try_deserialize(rest, fds) {
            Some(Ok(p)) => p,
            Some(Err(e)) => return Some(Err(e)),
            None => return None,
        };
        n = n + m;
        let rest = &buf[n..buf.len()];
        assert(rest@ =~= buf@.skip(n as int));
        assert(n == 0 ==> rest@ =~= buf@);
        let (time, m) = match <u32>::try_deserialize(rest, fds) {
            Some(Ok(p)) => p,
            Some(Err(e)) => return Some(Err(e)),
            None => return None,
        };
        n = n + m;
        let rest = &buf[n..buf.len()];
        assert(rest@ =~= buf@.skip(n as int));
        assert(n == 0 ==> rest@ =~= buf@);
        let (surface, m) = match <object<crate::wl_surface::Obj>>::try_deserialize(rest, fds) {
            Some(Ok(p)) => p,
            Some(Err(e)) => return Some(Err(e)),
            None => return None,
        };
        n = n + m;
        let rest = &buf[n..buf.len()];
        assert(rest@ =~= buf@.skip(n as int));
        assert(n == 0 ==> rest@ =~= buf@);
        let (id, m) = match <i32>::try_deserialize(rest, fds) {
            Some(Ok(p)) => p,
            Some(Err(e)) => return Some(Err(e)),
            None => return None,
        };
        n = n + m;
        let rest = &buf[n..buf.len()];
        assert(rest@ =~= buf@.skip(n as int));
        assert(n == 0 ==> rest@ =~= buf@);
        let (x, m) = match <fixed>::try_deserialize(rest, fds) {
            Some(Ok(p)) => p,
            Some(Err(e)) => return Some(Err(e)),
            None => return None,
        };
        n = n + m;
        let rest = &buf[n..buf.len()];
        assert(rest@ =~= buf@.skip(n as int));
        assert(n == 0 ==> rest@ =~= buf@);
        let (y, m) = match <fixed>::try_deserialize(rest, fds) {
            Some(Ok(p)) => p,
            Some(Err(e)) => return Some(Err(e)),
            None => return None,
        };
        n = n + m;
        Some(Ok((down { serial, time, surface, id, x, y }, n)))
    }
}

impl Codec for down {
    open spec fn rt_ok(&self) -> bool {
        &&& self.serial.rt_ok()
        &&& self.time.rt_ok()
        &&& self.surface.rt_ok()
        &&& self.id.rt_ok()
        &&& self.x.rt_ok()
        &&& self.y.rt_ok()
    }

    #[verifier::rlimit(60)]
    proof fn lemma_roundtrip(&self, tail: Seq<u8>, base: Seq<Fd>) {
        let b0 = self.serial.ser_bytes();
        let b1 = self.time.ser_bytes();
        let b2 = self.surface.ser_bytes();
        let b3 = self.id.ser_bytes();
        let b4 = self.x.ser_bytes();
        let b5 = self.y.ser_bytes();
        let d0 = self.serial.ser_fds();
        let d1 = self.time.ser_fds();
        let d2 = self.surface.ser_fds();
        let d3 = self.id.ser_fds();
        let d4 = self.x.ser_fds();
        let d5 = self.y.ser_fds();
        let s6 = tail;
        let s5 = b5 + s6;
        let s4 = b4 + s5;
        let s3 = b3 + s4;
        let s2 = b2 + s3;
        let s1 = b1 + s2;
        let s0 = b0 + s1;
        let buf = self.ser_bytes() + tail;
        assert(buf =~= s0);
        assert(buf.skip(0) =~= s0);
        assert(self.ser_fds() =~= Seq::<Fd>::empty());
        assert(base + self.ser_fds().reverse() =~= base);
        assert(d0 =~= Seq::<Fd>::empty());
        assert(base + d0.reverse() =~= base);
        self.serial.lemma_roundtrip(s1, base);
        assert(buf.skip((b0.len()) as int) == s1) by {
            lemma_skip_step(buf, (0) as int, b0, s1);
        }
        assert(d1 =~= Seq::<Fd>::empty());
        assert(base + d1.reverse() =~= base);
        self.time.lemma_roundtrip(s2, base);
        assert(buf.skip((b0.len() + b1.len()) as int) == s2) by {
            lemma_skip_step(buf, (b0.len()) as int, b1, s2);
        }
        assert(d2 =~= Seq::<Fd>::empty());
        assert(base + d2.reverse() =~= base);
        self.surface.lemma_roundtrip(s3, base);
        assert(buf.skip((b0.len() + b1.len() + b2.len()) as int) == s3) by {
            lemma_skip_step(buf, (b0.len() + b1.len()) as int, b2, s3);
        }
        assert(d3 =~= Seq::<Fd>::empty());
        assert(base + d3.reverse() =~= base);
        self.id.lemma_roundtrip(s4, base);
        assert(buf.skip((b0.len() + b1.len() + b2.len() + b3.len()) as int) == s4) by {
            lemma_skip_step(buf, (b0.len() + b1.len() + b2.len()) as int, b3, s4);
        }
        assert(d4 =~= Seq::<Fd>::empty());
        assert(base + d4.reverse() =~= base);
        self.x.lemma_roundtrip(s5, base);
        assert(buf.skip((b0.len() + b1.len() + b2.len() + b3.len() + b4.len()) as int) == s5) by {
            lemma_skip_step(buf, (b0.len() + b1.len() + b2.len() + b3.len()) as int, b4, s5);
        }
        assert(d5 =~= Seq::<Fd>::empty());
        assert(base + d5.reverse() =~= base);
        self.y.lemma_roundtrip(s6, base);
    }
}

impl down {
    /// The arguments are read in the protocol's order, `serial`, then `time`, then `surface`, then `id`, then `x`, then `y`: the bytes
    /// and descriptors written for such arguments, one after the other,
    /// decode to exactly those arguments.
    pub proof fn lemma_layout(serial: u32, time: u32, surface: object<crate::wl_surface::Obj>, id: i32, x: fixed, y: fixed, rest: Seq<u8>, queue: Seq<Fd>)
        requires
            serial.ser_ok(),
            serial.rt_ok(),
            time.ser_ok(),
            time.rt_ok(),
            surface.ser_ok(),
            surface.rt_ok(),
            id.ser_ok(),
            id.rt_ok(),
            x.ser_ok(),
            x.rt_ok(),
            y.ser_ok(),
            y.rt_ok(),
            serial.ser_bytes().len() + time.ser_bytes().len() + surface.ser_bytes().len() + id.ser_bytes().len() + x.ser_bytes().len() + y.ser_bytes().len() <= usize::MAX,
        ensures
            ({
                let bytes = serial.ser_bytes() + time.ser_bytes() + surface.ser_bytes() + id.ser_bytes() + x.ser_bytes() + y.ser_bytes();
                let fds = serial.ser_fds() + time.ser_fds() + surface.ser_fds() + id.ser_fds() + x.ser_fds() + y.ser_fds();
                down::dsr_spec(bytes + rest, queue + fds.reverse()) == Decoded::Value(
                    (serial.deep_view(), time.deep_view(), surface.deep_view(), id.deep_view(), x.deep_view(), y.deep_view(),),
                    bytes.len(),
                    queue,
                )
            }),
    {
        let m = down { serial, time, surface, id, x, y };
        m.lemma_roundtrip(rest, queue);
    }

    /// The message creates no object.
    pub proof fn lemma_creates(&self)
        ensures
            self.created_id() is None,
    {
    }
}

impl Msg<Obj> for down {
    open spec fn opcode() -> u16 {
        0
    }

    open spec fn since_version() -> u32 {
        1
    }

    open spec fn created_id(&self) -> Option<u32> {
        None
    }

    open spec fn created_destructor(&self) -> Option<u16> {
        None
    }

    fn op() -> (r: u16) {
        0
    }

    fn since() -> u32 {
        1
    }

    fn new_id(&self) -> (r: Option<(u32, ObjMeta)>) {
        None
    }
}

impl Event<Obj> for down {

}

/// end of a touch event sequence
///
/// The touch point has disappeared. No further events will be sent for
/// this touch point and the touch point's ID is released and may be
/// reused in a future touch down event.
///
#[derive(Debug)]
pub struct up {
    // serial number of the touch up event
    pub serial: u32,
    // timestamp with millisecond granularity
    pub time: u32,
    // the unique ID of this touch point
    pub id: i32,
}

impl Ser for up {
    open spec fn ser_ok(&self) -> bool {
        &&& self.serial.ser_ok()
        &&& self.time.ser_ok()
        &&& self.id.ser_ok()
        &&& self.ser_bytes().len() <= usize::MAX
    }

    open spec fn ser_bytes(&self) -> Seq<u8> {
        self.serial.ser_bytes() + self.time.ser_bytes() + self.id.ser_bytes()
    }

    open spec fn ser_fds(&self) -> Seq<Fd> {
        self.serial.ser_fds() + self.time.ser_fds() + self.id.ser_fds()
    }

    fn wire_len(&self) -> (n: usize) {
        self.serial.wire_len() + self.time.wire_len() + self.id.wire_len()
    }

    fn checked_len(&self) -> (r: Option<usize>) {
        let n0 = match self.serial.checked_len() {
            Some(m) => m,
            None => return None,
        };
        let n1 = match self.time.checked_len() {
            Some(m) => match n0.checked_add(m) {
                Some(t) => t,
                None => return None,
            },
            None => return None,
        };
        let n2 = match self.id.checked_len() {
            Some(m) => match n1.checked_add(m) {
                Some(t) => t,
                None => return None,
            },
            None => return None,
        };
        Some(n2)
    }

    open spec fn ser_fits(&self, cap: int) -> bool {
        &&& 0 <= cap && self.serial.ser_fits(cap - (0))
        &&& self.serial.ser_bytes().len() <= cap && self.time.ser_fits(cap - (self.serial.ser_bytes().len()))
        &&& self.serial.ser_bytes().len() + self.time.ser_bytes().len() <= cap && self.id.ser_fits(cap - (self.serial.ser_bytes().len() + self.time.ser_bytes().len()))
    }

    fn serialize(self, buf: &mut [u8], fds: &mut Vec<Fd>) -> (r: Result<usize, &'static str>) {
        let ghost me = self;
        let ghost b0 = buf@;
        let mut n: usize = 0;
        n = n + ser_at(self.serial, buf, n, fds);
        assert(fds@ =~= old(fds)@ + me.serial.ser_fds());
        n = n + ser_at(self.time, buf, n, fds);
        proof {
            lemma_write_then(b0, 0, me.serial.ser_bytes(), me.time.ser_bytes());
        }
        assert(fds@ =~= old(fds)@ + me.serial.ser_fds() + me.time.ser_fds());
        n = n + ser_at(self.id, buf, n, fds);
        proof {
            lemma_write_then(b0, 0, me.serial.ser_bytes() + me.time.ser_bytes(), me.id.ser_bytes());
        }
        assert(fds@ =~= old(fds)@ + me.ser_fds());
        Ok(n)
    }

    proof fn lemma_fits(&self, cap: int) {
        self.serial.lemma_fits(cap - (0));
        self.time.lemma_fits(cap - (self.serial.ser_bytes().len()));
        self.id.lemma_fits(cap - (self.serial.ser_bytes().len() + self.time.ser_bytes().len()));
    }
}

impl DeepView for up {
    type V = (<u32 as DeepView>::V, <u32 as DeepView>::V, <i32 as DeepView>::V,);

    open spec fn deep_view(&self) -> (<u32 as DeepView>::V, <u32 as DeepView>::V, <i32 as DeepView>::V,) {
        (self.serial.deep_view(), self.time.deep_view(), self.id.deep_view(),)
    }
}

impl Dsr for up {
    open spec fn dsr_spec(buf: Seq<u8>, fds: Seq<Fd>) -> Decoded<(<u32 as DeepView>::V, <u32 as DeepView>::V, <i32 as DeepView>::V,)> {
        match <u32>::dsr_spec(buf, fds) {
            Decoded::Value(serial, n0, q0) => {
                match <u32>::dsr_spec(buf.skip(n0 as int), q0) {
                    Decoded::Value(time, m1, q1) => {
                        let n1 = n0 + m1;
                        match <i32>::dsr_spec(buf.skip(n1 as int), q1) {
                            Decoded::Value(id, m2, q2) => {
                                let n2 = n1 + m2;
                                Decoded::Value((serial, time, id,), n2, q2)
                            },
                            d => d.fail(),
                        }
                    },
                    d => d.fail(),
                }
            },
            d => d.fail(),
        }
    }

    fn try_deserialize(buf: &[u8], fds: &mut Vec<Fd>) -> (r: Option<Result<(up, usize), &'static str>>) {
        let mut n: usize = 0;
        let rest = &buf[n..buf.len()];
        assert(rest@ =~= buf@.skip(n as int));
        assert(n == 0 ==> rest@ =~= buf@);
        let (serial, m) = match <u32>::try_deserialize(rest, fds) {
            Some(Ok(p)) => p,
            Some(Err(e)) => return Some(Err(e)),
            None => return None,
        };
        n = n + m;
        let rest = &buf[n..buf.len()];
        assert(rest@ =~= buf@.skip(n as int));
        assert(n == 0 ==> rest@ =~= buf@);
        let (time, m) = match <u32>::try_deserialize(rest, fds) {
            Some(Ok(p)) => p,
            Some(Err(e)) => return Some(Err(e)),
            None => return None,
        };
        n = n + m;
        let rest = &buf[n..buf.len()];
        assert(rest@ =~= buf@.skip(n as int));
        assert(n == 0 ==> rest@ =~= buf@);
        let (id, m) = match <i32>::try_deserialize(rest, fds) {
            Some(Ok(p)) => p,
            Some(Err(e)) => return Some(Err(e)),
            None => return None,
        };
        n = n + m;
        Some(Ok((up { serial, time, id }, n)))
    }
}

impl Codec for up {
    open spec fn rt_ok(&self) -> bool {
        &&& self.serial.rt_ok()
        &&& self.time.rt_ok()
        &&& self.id.rt_ok()
    }

    proof fn lemma_roundtrip(&self, tail: Seq<u8>, base: Seq<Fd>) {
        let b0 = self.serial.ser_bytes();
        let b1 = self.time.ser_bytes();
        let b2 = self.id.ser_bytes();
        let d0 = self.serial.ser_fds();
        let d1 = self.time.ser_fds();
        let d2 = self.id.ser_fds();
        let s3 = tail;
        let s2 = b2 + s3;
        let s1 = b1 + s2;
        let s0 = b0 + s1;
        let buf = self.ser_bytes() + tail;
        assert(buf =~= s0);
        assert(buf.skip(0) =~= s0);
        assert(self.ser_fds() =~= Seq::<Fd>::empty());
        assert(base + self.ser_fds().reverse() =~= base);
        assert(d0 =~= Seq::<Fd>::empty());
        assert(base + d0.reverse() =~= base);
        self.serial.lemma_roundtrip(s1, base);
        assert(buf.skip((b0.len()) as int) == s1) by {
            lemma_skip_step(buf, (0) as int, b0, s1);
        }
        assert(d1 =~= Seq::<Fd>::empty());
        assert(base + d1.reverse() =~= base);
        self.time.lemma_roundtrip(s2, base);
        assert(buf.skip((b0.len() + b1.len()) as int) == s2) by {
            lemma_skip_step(buf, (b0.len()) as int, b1, s2);
        }
        assert(d2 =~= Seq::<Fd>::empty());
        assert(base + d2.reverse() =~= base);
        self.id.lemma_roundtrip(s3, base);
    }
}

impl up {
    /// The arguments are read in the protocol's order, `serial`, then `time`, then `id`: the bytes
    /// and descriptors written for such arguments, one after the other,
    /// decode to exactly those arguments.
    pub proof fn lemma_layout(serial: u32, time: u32, id: i32, rest: Seq<u8>, queue: Seq<Fd>)
        requires
            serial.ser_ok(),
            serial.rt_ok(),
            time.ser_ok(),
            time.rt_ok(),
            id.ser_ok(),
            id.rt_ok(),
            serial.ser_bytes().len() + time.ser_bytes().len() + id.ser_bytes().len() <= usize::MAX,
        ensures
            ({
                let bytes = serial.ser_bytes() + time.ser_bytes() + id.ser_bytes();
                let fds = serial.ser_fds() + time.ser_fds() + id.ser_fds();
                up::dsr_spec(bytes + rest, queue + fds.reverse()) == Decoded::Value(
                    (serial.deep_view(), time.deep_view(), id.deep_view(),),
                    bytes.len(),
                    queue,
                )
            }),
    {
        let m = up { serial, time, id };
        m.lemma_roundtrip(rest, queue);
    }

    /// The message creates no object.
    pub proof fn lemma_creates(&self)
        ensures
            self.created_id() is None,
    {
    }
}

impl Msg<Obj> for up {
    open spec fn opcode() -> u16 {
        1
    }

    open spec fn since_version() -> u32 {
        1
    }

    open spec fn created_id(&self) -> Option<u32> {
        None
    }

    open spec fn created_destructor(&self) -> Option<u16> {
        None
    }

    fn op() -> (r: u16) {
        1
    }

    fn since() -> u32 {
        1
    }

    fn new_id(&self) -> (r: Option<(u32, ObjMeta)>) {
        None
    }
}

impl Event<Obj> for up {

}

/// update of touch point coordinates
///
/// A touch point has changed coordinates.
///
#[derive(Debug)]
pub struct motion {
    // timestamp with millisecond granularity
    pub time: u32,
    // the unique ID of this touch point
    pub id: i32,
    // surface-local x coordinate
    pub x: fixed,
    // surface-local y coordinate
    pub y: fixed,
}

impl Ser for motion {
    open spec fn ser_ok(&self) -> bool {
        &&& self.time.ser_ok()
        &&& self.id.ser_ok()
        &&& self.x.ser_ok()
        &&& self.y.ser_ok()
        &&& self.ser_bytes().len() <= usize::MAX
    }

    open spec fn ser_bytes(&self) -> Seq<u8> {
        self.time.ser_bytes() + self.id.ser_bytes() + self.x.ser_bytes() + self.y.ser_bytes()
    }

    open spec fn ser_fds(&self) -> Seq<Fd> {
        self.time.ser_fds() + self.id.ser_fds() + self.x.ser_fds() + self.y.ser_fds()
    }

    fn wire_len(&self) -> (n: usize) {
        self.time.wire_len() + self.id.wire_len() + self.x.wire_len() + self.y.wire_len()
    }

    fn checked_len(&self) -> (r: Option<usize>) {
        let n0 = match self.time.checked_len() {
            Some(m) => m,
            None => return None,
        };
        let n1 = match self.id.checked_len() {
            Some(m) => match n0.checked_add(m) {
                Some(t) => t,
                None => return None,
            },
            None => return None,
        };
        let n2 = match self.x.checked_len() {
            Some(m) => match n1.checked_add(m) {
                Some(t) => t,
                None => return None,
            },
            None => return None,
        };
        let n3 = match self.y.checked_len() {
            Some(m) => match n2.checked_add(m) {
                Some(t) => t,
                None => return None,
            },
            None => return None,
        };
        Some(n3)
    }

    open spec fn ser_fits(&self, cap: int) -> bool {
        &&& 0 <= cap && self.time.ser_fits(cap - (0))
        &&& self.time.ser_bytes().len() <= cap && self.id.ser_fits(cap - (self.time.ser_bytes().len()))
        &&& self.time.ser_bytes().len() + self.id.ser_bytes().len() <= cap && self.x.ser_fits(cap - (self.time.ser_bytes().len() + self.id.ser_bytes().len()))
        &&& self.time.ser_bytes().len() + self.id.ser_bytes().len() + self.x.ser_bytes().len() <= cap && self.y.ser_fits(cap - (self.time.ser_bytes().len() + self.id.ser_bytes().len() + self.x.ser_bytes().len()))
    }

    fn serialize(self, buf: &mut [u8], fds: &mut Vec<Fd>) -> (r: Result<usize, &'static str>) {
        let ghost me = self;
        let ghost b0 = buf@;
        let mut n: usize = 0;
        n = n + ser_at(self.time, buf, n, fds);
        assert(fds@ =~= old(fds)@ + me.time.ser_fds());
        n = n + ser_at(self.id, buf, n, fds);
        proof {
            lemma_write_then(b0, 0, me.time.ser_bytes(), me.id.ser_bytes());
        }
        assert(fds@ =~= old(fds)@ + me.time.ser_fds() + me.id.ser_fds());
        n = n + ser_at(self.x, buf, n, fds);
        proof {
            lemma_write_then(b0, 0, me.time.ser_bytes() + me.id.ser_bytes(), me.x.ser_bytes());
        }
        assert(fds@ =~= old(fds)@ + me.time.ser_fds() + me.id.ser_fds() + me.x.ser_fds());
        n = n + ser_at(self.y, buf, n, fds);
        proof {
            lemma_write_then(b0, 0, me.time.ser_bytes() + me.id.ser_bytes() + me.x.ser_bytes(), me.y.ser_bytes());
        }
        assert(fds@ =~= old(fds)@ + me.ser_fds());
        Ok(n)
    }

    proof fn lemma_fits(&self, cap: int) {
        self.time.lemma_fits(cap - (0));
        self.id.lemma_fits(cap - (self.time.ser_bytes().len()));
        self.x.lemma_fits(cap - (self.time.ser_bytes().len() + self.id.ser_bytes().len()));
        self.y.lemma_fits(cap - (self.time.ser_bytes().len() + self.id.ser_bytes().len() + self.x.ser_bytes().len()));
    }
}

impl DeepView for motion {
    type V = (<u32 as DeepView>::V, <i32 as DeepView>::V, <fixed as DeepView>::V, <fixed as DeepView>::V,);

    open spec fn deep_view(&self) -> (<u32 as DeepView>::V, <i32 as DeepView>::V, <fixed as DeepView>::V, <fixed as DeepView>::V,) {
        (self.time.deep_view(), self.id.deep_view(), self.x.deep_view(), self.y.deep_view(),)
    }
}

impl Dsr for motion {
    open spec fn dsr_spec(buf: Seq<u8>, fds: Seq<Fd>) -> Decoded<(<u32 as DeepView>::V, <i32 as DeepView>::V, <fixed as DeepView>::V, <fixed as DeepView>::V,)> {
        match <u32>::dsr_spec(buf, fds) {
            Decoded::Value(time, n0, q0) => {
                match <i32>::dsr_spec(buf.skip(n0 as int), q0) {
                    Decoded::Value(id, m1, q1) => {
                        let n1 = n0 + m1;
                        match <fixed>::dsr_spec(buf.skip(n1 as int), q1) {
                            Decoded::Value(x, m2, q2) => {
                                let n2 = n1 + m2;
                                match <fixed>::dsr_spec(buf.skip(n2 as int), q2) {
                                    Decoded::Value(y, m3, q3) => {
                                        let n3 = n2 + m3;
                                        Decoded::Value((time, id, x, y,), n3, q3)
                                    },
                                    d => d.fail(),
                                }
                            },
                            d => d.fail(),
                        }
                    },
                    d => d.fail(),
                }
            },
            d => d.fail(),
        }
    }

    fn try_deserialize(buf: &[u8], fds: &mut Vec<Fd>) -> (r: Option<Result<(motion, usize), &'static str>>) {
        let mut n: usize = 0;
        let rest = &buf[n..buf.len()];
        assert(rest@ =~= buf@.skip(n as int));
        assert(n == 0 ==> rest@ =~= buf@);
        let (time, m) = match <u32>::try_deserialize(rest, fds) {
            Some(Ok(p)) => p,
            Some(Err(e)) => return Some(Err(e)),
            None => return None,
        };
        n = n + m;
        let rest = &buf[n..buf.len()];
        assert(rest@ =~= buf@.skip(n as int));
        assert(n == 0 ==> rest@ =~= buf@);
        let (id, m) = match <i32>::try_deserialize(rest, fds) {
            Some(Ok(p)) => p,
            Some(Err(e)) => return Some(Err(e)),
            None => return None,
        };
        n = n + m;
        let rest = &buf[n..buf.len()];
        assert(rest@ =~= buf@.skip(n as int));
        assert(n == 0 ==> rest@ =~= buf@);
        let (x, m) = match <fixed>::try_deserialize(rest, fds) {
            Some(Ok(p)) => p,
            Some(Err(e)) => return Some(Err(e)),
            None => return None,
        };
        n = n + m;
        let rest = &buf[n..buf.len()];
        assert(rest@ =~= buf@.skip(n as int));
        assert(n == 0 ==> rest@ =~= buf@);
        let (y, m) = match <fixed>::try_deserialize(rest, fds) {
            Some(Ok(p)) => p,
            Some(Err(e)) => return Some(Err(e)),
            None => return None,
        };
        n = n + m;
        Some(Ok((motion { time, id, x, y }, n)))
    }
}

impl Codec for motion {
    open spec fn rt_ok(&self) -> bool {
        &&& self.time.rt_ok()
        &&& self.id.rt_ok()
        &&& self.x.rt_ok()
        &&& self.y.rt_ok()
    }

    proof fn lemma_roundtrip(&self, tail: Seq<u8>, base: Seq<Fd>) {
        let b0 = self.time.ser_bytes();
        let b1 = self.id.ser_bytes();
        let b2 = self.x.ser_bytes();
        let b3 = self.y.ser_bytes();
        let d0 = self.time.ser_fds();
        let d1 = self.id.ser_fds();
        let d2 = self.x.ser_fds();
        let d3 = self.y.ser_fds();
        let s4 = tail;
        let s3 = b3 + s4;
        let s2 = b2 + s3;
        let s1 = b1 + s2;
        let s0 = b0 + s1;
        let buf = self.ser_bytes() + tail;
        assert(buf =~= s0);
        assert(buf.skip(0) =~= s0);
        assert(self.ser_fds() =~= Seq::<Fd>::empty());
        assert(base + self.ser_fds().reverse() =~= base);
        assert(d0 =~= Seq::<Fd>::empty());
        assert(base + d0.reverse() =~= base);
        self.time.lemma_roundtrip(s1, base);
        assert(buf.skip((b0.len()) as int) == s1) by {
            lemma_skip_step(buf, (0) as int, b0, s1);
        }
        assert(d1 =~= Seq::<Fd>::empty());
        assert(base + d1.reverse() =~= base);
        self.id.lemma_roundtrip(s2, base);
        assert(buf.skip((b0.len() + b1.len()) as int) == s2) by {
            lemma_skip_step(buf, (b0.len()) as int, b1, s2);
        }
        assert(d2 =~= Seq::<Fd>::empty());
        assert(base + d2.reverse() =~= base);
        self.x.lemma_roundtrip(s3, base);
        assert(buf.skip((b0.len() + b1.len() + b2.len()) as int) == s3) by {
            lemma_skip_step(buf, (b0.len() + b1.len()) as int, b2, s3);
        }
        assert(d3 =~= Seq::<Fd>::empty());
        assert(base + d3.reverse() =~= base);
        self.y.lemma_roundtrip(s4, base);
    }
}

impl motion {
    /// The arguments are read in the protocol's order, `time`, then `id`, then `x`, then `y`: the bytes
    /// and descriptors written for such arguments, one after the other,
    /// decode to exactly those arguments.
    pub proof fn lemma_layout(time: u32, id: i32, x: fixed, y: fixed, rest: Seq<u8>, queue: Seq<Fd>)
        requires
            time.ser_ok(),
            time.rt_ok(),
            id.ser_ok(),
            id.rt_ok(),
            x.ser_ok(),
            x.rt_ok(),
            y.ser_ok(),
            y.rt_ok(),
            time.ser_bytes().len() + id.ser_bytes().len() + x.ser_bytes().len() + y.ser_bytes().len() <= usize::MAX,
        ensures
            ({
                let bytes = time.ser_bytes() + id.ser_bytes() + x.ser_bytes() + y.ser_bytes();
                let fds = time.ser_fds() + id.ser_fds() + x.ser_fds() + y.ser_fds();
                motion::dsr_spec(bytes + rest, queue + fds.reverse()) == Decoded::Value(
                    (time.deep_view(), id.deep_view(), x.deep_view(), y.deep_view(),),
                    bytes.len(),
                    queue,
                )
            }),
    {
        let m = motion { time, id, x, y };
        m.lemma_roundtrip(rest, queue);
    }

    /// The message creates no object.
    pub proof fn lemma_creates(&self)
        ensures
            self.created_id() is None,
    {
    }
}

impl Msg<Obj> for motion {
    open spec fn opcode() -> u16 {
        2
    }

    open spec fn since_version() -> u32 {
        1
    }

    open spec fn created_id(&self) -> Option<u32> {
        None
    }

    open spec fn created_destructor(&self) -> Option<u16> {
        None
    }

    fn op() -> (r: u16) {
        2
    }

    fn since() -> u32 {
        1
    }

    fn new_id(&self) -> (r: Option<(u32, ObjMeta)>) {
        None
    }
}

impl Event<Obj> for motion {

}

/// end of touch frame event
///
/// Indicates the end of a set of events that logically belong together.
/// A client is expected to accumulate the data in all events within the
/// frame before proceeding.
///
/// A wl_touch.frame terminates at least one event but otherwise no
/// guarantee is provided about the set of events within a frame. A client
/// must assume that any state not updated in a frame is unchanged from the
/// previously known state.
///
#[derive(Debug)]
pub struct frame {}

impl Ser for frame {
    open spec fn ser_ok(&self) -> bool {
        true
    }

    open spec fn ser_bytes(&self) -> Seq<u8> {
        Seq::empty()
    }

    open spec fn ser_fds(&self) -> Seq<Fd> {
        Seq::empty()
    }

    fn wire_len(&self) -> (n: usize) {
        0
    }

    fn checked_len(&self) -> (r: Option<usize>) {
        Some(0)
    }

    open spec fn ser_fits(&self, cap: int) -> bool {
        true
    }

    fn serialize(self, buf: &mut [u8], fds: &mut Vec<Fd>) -> (r: Result<usize, &'static str>) {
        assert(buf@ =~= write_at(old(buf)@, 0, Seq::<u8>::empty()));
        assert(fds@ =~= old(fds)@ + Seq::<Fd>::empty());
        Ok(0)
    }

    proof fn lemma_fits(&self, cap: int) {
    }
}

impl DeepView for frame {
    type V = ();

    open spec fn deep_view(&self) -> () {
        ()
    }
}

impl Dsr for frame {
    open spec fn dsr_spec(buf: Seq<u8>, fds: Seq<Fd>) -> Decoded<()> {
        Decoded::Value((), 0, fds)
    }

    fn try_deserialize(buf: &[u8], fds: &mut Vec<Fd>) -> (r: Option<Result<(frame, usize), &'static str>>) {
        Some(Ok((frame {}, 0)))
    }
}

impl Codec for frame {
    open spec fn rt_ok(&self) -> bool {
        true
    }

    proof fn lemma_roundtrip(&self, tail: Seq<u8>, base: Seq<Fd>) {
        assert(Seq::<Fd>::empty().reverse() =~= Seq::<Fd>::empty());
        assert(base + Seq::<Fd>::empty() =~= base);
    }
}

impl frame {
    /// The arguments are read in the protocol's order, no arguments: the bytes
    /// and descriptors written for such arguments, one after the other,
    /// decode to exactly those arguments.
    pub proof fn lemma_layout(rest: Seq<u8>, queue: Seq<Fd>)
        ensures
            ({
                let bytes = Seq::<u8>::empty();
                let fds = Seq::<Fd>::empty();
                frame::dsr_spec(bytes + rest, queue + fds.reverse()) == Decoded::Value(
                    (),
                    bytes.len(),
                    queue,
                )
            }),
    {
        let m = frame {};
        m.lemma_roundtrip(rest, queue);
    }

    /// The message creates no object.
    pub proof fn lemma_creates(&self)
        ensures
            self.created_id() is None,
    {
    }
}

impl Msg<Obj> for frame {
    open spec fn opcode() -> u16 {
        3
    }

    open spec fn since_version() -> u32 {
        1
    }

    open spec fn created_id(&self) -> Option<u32> {
        None
    }

    open spec fn created_destructor(&self) -> Option<u16> {
        None
    }

    fn op() -> (r: u16) {
        3
    }

    fn since() -> u32 {
        1
    }

    fn new_id(&self) -> (r: Option<(u32, ObjMeta)>) {
        None
    }
}

impl Event<Obj> for frame {

}

/// touch session cancelled
///
/// Sent if the compositor decides the touch stream is a global
/// gesture. No further events are sent to the clients from that
/// particular gesture. Touch cancellation applies to all touch points
/// currently active on this client's surface. The client is
/// responsible for finalizing the touch points, future touch points on
/// this surface may reuse the touch point ID.
///
#[derive(Debug)]
pub struct cancel {}

impl Ser for cancel {
    open spec fn ser_ok(&self) -> bool {
        true
    }

    open spec fn ser_bytes(&self) -> Seq<u8> {
        Seq::empty()
    }

    open spec fn ser_fds(&self) -> Seq<Fd> {
        Seq::empty()
    }

    fn wire_len(&self) -> (n: usize) {
        0
    }

    fn checked_len(&self) -> (r: Option<usize>) {
        Some(0)
    }

    open spec fn ser_fits(&self, cap: int) -> bool {
        true
    }

    fn serialize(self, buf: &mut [u8], fds: &mut Vec<Fd>) -> (r: Result<usize, &'static str>) {
        assert(buf@ =~= write_at(old(buf)@, 0, Seq::<u8>::empty()));
        assert(fds@ =~= old(fds)@ + Seq::<Fd>::empty());
        Ok(0)
    }

    proof fn lemma_fits(&self, cap: int) {
    }
}

impl DeepView for cancel {
    type V = ();

    open spec fn deep_view(&self) -> () {
        ()
    }
}

impl Dsr for cancel {
    open spec fn dsr_spec(buf: Seq<u8>, fds: Seq<Fd>) -> Decoded<()> {
        Decoded::Value((), 0, fds)
    }

    fn try_deserialize(buf: &[u8], fds: &mut Vec<Fd>) -> (r: Option<Result<(cancel, usize), &'static str>>) {
        Some(Ok((cancel {}, 0)))
    }
}

impl Codec for cancel {
    open spec fn rt_ok(&self) -> bool {
        true
    }

    proof fn lemma_roundtrip(&self, tail: Seq<u8>, base: Seq<Fd>) {
        assert(Seq::<Fd>::empty().reverse() =~= Seq::<Fd>::empty());
        assert(base + Seq::<Fd>::empty() =~= base);
    }
}

impl cancel {
    /// The arguments are read in the protocol's order, no arguments: the bytes
    /// and descriptors written for such arguments, one after the other,
    /// decode to exactly those arguments.
    pub proof fn lemma_layout(rest: Seq<u8>, queue: Seq<Fd>)
        ensures
            ({
                let bytes = Seq::<u8>::empty();
                let fds = Seq::<Fd>::empty();
                cancel::dsr_spec(bytes + rest, queue + fds.reverse()) == Decoded::Value(
                    (),
                    bytes.len(),
                    queue,
                )
            }),
    {
        let m = cancel {};
        m.lemma_roundtrip(rest, queue);
    }

    /// The message creates no object.
    pub proof fn lemma_creates(&self)
        ensures
            self.created_id() is None,
    {
    }
}

impl Msg<Obj> for cancel {
    open spec fn opcode() -> u16 {
        4
    }

    open spec fn since_version() -> u32 {
        1
    }

    open spec fn created_id(&self) -> Option<u32> {
        None
    }

    open spec fn created_destructor(&self) -> Option<u16> {
        None
    }

    fn op() -> (r: u16) {
        4
    }

    fn since() -> u32 {
        1
    }

    fn new_id(&self) -> (r: Option<(u32, ObjMeta)>) {
        None
    }
}

impl Event<Obj> for cancel {

}

/// update shape of touch point
///
/// Sent when a touchpoint has changed its shape.
///
/// This event does not occur on its own. It is sent before a
/// wl_touch.frame event and carries the new shape information for
/// any previously reported, or new touch points of that frame.
///
/// Other events describing the touch point such as wl_touch.down,
/// wl_touch.motion or wl_touch.orientation may be sent within the
/// same wl_touch.frame. A client should treat these events as a single
/// logical touch point update. The order of wl_touch.shape,
/// wl_touch.orientation and wl_touch.motion is not guaranteed.
/// A wl_touch.down event is guaranteed to occur before the first
/// wl_touch.shape event for this touch ID but both events may occur within
/// the same wl_touch.frame.
///
/// A touchpoint shape is approximated by an ellipse through the major and
/// minor axis length. The major axis length describes the longer diameter
/// of the ellipse, while the minor axis length describes the shorter
/// diameter. Major and minor are orthogonal and both are specified in
/// surface-local coordinates. The center of the ellipse is always at the
/// touchpoint location as reported by wl_touch.down or wl_touch.move.
///
/// This event is only sent by the compositor if the touch device supports
/// shape reports. The client has to make reasonable assumptions about the
/// shape if it did not receive this event.
///
#[derive(Debug)]
pub struct shape {
    // the unique ID of this touch point
    pub id: i32,
    // length of the major axis in surface-local coordinates
    pub major: fixed,
    // length of the minor axis in surface-local coordinates
    pub minor: fixed,
}

impl Ser for shape {
    open spec fn ser_ok(&self) -> bool {
        &&& self.id.ser_ok()
        &&& self.major.ser_ok()
        &&& self.minor.ser_ok()
        &&& self.ser_bytes().len() <= usize::MAX
    }

    open spec fn ser_bytes(&self) -> Seq<u8> {
        self.id.ser_bytes() + self.major.ser_bytes() + self.minor.ser_bytes()
    }

    open spec fn ser_fds(&self) -> Seq<Fd> {
        self.id.ser_fds() + self.major.ser_fds() + self.minor.ser_fds()
    }

    fn wire_len(&self) -> (n: usize) {
        self.id.wire_len() + self.major.wire_len() + self.minor.wire_len()
    }

    fn checked_len(&self) -> (r: Option<usize>) {
        let n0 = match self.id.checked_len() {
            Some(m) => m,
            None => return None,
        };
        let n1 = match self.major.checked_len() {
            Some(m) => match n0.checked_add(m) {
                Some(t) => t,
                None => return None,
            },
            None => return None,
        };
        let n2 = match self.minor.checked_len() {
            Some(m) => match n1.checked_add(m) {
                Some(t) => t,
                None => return None,
            },
            None => return None,
        };
        Some(n2)
    }

    open spec fn ser_fits(&self, cap: int) -> bool {
        &&& 0 <= cap && self.id.ser_fits(cap - (0))
        &&& self.id.ser_bytes().len() <= cap && self.major.ser_fits(cap - (self.id.ser_bytes().len()))
        &&& self.id.ser_bytes().len() + self.major.ser_bytes().len() <= cap && self.minor.ser_fits(cap - (self.id.ser_bytes().len() + self.major.ser_bytes().len()))
    }

    fn serialize(self, buf: &mut [u8], fds: &mut Vec<Fd>) -> (r: Result<usize, &'static str>) {
        let ghost me = self;
        let ghost b0 = buf@;
        let mut n: usize = 0;
        n = n + ser_at(self.id, buf, n, fds);
        assert(fds@ =~= old(fds)@ + me.id.ser_fds());
        n = n + ser_at(self.major, buf, n, fds);
        proof {
            lemma_write_then(b0, 0, me.id.ser_bytes(), me.major.ser_bytes());
        }
        assert(fds@ =~= old(fds)@ + me.id.ser_fds() + me.major.ser_fds());
        n = n + ser_at(self.minor, buf, n, fds);
        proof {
            lemma_write_then(b0, 0, me.id.ser_bytes() + me.major.ser_bytes(), me.minor.ser_bytes());
        }
        assert(fds@ =~= old(fds)@ + me.ser_fds());
        Ok(n)
    }

    proof fn lemma_fits(&self, cap: int) {
        self.id.lemma_fits(cap - (0));
        self.major.lemma_fits(cap - (self.id.ser_bytes().len()));
        self.minor.lemma_fits(cap - (self.id.ser_bytes().len() + self.major.ser_bytes().len()));
    }
}

impl DeepView for shape {
    type V = (<i32 as DeepView>::V, <fixed as DeepView>::V, <fixed as DeepView>::V,);

    open spec fn deep_view(&self) -> (<i32 as DeepView>::V, <fixed as DeepView>::V, <fixed as DeepView>::V,) {
        (self.id.deep_view(), self.major.deep_view(), self.minor.deep_view(),)
    }
}

impl Dsr for shape {
    open spec fn dsr_spec(buf: Seq<u8>, fds: Seq<Fd>) -> Decoded<(<i32 as DeepView>::V, <fixed as DeepView>::V, <fixed as DeepView>::V,)> {
        match <i32>::dsr_spec(buf, fds) {
            Decoded::Value(id, n0, q0) => {
                match <fixed>::dsr_spec(buf.skip(n0 as int), q0) {
                    Decoded::Value(major, m1, q1) => {
                        let n1 = n0 + m1;
                        match <fixed>::dsr_spec(buf.skip(n1 as int), q1) {
                            Decoded::Value(minor, m2, q2) => {
                                let n2 = n1 + m2;
                                Decoded::Value((id, major, minor,), n2, q2)
                            },
                            d => d.fail(),
                        }
                    },
                    d => d.fail(),
                }
            },
            d => d.fail(),
        }
    }

    fn try_deserialize(buf: &[u8], fds: &mut Vec<Fd>) -> (r: Option<Result<(shape, usize), &'static str>>) {
        let mut n: usize = 0;
        let rest = &buf[n..buf.len()];
        assert(rest@ =~= buf@.skip(n as int));
        assert(n == 0 ==> rest@ =~= buf@);
        let (id, m) = match <i32>::try_deserialize(rest, fds) {
            Some(Ok(p)) => p,
            Some(Err(e)) => return Some(Err(e)),
            None => return None,
        };
        n = n + m;
        let rest = &buf[n..buf.len()];
        assert(rest@ =~= buf@.skip(n as int));
        assert(n == 0 ==> rest@ =~= buf@);
        let (major, m) = match <fixed>::try_deserialize(rest, fds) {
            Some(Ok(p)) => p,
            Some(Err(e)) => return Some(Err(e)),
            None => return None,
        };
        n = n + m;
        let rest = &buf[n..buf.len()];
        assert(rest@ =~= buf@.skip(n as int));
        assert(n == 0 ==> rest@ =~= buf@);
        let (minor, m) = match <fixed>::try_deserialize(rest, fds) {
            Some(Ok(p)) => p,
            Some(Err(e)) => return Some(Err(e)),
            None => return None,
        };
        n = n + m;
        Some(Ok((shape { id, major, minor }, n)))
    }
}

impl Codec for shape {
    open spec fn rt_ok(&self) -> bool {
        &&& self.id.rt_ok()
        &&& self.major.rt_ok()
        &&& self.minor.rt_ok()
    }

    proof fn lemma_roundtrip(&self, tail: Seq<u8>, base: Seq<Fd>) {
        let b0 = self.id.ser_bytes();
        let b1 = self.major.ser_bytes();
        let b2 = self.minor.ser_bytes();
        let d0 = self.id.ser_fds();
        let d1 = self.major.ser_fds();
        let d2 = self.minor.ser_fds();
        let s3 = tail;
        let s2 = b2 + s3;
        let s1 = b1 + s2;
        let s0 = b0 + s1;
        let buf = self.ser_bytes() + tail;
        assert(buf =~= s0);
        assert(buf.skip(0) =~= s0);
        assert(self.ser_fds() =~= Seq::<Fd>::empty());
        assert(base + self.ser_fds().reverse() =~= base);
        assert(d0 =~= Seq::<Fd>::empty());
        assert(base + d0.reverse() =~= base);
        self.id.lemma_roundtrip(s1, base);
        assert(buf.skip((b0.len()) as int) == s1) by {
            lemma_skip_step(buf, (0) as int, b0, s1);
        }
        assert(d1 =~= Seq::<Fd>::empty());
        assert(base + d1.reverse() =~= base);
        self.major.lemma_roundtrip(s2, base);
        assert(buf.skip((b0.len() + b1.len()) as int) == s2) by {
            lemma_skip_step(buf, (b0.len()) as int, b1, s2);
        }
        assert(d2 =~= Seq::<Fd>::empty());
        assert(base + d2.reverse() =~= base);
        self.minor.lemma_roundtrip(s3, base);
    }
}

impl shape {
    /// The arguments are read in the protocol's order, `id`, then `major`, then `minor`: the bytes
    /// and descriptors written for such arguments, one after the other,
    /// decode to exactly those arguments.
    pub proof fn lemma_layout(id: i32, major: fixed, minor: fixed, rest: Seq<u8>, queue: Seq<Fd>)
        requires
            id.ser_ok(),
            id.rt_ok(),
            major.ser_ok(),
            major.rt_ok(),
            minor.ser_ok(),
            minor.rt_ok(),
            id.ser_bytes().len() + major.ser_bytes().len() + minor.ser_bytes().len() <= usize::MAX,
        ensures
            ({
                let bytes = id.ser_bytes() + major.ser_bytes() + minor.ser_bytes();
                let fds = id.ser_fds() + major.ser_fds() + minor.ser_fds();
                shape::dsr_spec(bytes + rest, queue + fds.reverse()) == Decoded::Value(
                    (id.deep_view(), major.deep_view(), minor.deep_view(),),
                    bytes.len(),
                    queue,
                )
            }),
    {
        let m = shape { id, major, minor };
        m.lemma_roundtrip(rest, queue);
    }

    /// The message creates no object.
    pub proof fn lemma_creates(&self)
        ensures
            self.created_id() is None,
    {
    }
}

impl Msg<Obj> for shape {
    open spec fn opcode() -> u16 {
        5
    }

    open spec fn since_version() -> u32 {
        1
    }

    open spec fn created_id(&self) -> Option<u32> {
        None
    }

    open spec fn created_destructor(&self) -> Option<u16> {
        None
    }

    fn op() -> (r: u16) {
        5
    }

    fn since() -> u32 {
        1
    }

    fn new_id(&self) -> (r: Option<(u32, ObjMeta)>) {
        None
    }
}

impl Event<Obj> for shape {

}

/// update orientation of touch point
///
/// Sent when a touchpoint has changed its orientation.
///
/// This event does not occur on its own. It is sent before a
/// wl_touch.frame event and carries the new shape information for
/// any previously reported, or new touch points of that frame.
///
/// Other events describing the touch point such as wl_touch.down,
/// wl_touch.motion or wl_touch.shape may be sent within the
/// same wl_touch.frame. A client should treat these events as a single
/// logical touch point update. The order of wl_touch.shape,
/// wl_touch.orientation and wl_touch.motion is not guaranteed.
/// A wl_touch.down event is guaranteed to occur before the first
/// wl_touch.orientation event for this touch ID but both events may occur
/// within the same wl_touch.frame.
///
/// The orientation describes the clockwise angle of a touchpoint's major
/// axis to the positive surface y-axis and is normalized to the -180 to
/// +180 degree range. The granularity of orientation depends on the touch
/// device, some devices only support binary rotation values between 0 and
/// 90 degrees.
///
/// This event is only sent by the compositor if the touch device supports
/// orientation reports.
///
#[derive(Debug)]
pub struct orientation {
    // the unique ID of this touch point
    pub id: i32,
    // angle between major axis and positive surface y-axis in degrees
    pub orientation: fixed,
}

impl Ser for orientation {
    open spec fn ser_ok(&self) -> bool {
        &&& self.id.ser_ok()
        &&& self.orientation.ser_ok()
        &&& self.ser_bytes().len() <= usize::MAX
    }

    open spec fn ser_bytes(&self) -> Seq<u8> {
        self.id.ser_bytes() + self.orientation.ser_bytes()
    }

    open spec fn ser_fds(&self) -> Seq<Fd> {
        self.id.ser_fds() + self.orientation.ser_fds()
    }

    fn wire_len(&self) -> (n: usize) {
        self.id.wire_len() + self.orientation.wire_len()
    }

    fn checked_len(&self) -> (r: Option<usize>) {
        let n0 = match self.id.checked_len() {
            Some(m) => m,
            None => return None,
        };
        let n1 = match self.orientation.checked_len() {
            Some(m) => match n0.checked_add(m) {
                Some(t) => t,
                None => return None,
            },
            None => return None,
        };
        Some(n1)
    }

    open spec fn ser_fits(&self, cap: int) -> bool {
        &&& 0 <= cap && self.id.ser_fits(cap - (0))
        &&& self.id.ser_bytes().len() <= cap && self.orientation.ser_fits(cap - (self.id.ser_bytes().len()))
    }

    fn serialize(self, buf: &mut [u8], fds: &mut Vec<Fd>) -> (r: Result<usize, &'static str>) {
        let ghost me = self;
        let ghost b0 = buf@;
        let mut n: usize = 0;
        n = n + ser_at(self.id, buf, n, fds);
        assert(fds@ =~= old(fds)@ + me.id.ser_fds());
        n = n + ser_at(self.orientation, buf, n, fds);
        proof {
            lemma_write_then(b0, 0, me.id.ser_bytes(), me.orientation.ser_bytes());
        }
        assert(fds@ =~= old(fds)@ + me.ser_fds());
        Ok(n)
    }

    proof fn lemma_fits(&self, cap: int) {
        self.id.lemma_fits(cap - (0));
        self.orientation.lemma_fits(cap - (self.id.ser_bytes().len()));
    }
}

impl DeepView for orientation {
    type V = (<i32 as DeepView>::V, <fixed as DeepView>::V,);

    open spec fn deep_view(&self) -> (<i32 as DeepView>::V, <fixed as DeepView>::V,) {
        (self.id.deep_view(), self.orientation.deep_view(),)
    }
}

impl Dsr for orientation {
    open spec fn dsr_spec(buf: Seq<u8>, fds: Seq<Fd>) -> Decoded<(<i32 as DeepView>::V, <fixed as DeepView>::V,)> {
        match <i32>::dsr_spec(buf, fds) {
            Decoded::Value(id, n0, q0) => {
                match <fixed>::dsr_spec(buf.skip(n0 as int), q0) {
                    Decoded::Value(orientation, m1, q1) => {
                        let n1 = n0 + m1;
                        Decoded::Value((id, orientation,), n1, q1)
                    },
                    d => d.fail(),
                }
            },
            d => d.fail(),
        }
    }

    fn try_deserialize(buf: &[u8], fds: &mut Vec<Fd>) -> (r: Option<Result<(orientation, usize), &'static str>>) {
        let mut n: usize = 0;
        let rest = &buf[n..buf.len()];
        assert(rest@ =~= buf@.skip(n as int));
        assert(n == 0 ==> rest@ =~= buf@);
        let (id, m) = match <i32>::try_deserialize(rest, fds) {
            Some(Ok(p)) => p,
            Some(Err(e)) => return Some(Err(e)),
            None => return None,
        };
        n = n + m;
        let rest = &buf[n..buf.len()];
        assert(rest@ =~= buf@.skip(n as int));
        assert(n == 0 ==> rest@ =~= buf@);
        let (orientation, m) = match <fixed>::try_deserialize(rest, fds) {
            Some(Ok(p)) => p,
            Some(Err(e)) => return Some(Err(e)),
            None => return None,
        };
        n = n + m;
        Some(Ok((orientation { id, orientation }, n)))
    }
}

impl Codec for orientation {
    open spec fn rt_ok(&self) -> bool {
        &&& self.id.rt_ok()
        &&& self.orientation.rt_ok()
    }

    proof fn lemma_roundtrip(&self, tail: Seq<u8>, base: Seq<Fd>) {
        let b0 = self.id.ser_bytes();
        let b1 = self.orientation.ser_bytes();
        let d0 = self.id.ser_fds();
        let d1 = self.orientation.ser_fds();
        let s2 = tail;
        let s1 = b1 + s2;
        let s0 = b0 + s1;
        let buf = self.ser_bytes() + tail;
        assert(buf =~= s0);
        assert(buf.skip(0) =~= s0);
        assert(self.ser_fds() =~= Seq::<Fd>::empty());
        assert(base + self.ser_fds().reverse() =~= base);
        assert(d0 =~= Seq::<Fd>::empty());
        assert(base + d0.reverse() =~= base);
        self.id.lemma_roundtrip(s1, base);
        assert(buf.skip((b0.len()) as int) == s1) by {
            lemma_skip_step(buf, (0) as int, b0, s1);
        }
        assert(d1 =~= Seq::<Fd>::empty());
        assert(base + d1.reverse() =~= base);
        self.orientation.lemma_roundtrip(s2, base);
    }
}

impl orientation {
    /// The arguments are read in the protocol's order, `id`, then `orientation`: the bytes
    /// and descriptors written for such arguments, one after the other,
    /// decode to exactly those arguments.
    pub proof fn lemma_layout(id: i32, orientation: fixed, rest: Seq<u8>, queue: Seq<Fd>)
        requires
            id.ser_ok(),
            id.rt_ok(),
            orientation.ser_ok(),
            orientation.rt_ok(),
            id.ser_bytes().len() + orientation.ser_bytes().len() <= usize::MAX,
        ensures
            ({
                let bytes = id.ser_bytes() + orientation.ser_bytes();
                let fds = id.ser_fds() + orientation.ser_fds();
                orientation::dsr_spec(bytes + rest, queue + fds.reverse()) == Decoded::Value(
                    (id.deep_view(), orientation.deep_view(),),
                    bytes.len(),
                    queue,
                )
            }),
    {
        let m = orientation { id, orientation };
        m.lemma_roundtrip(rest, queue);
    }

    /// The message creates no object.
    pub proof fn lemma_creates(&self)
        ensures
            self.created_id() is None,
    {
    }
}

impl Msg<Obj> for orientation {
    open spec fn opcode() -> u16 {
        6
    }

    open spec fn since_version() -> u32 {
        1
    }

    open spec fn created_id(&self) -> Option<u32> {
        None
    }

    open spec fn created_destructor(&self) -> Option<u16> {
        None
    }

    fn op() -> (r: u16) {
        6
    }

    fn since() -> u32 {
        1
    }

    fn new_id(&self) -> (r: Option<(u32, ObjMeta)>) {
        None
    }
}

impl Event<Obj> for orientation {

}

/// The opcode of each event: its index in the protocol's list of the
/// interface's events, so that no two events share one.
pub proof fn lemma_opcodes()
    ensures
        <down as Msg<Obj>>::opcode() == 0,
        <up as Msg<Obj>>::opcode() == 1,
        <motion as Msg<Obj>>::opcode() == 2,
        <frame as Msg<Obj>>::opcode() == 3,
        <cancel as Msg<Obj>>::opcode() == 4,
        <shape as Msg<Obj>>::opcode() == 5,
        <orientation as Msg<Obj>>::opcode() == 6,
        <down as Msg<Obj>>::opcode() != <up as Msg<Obj>>::opcode(),
        <down as Msg<Obj>>::opcode() != <motion as Msg<Obj>>::opcode(),
        <down as Msg<Obj>>::opcode() != <frame as Msg<Obj>>::opcode(),
        <down as Msg<Obj>>::opcode() != <cancel as Msg<Obj>>::opcode(),
        <down as Msg<Obj>>::opcode() != <shape as Msg<Obj>>::opcode(),
        <down as Msg<Obj>>::opcode() != <orientation as Msg<Obj>>::opcode(),
        <up as Msg<Obj>>::opcode() != <motion as Msg<Obj>>::opcode(),
        <up as Msg<Obj>>::opcode() != <frame as Msg<Obj>>::opcode(),
        <up as Msg<Obj>>::opcode() != <cancel as Msg<Obj>>::opcode(),
        <up as Msg<Obj>>::opcode() != <shape as Msg<Obj>>::opcode(),
        <up as Msg<Obj>>::opcode() != <orientation as Msg<Obj>>::opcode(),
        <motion as Msg<Obj>>::opcode() != <frame as Msg<Obj>>::opcode(),
        <motion as Msg<Obj>>::opcode() != <cancel as Msg<Obj>>::opcode(),
        <motion as Msg<Obj>>::opcode() != <shape as Msg<Obj>>::opcode(),
        <motion as Msg<Obj>>::opcode() != <orientation as Msg<Obj>>::opcode(),
        <frame as Msg<Obj>>::opcode() != <cancel as Msg<Obj>>::opcode(),
        <frame as Msg<Obj>>::opcode() != <shape as Msg<Obj>>::opcode(),
        <frame as Msg<Obj>>::opcode() != <orientation as Msg<Obj>>::opcode(),
        <cancel as Msg<Obj>>::opcode() != <shape as Msg<Obj>>::opcode(),
        <cancel as Msg<Obj>>::opcode() != <orientation as Msg<Obj>>::opcode(),
        <shape as Msg<Obj>>::opcode() != <orientation as Msg<Obj>>::opcode(),
{
}

} // verus!
