use vstd::prelude::*;
use crate::objects::{type_id_of, new_id, object, Dyn, ObjMeta, Object, Msg, Event};
use crate::wire::{ser_at, write_at, lemma_write_then, lemma_reverse_add, lemma_skip_step, fixed, Codec, Decoded, Dsr, Fd, Ser};
use super::Obj;

verus! {

/// enter event
///
/// Notification that this seat's pointer is focused on a certain
/// surface.
///
/// When a seat's focus enters a surface, the pointer image
/// is undefined and a client should respond to this event by setting
/// an appropriate pointer image with the set_cursor request.
///
#[derive(Debug)]
pub struct enter {
    // serial number of the enter event
    pub serial: u32,
    // surface entered by the pointer
    pub surface: object<crate::wl_surface::Obj>,
    // surface-local x coordinate
    pub surface_x: fixed,
    // surface-local y coordinate
    pub surface_y: fixed,
}

impl Ser for enter {
    open spec fn ser_ok(&self) -> bool {
        &&& self.serial.ser_ok()
        &&& self.surface.ser_ok()
        &&& self.surface_x.ser_ok()
        &&& self.surface_y.ser_ok()
        &&& self.ser_bytes().len() <= usize::MAX
    }

    open spec fn ser_bytes(&self) -> Seq<u8> {
        self.serial.ser_bytes() + self.surface.ser_bytes() + self.surface_x.ser_bytes() + self.surface_y.ser_bytes()
    }

    open spec fn ser_fds(&self) -> Seq<Fd> {
        self.serial.ser_fds() + self.surface.ser_fds() + self.surface_x.ser_fds() + self.surface_y.ser_fds()
    }

    fn wire_len(&self) -> (n: usize) {
        self.serial.wire_len() + self.surface.wire_len() + self.surface_x.wire_len() + self.surface_y.wire_len()
    }

    fn checked_len(&self) -> (r: Option<usize>) {
        let n0 = match self.serial.checked_len() {
            Some(m) => m,
            None => return None,
        };
        let n1 = match self.surface.checked_len() {
            Some(m) => match n0.checked_add(m) {
                Some(t) => t,
                None => return None,
            },
            None => return None,
        };
        let n2 = match self.surface_x.checked_len() {
            Some(m) => match n1.checked_add(m) {
                Some(t) => t,
                None => return None,
            },
            None => return None,
        };
        let n3 = match self.surface_y.checked_len() {
            Some(m) => match n2.checked_add(m) {
                Some(t) => t,
                None => return None,
            },
            None => return None,
        };
        Some(n3)
    }

    open spec fn ser_fits(&self, cap: int) -> bool {
        &&& 0 <= cap && self.serial.ser_fits(cap - (0))
        &&& self.serial.ser_bytes().len() <= cap && self.surface.ser_fits(cap - (self.serial.ser_bytes().len()))
        &&& self.serial.ser_bytes().len() + self.surface.ser_bytes().len() <= cap && self.surface_x.ser_fits(cap - (self.serial.ser_bytes().len() + self.surface.ser_bytes().len()))
        &&& self.serial.ser_bytes().len() + self.surface.ser_bytes().len() + self.surface_x.ser_bytes().len() <= cap && self.surface_y.ser_fits(cap - (self.serial.ser_bytes().len() + self.surface.ser_bytes().len() + self.surface_x.ser_bytes().len()))
    }

    fn serialize(self, buf: &mut [u8], fds: &mut Vec<Fd>) -> (r: Result<usize, &'static str>) {
        let ghost me = self;
        let ghost b0 = buf@;
        let mut n: usize = 0;
        n = n + ser_at(self.serial, buf, n, fds);
        assert(fds@ =~= old(fds)@ + me.serial.ser_fds());
        n = n + ser_at(self.surface, buf, n, fds);
        proof {
            lemma_write_then(b0, 0, me.serial.ser_bytes(), me.surface.ser_bytes());
        }
        assert(fds@ =~= old(fds)@ + me.serial.ser_fds() + me.surface.ser_fds());
        n = n + ser_at(self.surface_x, buf, n, fds);
        proof {
            lemma_write_then(b0, 0, me.serial.ser_bytes() + me.surface.ser_bytes(), me.surface_x.ser_bytes());
        }
        assert(fds@ =~= old(fds)@ + me.serial.ser_fds() + me.surface.ser_fds() + me.surface_x.ser_fds());
        n = n + ser_at(self.surface_y, buf, n, fds);
        proof {
            lemma_write_then(b0, 0, me.serial.ser_bytes() + me.surface.ser_bytes() + me.surface_x.ser_bytes(), me.surface_y.ser_bytes());
        }
        assert(fds@ =~= old(fds)@ + me.ser_fds());
        Ok(n)
    }

    proof fn lemma_fits(&self, cap: int) {
        self.serial.lemma_fits(cap - (0));
        self.surface.lemma_fits(cap - (self.serial.ser_bytes().len()));
        self.surface_x.lemma_fits(cap - (self.serial.ser_bytes().len() + self.surface.ser_bytes().len()));
        self.surface_y.lemma_fits(cap - (self.serial.ser_bytes().len() + self.surface.ser_bytes().len() + self.surface_x.ser_bytes().len()));
    }
}

impl DeepView for enter {
    type V = (<u32 as DeepView>::V, <object<crate::wl_surface::Obj> as DeepView>::V, <fixed as DeepView>::V, <fixed as DeepView>::V,);

    open spec fn deep_view(&self) -> (<u32 as DeepView>::V, <object<crate::wl_surface::Obj> as DeepView>::V, <fixed as DeepView>::V, <fixed as DeepView>::V,) {
        (self.serial.deep_view(), self.surface.deep_view(), self.surface_x.deep_view(), self.surface_y.deep_view(),)
    }
}

impl Dsr for enter {
    open spec fn dsr_spec(buf: Seq<u8>, fds: Seq<Fd>) -> Decoded<(<u32 as DeepView>::V, <object<crate::wl_surface::Obj> as DeepView>::V, <fixed as DeepView>::V, <fixed as DeepView>::V,)> {
        match <u32>::dsr_spec(buf, fds) {
            Decoded::Value(serial, n0, q0) => {
                match <object<crate::wl_surface::Obj>>::dsr_spec(buf.skip(n0 as int), q0) {
                    Decoded::Value(surface, m1, q1) => {
                        let n1 = n0 + m1;
                        match <fixed>::dsr_spec(buf.skip(n1 as int), q1) {
                            Decoded::Value(surface_x, m2, q2) => {
                                let n2 = n1 + m2;
                                match <fixed>::dsr_spec(buf.skip(n2 as int), q2) {
                                    Decoded::Value(surface_y, m3, q3) => {
                                        let n3 = n2 + m3;
                                        Decoded::Value((serial, surface, surface_x, surface_y,), n3, q3)
                                    },
                                    d => d.fail(),
                                }
                            },
                            d => d.fail(),
                        }
                    },
                    d => d.fail(),
                }
            },
            d => d.fail(),
        }
    }

    fn try_deserialize(buf: &[u8], fds: &mut Vec<Fd>) -> (r: Option<Result<(enter, usize), &'static str>>) {
        let mut n: usize = 0;
        let rest = &buf[n..buf.len()];
        assert(rest@ =~= buf@.skip(n as int));
        assert(n == 0 ==> rest@ =~= buf@);
        let (serial, m) = match <u32>::try_deserialize(rest, fds) {
            Some(Ok(p)) => p,
            Some(Err(e)) => return Some(Err(e)),
            None => return None,
        };
        n = n + m;
        let rest = &buf[n..buf.len()];
        assert(rest@ =~= buf@.skip(n as int));
        assert(n == 0 ==> rest@ =~= buf@);
        let (surface, m) = match <object<crate::wl_surface::Obj>>::try_deserialize(rest, fds) {
            Some(Ok(p)) => p,
            Some(Err(e)) => return Some(Err(e)),
            None => return None,
        };
        n = n + m;
        let rest = &buf[n..buf.len()];
        assert(rest@ =~= buf@.skip(n as int));
        assert(n == 0 ==> rest@ =~= buf@);
        let (surface_x, m) = match <fixed>::try_deserialize(rest, fds) {
            Some(Ok(p)) => p,
            Some(Err(e)) => return Some(Err(e)),
            None => return None,
        };
        n = n + m;
        let rest = &buf[n..buf.len()];
        assert(rest@ =~= buf@.skip(n as int));
        assert(n == 0 ==> rest@ =~= buf@);
        let (surface_y, m) = match <fixed>::try_deserialize(rest, fds) {
            Some(Ok(p)) => p,
            Some(Err(e)) => return Some(Err(e)),
            None => return None,
        };
        n = n + m;
        Some(Ok((enter { serial, surface, surface_x, surface_y }, n)))
    }
}

impl Codec for enter {
    open spec fn rt_ok(&self) -> bool {
        &&& self.serial.rt_ok()
        &&& self.surface.rt_ok()
        &&& self.surface_x.rt_ok()
        &&& self.surface_y.rt_ok()
    }

    proof fn lemma_roundtrip(&self, tail: Seq<u8>, base: Seq<Fd>) {
        let b0 = self.serial.ser_bytes();
        let b1 = self.surface.ser_bytes();
        let b2 = self.surface_x.ser_bytes();
        let b3 = self.surface_y.ser_bytes();
        let d0 = self.serial.ser_fds();
        let d1 = self.surface.ser_fds();
        let d2 = self.surface_x.ser_fds();
        let d3 = self.surface_y.ser_fds();
        let s4 = tail;
        let s3 = b3 + s4;
        let s2 = b2 + s3;
        let s1 = b1 + s2;
        let s0 = b0 + s1;
        let buf = self.ser_bytes() + tail;
        assert(buf =~= s0);
        assert(buf.skip(0) =~= s0);
        assert(self.ser_fds() =~= Seq::<Fd>::empty());
        assert(base + self.ser_fds().reverse() =~= base);
        assert(d0 =~= Seq::<Fd>::empty());
        assert(base + d0.reverse() =~= base);
        self.serial.lemma_roundtrip(s1, base);
        assert(buf.skip((b0.len()) as int) == s1) by {
            lemma_skip_step(buf, (0) as int, b0, s1);
        }
        assert(d1 =~= Seq::<Fd>::empty());
        assert(base + d1.reverse() =~= base);
        self.surface.lemma_roundtrip(s2, base);
        assert(buf.skip((b0.len() + b1.len()) as int) == s2) by {
            lemma_skip_step(buf, (b0.len()) as int, b1, s2);
        }
        assert(d2 =~= Seq::<Fd>::empty());
        assert(base + d2.reverse() =~= base);
        self.surface_x.lemma_roundtrip(s3, base);
        assert(buf.skip((b0.len() + b1.len() + b2.len()) as int) == s3) by {
            lemma_skip_step(buf, (b0.len() + b1.len()) as int, b2, s3);
        }
        assert(d3 =~= Seq::<Fd>::empty());
        assert(base + d3.reverse() =~= base);
        self.surface_y.lemma_roundtrip(s4, base);
    }
}

impl enter {
    /// The arguments are read in the protocol's order, `serial`, then `surface`, then `surface_x`, then `surface_y`: the bytes
    /// and descriptors written for such arguments, one after the other,
    /// decode to exactly those arguments.
    pub proof fn lemma_layout(serial: u32, surface: object<crate::wl_surface::Obj>, surface_x: fixed, surface_y: fixed, rest: Seq<u8>, queue: Seq<Fd>)
        requires
            serial.ser_ok(),
            serial.rt_ok(),
            surface.ser_ok(),
            surface.rt_ok(),
            surface_x.ser_ok(),
            surface_x.rt_ok(),
            surface_y.ser_ok(),
            surface_y.rt_ok(),
            serial.ser_bytes().len() + surface.ser_bytes().len() + surface_x.ser_bytes().len() + surface_y.ser_bytes().len() <= usize::MAX,
        ensures
            ({
                let bytes = serial.ser_bytes() + surface.ser_bytes() + surface_x.ser_bytes() + surface_y.ser_bytes();
                let fds = serial.ser_fds() + surface.ser_fds() + surface_x.ser_fds() + surface_y.ser_fds();
                enter::dsr_spec(bytes + rest, queue + fds.reverse()) == Decoded::Value(
                    (serial.deep_view(), surface.deep_view(), surface_x.deep_view(), surface_y.deep_view(),),
                    bytes.len(),
                    queue,
                )
            }),
    {
        let m = enter { serial, surface, surface_x, surface_y };
        m.lemma_roundtrip(rest, queue);
    }

    /// The message creates no object.
    pub proof fn lemma_creates(&self)
        ensures
            self.created_id() is None,
    {
    }
}

impl Msg<Obj> for enter {
    open spec fn opcode() -> u16 {
        0
    }

    open spec fn since_version() -> u32 {
        1
    }

    open spec fn created_id(&self) -> Option<u32> {
        None
    }

    open spec fn created_destructor(&self) -> Option<u16> {
        None
    }

    fn op() -> (r: u16) {
        0
    }

    fn since() -> u32 {
        1
    }

    fn new_id(&self) -> (r: Option<(u32, ObjMeta)>) {
        None
    }
}

impl Event<Obj> for enter {

}

/// leave event
///
/// Notification that this seat's pointer is no longer focused on
/// a certain surface.
///
/// The leave notification is sent before the enter notification
/// for the new focus.
///
#[derive(Debug)]
pub struct leave {
    // serial number of the leave event
    pub serial: u32,
    // surface left by the pointer
    pub surface: object<crate::wl_surface::Obj>,
}

impl Ser for leave {
    open spec fn ser_ok(&self) -> bool {
        &&& self.serial.ser_ok()
        &&& self.surface.ser_ok()
        &&& self.ser_bytes().len() <= usize::MAX
    }

    open spec fn ser_bytes(&self) -> Seq<u8> {
        self.serial.ser_bytes() + self.surface.ser_bytes()
    }

    open spec fn ser_fds(&self) -> Seq<Fd> {
        self.serial.ser_fds() + self.surface.ser_fds()
    }

    fn wire_len(&self) -> (n: usize) {
        self.serial.wire_len() + self.surface.wire_len()
    }

    fn checked_len(&self) -> (r: Option<usize>) {
        let n0 = match self.serial.checked_len() {
            Some(m) => m,
            None => return None,
        };
        let n1 = match self.surface.checked_len() {
            Some(m) => match n0.checked_add(m) {
                Some(t) => t,
                None => return None,
            },
            None => return None,
        };
        Some(n1)
    }

    open spec fn ser_fits(&self, cap: int) -> bool {
        &&& 0 <= cap && self.serial.ser_fits(cap - (0))
        &&& self.serial.ser_bytes().len() <= cap && self.surface.ser_fits(cap - (self.serial.ser_bytes().len()))
    }

    fn serialize(self, buf: &mut [u8], fds: &mut Vec<Fd>) -> (r: Result<usize, &'static str>) {
        let ghost me = self;
        let ghost b0 = buf@;
        let mut n: usize = 0;
        n = n + ser_at(self.serial, buf, n, fds);
        assert(fds@ =~= old(fds)@ + me.serial.ser_fds());
        n = n + ser_at(self.surface, buf, n, fds);
        proof {
            lemma_write_then(b0, 0, me.serial.ser_bytes(), me.surface.ser_bytes());
        }
        assert(fds@ =~= old(fds)@ + me.ser_fds());
        Ok(n)
    }

    proof fn lemma_fits(&self, cap: int) {
        self.serial.lemma_fits(cap - (0));
        self.surface.lemma_fits(cap - (self.serial.ser_bytes().len()));
    }
}

impl DeepView for leave {
    type V = (<u32 as DeepView>::V, <object<crate::wl_surface::Obj> as DeepView>::V,);

    open spec fn deep_view(&self) -> (<u32 as DeepView>::V, <object<crate::wl_surface::Obj> as DeepView>::V,) {
        (self.serial.deep_view(), self.surface.deep_view(),)
    }
}

impl Dsr for leave {
    open spec fn dsr_spec(buf: Seq<u8>, fds: Seq<Fd>) -> Decoded<(<u32 as DeepView>::V, <object<crate::wl_surface::Obj> as DeepView>::V,)> {
        match <u32>::dsr_spec(buf, fds) {
            Decoded::Value(serial, n0, q0) => {
                match <object<crate::wl_surface::Obj>>::dsr_spec(buf.skip(n0 as int), q0) {
                    Decoded::Value(surface, m1, q1) => {
                        let n1 = n0 + m1;
                        Decoded::Value((serial, surface,), n1, q1)
                    },
                    d => d.fail(),
                }
            },
            d => d.fail(),
        }
    }

    fn try_deserialize(buf: &[u8], fds: &mut Vec<Fd>) -> (r: Option<Result<(leave, usize), &'static str>>) {
        let mut n: usize = 0;
        let rest = &buf[n..buf.len()];
        assert(rest@ =~= buf@.skip(n as int));
        assert(n == 0 ==> rest@ =~= buf@);
        let (serial, m) = match <u32>::try_deserialize(rest, fds) {
            Some(Ok(p)) => p,
            Some(Err(e)) => return Some(Err(e)),
            None => return None,
        };
        n = n + m;
        let rest = &buf[n..buf.len()];
        assert(rest@ =~= buf@.skip(n as int));
        assert(n == 0 ==> rest@ =~= buf@);
        let (surface, m) = match <object<crate::wl_surface::Obj>>::try_deserialize(rest, fds) {
            Some(Ok(p)) => p,
            Some(Err(e)) => return Some(Err(e)),
            None => return None,
        };
        n = n + m;
        Some(Ok((leave { serial, surface }, n)))
    }
}

impl Codec for leave {
    open spec fn rt_ok(&self) -> bool {
        &&& self.serial.rt_ok()
        &&& self.surface.rt_ok()
    }

    proof fn lemma_roundtrip(&self, tail: Seq<u8>, base: Seq<Fd>) {
        let b0 = self.serial.ser_bytes();
        let b1 = self.surface.ser_bytes();
        let d0 = self.serial.ser_fds();
        let d1 = self.surface.ser_fds();
        let s2 = tail;
        let s1 = b1 + s2;
        let s0 = b0 + s1;
        let buf = self.ser_bytes() + tail;
        assert(buf =~= s0);
        assert(buf.skip(0) =~= s0);
        assert(self.ser_fds() =~= Seq::<Fd>::empty());
        assert(base + self.ser_fds().reverse() =~= base);
        assert(d0 =~= Seq::<Fd>::empty());
        assert(base + d0.reverse() =~= base);
        self.serial.lemma_roundtrip(s1, base);
        assert(buf.skip((b0.len()) as int) == s1) by {
            lemma_skip_step(buf, (0) as int, b0, s1);
        }
        assert(d1 =~= Seq::<Fd>::empty());
        assert(base + d1.reverse() =~= base);
        self.surface.lemma_roundtrip(s2, base);
    }
}

impl leave {
    /// The arguments are read in the protocol's order, `serial`, then `surface`: the bytes
    /// and descriptors written for such arguments, one after the other,
    /// decode to exactly those arguments.
    pub proof fn lemma_layout(serial: u32, surface: object<crate::wl_surface::Obj>, rest: Seq<u8>, queue: Seq<Fd>)
        requires
            serial.ser_ok(),
            serial.rt_ok(),
            surface.ser_ok(),
            surface.rt_ok(),
            serial.ser_bytes().len() + surface.ser_bytes().len() <= usize::MAX,
        ensures
            ({
                let bytes = serial.ser_bytes() + surface.ser_bytes();
                let fds = serial.ser_fds() + surface.ser_fds();
                leave::dsr_spec(bytes + rest, queue + fds.reverse()) == Decoded::Value(
                    (serial.deep_view(), surface.deep_view(),),
                    bytes.len(),
                    queue,
                )
            }),
    {
        let m = leave { serial, surface };
        m.lemma_roundtrip(rest, queue);
    }

    /// The message creates no object.
    pub proof fn lemma_creates(&self)
        ensures
            self.created_id() is None,
    {
    }
}

impl Msg<Obj> for leave {
    open spec fn opcode() -> u16 {
        1
    }

    open spec fn since_version() -> u32 {
        1
    }

    open spec fn created_id(&self) -> Option<u32> {
        None
    }

    open spec fn created_destructor(&self) -> Option<u16> {
        None
    }

    fn op() -> (r: u16) {
        1
    }

    fn since() -> u32 {
        1
    }

    fn new_id(&self) -> (r: Option<(u32, ObjMeta)>) {
        None
    }
}

impl Event<Obj> for leave {

}

/// pointer motion event
///
/// Notification of pointer location change. The arguments
/// surface_x and surface_y are the location relative to the
/// focused surface.
///
#[derive(Debug)]
pub struct motion {
    // timestamp with millisecond granularity
    pub time: u32,
    // surface-local x coordinate
    pub surface_x: fixed,
    // surface-local y coordinate
    pub surface_y: fixed,
}

impl Ser for motion {
    open spec fn ser_ok(&self) -> bool {
        &&& self.time.ser_ok()
        &&& self.surface_x.ser_ok()
        &&& self.surface_y.ser_ok()
        &&& self.ser_bytes().len() <= usize::MAX
    }

    open spec fn ser_bytes(&self) -> Seq<u8> {
        self.time.ser_bytes() + self.surface_x.ser_bytes() + self.surface_y.ser_bytes()
    }

    open spec fn ser_fds(&self) -> Seq<Fd> {
        self.time.ser_fds() + self.surface_x.ser_fds() + self.surface_y.ser_fds()
    }

    fn wire_len(&self) -> (n: usize) {
        self.time.wire_len() + self.surface_x.wire_len() + self.surface_y.wire_len()
    }

    fn checked_len(&self) -> (r: Option<usize>) {
        let n0 = match self.time.checked_len() {
            Some(m) => m,
            None => return None,
        };
        let n1 = match self.surface_x.checked_len() {
            Some(m) => match n0.checked_add(m) {
                Some(t) => t,
                None => return None,
            },
            None => return None,
        };
        let n2 = match self.surface_y.checked_len() {
            Some(m) => match n1.checked_add(m) {
                Some(t) => t,
                None => return None,
            },
            None => return None,
        };
        Some(n2)
    }

    open spec fn ser_fits(&self, cap: int) -> bool {
        &&& 0 <= cap && self.time.ser_fits(cap - (0))
        &&& self.time.ser_bytes().len() <= cap && self.surface_x.ser_fits(cap - (self.time.ser_bytes().len()))
        &&& self.time.ser_bytes().len() + self.surface_x.ser_bytes().len() <= cap && self.surface_y.ser_fits(cap - (self.time.ser_bytes().len() + self.surface_x.ser_bytes().len()))
    }

    fn serialize(self, buf: &mut [u8], fds: &mut Vec<Fd>) -> (r: Result<usize, &'static str>) {
        let ghost me = self;
        let ghost b0 = buf@;
        let mut n: usize = 0;
        n = n + ser_at(self.time, buf, n, fds);
        assert(fds@ =~= old(fds)@ + me.time.ser_fds());
        n = n + ser_at(self.surface_x, buf, n, fds);
        proof {
            lemma_write_then(b0, 0, me.time.ser_bytes(), me.surface_x.ser_bytes());
        }
        assert(fds@ =~= old(fds)@ + me.time.ser_fds() + me.surface_x.ser_fds());
        n = n + ser_at(self.surface_y, buf, n, fds);
        proof {
            lemma_write_then(b0, 0, me.time.ser_bytes() + me.surface_x.ser_bytes(), me.surface_y.ser_bytes());
        }
        assert(fds@ =~= old(fds)@ + me.ser_fds());
        Ok(n)
    }

    proof fn lemma_fits(&self, cap: int) {
        self.time.lemma_fits(cap - (0));
        self.surface_x.lemma_fits(cap - (self.time.ser_bytes().len()));
        self.surface_y.lemma_fits(cap - (self.time.ser_bytes().len() + self.surface_x.ser_bytes().len()));
    }
}

impl DeepView for motion {
    type V = (<u32 as DeepView>::V, <fixed as DeepView>::V, <fixed as DeepView>::V,);

    open spec fn deep_view(&self) -> (<u32 as DeepView>::V, <fixed as DeepView>::V, <fixed as DeepView>::V,) {
        (self.time.deep_view(), self.surface_x.deep_view(), self.surface_y.deep_view(),)
    }
}

impl Dsr for motion {
    open spec fn dsr_spec(buf: Seq<u8>, fds: Seq<Fd>) -> Decoded<(<u32 as DeepView>::V, <fixed as DeepView>::V, <fixed as DeepView>::V,)> {
        match <u32>::dsr_spec(buf, fds) {
            Decoded::Value(time, n0, q0) => {
                match <fixed>::dsr_spec(buf.skip(n0 as int), q0) {
                    Decoded::Value(surface_x, m1, q1) => {
                        let n1 = n0 + m1;
                        match <fixed>::dsr_spec(buf.skip(n1 as int), q1) {
                            Decoded::Value(surface_y, m2, q2) => {
                                let n2 = n1 + m2;
                                Decoded::Value((time, surface_x, surface_y,), n2, q2)
                            },
                            d => d.fail(),
                        }
                    },
                    d => d.fail(),
                }
            },
            d => d.fail(),
        }
    }

    fn try_deserialize(buf: &[u8], fds: &mut Vec<Fd>) -> (r: Option<Result<(motion, usize), &'static str>>) {
        let mut n: usize = 0;
        let rest = &buf[n..buf.len()];
        assert(rest@ =~= buf@.skip(n as int));
        assert(n == 0 ==> rest@ =~= buf@);
        let (time, m) = match <u32>::try_deserialize(rest, fds) {
            Some(Ok(p)) => p,
            Some(Err(e)) => return Some(Err(e)),
            None => return None,
        };
        n = n + m;
        let rest = &buf[n..buf.len()];
        assert(rest@ =~= buf@.skip(n as int));
        assert(n == 0 ==> rest@ =~= buf@);
        let (surface_x, m) = match <fixed>::try_deserialize(rest, fds) {
            Some(Ok(p)) => p,
            Some(Err(e)) => return Some(Err(e)),
            None => return None,
        };
        n = n + m;
        let rest = &buf[n..buf.len()];
        assert(rest@ =~= buf@.skip(n as int));
        assert(n == 0 ==> rest@ =~= buf@);
        let (surface_y, m) = match <fixed>::try_deserialize(rest, fds) {
            Some(Ok(p)) => p,
            Some(Err(e)) => return Some(Err(e)),
            None => return None,
        };
        n = n + m;
        Some(Ok((motion { time, surface_x, surface_y }, n)))
    }
}

impl Codec for motion {
    open spec fn rt_ok(&self) -> bool {
        &&& self.time.rt_ok()
        &&& self.surface_x.rt_ok()
        &&& self.surface_y.rt_ok()
    }

    proof fn lemma_roundtrip(&self, tail: Seq<u8>, base: Seq<Fd>) {
        let b0 = self.time.ser_bytes();
        let b1 = self.surface_x.ser_bytes();
        let b2 = self.surface_y.ser_bytes();
        let d0 = self.time.ser_fds();
        let d1 = self.surface_x.ser_fds();
        let d2 = self.surface_y.ser_fds();
        let s3 = tail;
        let s2 = b2 + s3;
        let s1 = b1 + s2;
        let s0 = b0 + s1;
        let buf = self.ser_bytes() + tail;
        assert(buf =~= s0);
        assert(buf.skip(0) =~= s0);
        assert(self.ser_fds() =~= Seq::<Fd>::empty());
        assert(base + self.ser_fds().reverse() =~= base);
        assert(d0 =~= Seq::<Fd>::empty());
        assert(base + d0.reverse() =~= base);
        self.time.lemma_roundtrip(s1, base);
        assert(buf.skip((b0.len()) as int) == s1) by {
            lemma_skip_step(buf, (0) as int, b0, s1);
        }
        assert(d1 =~= Seq::<Fd>::empty());
        assert(base + d1.reverse() =~= base);
        self.surface_x.lemma_roundtrip(s2, base);
        assert(buf.skip((b0.len() + b1.len()) as int) == s2) by {
            lemma_skip_step(buf, (b0.len()) as int, b1, s2);
        }
        assert(d2 =~= Seq::<Fd>::empty());
        assert(base + d2.reverse() =~= base);
        self.surface_y.lemma_roundtrip(s3, base);
    }
}

impl motion {
    /// The arguments are read in the protocol's order, `time`, then `surface_x`, then `surface_y`: the bytes
    /// and descriptors written for such arguments, one after the other,
    /// decode to exactly those arguments.
    pub proof fn lemma_layout(time: u32, surface_x: fixed, surface_y: fixed, rest: Seq<u8>, queue: Seq<Fd>)
        requires
            time.ser_ok(),
            time.rt_ok(),
            surface_x.ser_ok(),
            surface_x.rt_ok(),
            surface_y.ser_ok(),
            surface_y.rt_ok(),
            time.ser_bytes().len() + surface_x.ser_bytes().len() + surface_y.ser_bytes().len() <= usize::MAX,
        ensures
            ({
                let bytes = time.ser_bytes() + surface_x.ser_bytes() + surface_y.ser_bytes();
                let fds = time.ser_fds() + surface_x.ser_fds() + surface_y.ser_fds();
                motion::dsr_spec(bytes + rest, queue + fds.reverse()) == Decoded::Value(
                    (time.deep_view(), surface_x.deep_view(), surface_y.deep_view(),),
                    bytes.len(),
                    queue,
                )
            }),
    {
        let m = motion { time, surface_x, surface_y };
        m.lemma_roundtrip(rest, queue);
    }

    /// The message creates no object.
    pub proof fn lemma_creates(&self)
        ensures
            self.created_id() is None,
    {
    }
}

impl Msg<Obj> for motion {
    open spec fn opcode() -> u16 {
        2
    }

    open spec fn since_version() -> u32 {
        1
    }

    open spec fn created_id(&self) -> Option<u32> {
        None
    }

    open spec fn created_destructor(&self) -> Option<u16> {
        None
    }

    fn op() -> (r: u16) {
        2
    }

    fn since() -> u32 {
        1
    }

    fn new_id(&self) -> (r: Option<(u32, ObjMeta)>) {
        None
    }
}

impl Event<Obj> for motion {

}

/// pointer button event
///
/// Mouse button click and release notifications.
///
/// The location of the click is given by the last motion or
/// enter event.
/// The time argument is a timestamp with millisecond
/// granularity, with an undefined base.
///
/// The button is a button code as defined in the Linux kernel's
/// linux/input-event-codes.h header file, e.g. BTN_LEFT.
///
/// Any 16-bit button code value is reserved for future additions to the
/// kernel's event code list. All other button codes above 0xFFFF are
/// currently undefined but may be used in future versions of this
/// protocol.
///
#[derive(Debug)]
pub struct button {
    // serial number of the button event
    pub serial: u32,
    // timestamp with millisecond granularity
    pub time: u32,
    // button that produced the event
    pub button: u32,
    // physical state of the button
    pub state: super::button_state,
}

impl Ser for button {
    open spec fn ser_ok(&self) -> bool {
        &&& self.serial.ser_ok()
        &&& self.time.ser_ok()
        &&& self.button.ser_ok()
        &&& self.state.ser_ok()
        &&& self.ser_bytes().len() <= usize::MAX
    }

    open spec fn ser_bytes(&self) -> Seq<u8> {
        self.serial.ser_bytes() + self.time.ser_bytes() + self.button.ser_bytes() + self.state.ser_bytes()
    }

    open spec fn ser_fds(&self) -> Seq<Fd> {
        self.serial.ser_fds() + self.time.ser_fds() + self.button.ser_fds() + self.state.ser_fds()
    }

    fn wire_len(&self) -> (n: usize) {
        self.serial.wire_len() + self.time.wire_len() + self.button.wire_len() + self.state.wire_len()
    }

    fn checked_len(&self) -> (r: Option<usize>) {
        let n0 = match self.serial.checked_len() {
            Some(m) => m,
            None => return None,
        };
        let n1 = match self.time.checked_len() {
            Some(m) => match n0.checked_add(m) {
                Some(t) => t,
                None => return None,
            },
            None => return None,
        };
        let n2 = match self.button.checked_len() {
            Some(m) => match n1.checked_add(m) {
                Some(t) => t,
                None => return None,
            },
            None => return None,
        };
        let n3 = match self.state.checked_len() {
            Some(m) => match n2.checked_add(m) {
                Some(t) => t,
                None => return None,
            },
            None => return None,
        };
        Some(n3)
    }

    open spec fn ser_fits(&self, cap: int) -> bool {
        &&& 0 <= cap && self.serial.ser_fits(cap - (0))
        &&& self.serial.ser_bytes().len() <= cap && self.time.ser_fits(cap - (self.serial.ser_bytes().len()))
        &&& self.serial.ser_bytes().len() + self.time.ser_bytes().len() <= cap && self.button.ser_fits(cap - (self.serial.ser_bytes().len() + self.time.ser_bytes().len()))
        &&& self.serial.ser_bytes().len() + self.time.ser_bytes().len() + self.button.ser_bytes().len() <= cap && self.state.ser_fits(cap - (self.serial.ser_bytes().len() + self.time.ser_bytes().len() + self.button.ser_bytes().len()))
    }

    fn serialize(self, buf: &mut [u8], fds: &mut Vec<Fd>) -> (r: Result<usize, &'static str>) {
        let ghost me = self;
        let ghost b0 = buf@;
        let mut n: usize = 0;
        n = n + ser_at(self.serial, buf, n, fds);
        assert(fds@ =~= old(fds)@ + me.serial.ser_fds());
        n = n + ser_at(self.time, buf, n, fds);
        proof {
            lemma_write_then(b0, 0, me.serial.ser_bytes(), me.time.ser_bytes());
        }
        assert(fds@ =~= old(fds)@ + me.serial.ser_fds() + me.time.ser_fds());
        n = n + ser_at(self.button, buf, n, fds);
        proof {
            lemma_write_then(b0, 0, me.serial.ser_bytes() + me.time.ser_bytes(), me.button.ser_bytes());
        }
        assert(fds@ =~= old(fds)@ + me.serial.ser_fds() + me.time.ser_fds() + me.button.ser_fds());
        n = n + ser_at(self.state, buf, n, fds);
        proof {
            lemma_write_then(b0, 0, me.serial.ser_bytes() + me.time.ser_bytes() + me.button.ser_bytes(), me.state.ser_bytes());
        }
        assert(fds@ =~= old(fds)@ + me.ser_fds());
        Ok(n)
    }

    proof fn lemma_fits(&self, cap: int) {
        self.serial.lemma_fits(cap - (0));
        self.time.lemma_fits(cap - (self.serial.ser_bytes().len()));
        self.button.lemma_fits(cap - (self.serial.ser_bytes().len() + self.time.ser_bytes().len()));
        self.state.lemma_fits(cap - (self.serial.ser_bytes().len() + self.time.ser_bytes().len() + self.button.ser_bytes().len()));
    }
}

impl DeepView for button {
    type V = (<u32 as DeepView>::V, <u32 as DeepView>::V, <u32 as DeepView>::V, <super::button_state as DeepView>::V,);

    open spec fn deep_view(&self) -> (<u32 as DeepView>::V, <u32 as DeepView>::V, <u32 as DeepView>::V, <super::button_state as DeepView>::V,) {
        (self.serial.deep_view(), self.time.deep_view(), self.button.deep_view(), self.state.deep_view(),)
    }
}

impl Dsr for button {
    open spec fn dsr_spec(buf: Seq<u8>, fds: Seq<Fd>) -> Decoded<(<u32 as DeepView>::V, <u32 as DeepView>::V, <u32 as DeepView>::V, <super::button_state as DeepView>::V,)> {
        match <u32>::dsr_spec(buf, fds) {
            Decoded::Value(serial, n0, q0) => {
                match <u32>::dsr_spec(buf.skip(n0 as int), q0) {
                    Decoded::Value(time, m1, q1) => {
                        let n1 = n0 + m1;
                        match <u32>::dsr_spec(buf.skip(n1 as int), q1) {
                            Decoded::Value(button, m2, q2) => {
                                let n2 = n1 + m2;
                                match <super::button_state>::dsr_spec(buf.skip(n2 as int), q2) {
                                    Decoded::Value(state, m3, q3) => {
                                        let n3 = n2 + m3;
                                        Decoded::Value((serial, time, button, state,), n3, q3)
                                    },
                                    d => d.fail(),
                                }
                            },
                            d => d.fail(),
                        }
                    },
                    d => d.fail(),
                }
            },
            d => d.fail(),
        }
    }

    fn try_deserialize(buf: &[u8], fds: &mut Vec<Fd>) -> (r: Option<Result<(button, usize), &'static str>>) {
        let mut n: usize = 0;
        let rest = &buf[n..buf.len()];
        assert(rest@ =~= buf@.skip(n as int));
        assert(n == 0 ==> rest@ =~= buf@);
        let (serial, m) = match <u32>::try_deserialize(rest, fds) {
            Some(Ok(p)) => p,
            Some(Err(e)) => return Some(Err(e)),
            None => return None,
        };
        n = n + m;
        let rest = &buf[n..buf.len()];
        assert(rest@ =~= buf@.skip(n as int));
        assert(n == 0 ==> rest@ =~= buf@);
        let (time, m) = match <u32>::try_deserialize(rest, fds) {
            Some(Ok(p)) => p,
            Some(Err(e)) => return Some(Err(e)),
            None => return None,
        };
        n = n + m;
        let rest = &buf[n..buf.len()];
        assert(rest@ =~= buf@.skip(n as int));
        assert(n == 0 ==> rest@ =~= buf@);
        let (button, m) = match <u32>::try_deserialize(rest, fds) {
            Some(Ok(p)) => p,
            Some(Err(e)) => return Some(Err(e)),
            None => return None,
        };
        n = n + m;
        let rest = &buf[n..buf.len()];
        assert(rest@ =~= buf@.skip(n as int));
        assert(n == 0 ==> rest@ =~= buf@);
        let (state, m) = match <super::button_state>::try_deserialize(rest, fds) {
            Some(Ok(p)) => p,
            Some(Err(e)) => return Some(Err(e)),
            None => return None,
        };
        n = n + m;
        Some(Ok((button { serial, time, button, state }, n)))
    }
}

impl Codec for button {
    open spec fn rt_ok(&self) -> bool {
        &&& self.serial.rt_ok()
        &&& self.time.rt_ok()
        &&& self.button.rt_ok()
        &&& self.state.rt_ok()
    }

    proof fn lemma_roundtrip(&self, tail: Seq<u8>, base: Seq<Fd>) {
        let b0 = self.serial.ser_bytes();
        let b1 = self.time.ser_bytes();
        let b2 = self.button.ser_bytes();
        let b3 = self.state.ser_bytes();
        let d0 = self.serial.ser_fds();
        let d1 = self.time.ser_fds();
        let d2 = self.button.ser_fds();
        let d3 = self.state.ser_fds();
        let s4 = tail;
        let s3 = b3 + s4;
        let s2 = b2 + s3;
        let s1 = b1 + s2;
        let s0 = b0 + s1;
        let buf = self.ser_bytes() + tail;
        assert(buf =~= s0);
        assert(buf.skip(0) =~= s0);
        assert(self.ser_fds() =~= Seq::<Fd>::empty());
        assert(base + self.ser_fds().reverse() =~= base);
        assert(d0 =~= Seq::<Fd>::empty());
        assert(base + d0.reverse() =~= base);
        self.serial.lemma_roundtrip(s1, base);
        assert(buf.skip((b0.len()) as int) == s1) by {
            lemma_skip_step(buf, (0) as int, b0, s1);
        }
        assert(d1 =~= Seq::<Fd>::empty());
        assert(base + d1.reverse() =~= base);
        self.time.lemma_roundtrip(s2, base);
        assert(buf.skip((b0.len() + b1.len()) as int) == s2) by {
            lemma_skip_step(buf, (b0.len()) as int, b1, s2);
        }
        assert(d2 =~= Seq::<Fd>::empty());
        assert(base + d2.reverse() =~= base);
        self.button.lemma_roundtrip(s3, base);
        assert(buf.skip((b0.len() + b1.len() + b2.len()) as int) == s3) by {
            lemma_skip_step(buf, (b0.len() + b1.len()) as int, b2, s3);
        }
        assert(d3 =~= Seq::<Fd>::empty());
        assert(base + d3.reverse() =~= base);
        self.state.lemma_roundtrip(s4, base);
    }
}

impl button {
    /// The arguments are read in the protocol's order, `serial`, then `time`, then `button`, then `state`: the bytes
    /// and descriptors written for such arguments, one after the other,
    /// decode to exactly those arguments.
    pub proof fn lemma_layout(serial: u32, time: u32, button: u32, state: super::button_state, rest: Seq<u8>, queue: Seq<Fd>)
        requires
            serial.ser_ok(),
            serial.rt_ok(),
            time.ser_ok(),
            time.rt_ok(),
            button.ser_ok(),
            button.rt_ok(),
            state.ser_ok(),
            state.rt_ok(),
            serial.ser_bytes().len() + time.ser_bytes().len() + button.ser_bytes().len() + state.ser_bytes().len() <= usize::MAX,
        ensures
            ({
                let bytes = serial.ser_bytes() + time.ser_bytes() + button.ser_bytes() + state.ser_bytes();
                let fds = serial.ser_fds() + time.ser_fds() + button.ser_fds() + state.ser_fds();
                button::dsr_spec(bytes + rest, queue + fds.reverse()) == Decoded::Value(
                    (serial.deep_view(), time.deep_view(), button.deep_view(), state.deep_view(),),
                    bytes.len(),
                    queue,
                )
            }),
    {
        let m = button { serial, time, button, state };
        m.lemma_roundtrip(rest, queue);
    }

    /// The message creates no object.
    pub proof fn lemma_creates(&self)
        ensures
            self.created_id() is None,
    {
    }
}

impl Msg<Obj> for button {
    open spec fn opcode() -> u16 {
        3
    }

    open spec fn since_version() -> u32 {
        1
    }

    open spec fn created_id(&self) -> Option<u32> {
        None
    }

    open spec fn created_destructor(&self) -> Option<u16> {
        None
    }

    fn op() -> (r: u16) {
        3
    }

    fn since() -> u32 {
        1
    }

    fn new_id(&self) -> (r: Option<(u32, ObjMeta)>) {
        None
    }
}

impl Event<Obj> for button {

}

/// axis event
///
/// Scroll and other axis notifications.
///
/// For scroll events (vertical and horizontal scroll axes), the
/// value parameter is the length of a vector along the specified
/// axis in a coordinate space identical to those of motion events,
/// representing a relative movement along the specified axis.
///
/// For devices that support movements non-parallel to axes multiple
/// axis events will be emitted.
///
/// When applicable, for example for touch pads, the server can
/// choose to emit scroll events where the motion vector is
/// equivalent to a motion event vector.
///
/// When applicable, a client can transform its content relative to the
/// scroll distance.
///
#[derive(Debug)]
pub struct axis {
    // timestamp with millisecond granularity
    pub time: u32,
    // axis type
    pub axis: super::axis,
    // length of vector in surface-local coordinate space
    pub value: fixed,
}

impl Ser for axis {
    open spec fn ser_ok(&self) -> bool {
        &&& self.time.ser_ok()
        &&& self.axis.ser_ok()
        &&& self.value.ser_ok()
        &&& self.ser_bytes().len() <= usize::MAX
    }

    open spec fn ser_bytes(&self) -> Seq<u8> {
        self.time.ser_bytes() + self.axis.ser_bytes() + self.value.ser_bytes()
    }

    open spec fn ser_fds(&self) -> Seq<Fd> {
        self.time.ser_fds() + self.axis.ser_fds() + self.value.ser_fds()
    }

    fn wire_len(&self) -> (n: usize) {
        self.time.wire_len() + self.axis.wire_len() + self.value.wire_len()
    }

    fn checked_len(&self) -> (r: Option<usize>) {
        let n0 = match self.time.checked_len() {
            Some(m) => m,
            None => return None,
        };
        let n1 = match self.axis.checked_len() {
            Some(m) => match n0.checked_add(m) {
                Some(t) => t,
                None => return None,
            },
            None => return None,
        };
        let n2 = match self.value.checked_len() {
            Some(m) => match n1.checked_add(m) {
                Some(t) => t,
                None => return None,
            },
            None => return None,
        };
        Some(n2)
    }

    open spec fn ser_fits(&self, cap: int) -> bool {
        &&& 0 <= cap && self.time.ser_fits(cap - (0))
        &&& self.time.ser_bytes().len() <= cap && self.axis.ser_fits(cap - (self.time.ser_bytes().len()))
        &&& self.time.ser_bytes().len() + self.axis.ser_bytes().len() <= cap && self.value.ser_fits(cap - (self.time.ser_bytes().len() + self.axis.ser_bytes().len()))
    }

    fn serialize(self, buf: &mut [u8], fds: &mut Vec<Fd>) -> (r: Result<usize, &'static str>) {
        let ghost me = self;
        let ghost b0 = buf@;
        let mut n: usize = 0;
        n = n + ser_at(self.time, buf, n, fds);
        assert(fds@ =~= old(fds)@ + me.time.ser_fds());
        n = n + ser_at(self.axis, buf, n, fds);
        proof {
            lemma_write_then(b0, 0, me.time.ser_bytes(), me.axis.ser_bytes());
        }
        assert(fds@ =~= old(fds)@ + me.time.ser_fds() + me.axis.ser_fds());
        n = n + ser_at(self.value, buf, n, fds);
        proof {
            lemma_write_then(b0, 0, me.time.ser_bytes() + me.axis.ser_bytes(), me.value.ser_bytes());
        }
        assert(fds@ =~= old(fds)@ + me.ser_fds());
        Ok(n)
    }

    proof fn lemma_fits(&self, cap: int) {
        self.time.lemma_fits(cap - (0));
        self.axis.lemma_fits(cap - (self.time.ser_bytes().len()));
        self.value.lemma_fits(cap - (self.time.ser_bytes().len() + self.axis.ser_bytes().len()));
    }
}

impl DeepView for axis {
    type V = (<u32 as DeepView>::V, <super::axis as DeepView>::V, <fixed as DeepView>::V,);

    open spec fn deep_view(&self) -> (<u32 as DeepView>::V, <super::axis as DeepView>::V, <fixed as DeepView>::V,) {
        (self.time.deep_view(), self.axis.deep_view(), self.value.deep_view(),)
    }
}

impl Dsr for axis {
    open spec fn dsr_spec(buf: Seq<u8>, fds: Seq<Fd>) -> Decoded<(<u32 as DeepView>::V, <super::axis as DeepView>::V, <fixed as DeepView>::V,)> {
        match <u32>::dsr_spec(buf, fds) {
            Decoded::Value(time, n0, q0) => {
                match <super::axis>::dsr_spec(buf.skip(n0 as int), q0) {
                    Decoded::Value(axis, m1, q1) => {
                        let n1 = n0 + m1;
                        match <fixed>::dsr_spec(buf.skip(n1 as int), q1) {
                            Decoded::Value(value, m2, q2) => {
                                let n2 = n1 + m2;
                                Decoded::Value((time, axis, value,), n2, q2)
                            },
                            d => d.fail(),
                        }
                    },
                    d => d.fail(),
                }
            },
            d => d.fail(),
        }
    }

    fn try_deserialize(buf: &[u8], fds: &mut Vec<Fd>) -> (r: Option<Result<(axis, usize), &'static str>>) {
        let mut n: usize = 0;
        let rest = &buf[n..buf.len()];
        assert(rest@ =~= buf@.skip(n as int));
        assert(n == 0 ==> rest@ =~= buf@);
        let (time, m) = match <u32>::try_deserialize(rest, fds) {
            Some(Ok(p)) => p,
            Some(Err(e)) => return Some(Err(e)),
            None => return None,
        };
        n = n + m;
        let rest = &buf[n..buf.len()];
        assert(rest@ =~= buf@.skip(n as int));
        assert(n == 0 ==> rest@ =~= buf@);
        let (axis, m) = match <super::axis>::try_deserialize(rest, fds) {
            Some(Ok(p)) => p,
            Some(Err(e)) => return Some(Err(e)),
            None => return None,
        };
        n = n + m;
        let rest = &buf[n..buf.len()];
        assert(rest@ =~= buf@.skip(n as int));
        assert(n == 0 ==> rest@ =~= buf@);
        let (value, m) = match <fixed>::try_deserialize(rest, fds) {
            Some(Ok(p)) => p,
            Some(Err(e)) => return Some(Err(e)),
            None => return None,
        };
        n = n + m;
        Some(Ok((axis { time, axis, value }, n)))
    }
}

impl Codec for axis {
    open spec fn rt_ok(&self) -> bool {
        &&& self.time.rt_ok()
        &&& self.axis.rt_ok()
        &&& self.value.rt_ok()
    }

    proof fn lemma_roundtrip(&self, tail: Seq<u8>, base: Seq<Fd>) {
        let b0 = self.time.ser_bytes();
        let b1 = self.axis.ser_bytes();
        let b2 = self.value.ser_bytes();
        let d0 = self.time.ser_fds();
        let d1 = self.axis.ser_fds();
        let d2 = self.value.ser_fds();
        let s3 = tail;
        let s2 = b2 + s3;
        let s1 = b1 + s2;
        let s0 = b0 + s1;
        let buf = self.ser_bytes() + tail;
        assert(buf =~= s0);
        assert(buf.skip(0) =~= s0);
        assert(self.ser_fds() =~= Seq::<Fd>::empty());
        assert(base + self.ser_fds().reverse() =~= base);
        assert(d0 =~= Seq::<Fd>::empty());
        assert(base + d0.reverse() =~= base);
        self.time.lemma_roundtrip(s1, base);
        assert(buf.skip((b0.len()) as int) == s1) by {
            lemma_skip_step(buf, (0) as int, b0, s1);
        }
        assert(d1 =~= Seq::<Fd>::empty());
        assert(base + d1.reverse() =~= base);
        self.axis.lemma_roundtrip(s2, base);
        assert(buf.skip((b0.len() + b1.len()) as int) == s2) by {
            lemma_skip_step(buf, (b0.len()) as int, b1, s2);
        }
        assert(d2 =~= Seq::<Fd>::empty());
        assert(base + d2.reverse() =~= base);
        self.value.lemma_roundtrip(s3, base);
    }
}

impl axis {
    /// The arguments are read in the protocol's order, `time`, then `axis`, then `value`: the bytes
    /// and descriptors written for such arguments, one after the other,
    /// decode to exactly those arguments.
    pub proof fn lemma_layout(time: u32, axis: super::axis, value: fixed, rest: Seq<u8>, queue: Seq<Fd>)
        requires
            time.ser_ok(),
            time.rt_ok(),
            axis.ser_ok(),
            axis.rt_ok(),
            value.ser_ok(),
            value.rt_ok(),
            time.ser_bytes().len() + axis.ser_bytes().len() + value.ser_bytes().len() <= usize::MAX,
        ensures
            ({
                let bytes = time.ser_bytes() + axis.ser_bytes() + value.ser_bytes();
                let fds = time.ser_fds() + axis.ser_fds() + value.ser_fds();
                axis::dsr_spec(bytes + rest, queue + fds.reverse()) == Decoded::Value(
                    (time.deep_view(), axis.deep_view(), value.deep_view(),),
                    bytes.len(),
                    queue,
                )
            }),
    {
        let m = axis { time, axis, value };
        m.lemma_roundtrip(rest, queue);
    }

    /// The message creates no object.
    pub proof fn lemma_creates(&self)
        ensures
            self.created_id() is None,
    {
    }
}

impl Msg<Obj> for axis {
    open spec fn opcode() -> u16 {
        4
    }

    open spec fn since_version() -> u32 {
        1
    }

    open spec fn created_id(&self) -> Option<u32> {
        None
    }

    open spec fn created_destructor(&self) -> Option<u16> {
        None
    }

    fn op() -> (r: u16) {
        4
    }

    fn since() -> u32 {
        1
    }

    fn new_id(&self) -> (r: Option<(u32, ObjMeta)>) {
        None
    }
}

impl Event<Obj> for axis {

}

/// end of a pointer event sequence
///
/// Indicates the end of a set of events that logically belong together.
/// A client is expected to accumulate the data in all events within the
/// frame before proceeding.
///
/// All wl_pointer events before a wl_pointer.frame event belong
/// logically together. For example, in a diagonal scroll motion the
/// compositor will send an optional wl_pointer.axis_source event, two
/// wl_pointer.axis events (horizontal and vertical) and finally a
/// wl_pointer.frame event. The client may use this information to
/// calculate a diagonal vector for scrolling.
///
/// When multiple wl_pointer.axis events occur within the same frame,
/// the motion vector is the combined motion of all events.
/// When a wl_pointer.axis and a wl_pointer.axis_stop event occur within
/// the same frame, this indicates that axis movement in one axis has
/// stopped but continues in the other axis.
/// When multiple wl_pointer.axis_stop events occur within the same
/// frame, this indicates that these axes stopped in the same instance.
///
/// A wl_pointer.frame event is sent for every logical event group,
/// even if the group only contains a single wl_pointer event.
/// Specifically, a client may get a sequence: motion, frame, button,
/// frame, axis, frame, axis_stop, frame.
///
/// The wl_pointer.enter and wl_pointer.leave events are logical events
/// generated by the compositor and not the hardware. These events are
/// also grouped by a wl_pointer.frame. When a pointer moves from one
/// surface to another, a compositor should group the
/// wl_pointer.leave event within the same wl_pointer.frame.
/// However, a client must not rely on wl_pointer.leave and
/// wl_pointer.enter being in the same wl_pointer.frame.
/// Compositor-specific policies may require the wl_pointer.leave and
/// wl_pointer.enter event being split across multiple wl_pointer.frame
/// groups.
///
#[derive(Debug)]
pub struct frame {}

impl Ser for frame {
    open spec fn ser_ok(&self) -> bool {
        true
    }

    open spec fn ser_bytes(&self) -> Seq<u8> {
        Seq::empty()
    }

    open spec fn ser_fds(&self) -> Seq<Fd> {
        Seq::empty()
    }

    fn wire_len(&self) -> (n: usize) {
        0
    }

    fn checked_len(&self) -> (r: Option<usize>) {
        Some(0)
    }

    open spec fn ser_fits(&self, cap: int) -> bool {
        true
    }

    fn serialize(self, buf: &mut [u8], fds: &mut Vec<Fd>) -> (r: Result<usize, &'static str>) {
        assert(buf@ =~= write_at(old(buf)@, 0, Seq::<u8>::empty()));
        assert(fds@ =~= old(fds)@ + Seq::<Fd>::empty());
        Ok(0)
    }

    proof fn lemma_fits(&self, cap: int) {
    }
}

impl DeepView for frame {
    type V = ();

    open spec fn deep_view(&self) -> () {
        ()
    }
}

impl Dsr for frame {
    open spec fn dsr_spec(buf: Seq<u8>, fds: Seq<Fd>) -> Decoded<()> {
        Decoded::Value((), 0, fds)
    }

    fn try_deserialize(buf: &[u8], fds: &mut Vec<Fd>) -> (r: Option<Result<(frame, usize), &'static str>>) {
        Some(Ok((frame {}, 0)))
    }
}

impl Codec for frame {
    open spec fn rt_ok(&self) -> bool {
        true
    }

    proof fn lemma_roundtrip(&self, tail: Seq<u8>, base: Seq<Fd>) {
        assert(Seq::<Fd>::empty().reverse() =~= Seq::<Fd>::empty());
        assert(base + Seq::<Fd>::empty() =~= base);
    }
}

impl frame {
    /// The arguments are read in the protocol's order, no arguments: the bytes
    /// and descriptors written for such arguments, one after the other,
    /// decode to exactly those arguments.
    pub proof fn lemma_layout(rest: Seq<u8>, queue: Seq<Fd>)
        ensures
            ({
                let bytes = Seq::<u8>::empty();
                let fds = Seq::<Fd>::empty();
                frame::dsr_spec(bytes + rest, queue + fds.reverse()) == Decoded::Value(
                    (),
                    bytes.len(),
                    queue,
                )
            }),
    {
        let m = frame {};
        m.lemma_roundtrip(rest, queue);
    }

    /// The message creates no object.
    pub proof fn lemma_creates(&self)
        ensures
            self.created_id() is None,
    {
    }
}

impl Msg<Obj> for frame {
    open spec fn opcode() -> u16 {
        5
    }

    open spec fn since_version() -> u32 {
        1
    }

    open spec fn created_id(&self) -> Option<u32> {
        None
    }

    open spec fn created_destructor(&self) -> Option<u16> {
        None
    }

    fn op() -> (r: u16) {
        5
    }

    fn since() -> u32 {
        1
    }

    fn new_id(&self) -> (r: Option<(u32, ObjMeta)>) {
        None
    }
}

impl Event<Obj> for frame {

}

/// axis source event
///
/// Source information for scroll and other axes.
///
/// This event does not occur on its own. It is sent before a
/// wl_pointer.frame event and carries the source information for
/// all events within that frame.
///
/// The source specifies how this event was generated. If the source is
/// wl_pointer.axis_source.finger, a wl_pointer.axis_stop event will be
/// sent when the user lifts the finger off the device.
///
/// If the source is wl_pointer.axis_source.wheel,
/// wl_pointer.axis_source.wheel_tilt or
/// wl_pointer.axis_source.continuous, a wl_pointer.axis_stop event may
/// or may not be sent. Whether a compositor sends an axis_stop event
/// for these sources is hardware-specific and implementation-dependent;
/// clients must not rely on receiving an axis_stop event for these
/// scroll sources and should treat scroll sequences from these scroll
/// sources as unterminated by default.
///
/// This event is optional. If the source is unknown for a particular
/// axis event sequence, no event is sent.
/// Only one wl_pointer.axis_source event is permitted per frame.
///
/// The order of wl_pointer.axis_discrete and wl_pointer.axis_source is
/// not guaranteed.
///
#[derive(Debug)]
pub struct axis_source {
    // source of the axis event
    pub axis_source: super::axis_source,
}

impl Ser for axis_source {
    open spec fn ser_ok(&self) -> bool {
        &&& self.axis_source.ser_ok()
        &&& self.ser_bytes().len() <= usize::MAX
    }

    open spec fn ser_bytes(&self) -> Seq<u8> {
        self.axis_source.ser_bytes()
    }

    open spec fn ser_fds(&self) -> Seq<Fd> {
        self.axis_source.ser_fds()
    }

    fn wire_len(&self) -> (n: usize) {
        self.axis_source.wire_len()
    }

    fn checked_len(&self) -> (r: Option<usize>) {
        let n0 = match self.axis_source.checked_len() {
            Some(m) => m,
            None => return None,
        };
        Some(n0)
    }

    open spec fn ser_fits(&self, cap: int) -> bool {
        &&& 0 <= cap && self.axis_source.ser_fits(cap - (0))
    }

    fn serialize(self, buf: &mut [u8], fds: &mut Vec<Fd>) -> (r: Result<usize, &'static str>) {
        let ghost me = self;
        let ghost b0 = buf@;
        let mut n: usize = 0;
        n = n + ser_at(self.axis_source, buf, n, fds);
        assert(fds@ =~= old(fds)@ + me.ser_fds());
        Ok(n)
    }

    proof fn lemma_fits(&self, cap: int) {
        self.axis_source.lemma_fits(cap - (0));
    }
}

impl DeepView for axis_source {
    type V = (<super::axis_source as DeepView>::V,);

    open spec fn deep_view(&self) -> (<super::axis_source as DeepView>::V,) {
        (self.axis_source.deep_view(),)
    }
}

impl Dsr for axis_source {
    open spec fn dsr_spec(buf: Seq<u8>, fds: Seq<Fd>) -> Decoded<(<super::axis_source as DeepView>::V,)> {
        match <super::axis_source>::dsr_spec(buf, fds) {
            Decoded::Value(axis_source, n0, q0) => Decoded::Value((axis_source,), n0, q0),
            d => d.fail(),
        }
    }

    fn try_deserialize(buf: &[u8], fds: &mut Vec<Fd>) -> (r: Option<Result<(axis_source, usize), &'static str>>) {
        let mut n: usize = 0;
        let rest = &buf[n..buf.len()];
        assert(rest@ =~= buf@.skip(n as int));
        assert(n == 0 ==> rest@ =~= buf@);
        let (axis_source, m) = match <super::axis_source>::try_deserialize(rest, fds) {
            Some(Ok(p)) => p,
            Some(Err(e)) => return Some(Err(e)),
            None => return None,
        };
        n = n + m;
        Some(Ok((axis_source { axis_source }, n)))
    }
}

impl Codec for axis_source {
    open spec fn rt_ok(&self) -> bool {
        &&& self.axis_source.rt_ok()
    }

    proof fn lemma_roundtrip(&self, tail: Seq<u8>, base: Seq<Fd>) {
        let b0 = self.axis_source.ser_bytes();
        let d0 = self.axis_source.ser_fds();
        let s1 = tail;
        let s0 = b0 + s1;
        let buf = self.ser_bytes() + tail;
        assert(buf =~= s0);
        assert(buf.skip(0) =~= s0);
        assert(self.ser_fds() =~= Seq::<Fd>::empty());
        assert(base + self.ser_fds().reverse() =~= base);
        assert(d0 =~= Seq::<Fd>::empty());
        assert(base + d0.reverse() =~= base);
        self.axis_source.lemma_roundtrip(s1, base);
    }
}

impl axis_source {
    /// The arguments are read in the protocol's order, `axis_source`: the bytes
    /// and descriptors written for such arguments, one after the other,
    /// decode to exactly those arguments.
    pub proof fn lemma_layout(axis_source: super::axis_source, rest: Seq<u8>, queue: Seq<Fd>)
        requires
            axis_source.ser_ok(),
            axis_source.rt_ok(),
            axis_source.ser_bytes().len() <= usize::MAX,
        ensures
            ({
                let bytes = axis_source.ser_bytes();
                let fds = axis_source.ser_fds();
                axis_source::dsr_spec(bytes + rest, queue + fds.reverse()) == Decoded::Value(
                    (axis_source.deep_view(),),
                    bytes.len(),
                    queue,
                )
            }),
    {
        let m = axis_source { axis_source };
        m.lemma_roundtrip(rest, queue);
    }

    /// The message creates no object.
    pub proof fn lemma_creates(&self)
        ensures
            self.created_id() is None,
    {
    }
}

impl Msg<Obj> for axis_source {
    open spec fn opcode() -> u16 {
        6
    }

    open spec fn since_version() -> u32 {
        1
    }

    open spec fn created_id(&self) -> Option<u32> {
        None
    }

    open spec fn created_destructor(&self) -> Option<u16> {
        None
    }

    fn op() -> (r: u16) {
        6
    }

    fn since() -> u32 {
        1
    }

    fn new_id(&self) -> (r: Option<(u32, ObjMeta)>) {
        None
    }
}

impl Event<Obj> for axis_source {

}

/// axis stop event
///
/// Stop notification for scroll and other axes.
///
/// For some wl_pointer.axis_source types, a wl_pointer.axis_stop event
/// is sent to notify a client that the axis sequence has terminated.
/// This enables the client to implement kinetic scrolling.
/// See the wl_pointer.axis_source documentation for information on when
/// this event may be generated.
///
/// Any wl_pointer.axis events with the same axis_source after this
/// event should be considered as the start of a new axis motion.
///
/// The timestamp is to be interpreted identical to the timestamp in the
/// wl_pointer.axis event. The timestamp value may be the same as a
/// preceding wl_pointer.axis event.
///
#[derive(Debug)]
pub struct axis_stop {
    // timestamp with millisecond granularity
    pub time: u32,
    // the axis stopped with this event
    pub axis: super::axis,
}

impl Ser for axis_stop {
    open spec fn ser_ok(&self) -> bool {
        &&& self.time.ser_ok()
        &&& self.axis.ser_ok()
        &&& self.ser_bytes().len() <= usize::MAX
    }

    open spec fn ser_bytes(&self) -> Seq<u8> {
        self.time.ser_bytes() + self.axis.ser_bytes()
    }

    open spec fn ser_fds(&self) -> Seq<Fd> {
        self.time.ser_fds() + self.axis.ser_fds()
    }

    fn wire_len(&self) -> (n: usize) {
        self.time.wire_len() + self.axis.wire_len()
    }

    fn checked_len(&self) -> (r: Option<usize>) {
        let n0 = match self.time.checked_len() {
            Some(m) => m,
            None => return None,
        };
        let n1 = match self.axis.checked_len() {
            Some(m) => match n0.checked_add(m) {
                Some(t) => t,
                None => return None,
            },
            None => return None,
        };
        Some(n1)
    }

    open spec fn ser_fits(&self, cap: int) -> bool {
        &&& 0 <= cap && self.time.ser_fits(cap - (0))
        &&& self.time.ser_bytes().len() <= cap && self.axis.ser_fits(cap - (self.time.ser_bytes().len()))
    }

    fn serialize(self, buf: &mut [u8], fds: &mut Vec<Fd>) -> (r: Result<usize, &'static str>) {
        let ghost me = self;
        let ghost b0 = buf@;
        let mut n: usize = 0;
        n = n + ser_at(self.time, buf, n, fds);
        assert(fds@ =~= old(fds)@ + me.time.ser_fds());
        n = n + ser_at(self.axis, buf, n, fds);
        proof {
            lemma_write_then(b0, 0, me.time.ser_bytes(), me.axis.ser_bytes());
        }
        assert(fds@ =~= old(fds)@ + me.ser_fds());
        Ok(n)
    }

    proof fn lemma_fits(&self, cap: int) {
        self.time.lemma_fits(cap - (0));
        self.axis.lemma_fits(cap - (self.time.ser_bytes().len()));
    }
}

impl DeepView for axis_stop {
    type V = (<u32 as DeepView>::V, <super::axis as DeepView>::V,);

    open spec fn deep_view(&self) -> (<u32 as DeepView>::V, <super::axis as DeepView>::V,) {
        (self.time.deep_view(), self.axis.deep_view(),)
    }
}

impl Dsr for axis_stop {
    open spec fn dsr_spec(buf: Seq<u8>, fds: Seq<Fd>) -> Decoded<(<u32 as DeepView>::V, <super::axis as DeepView>::V,)> {
        match <u32>::dsr_spec(buf, fds) {
            Decoded::Value(time, n0, q0) => {
                match <super::axis>::dsr_spec(buf.skip(n0 as int), q0) {
                    Decoded::Value(axis, m1, q1) => {
                        let n1 = n0 + m1;
                        Decoded::Value((time, axis,), n1, q1)
                    },
                    d => d.fail(),
                }
            },
            d => d.fail(),
        }
    }

    fn try_deserialize(buf: &[u8], fds: &mut Vec<Fd>) -> (r: Option<Result<(axis_stop, usize), &'static str>>) {
        let mut n: usize = 0;
        let rest = &buf[n..buf.len()];
        assert(rest@ =~= buf@.skip(n as int));
        assert(n == 0 ==> rest@ =~= buf@);
        let (time, m) = match <u32>::try_deserialize(rest, fds) {
            Some(Ok(p)) => p,
            Some(Err(e)) => return Some(Err(e)),
            None => return None,
        };
        n = n + m;
        let rest = &buf[n..buf.len()];
        assert(rest@ =~= buf@.skip(n as int));
        assert(n == 0 ==> rest@ =~= buf@);
        let (axis, m) = match <super::axis>::try_deserialize(rest, fds) {
            Some(Ok(p)) => p,
            Some(Err(e)) => return Some(Err(e)),
            None => return None,
        };
        n = n + m;
        Some(Ok((axis_stop { time, axis }, n)))
    }
}

impl Codec for axis_stop {
    open spec fn rt_ok(&self) -> bool {
        &&& self.time.rt_ok()
        &&& self.axis.rt_ok()
    }

    proof fn lemma_roundtrip(&self, tail: Seq<u8>, base: Seq<Fd>) {
        let b0 = self.time.ser_bytes();
        let b1 = self.axis.ser_bytes();
        let d0 = self.time.ser_fds();
        let d1 = self.axis.ser_fds();
        let s2 = tail;
        let s1 = b1 + s2;
        let s0 = b0 + s1;
        let buf = self.ser_bytes() + tail;
        assert(buf =~= s0);
        assert(buf.skip(0) =~= s0);
        assert(self.ser_fds() =~= Seq::<Fd>::empty());
        assert(base + self.ser_fds().reverse() =~= base);
        assert(d0 =~= Seq::<Fd>::empty());
        assert(base + d0.reverse() =~= base);
        self.time.lemma_roundtrip(s1, base);
        assert(buf.skip((b0.len()) as int) == s1) by {
            lemma_skip_step(buf, (0) as int, b0, s1);
        }
        assert(d1 =~= Seq::<Fd>::empty());
        assert(base + d1.reverse() =~= base);
        self.axis.lemma_roundtrip(s2, base);
    }
}

impl axis_stop {
    /// The arguments are read in the protocol's order, `time`, then `axis`: the bytes
    /// and descriptors written for such arguments, one after the other,
    /// decode to exactly those arguments.
    pub proof fn lemma_layout(time: u32, axis: super::axis, rest: Seq<u8>, queue: Seq<Fd>)
        requires
            time.ser_ok(),
            time.rt_ok(),
            axis.ser_ok(),
            axis.rt_ok(),
            time.ser_bytes().len() + axis.ser_bytes().len() <= usize::MAX,
        ensures
            ({
                let bytes = time.ser_bytes() + axis.ser_bytes();
                let fds = time.ser_fds() + axis.ser_fds();
                axis_stop::dsr_spec(bytes + rest, queue + fds.reverse()) == Decoded::Value(
                    (time.deep_view(), axis.deep_view(),),
                    bytes.len(),
                    queue,
                )
            }),
    {
        let m = axis_stop { time, axis };
        m.lemma_roundtrip(rest, queue);
    }

    /// The message creates no object.
    pub proof fn lemma_creates(&self)
        ensures
            self.created_id() is None,
    {
    }
}

impl Msg<Obj> for axis_stop {
    open spec fn opcode() -> u16 {
        7
    }

    open spec fn since_version() -> u32 {
        1
    }

    open spec fn created_id(&self) -> Option<u32> {
        None
    }

    open spec fn created_destructor(&self) -> Option<u16> {
        None
    }

    fn op() -> (r: u16) {
        7
    }

    fn since() -> u32 {
        1
    }

    fn new_id(&self) -> (r: Option<(u32, ObjMeta)>) {
        None
    }
}

impl Event<Obj> for axis_stop {

}

/// axis click event
///
/// Discrete step information for scroll and other axes.
///
/// This event carries the axis value of the wl_pointer.axis event in
/// discrete steps (e.g. mouse wheel clicks).
///
/// This event is deprecated with wl_pointer version 8 - this event is not
/// sent to clients supporting version 8 or later.
///
/// This event does not occur on its own, it is coupled with a
/// wl_pointer.axis event that represents this axis value on a
/// continuous scale. The protocol guarantees that each axis_discrete
/// event is always followed by exactly one axis event with the same
/// axis number within the same wl_pointer.frame. Note that the protocol
/// allows for other events to occur between the axis_discrete and
/// its coupled axis event, including other axis_discrete or axis
/// events. A wl_pointer.frame must not contain more than one axis_discrete
/// event per axis type.
///
/// This event is optional; continuous scrolling devices
/// like two-finger scrolling on touchpads do not have discrete
/// steps and do not generate this event.
///
/// The discrete value carries the directional information. e.g. a value
/// of -2 is two steps towards the negative direction of this axis.
///
/// The axis number is identical to the axis number in the associated
/// axis event.
///
/// The order of wl_pointer.axis_discrete and wl_pointer.axis_source is
/// not guaranteed.
///
#[derive(Debug)]
pub struct axis_discrete {
    // axis type
    pub axis: super::axis,
    // number of steps
    pub discrete: i32,
}

impl Ser for axis_discrete {
    open spec fn ser_ok(&self) -> bool {
        &&& self.axis.ser_ok()
        &&& self.discrete.ser_ok()
        &&& self.ser_bytes().len() <= usize::MAX
    }

    open spec fn ser_bytes(&self) -> Seq<u8> {
        self.axis.ser_bytes() + self.discrete.ser_bytes()
    }

    open spec fn ser_fds(&self) -> Seq<Fd> {
        self.axis.ser_fds() + self.discrete.ser_fds()
    }

    fn wire_len(&self) -> (n: usize) {
        self.axis.wire_len() + self.discrete.wire_len()
    }

    fn checked_len(&self) -> (r: Option<usize>) {
        let n0 = match self.axis.checked_len() {
            Some(m) => m,
            None => return None,
        };
        let n1 = match self.discrete.checked_len() {
            Some(m) => match n0.checked_add(m) {
                Some(t) => t,
                None => return None,
            },
            None => return None,
        };
        Some(n1)
    }

    open spec fn ser_fits(&self, cap: int) -> bool {
        &&& 0 <= cap && self.axis.ser_fits(cap - (0))
        &&& self.axis.ser_bytes().len() <= cap && self.discrete.ser_fits(cap - (self.axis.ser_bytes().len()))
    }

    fn serialize(self, buf: &mut [u8], fds: &mut Vec<Fd>) -> (r: Result<usize, &'static str>) {
        let ghost me = self;
        let ghost b0 = buf@;
        let mut n: usize = 0;
        n = n + ser_at(self.axis, buf, n, fds);
        assert(fds@ =~= old(fds)@ + me.axis.ser_fds());
        n = n + ser_at(self.discrete, buf, n, fds);
        proof {
            lemma_write_then(b0, 0, me.axis.ser_bytes(), me.discrete.ser_bytes());
        }
        assert(fds@ =~= old(fds)@ + me.ser_fds());
        Ok(n)
    }

    proof fn lemma_fits(&self, cap: int) {
        self.axis.lemma_fits(cap - (0));
        self.discrete.lemma_fits(cap - (self.axis.ser_bytes().len()));
    }
}

impl DeepView for axis_discrete {
    type V = (<super::axis as DeepView>::V, <i32 as DeepView>::V,);

    open spec fn deep_view(&self) -> (<super::axis as DeepView>::V, <i32 as DeepView>::V,) {
        (self.axis.deep_view(), self.discrete.deep_view(),)
    }
}

impl Dsr for axis_discrete {
    open spec fn dsr_spec(buf: Seq<u8>, fds: Seq<Fd>) -> Decoded<(<super::axis as DeepView>::V, <i32 as DeepView>::V,)> {
        match <super::axis>::dsr_spec(buf, fds) {
            Decoded::Value(axis, n0, q0) => {
                match <i32>::dsr_spec(buf.skip(n0 as int), q0) {
                    Decoded::Value(discrete, m1, q1) => {
                        let n1 = n0 + m1;
                        Decoded::Value((axis, discrete,), n1, q1)
                    },
                    d => d.fail(),
                }
            },
            d => d.fail(),
        }
    }

    fn try_deserialize(buf: &[u8], fds: &mut Vec<Fd>) -> (r: Option<Result<(axis_discrete, usize), &'static str>>) {
        let mut n: usize = 0;
        let rest = &buf[n..buf.len()];
        assert(rest@ =~= buf@.skip(n as int));
        assert(n == 0 ==> rest@ =~= buf@);
        let (axis, m) = match <super::axis>::try_deserialize(rest, fds) {
            Some(Ok(p)) => p,
            Some(Err(e)) => return Some(Err(e)),
            None => return None,
        };
        n = n + m;
        let rest = &buf[n..buf.len()];
        assert(rest@ =~= buf@.skip(n as int));
        assert(n == 0 ==> rest@ =~= buf@);
        let (discrete, m) = match <i32>::try_deserialize(rest, fds) {
            Some(Ok(p)) => p,
            Some(Err(e)) => return Some(Err(e)),
            None => return None,
        };
        n = n + m;
        Some(Ok((axis_discrete { axis, discrete }, n)))
    }
}

impl Codec for axis_discrete {
    open spec fn rt_ok(&self) -> bool {
        &&& self.axis.rt_ok()
        &&& self.discrete.rt_ok()
    }

    proof fn lemma_roundtrip(&self, tail: Seq<u8>, base: Seq<Fd>) {
        let b0 = self.axis.ser_bytes();
        let b1 = self.discrete.ser_bytes();
        let d0 = self.axis.ser_fds();
        let d1 = self.discrete.ser_fds();
        let s2 = tail;
        let s1 = b1 + s2;
        let s0 = b0 + s1;
        let buf = self.ser_bytes() + tail;
        assert(buf =~= s0);
        assert(buf.skip(0) =~= s0);
        assert(self.ser_fds() =~= Seq::<Fd>::empty());
        assert(base + self.ser_fds().reverse() =~= base);
        assert(d0 =~= Seq::<Fd>::empty());
        assert(base + d0.reverse() =~= base);
        self.axis.lemma_roundtrip(s1, base);
        assert(buf.skip((b0.len()) as int) == s1) by {
            lemma_skip_step(buf, (0) as int, b0, s1);
        }
        assert(d1 =~= Seq::<Fd>::empty());
        assert(base + d1.reverse() =~= base);
        self.discrete.lemma_roundtrip(s2, base);
    }
}

impl axis_discrete {
    /// The arguments are read in the protocol's order, `axis`, then `discrete`: the bytes
    /// and descriptors written for such arguments, one after the other,
    /// decode to exactly those arguments.
    pub proof fn lemma_layout(axis: super::axis, discrete: i32, rest: Seq<u8>, queue: Seq<Fd>)
        requires
            axis.ser_ok(),
            axis.rt_ok(),
            discrete.ser_ok(),
            discrete.rt_ok(),
            axis.ser_bytes().len() + discrete.ser_bytes().len() <= usize::MAX,
        ensures
            ({
                let bytes = axis.ser_bytes() + discrete.ser_bytes();
                let fds = axis.ser_fds() + discrete.ser_fds();
                axis_discrete::dsr_spec(bytes + rest, queue + fds.reverse()) == Decoded::Value(
                    (axis.deep_view(), discrete.deep_view(),),
                    bytes.len(),
                    queue,
                )
            }),
    {
        let m = axis_discrete { axis, discrete };
        m.lemma_roundtrip(rest, queue);
    }

    /// The message creates no object.
    pub proof fn lemma_creates(&self)
        ensures
            self.created_id() is None,
    {
    }
}

impl Msg<Obj> for axis_discrete {
    open spec fn opcode() -> u16 {
        8
    }

    open spec fn since_version() -> u32 {
        1
    }

    open spec fn created_id(&self) -> Option<u32> {
        None
    }

    open spec fn created_destructor(&self) -> Option<u16> {
        None
    }

    fn op() -> (r: u16) {
        8
    }

    fn since() -> u32 {
        1
    }

    fn new_id(&self) -> (r: Option<(u32, ObjMeta)>) {
        None
    }
}

impl Event<Obj> for axis_discrete {

}

/// axis high-resolution scroll event
///
/// Discrete high-resolution scroll information.
///
/// This event carries high-resolution wheel scroll information,
/// with each multiple of 120 representing one logical scroll step
/// (a wheel detent). For example, an axis_value120 of 30 is one quarter of
/// a logical scroll step in the positive direction, a value120 of
/// -240 are two logical scroll steps in the negative direction within the
/// same hardware event.
/// Clients that rely on discrete scrolling should accumulate the
/// value120 to multiples of 120 before processing the event.
///
/// The value120 must not be zero.
///
/// This event replaces the wl_pointer.axis_discrete event in clients
/// supporting wl_pointer version 8 or later.
///
/// Where a wl_pointer.axis_source event occurs in the same
/// wl_pointer.frame, the axis source applies to this event.
///
/// The order of wl_pointer.axis_value120 and wl_pointer.axis_source is
/// not guaranteed.
///
#[derive(Debug)]
pub struct axis_value120 {
    // axis type
    pub axis: super::axis,
    // scroll distance as fraction of 120
    pub value120: i32,
}

impl Ser for axis_value120 {
    open spec fn ser_ok(&self) -> bool {
        &&& self.axis.ser_ok()
        &&& self.value120.ser_ok()
        &&& self.ser_bytes().len() <= usize::MAX
    }

    open spec fn ser_bytes(&self) -> Seq<u8> {
        self.axis.ser_bytes() + self.value120.ser_bytes()
    }

    open spec fn ser_fds(&self) -> Seq<Fd> {
        self.axis.ser_fds() + self.value120.ser_fds()
    }

    fn wire_len(&self) -> (n: usize) {
        self.axis.wire_len() + self.value120.wire_len()
    }

    fn checked_len(&self) -> (r: Option<usize>) {
        let n0 = match self.axis.checked_len() {
            Some(m) => m,
            None => return None,
        };
        let n1 = match self.value120.checked_len() {
            Some(m) => match n0.checked_add(m) {
                Some(t) => t,
                None => return None,
            },
            None => return None,
        };
        Some(n1)
    }

    open spec fn ser_fits(&self, cap: int) -> bool {
        &&& 0 <= cap && self.axis.ser_fits(cap - (0))
        &&& self.axis.ser_bytes().len() <= cap && self.value120.ser_fits(cap - (self.axis.ser_bytes().len()))
    }

    fn serialize(self, buf: &mut [u8], fds: &mut Vec<Fd>) -> (r: Result<usize, &'static str>) {
        let ghost me = self;
        let ghost b0 = buf@;
        let mut n: usize = 0;
        n = n + ser_at(self.axis, buf, n, fds);
        assert(fds@ =~= old(fds)@ + me.axis.ser_fds());
        n = n + ser_at(self.value120, buf, n, fds);
        proof {
            lemma_write_then(b0, 0, me.axis.ser_bytes(), me.value120.ser_bytes());
        }
        assert(fds@ =~= old(fds)@ + me.ser_fds());
        Ok(n)
    }

    proof fn lemma_fits(&self, cap: int) {
        self.axis.lemma_fits(cap - (0));
        self.value120.lemma_fits(cap - (self.axis.ser_bytes().len()));
    }
}

impl DeepView for axis_value120 {
    type V = (<super::axis as DeepView>::V, <i32 as DeepView>::V,);

    open spec fn deep_view(&self) -> (<super::axis as DeepView>::V, <i32 as DeepView>::V,) {
        (self.axis.deep_view(), self.value120.deep_view(),)
    }
}

impl Dsr for axis_value120 {
    open spec fn dsr_spec(buf: Seq<u8>, fds: Seq<Fd>) -> Decoded<(<super::axis as DeepView>::V, <i32 as DeepView>::V,)> {
        match <super::axis>::dsr_spec(buf, fds) {
            Decoded::Value(axis, n0, q0) => {
                match <i32>::dsr_spec(buf.skip(n0 as int), q0) {
                    Decoded::Value(value120, m1, q1) => {
                        let n1 = n0 + m1;
                        Decoded::Value((axis, value120,), n1, q1)
                    },
                    d => d.fail(),
                }
            },
            d => d.fail(),
        }
    }

    fn try_deserialize(buf: &[u8], fds: &mut Vec<Fd>) -> (r: Option<Result<(axis_value120, usize), &'static str>>) {
        let mut n: usize = 0;
        let rest = &buf[n..buf.len()];
        assert(rest@ =~= buf@.skip(n as int));
        assert(n == 0 ==> rest@ =~= buf@);
        let (axis, m) = match <super::axis>::try_deserialize(rest, fds) {
            Some(Ok(p)) => p,
            Some(Err(e)) => return Some(Err(e)),
            None => return None,
        };
        n = n + m;
        let rest = &buf[n..buf.len()];
        assert(rest@ =~= buf@.skip(n as int));
        assert(n == 0 ==> rest@ =~= buf@);
        let (value120, m) = match <i32>::try_deserialize(rest, fds) {
            Some(Ok(p)) => p,
            Some(Err(e)) => return Some(Err(e)),
            None => return None,
        };
        n = n + m;
        Some(Ok((axis_value120 { axis, value120 }, n)))
    }
}

impl Codec for axis_value120 {
    open spec fn rt_ok(&self) -> bool {
        &&& self.axis.rt_ok()
        &&& self.value120.rt_ok()
    }

    proof fn lemma_roundtrip(&self, tail: Seq<u8>, base: Seq<Fd>) {
        let b0 = self.axis.ser_bytes();
        let b1 = self.value120.ser_bytes();
        let d0 = self.axis.ser_fds();
        let d1 = self.value120.ser_fds();
        let s2 = tail;
        let s1 = b1 + s2;
        let s0 = b0 + s1;
        let buf = self.ser_bytes() + tail;
        assert(buf =~= s0);
        assert(buf.skip(0) =~= s0);
        assert(self.ser_fds() =~= Seq::<Fd>::empty());
        assert(base + self.ser_fds().reverse() =~= base);
        assert(d0 =~= Seq::<Fd>::empty());
        assert(base + d0.reverse() =~= base);
        self.axis.lemma_roundtrip(s1, base);
        assert(buf.skip((b0.len()) as int) == s1) by {
            lemma_skip_step(buf, (0) as int, b0, s1);
        }
        assert(d1 =~= Seq::<Fd>::empty());
        assert(base + d1.reverse() =~= base);
        self.value120.lemma_roundtrip(s2, base);
    }
}

impl axis_value120 {
    /// The arguments are read in the protocol's order, `axis`, then `value120`: the bytes
    /// and descriptors written for such arguments, one after the other,
    /// decode to exactly those arguments.
    pub proof fn lemma_layout(axis: super::axis, value120: i32, rest: Seq<u8>, queue: Seq<Fd>)
        requires
            axis.ser_ok(),
            axis.rt_ok(),
            value120.ser_ok(),
            value120.rt_ok(),
            axis.ser_bytes().len() + value120.ser_bytes().len() <= usize::MAX,
        ensures
            ({
                let bytes = axis.ser_bytes() + value120.ser_bytes();
                let fds = axis.ser_fds() + value120.ser_fds();
                axis_value120::dsr_spec(bytes + rest, queue + fds.reverse()) == Decoded::Value(
                    (axis.deep_view(), value120.deep_view(),),
                    bytes.len(),
                    queue,
                )
            }),
    {
        let m = axis_value120 { axis, value120 };
        m.lemma_roundtrip(rest, queue);
    }

    /// The message creates no object.
    pub proof fn lemma_creates(&self)
        ensures
            self.created_id() is None,
    {
    }
}

impl Msg<Obj> for axis_value120 {
    open spec fn opcode() -> u16 {
        9
    }

    open spec fn since_version() -> u32 {
        1
    }

    open spec fn created_id(&self) -> Option<u32> {
        None
    }

    open spec fn created_destructor(&self) -> Option<u16> {
        None
    }

    fn op() -> (r: u16) {
        9
    }

    fn since() -> u32 {
        1
    }

    fn new_id(&self) -> (r: Option<(u32, ObjMeta)>) {
        None
    }
}

impl Event<Obj> for axis_value120 {

}

/// axis relative physical direction event
///
/// Relative directional information of the entity causing the axis
/// motion.
///
/// For a wl_pointer.axis event, the wl_pointer.axis_relative_direction
/// event specifies the movement direction of the entity causing the
/// wl_pointer.axis event. For example:
/// - if a user's fingers on a touchpad move down and this
/// causes a wl_pointer.axis vertical_scroll down event, the physical
/// direction is 'identical'
/// - if a user's fingers on a touchpad move down and this causes a
/// wl_pointer.axis vertical_scroll up scroll up event ('natural
/// scrolling'), the physical direction is 'inverted'.
///
/// A client may use this information to adjust scroll motion of
/// components. Specifically, enabling natural scrolling causes the
/// content to change direction compared to traditional scrolling.
/// Some widgets like volume control sliders should usually match the
/// physical direction regardless of whether natural scrolling is
/// active. This event enables clients to match the scroll direction of
/// a widget to the physical direction.
///
/// This event does not occur on its own, it is coupled with a
/// wl_pointer.axis event that represents this axis value.
/// The protocol guarantees that each axis_relative_direction event is
/// always followed by exactly one axis event with the same
/// axis number within the same wl_pointer.frame. Note that the protocol
/// allows for other events to occur between the axis_relative_direction
/// and its coupled axis event.
///
/// The axis number is identical to the axis number in the associated
/// axis event.
///
/// The order of wl_pointer.axis_relative_direction,
/// wl_pointer.axis_discrete and wl_pointer.axis_source is not
/// guaranteed.
///
#[derive(Debug)]
pub struct axis_relative_direction {
    // axis type
    pub axis: super::axis,
    // physical direction relative to axis motion
    pub direction: super::axis_relative_direction,
}

impl Ser for axis_relative_direction {
    open spec fn ser_ok(&self) -> bool {
        &&& self.axis.ser_ok()
        &&& self.direction.ser_ok()
        &&& self.ser_bytes().len() <= usize::MAX
    }

    open spec fn ser_bytes(&self) -> Seq<u8> {
        self.axis.ser_bytes() + self.direction.ser_bytes()
    }

    open spec fn ser_fds(&self) -> Seq<Fd> {
        self.axis.ser_fds() + self.direction.ser_fds()
    }

    fn wire_len(&self) -> (n: usize) {
        self.axis.wire_len() + self.direction.wire_len()
    }

    fn checked_len(&self) -> (r: Option<usize>) {
        let n0 = match self.axis.checked_len() {
            Some(m) => m,
            None => return None,
        };
        let n1 = match self.direction.checked_len() {
            Some(m) => match n0.checked_add(m) {
                Some(t) => t,
                None => return None,
            },
            None => return None,
        };
        Some(n1)
    }

    open spec fn ser_fits(&self, cap: int) -> bool {
        &&& 0 <= cap && self.axis.ser_fits(cap - (0))
        &&& self.axis.ser_bytes().len() <= cap && self.direction.ser_fits(cap - (self.axis.ser_bytes().len()))
    }

    fn serialize(self, buf: &mut [u8], fds: &mut Vec<Fd>) -> (r: Result<usize, &'static str>) {
        let ghost me = self;
        let ghost b0 = buf@;
        let mut n: usize = 0;
        n = n + ser_at(self.axis, buf, n, fds);
        assert(fds@ =~= old(fds)@ + me.axis.ser_fds());
        n = n + ser_at(self.direction, buf, n, fds);
        proof {
            lemma_write_then(b0, 0, me.axis.ser_bytes(), me.direction.ser_bytes());
        }
        assert(fds@ =~= old(fds)@ + me.ser_fds());
        Ok(n)
    }

    proof fn lemma_fits(&self, cap: int) {
        self.axis.lemma_fits(cap - (0));
        self.direction.lemma_fits(cap - (self.axis.ser_bytes().len()));
    }
}

impl DeepView for axis_relative_direction {
    type V = (<super::axis as DeepView>::V, <super::axis_relative_direction as DeepView>::V,);

    open spec fn deep_view(&self) -> (<super::axis as DeepView>::V, <super::axis_relative_direction as DeepView>::V,) {
        (self.axis.deep_view(), self.direction.deep_view(),)
    }
}

impl Dsr for axis_relative_direction {
    open spec fn dsr_spec(buf: Seq<u8>, fds: Seq<Fd>) -> Decoded<(<super::axis as DeepView>::V, <super::axis_relative_direction as DeepView>::V,)> {
        match <super::axis>::dsr_spec(buf, fds) {
            Decoded::Value(axis, n0, q0) => {
                match <super::axis_relative_direction>::dsr_spec(buf.skip(n0 as int), q0) {
                    Decoded::Value(direction, m1, q1) => {
                        let n1 = n0 + m1;
                        Decoded::Value((axis, direction,), n1, q1)
                    },
                    d => d.fail(),
                }
            },
            d => d.fail(),
        }
    }

    fn try_deserialize(buf: &[u8], fds: &mut Vec<Fd>) -> (r: Option<Result<(axis_relative_direction, usize), &'static str>>) {
        let mut n: usize = 0;
        let rest = &buf[n..buf.len()];
        assert(rest@ =~= buf@.skip(n as int));
        assert(n == 0 ==> rest@ =~= buf@);
        let (axis, m) = match <super::axis>::try_deserialize(rest, fds) {
            Some(Ok(p)) => p,
            Some(Err(e)) => return Some(Err(e)),
            None => return None,
        };
        n = n + m;
        let rest = &buf[n..buf.len()];
        assert(rest@ =~= buf@.skip(n as int));
        assert(n == 0 ==> rest@ =~= buf@);
        let (direction, m) = match <super::axis_relative_direction>::try_deserialize(rest, fds) {
            Some(Ok(p)) => p,
            Some(Err(e)) => return Some(Err(e)),
            None => return None,
        };
        n = n + m;
        Some(Ok((axis_relative_direction { axis, direction }, n)))
    }
}

impl Codec for axis_relative_direction {
    open spec fn rt_ok(&self) -> bool {
        &&& self.axis.rt_ok()
        &&& self.direction.rt_ok()
    }

    proof fn lemma_roundtrip(&self, tail: Seq<u8>, base: Seq<Fd>) {
        let b0 = self.axis.ser_bytes();
        let b1 = self.direction.ser_bytes();
        let d0 = self.axis.ser_fds();
        let d1 = self.direction.ser_fds();
        let s2 = tail;
        let s1 = b1 + s2;
        let s0 = b0 + s1;
        let buf = self.ser_bytes() + tail;
        assert(buf =~= s0);
        assert(buf.skip(0) =~= s0);
        assert(self.ser_fds() =~= Seq::<Fd>::empty());
        assert(base + self.ser_fds().reverse() =~= base);
        assert(d0 =~= Seq::<Fd>::empty());
        assert(base + d0.reverse() =~= base);
        self.axis.lemma_roundtrip(s1, base);
        assert(buf.skip((b0.len()) as int) == s1) by {
            lemma_skip_step(buf, (0) as int, b0, s1);
        }
        assert(d1 =~= Seq::<Fd>::empty());
        assert(base + d1.reverse() =~= base);
        self.direction.lemma_roundtrip(s2, base);
    }
}

impl axis_relative_direction {
    /// The arguments are read in the protocol's order, `axis`, then `direction`: the bytes
    /// and descriptors written for such arguments, one after the other,
    /// decode to exactly those arguments.
    pub proof fn lemma_layout(axis: super::axis, direction: super::axis_relative_direction, rest: Seq<u8>, queue: Seq<Fd>)
        requires
            axis.ser_ok(),
            axis.rt_ok(),
            direction.ser_ok(),
            direction.rt_ok(),
            axis.ser_bytes().len() + direction.ser_bytes().len() <= usize::MAX,
        ensures
            ({
                let bytes = axis.ser_bytes() + direction.ser_bytes();
                let fds = axis.ser_fds() + direction.ser_fds();
                axis_relative_direction::dsr_spec(bytes + rest, queue + fds.reverse()) == Decoded::Value(
                    (axis.deep_view(), direction.deep_view(),),
                    bytes.len(),
                    queue,
                )
            }),
    {
        let m = axis_relative_direction { axis, direction };
        m.lemma_roundtrip(rest, queue);
    }

    /// The message creates no object.
    pub proof fn lemma_creates(&self)
        ensures
            self.created_id() is None,
    {
    }
}

impl Msg<Obj> for axis_relative_direction {
    open spec fn opcode() -> u16 {
        10
    }

    open spec fn since_version() -> u32 {
        1
    }

    open spec fn created_id(&self) -> Option<u32> {
        None
    }

    open spec fn created_destructor(&self) -> Option<u16> {
        None
    }

    fn op() -> (r: u16) {
        10
    }

    fn since() -> u32 {
        1
    }

    fn new_id(&self) -> (r: Option<(u32, ObjMeta)>) {
        None
    }
}

impl Event<Obj> for axis_relative_direction {

}

/// The opcode of each event: its index in the protocol's list of the
/// interface's events, so that no two events share one.
pub proof fn lemma_opcodes()
    ensures
        <enter as Msg<Obj>>::opcode() == 0,
        <leave as Msg<Obj>>::opcode() == 1,
        <motion as Msg<Obj>>::opcode() == 2,
        <button as Msg<Obj>>::opcode() == 3,
        <axis as Msg<Obj>>::opcode() == 4,
        <frame as Msg<Obj>>::opcode() == 5,
        <axis_source as Msg<Obj>>::opcode() == 6,
        <axis_stop as Msg<Obj>>::opcode() == 7,
        <axis_discrete as Msg<Obj>>::opcode() == 8,
        <axis_value120 as Msg<Obj>>::opcode() == 9,
        <axis_relative_direction as Msg<Obj>>::opcode() == 10,
        <enter as Msg<Obj>>::opcode() != <leave as Msg<Obj>>::opcode(),
        <enter as Msg<Obj>>::opcode() != <motion as Msg<Obj>>::opcode(),
        <enter as Msg<Obj>>::opcode() != <button as Msg<Obj>>::opcode(),
        <enter as Msg<Obj>>::opcode() != <axis as Msg<Obj>>::opcode(),
        <enter as Msg<Obj>>::opcode() != <frame as Msg<Obj>>::opcode(),
        <enter as Msg<Obj>>::opcode() != <axis_source as Msg<Obj>>::opcode(),
        <enter as Msg<Obj>>::opcode() != <axis_stop as Msg<Obj>>::opcode(),
        <enter as Msg<Obj>>::opcode() != <axis_discrete as Msg<Obj>>::opcode(),
        <enter as Msg<Obj>>::opcode() != <axis_value120 as Msg<Obj>>::opcode(),
        <enter as Msg<Obj>>::opcode() != <axis_relative_direction as Msg<Obj>>::opcode(),
        <leave as Msg<Obj>>::opcode() != <motion as Msg<Obj>>::opcode(),
        <leave as Msg<Obj>>::opcode() != <button as Msg<Obj>>::opcode(),
        <leave as Msg<Obj>>::opcode() != <axis as Msg<Obj>>::opcode(),
        <leave as Msg<Obj>>::opcode() != <frame as Msg<Obj>>::opcode(),
        <leave as Msg<Obj>>::opcode() != <axis_source as Msg<Obj>>::opcode(),
        <leave as Msg<Obj>>::opcode() != <axis_stop as Msg<Obj>>::opcode(),
        <leave as Msg<Obj>>::opcode() != <axis_discrete as Msg<Obj>>::opcode(),
        <leave as Msg<Obj>>::opcode() != <axis_value120 as Msg<Obj>>::opcode(),
        <leave as Msg<Obj>>::opcode() != <axis_relative_direction as Msg<Obj>>::opcode(),
        <motion as Msg<Obj>>::opcode() != <button as Msg<Obj>>::opcode(),
        <motion as Msg<Obj>>::opcode() != <axis as Msg<Obj>>::opcode(),
        <motion as Msg<Obj>>::opcode() != <frame as Msg<Obj>>::opcode(),
        <motion as Msg<Obj>>::opcode() != <axis_source as Msg<Obj>>::opcode(),
        <motion as Msg<Obj>>::opcode() != <axis_stop as Msg<Obj>>::opcode(),
        <motion as Msg<Obj>>::opcode() != <axis_discrete as Msg<Obj>>::opcode(),
        <motion as Msg<Obj>>::opcode() != <axis_value120 as Msg<Obj>>::opcode(),
        <motion as Msg<Obj>>::opcode() != <axis_relative_direction as Msg<Obj>>::opcode(),
        <button as Msg<Obj>>::opcode() != <axis as Msg<Obj>>::opcode(),
        <button as Msg<Obj>>::opcode() != <frame as Msg<Obj>>::opcode(),
        <button as Msg<Obj>>::opcode() != <axis_source as Msg<Obj>>::opcode(),
        <button as Msg<Obj>>::opcode() != <axis_stop as Msg<Obj>>::opcode(),
        <button as Msg<Obj>>::opcode() != <axis_discrete as Msg<Obj>>::opcode(),
        <button as Msg<Obj>>::opcode() != <axis_value120 as Msg<Obj>>::opcode(),
        <button as Msg<Obj>>::opcode() != <axis_relative_direction as Msg<Obj>>::opcode(),
        <axis as Msg<Obj>>::opcode() != <frame as Msg<Obj>>::opcode(),
        <axis as Msg<Obj>>::opcode() != <axis_source as Msg<Obj>>::opcode(),
        <axis as Msg<Obj>>::opcode() != <axis_stop as Msg<Obj>>::opcode(),
        <axis as Msg<Obj>>::opcode() != <axis_discrete as Msg<Obj>>::opcode(),
        <axis as Msg<Obj>>::opcode() != <axis_value120 as Msg<Obj>>::opcode(),
        <axis as Msg<Obj>>::opcode() != <axis_relative_direction as Msg<Obj>>::opcode(),
        <frame as Msg<Obj>>::opcode() != <axis_source as Msg<Obj>>::opcode(),
        <frame as Msg<Obj>>::opcode() != <axis_stop as Msg<Obj>>::opcode(),
        <frame as Msg<Obj>>::opcode() != <axis_discrete as Msg<Obj>>::opcode(),
        <frame as Msg<Obj>>::opcode() != <axis_value120 as Msg<Obj>>::opcode(),
        <frame as Msg<Obj>>::opcode() != <axis_relative_direction as Msg<Obj>>::opcode(),
        <axis_source as Msg<Obj>>::opcode() != <axis_stop as Msg<Obj>>::opcode(),
        <axis_source as Msg<Obj>>::opcode() != <axis_discrete as Msg<Obj>>::opcode(),
        <axis_source as Msg<Obj>>::opcode() != <axis_value120 as Msg<Obj>>::opcode(),
        <axis_source as Msg<Obj>>::opcode() != <axis_relative_direction as Msg<Obj>>::opcode(),
        <axis_stop as Msg<Obj>>::opcode() != <axis_discrete as Msg<Obj>>::opcode(),
        <axis_stop as Msg<Obj>>::opcode() != <axis_value120 as Msg<Obj>>::opcode(),
        <axis_stop as Msg<Obj>>::opcode() != <axis_relative_direction as Msg<Obj>>::opcode(),
        <axis_discrete as Msg<Obj>>::opcode() != <axis_value120 as Msg<Obj>>::opcode(),
        <axis_discrete as Msg<Obj>>::opcode() != <axis_relative_direction as Msg<Obj>>::opcode(),
        <axis_value120 as Msg<Obj>>::opcode() != <axis_relative_direction as Msg<Obj>>::opcode(),
{
}

} // verus!
