use vstd::prelude::*;
use crate::objects::{type_id_of, new_id, object, Dyn, ObjMeta, Object, Msg, Event};
use crate::wire::{ser_at, write_at, lemma_write_then, lemma_reverse_add, lemma_skip_step, fixed, Codec, Decoded, Dsr, Fd, Ser};
use super::Obj;

verus! {

/// introduce a new wl_data_offer
///
/// The data_offer event introduces a new wl_data_offer object,
/// which will subsequently be used in either the
/// data_device.enter event (for drag-and-drop) or the
/// data_device.selection event (for selections).  Immediately
/// following the data_device.data_offer event, the new data_offer
/// object will send out data_offer.offer events to describe the
/// mime types it offers.
///
#[derive(Debug)]
pub struct data_offer {
    // the new data_offer object
    pub id: new_id<crate::wl_data_offer::Obj>,
}

impl Ser for data_offer {
    open spec fn ser_ok(&self) -> bool {
        &&& self.id.ser_ok()
        &&& self.ser_bytes().len() <= usize::MAX
    }

    open spec fn ser_bytes(&self) -> Seq<u8> {
        self.id.ser_bytes()
    }

    open spec fn ser_fds(&self) -> Seq<Fd> {
        self.id.ser_fds()
    }

    fn wire_len(&self) -> (n: usize) {
        self.id.wire_len()
    }

    fn checked_len(&self) -> (r: Option<usize>) {
        let n0 = match self.id.checked_len() {
            Some(m) => m,
            None => return None,
        };
        Some(n0)
    }

    open spec fn ser_fits(&self, cap: int) -> bool {
        &&& 0 <= cap && self.id.ser_fits(cap - (0))
    }

    fn serialize(self, buf: &mut [u8], fds: &mut Vec<Fd>) -> (r: Result<usize, &'static str>) {
        let ghost me = self;
        let ghost b0 = buf@;
        let mut n: usize = 0;
        n = n + ser_at(self.id, buf, n, fds);
        assert(fds@ =~= old(fds)@ + me.ser_fds());
        Ok(n)
    }

    proof fn lemma_fits(&self, cap: int) {
        self.id.lemma_fits(cap - (0));
    }
}

impl DeepView for data_offer {
    type V = (<new_id<crate::wl_data_offer::Obj> as DeepView>::V,);

    open spec fn deep_view(&self) -> (<new_id<crate::wl_data_offer::Obj> as DeepView>::V,) {
        (self.id.deep_view(),)
    }
}

impl Dsr for data_offer {
    open spec fn dsr_spec(buf: Seq<u8>, fds: Seq<Fd>) -> Decoded<(<new_id<crate::wl_data_offer::Obj> as DeepView>::V,)> {
        match <new_id<crate::wl_data_offer::Obj>>::dsr_spec(buf, fds) {
            Decoded::Value(id, n0, q0) => Decoded::Value((id,), n0, q0),
            d => d.fail(),
        }
    }

    fn try_deserialize(buf: &[u8], fds: &mut Vec<Fd>) -> (r: Option<Result<(data_offer, usize), &'static str>>) {
        let mut n: usize = 0;
        let rest = &buf[n..buf.len()];
        assert(rest@ =~= buf@.skip(n as int));
        assert(n == 0 ==> rest@ =~= buf@);
        let (id, m) = match <new_id<crate::wl_data_offer::Obj>>::try_deserialize(rest, fds) {
            Some(Ok(p)) => p,
            Some(Err(e)) => return Some(Err(e)),
            None => return None,
        };
        n = n + m;
        Some(Ok((data_offer { id }, n)))
    }
}

impl Codec for data_offer {
    open spec fn rt_ok(&self) -> bool {
        &&& self.id.rt_ok()
    }

    proof fn lemma_roundtrip(&self, tail: Seq<u8>, base: Seq<Fd>) {
        let b0 = self.id.ser_bytes();
        let d0 = self.id.ser_fds();
        let s1 = tail;
        let s0 = b0 + s1;
        let buf = self.ser_bytes() + tail;
        assert(buf =~= s0);
        assert(buf.skip(0) =~= s0);
        assert(self.ser_fds() =~= Seq::<Fd>::empty());
        assert(base + self.ser_fds().reverse() =~= base);
        assert(d0 =~= Seq::<Fd>::empty());
        assert(base + d0.reverse() =~= base);
        self.id.lemma_roundtrip(s1, base);
    }
}

impl data_offer {
    /// The arguments are read in the protocol's order, `id`: the bytes
    /// and descriptors written for such arguments, one after the other,
    /// decode to exactly those arguments.
    pub proof fn lemma_layout(id: new_id<crate::wl_data_offer::Obj>, rest: Seq<u8>, queue: Seq<Fd>)
        requires
            id.ser_ok(),
            id.rt_ok(),
            id.ser_bytes().len() <= usize::MAX,
        ensures
            ({
                let bytes = id.ser_bytes();
                let fds = id.ser_fds();
                data_offer::dsr_spec(bytes + rest, queue + fds.reverse()) == Decoded::Value(
                    (id.deep_view(),),
                    bytes.len(),
                    queue,
                )
            }),
    {
        let m = data_offer { id };
        m.lemma_roundtrip(rest, queue);
    }

    /// The object the message creates is the one its `id` argument names,
    /// with the destructor of that argument's interface.
    pub proof fn lemma_creates(&self)
        ensures
            self.created_id() == Some(self.id.0),
            self.created_destructor() == <crate::wl_data_offer::Obj as Object>::destructor_op(),
    {
    }
}

impl Msg<Obj> for data_offer {
    open spec fn opcode() -> u16 {
        0
    }

    open spec fn since_version() -> u32 {
        1
    }

    open spec fn created_id(&self) -> Option<u32> {
        Some(self.id.0)
    }

    open spec fn created_destructor(&self) -> Option<u16> {
        crate::wl_data_offer::Obj::destructor_op()
    }

    fn op() -> (r: u16) {
        0
    }

    fn since() -> u32 {
        1
    }

    fn new_id(&self) -> (r: Option<(u32, ObjMeta)>) {
        let id = self.id.0;
        let meta = ObjMeta {
            alive: true,
            destructor: crate::wl_data_offer::Obj::destructor(),
            type_id: type_id_of::<crate::wl_data_offer::Obj>(),
        };
        Some((id, meta))
    }
}

impl Event<Obj> for data_offer {

}

/// initiate drag-and-drop session
///
/// This event is sent when an active drag-and-drop pointer enters
/// a surface owned by the client.  The position of the pointer at
/// enter time is provided by the x and y arguments, in surface-local
/// coordinates.
///
#[derive(Debug)]
pub struct enter {
    // serial number of the enter event
    pub serial: u32,
    // client surface entered
    pub surface: object<crate::wl_surface::Obj>,
    // surface-local x coordinate
    pub x: fixed,
    // surface-local y coordinate
    pub y: fixed,
    // source data_offer object
    pub id: Option<object<crate::wl_data_offer::Obj>>,
}

impl Ser for enter {
    open spec fn ser_ok(&self) -> bool {
        &&& self.serial.ser_ok()
        &&& self.surface.ser_ok()
        &&& self.x.ser_ok()
        &&& self.y.ser_ok()
        &&& self.id.ser_ok()
        &&& self.ser_bytes().len() <= usize::MAX
    }

    open spec fn ser_bytes(&self) -> Seq<u8> {
        self.serial.ser_bytes() + self.surface.ser_bytes() + self.x.ser_bytes() + self.y.ser_bytes() + self.id.ser_bytes()
    }

    open spec fn ser_fds(&self) -> Seq<Fd> {
        self.serial.ser_fds() + self.surface.ser_fds() + self.x.ser_fds() + self.y.ser_fds() + self.id.ser_fds()
    }

    fn wire_len(&self) -> (n: usize) {
        self.serial.wire_len() + self.surface.wire_len() + self.x.wire_len() + self.y.wire_len() + self.id.wire_len()
    }

    fn checked_len(&self) -> (r: Option<usize>) {
        let n0 = match self.serial.checked_len() {
            Some(m) => m,
            None => return None,
        };
        let n1 = match self.surface.checked_len() {
            Some(m) => match n0.checked_add(m) {
                Some(t) => t,
                None => return None,
            },
            None => return None,
        };
        let n2 = match self.x.checked_len() {
            Some(m) => match n1.checked_add(m) {
                Some(t) => t,
                None => return None,
            },
            None => return None,
        };
        let n3 = match self.y.checked_len() {
            Some(m) => match n2.checked_add(m) {
                Some(t) => t,
                None => return None,
            },
            None => return None,
        };
        let n4 = match self.id.checked_len() {
            Some(m) => match n3.checked_add(m) {
                Some(t) => t,
                None => return None,
            },
            None => return None,
        };
        Some(n4)
    }

    open spec fn ser_fits(&self, cap: int) -> bool {
        &&& 0 <= cap && self.serial.ser_fits(cap - (0))
        &&& self.serial.ser_bytes().len() <= cap && self.surface.ser_fits(cap - (self.serial.ser_bytes().len()))
        &&& self.serial.ser_bytes().len() + self.surface.ser_bytes().len() <= cap && self.x.ser_fits(cap - (self.serial.ser_bytes().len() + self.surface.ser_bytes().len()))
        &&& self.serial.ser_bytes().len() + self.surface.ser_bytes().len() + self.x.ser_bytes().len() <= cap && self.y.ser_fits(cap - (self.serial.ser_bytes().len() + self.surface.ser_bytes().len() + self.x.ser_bytes().len()))
        &&& self.serial.ser_bytes().len() + self.surface.ser_bytes().len() + self.x.ser_bytes().len() + self.y.ser_bytes().len() <= cap && self.id.ser_fits(cap - (self.serial.ser_bytes().len() + self.surface.ser_bytes().len() + self.x.ser_bytes().len() + self.y.ser_bytes().len()))
    }

    fn serialize(self, buf: &mut [u8], fds: &mut Vec<Fd>) -> (r: Result<usize, &'static str>) {
        let ghost me = self;
        let ghost b0 = buf@;
        let mut n: usize = 0;
        n = n + ser_at(self.serial, buf, n, fds);
        assert(fds@ =~= old(fds)@ + me.serial.ser_fds());
        n = n + ser_at(self.surface, buf, n, fds);
        proof {
            lemma_write_then(b0, 0, me.serial.ser_bytes(), me.surface.ser_bytes());
        }
        assert(fds@ =~= old(fds)@ + me.serial.ser_fds() + me.surface.ser_fds());
        n = n + ser_at(self.x, buf, n, fds);
        proof {
            lemma_write_then(b0, 0, me.serial.ser_bytes() + me.surface.ser_bytes(), me.x.ser_bytes());
        }
        assert(fds@ =~= old(fds)@ + me.serial.ser_fds() + me.surface.ser_fds() + me.x.ser_fds());
        n = n + ser_at(self.y, buf, n, fds);
        proof {
            lemma_write_then(b0, 0, me.serial.ser_bytes() + me.surface.ser_bytes() + me.x.ser_bytes(), me.y.ser_bytes());
        }
        assert(fds@ =~= old(fds)@ + me.serial.ser_fds() + me.surface.ser_fds() + me.x.ser_fds() + me.y.ser_fds());
        n = n + ser_at(self.id, buf, n, fds);
        proof {
            lemma_write_then(b0, 0, me.serial.ser_bytes() + me.surface.ser_bytes() + me.x.ser_bytes() + me.y.ser_bytes(), me.id.ser_bytes());
        }
        assert(fds@ =~= old(fds)@ + me.ser_fds());
        Ok(n)
    }

    proof fn lemma_fits(&self, cap: int) {
        self.serial.lemma_fits(cap - (0));
        self.surface.lemma_fits(cap - (self.serial.ser_bytes().len()));
        self.x.lemma_fits(cap - (self.serial.ser_bytes().len() + self.surface.ser_bytes().len()));
        self.y.lemma_fits(cap - (self.serial.ser_bytes().len() + self.surface.ser_bytes().len() + self.x.ser_bytes().len()));
        self.id.lemma_fits(cap - (self.serial.ser_bytes().len() + self.surface.ser_bytes().len() + self.x.ser_bytes().len() + self.y.ser_bytes().len()));
    }
}

impl DeepView for enter {
    type V = (<u32 as DeepView>::V, <object<crate::wl_surface::Obj> as DeepView>::V, <fixed as DeepView>::V, <fixed as DeepView>::V, <Option<object<crate::wl_data_offer::Obj>> as DeepView>::V,);

    open spec fn deep_view(&self) -> (<u32 as DeepView>::V, <object<crate::wl_surface::Obj> as DeepView>::V, <fixed as DeepView>::V, <fixed as DeepView>::V, <Option<object<crate::wl_data_offer::Obj>> as DeepView>::V,) {
        (self.serial.deep_view(), self.surface.deep_view(), self.x.deep_view(), self.y.deep_view(), self.id.deep_view(),)
    }
}

impl Dsr for enter {
    open spec fn dsr_spec(buf: Seq<u8>, fds: Seq<Fd>) -> Decoded<(<u32 as DeepView>::V, <object<crate::wl_surface::Obj> as DeepView>::V, <fixed as DeepView>::V, <fixed as DeepView>::V, <Option<object<crate::wl_data_offer::Obj>> as DeepView>::V,)> {
        match <u32>::dsr_spec(buf, fds) {
            Decoded::Value(serial, n0, q0) => {
                match <object<crate::wl_surface::Obj>>::dsr_spec(buf.skip(n0 as int), q0) {
                    Decoded::Value(surface, m1, q1) => {
                        let n1 = n0 + m1;
                        match <fixed>::dsr_spec(buf.skip(n1 as int), q1) {
                            Decoded::Value(x, m2, q2) => {
                                let n2 = n1 + m2;
                                match <fixed>::dsr_spec(buf.skip(n2 as int), q2) {
                                    Decoded::Value(y, m3, q3) => {
                                        let n3 = n2 + m3;
                                        match <Option<object<crate::wl_data_offer::Obj>>>::dsr_spec(buf.skip(n3 as int), q3) {
                                            Decoded::Value(id, m4, q4) => {
                                                let n4 = n3 + m4;
                                                Decoded::Value((serial, surface, x, y, id,), n4, q4)
                                            },
                                            d => d.fail(),
                                        }
                                    },
                                    d => d.fail(),
                                }
                            },
                            d => d.fail(),
                        }
                    },
                    d => d.fail(),
                }
            },
            d => d.fail(),
        }
    }

    fn try_deserialize(buf: &[u8], fds: &mut Vec<Fd>) -> (r: Option<Result<(enter, usize), &'static str>>) {
        let mut n: usize = 0;
        let rest = &buf[n..buf.len()];
        assert(rest@ =~= buf@.skip(n as int));
        assert(n == 0 ==> rest@ =~= buf@);
        let (serial, m) = match <u32>::try_deserialize(rest, fds) {
            Some(Ok(p)) => p,
            Some(Err(e)) => return Some(Err(e)),
            None => return None,
        };
        n = n + m;
        let rest = &buf[n..buf.len()];
        assert(rest@ =~= buf@.skip(n as int));
        assert(n == 0 ==> rest@ =~= buf@);
        let (surface, m) = match <object<crate::wl_surface::Obj>>::try_deserialize(rest, fds) {
            Some(Ok(p)) => p,
            Some(Err(e)) => return Some(Err(e)),
            None => return None,
        };
        n = n + m;
        let rest = &buf[n..buf.len()];
        assert(rest@ =~= buf@.skip(n as int));
        assert(n == 0 ==> rest@ =~= buf@);
        let (x, m) = match <fixed>::try_deserialize(rest, fds) {
            Some(Ok(p)) => p,
            Some(Err(e)) => return Some(Err(e)),
            None => return None,
        };
        n = n + m;
        let rest = &buf[n..buf.len()];
        assert(rest@ =~= buf@.skip(n as int));
        assert(n == 0 ==> rest@ =~= buf@);
        let (y, m) = match <fixed>::try_deserialize(rest, fds) {
            Some(Ok(p)) => p,
            Some(Err(e)) => return Some(Err(e)),
            None => return None,
        };
        n = n + m;
        let rest = &buf[n..buf.len()];
        assert(rest@ =~= buf@.skip(n as int));
        assert(n == 0 ==> rest@ =~= buf@);
        let (id, m) = match <Option<object<crate::wl_data_offer::Obj>>>::try_deserialize(rest, fds) {
            Some(Ok(p)) => p,
            Some(Err(e)) => return Some(Err(e)),
            None => return None,
        };
        n = n + m;
        Some(Ok((enter { serial, surface, x, y, id }, n)))
    }
}

impl Codec for enter {
    open spec fn rt_ok(&self) -> bool {
        &&& self.serial.rt_ok()
        &&& self.surface.rt_ok()
        &&& self.x.rt_ok()
        &&& self.y.rt_ok()
        &&& self.id.rt_ok()
    }

    proof fn lemma_roundtrip(&self, tail: Seq<u8>, base: Seq<Fd>) {
        let b0 = self.serial.ser_bytes();
        let b1 = self.surface.ser_bytes();
        let b2 = self.x.ser_bytes();
        let b3 = self.y.ser_bytes();
        let b4 = self.id.ser_bytes();
        let d0 = self.serial.ser_fds();
        let d1 = self.surface.ser_fds();
        let d2 = self.x.ser_fds();
        let d3 = self.y.ser_fds();
        let d4 = self.id.ser_fds();
        let s5 = tail;
        let s4 = b4 + s5;
        let s3 = b3 + s4;
        let s2 = b2 + s3;
        let s1 = b1 + s2;
        let s0 = b0 + s1;
        let buf = self.ser_bytes() + tail;
        assert(buf =~= s0);
        assert(buf.skip(0) =~= s0);
        assert(self.ser_fds() =~= Seq::<Fd>::empty());
        assert(base + self.ser_fds().reverse() =~= base);
        assert(d0 =~= Seq::<Fd>::empty());
        assert(base + d0.reverse() =~= base);
        self.serial.lemma_roundtrip(s1, base);
        assert(buf.skip((b0.len()) as int) == s1) by {
            lemma_skip_step(buf, (0) as int, b0, s1);
        }
        assert(d1 =~= Seq::<Fd>::empty());
        assert(base + d1.reverse() =~= base);
        self.surface.lemma_roundtrip(s2, base);
        assert(buf.skip((b0.len() + b1.len()) as int) == s2) by {
            lemma_skip_step(buf, (b0.len()) as int, b1, s2);
        }
        assert(d2 =~= Seq::<Fd>::empty());
        assert(base + d2.reverse() =~= base);
        self.x.lemma_roundtrip(s3, base);
        assert(buf.skip((b0.len() + b1.len() + b2.len()) as int) == s3) by {
            lemma_skip_step(buf, (b0.len() + b1.len()) as int, b2, s3);
        }
        assert(d3 =~= Seq::<Fd>::empty());
        assert(base + d3.reverse() =~= base);
        self.y.lemma_roundtrip(s4, base);
        assert(buf.skip((b0.len() + b1.len() + b2.len() + b3.len()) as int) == s4) by {
            lemma_skip_step(buf, (b0.len() + b1.len() + b2.len()) as int, b3, s4);
        }
        assert(d4 =~= Seq::<Fd>::empty());
        assert(base + d4.reverse() =~= base);
        self.id.lemma_roundtrip(s5, base);
    }
}

impl enter {
    /// The arguments are read in the protocol's order, `serial`, then `surface`, then `x`, then `y`, then `id`: the bytes
    /// and descriptors written for such arguments, one after the other,
    /// decode to exactly those arguments.
    pub proof fn lemma_layout(serial: u32, surface: object<crate::wl_surface::Obj>, x: fixed, y: fixed, id: Option<object<crate::wl_data_offer::Obj>>, rest: Seq<u8>, queue: Seq<Fd>)
        requires
            serial.ser_ok(),
            serial.rt_ok(),
            surface.ser_ok(),
            surface.rt_ok(),
            x.ser_ok(),
            x.rt_ok(),
            y.ser_ok(),
            y.rt_ok(),
            id.ser_ok(),
            id.rt_ok(),
            serial.ser_bytes().len() + surface.ser_bytes().len() + x.ser_bytes().len() + y.ser_bytes().len() + id.ser_bytes().len() <= usize::MAX,
        ensures
            ({
                let bytes = serial.ser_bytes() + surface.ser_bytes() + x.ser_bytes() + y.ser_bytes() + id.ser_bytes();
                let fds = serial.ser_fds() + surface.ser_fds() + x.ser_fds() + y.ser_fds() + id.ser_fds();
                enter::dsr_spec(bytes + rest, queue + fds.reverse()) == Decoded::Value(
                    (serial.deep_view(), surface.deep_view(), x.deep_view(), y.deep_view(), id.deep_view(),),
                    bytes.len(),
                    queue,
                )
            }),
    {
        let m = enter { serial, surface, x, y, id };
        m.lemma_roundtrip(rest, queue);
    }

    /// The message creates no object.
    pub proof fn lemma_creates(&self)
        ensures
            self.created_id() is None,
    {
    }
}

impl Msg<Obj> for enter {
    open spec fn opcode() -> u16 {
        1
    }

    open spec fn since_version() -> u32 {
        1
    }

    open spec fn created_id(&self) -> Option<u32> {
        None
    }

    open spec fn created_destructor(&self) -> Option<u16> {
        None
    }

    fn op() -> (r: u16) {
        1
    }

    fn since() -> u32 {
        1
    }

    fn new_id(&self) -> (r: Option<(u32, ObjMeta)>) {
        None
    }
}

impl Event<Obj> for enter {

}

/// end drag-and-drop session
///
/// This event is sent when the drag-and-drop pointer leaves the
/// surface and the session ends.  The client must destroy the
/// wl_data_offer introduced at enter time at this point.
///
#[derive(Debug)]
pub struct leave {}

impl Ser for leave {
    open spec fn ser_ok(&self) -> bool {
        true
    }

    open spec fn ser_bytes(&self) -> Seq<u8> {
        Seq::empty()
    }

    open spec fn ser_fds(&self) -> Seq<Fd> {
        Seq::empty()
    }

    fn wire_len(&self) -> (n: usize) {
        0
    }

    fn checked_len(&self) -> (r: Option<usize>) {
        Some(0)
    }

    open spec fn ser_fits(&self, cap: int) -> bool {
        true
    }

    fn serialize(self, buf: &mut [u8], fds: &mut Vec<Fd>) -> (r: Result<usize, &'static str>) {
        assert(buf@ =~= write_at(old(buf)@, 0, Seq::<u8>::empty()));
        assert(fds@ =~= old(fds)@ + Seq::<Fd>::empty());
        Ok(0)
    }

    proof fn lemma_fits(&self, cap: int) {
    }
}

impl DeepView for leave {
    type V = ();

    open spec fn deep_view(&self) -> () {
        ()
    }
}

impl Dsr for leave {
    open spec fn dsr_spec(buf: Seq<u8>, fds: Seq<Fd>) -> Decoded<()> {
        Decoded::Value((), 0, fds)
    }

    fn try_deserialize(buf: &[u8], fds: &mut Vec<Fd>) -> (r: Option<Result<(leave, usize), &'static str>>) {
        Some(Ok((leave {}, 0)))
    }
}

impl Codec for leave {
    open spec fn rt_ok(&self) -> bool {
        true
    }

    proof fn lemma_roundtrip(&self, tail: Seq<u8>, base: Seq<Fd>) {
        assert(Seq::<Fd>::empty().reverse() =~= Seq::<Fd>::empty());
        assert(base + Seq::<Fd>::empty() =~= base);
    }
}

impl leave {
    /// The arguments are read in the protocol's order, no arguments: the bytes
    /// and descriptors written for such arguments, one after the other,
    /// decode to exactly those arguments.
    pub proof fn lemma_layout(rest: Seq<u8>, queue: Seq<Fd>)
        ensures
            ({
                let bytes = Seq::<u8>::empty();
                let fds = Seq::<Fd>::empty();
                leave::dsr_spec(bytes + rest, queue + fds.reverse()) == Decoded::Value(
                    (),
                    bytes.len(),
                    queue,
                )
            }),
    {
        let m = leave {};
        m.lemma_roundtrip(rest, queue);
    }

    /// The message creates no object.
    pub proof fn lemma_creates(&self)
        ensures
            self.created_id() is None,
    {
    }
}

impl Msg<Obj> for leave {
    open spec fn opcode() -> u16 {
        2
    }

    open spec fn since_version() -> u32 {
        1
    }

    open spec fn created_id(&self) -> Option<u32> {
        None
    }

    open spec fn created_destructor(&self) -> Option<u16> {
        None
    }

    fn op() -> (r: u16) {
        2
    }

    fn since() -> u32 {
        1
    }

    fn new_id(&self) -> (r: Option<(u32, ObjMeta)>) {
        None
    }
}

impl Event<Obj> for leave {

}

/// drag-and-drop session motion
///
/// This event is sent when the drag-and-drop pointer moves within
/// the currently focused surface. The new position of the pointer
/// is provided by the x and y arguments, in surface-local
/// coordinates.
///
#[derive(Debug)]
pub struct motion {
    // timestamp with millisecond granularity
    pub time: u32,
    // surface-local x coordinate
    pub x: fixed,
    // surface-local y coordinate
    pub y: fixed,
}

impl Ser for motion {
    open spec fn ser_ok(&self) -> bool {
        &&& self.time.ser_ok()
        &&& self.x.ser_ok()
        &&& self.y.ser_ok()
        &&& self.ser_bytes().len() <= usize::MAX
    }

    open spec fn ser_bytes(&self) -> Seq<u8> {
        self.time.ser_bytes() + self.x.ser_bytes() + self.y.ser_bytes()
    }

    open spec fn ser_fds(&self) -> Seq<Fd> {
        self.time.ser_fds() + self.x.ser_fds() + self.y.ser_fds()
    }

    fn wire_len(&self) -> (n: usize) {
        self.time.wire_len() + self.x.wire_len() + self.y.wire_len()
    }

    fn checked_len(&self) -> (r: Option<usize>) {
        let n0 = match self.time.checked_len() {
            Some(m) => m,
            None => return None,
        };
        let n1 = match self.x.checked_len() {
            Some(m) => match n0.checked_add(m) {
                Some(t) => t,
                None => return None,
            },
            None => return None,
        };
        let n2 = match self.y.checked_len() {
            Some(m) => match n1.checked_add(m) {
                Some(t) => t,
                None => return None,
            },
            None => return None,
        };
        Some(n2)
    }

    open spec fn ser_fits(&self, cap: int) -> bool {
        &&& 0 <= cap && self.time.ser_fits(cap - (0))
        &&& self.time.ser_bytes().len() <= cap && self.x.ser_fits(cap - (self.time.ser_bytes().len()))
        &&& self.time.ser_bytes().len() + self.x.ser_bytes().len() <= cap && self.y.ser_fits(cap - (self.time.ser_bytes().len() + self.x.ser_bytes().len()))
    }

    fn serialize(self, buf: &mut [u8], fds: &mut Vec<Fd>) -> (r: Result<usize, &'static str>) {
        let ghost me = self;
        let ghost b0 = buf@;
        let mut n: usize = 0;
        n = n + ser_at(self.time, buf, n, fds);
        assert(fds@ =~= old(fds)@ + me.time.ser_fds());
        n = n + ser_at(self.x, buf, n, fds);
        proof {
            lemma_write_then(b0, 0, me.time.ser_bytes(), me.x.ser_bytes());
        }
        assert(fds@ =~= old(fds)@ + me.time.ser_fds() + me.x.ser_fds());
        n = n + ser_at(self.y, buf, n, fds);
        proof {
            lemma_write_then(b0, 0, me.time.ser_bytes() + me.x.ser_bytes(), me.y.ser_bytes());
        }
        assert(fds@ =~= old(fds)@ + me.ser_fds());
        Ok(n)
    }

    proof fn lemma_fits(&self, cap: int) {
        self.time.lemma_fits(cap - (0));
        self.x.lemma_fits(cap - (self.time.ser_bytes().len()));
        self.y.lemma_fits(cap - (self.time.ser_bytes().len() + self.x.ser_bytes().len()));
    }
}

impl DeepView for motion {
    type V = (<u32 as DeepView>::V, <fixed as DeepView>::V, <fixed as DeepView>::V,);

    open spec fn deep_view(&self) -> (<u32 as DeepView>::V, <fixed as DeepView>::V, <fixed as DeepView>::V,) {
        (self.time.deep_view(), self.x.deep_view(), self.y.deep_view(),)
    }
}

impl Dsr for motion {
    open spec fn dsr_spec(buf: Seq<u8>, fds: Seq<Fd>) -> Decoded<(<u32 as DeepView>::V, <fixed as DeepView>::V, <fixed as DeepView>::V,)> {
        match <u32>::dsr_spec(buf, fds) {
            Decoded::Value(time, n0, q0) => {
                match <fixed>::dsr_spec(buf.skip(n0 as int), q0) {
                    Decoded::Value(x, m1, q1) => {
                        let n1 = n0 + m1;
                        match <fixed>::dsr_spec(buf.skip(n1 as int), q1) {
                            Decoded::Value(y, m2, q2) => {
                                let n2 = n1 + m2;
                                Decoded::Value((time, x, y,), n2, q2)
                            },
                            d => d.fail(),
                        }
                    },
                    d => d.fail(),
                }
            },
            d => d.fail(),
        }
    }

    fn try_deserialize(buf: &[u8], fds: &mut Vec<Fd>) -> (r: Option<Result<(motion, usize), &'static str>>) {
        let mut n: usize = 0;
        let rest = &buf[n..buf.len()];
        assert(rest@ =~= buf@.skip(n as int));
        assert(n == 0 ==> rest@ =~= buf@);
        let (time, m) = match <u32>::try_deserialize(rest, fds) {
            Some(Ok(p)) => p,
            Some(Err(e)) => return Some(Err(e)),
            None => return None,
        };
        n = n + m;
        let rest = &buf[n..buf.len()];
        assert(rest@ =~= buf@.skip(n as int));
        assert(n == 0 ==> rest@ =~= buf@);
        let (x, m) = match <fixed>::try_deserialize(rest, fds) {
            Some(Ok(p)) => p,
            Some(Err(e)) => return Some(Err(e)),
            None => return None,
        };
        n = n + m;
        let rest = &buf[n..buf.len()];
        assert(rest@ =~= buf@.skip(n as int));
        assert(n == 0 ==> rest@ =~= buf@);
        let (y, m) = match <fixed>::try_deserialize(rest, fds) {
            Some(Ok(p)) => p,
            Some(Err(e)) => return Some(Err(e)),
            None => return None,
        };
        n = n + m;
        Some(Ok((motion { time, x, y }, n)))
    }
}

impl Codec for motion {
    open spec fn rt_ok(&self) -> bool {
        &&& self.time.rt_ok()
        &&& self.x.rt_ok()
        &&& self.y.rt_ok()
    }

    proof fn lemma_roundtrip(&self, tail: Seq<u8>, base: Seq<Fd>) {
        let b0 = self.time.ser_bytes();
        let b1 = self.x.ser_bytes();
        let b2 = self.y.ser_bytes();
        let d0 = self.time.ser_fds();
        let d1 = self.x.ser_fds();
        let d2 = self.y.ser_fds();
        let s3 = tail;
        let s2 = b2 + s3;
        let s1 = b1 + s2;
        let s0 = b0 + s1;
        let buf = self.ser_bytes() + tail;
        assert(buf =~= s0);
        assert(buf.skip(0) =~= s0);
        assert(self.ser_fds() =~= Seq::<Fd>::empty());
        assert(base + self.ser_fds().reverse() =~= base);
        assert(d0 =~= Seq::<Fd>::empty());
        assert(base + d0.reverse() =~= base);
        self.time.lemma_roundtrip(s1, base);
        assert(buf.skip((b0.len()) as int) == s1) by {
            lemma_skip_step(buf, (0) as int, b0, s1);
        }
        assert(d1 =~= Seq::<Fd>::empty());
        assert(base + d1.reverse() =~= base);
        self.x.lemma_roundtrip(s2, base);
        assert(buf.skip((b0.len() + b1.len()) as int) == s2) by {
            lemma_skip_step(buf, (b0.len()) as int, b1, s2);
        }
        assert(d2 =~= Seq::<Fd>::empty());
        assert(base + d2.reverse() =~= base);
        self.y.lemma_roundtrip(s3, base);
    }
}

impl motion {
    /// The arguments are read in the protocol's order, `time`, then `x`, then `y`: the bytes
    /// and descriptors written for such arguments, one after the other,
    /// decode to exactly those arguments.
    pub proof fn lemma_layout(time: u32, x: fixed, y: fixed, rest: Seq<u8>, queue: Seq<Fd>)
        requires
            time.ser_ok(),
            time.rt_ok(),
            x.ser_ok(),
            x.rt_ok(),
            y.ser_ok(),
            y.rt_ok(),
            time.ser_bytes().len() + x.ser_bytes().len() + y.ser_bytes().len() <= usize::MAX,
        ensures
            ({
                let bytes = time.ser_bytes() + x.ser_bytes() + y.ser_bytes();
                let fds = time.ser_fds() + x.ser_fds() + y.ser_fds();
                motion::dsr_spec(bytes + rest, queue + fds.reverse()) == Decoded::Value(
                    (time.deep_view(), x.deep_view(), y.deep_view(),),
                    bytes.len(),
                    queue,
                )
            }),
    {
        let m = motion { time, x, y };
        m.lemma_roundtrip(rest, queue);
    }

    /// The message creates no object.
    pub proof fn lemma_creates(&self)
        ensures
            self.created_id() is None,
    {
    }
}

impl Msg<Obj> for motion {
    open spec fn opcode() -> u16 {
        3
    }

    open spec fn since_version() -> u32 {
        1
    }

    open spec fn created_id(&self) -> Option<u32> {
        None
    }

    open spec fn created_destructor(&self) -> Option<u16> {
        None
    }

    fn op() -> (r: u16) {
        3
    }

    fn since() -> u32 {
        1
    }

    fn new_id(&self) -> (r: Option<(u32, ObjMeta)>) {
        None
    }
}

impl Event<Obj> for motion {

}

/// end drag-and-drop session successfully
///
/// The event is sent when a drag-and-drop operation is ended
/// because the implicit grab is removed.
///
/// The drag-and-drop destination is expected to honor the last action
/// received through wl_data_offer.action, if the resulting action is
/// "copy" or "move", the destination can still perform
/// wl_data_offer.receive requests, and is expected to end all
/// transfers with a wl_data_offer.finish request.
///
/// If the resulting action is "ask", the action will not be considered
/// final. The drag-and-drop destination is expected to perform one last
/// wl_data_offer.set_actions request, or wl_data_offer.destroy in order
/// to cancel the operation.
///
#[derive(Debug)]
pub struct drop {}

impl Ser for drop {
    open spec fn ser_ok(&self) -> bool {
        true
    }

    open spec fn ser_bytes(&self) -> Seq<u8> {
        Seq::empty()
    }

    open spec fn ser_fds(&self) -> Seq<Fd> {
        Seq::empty()
    }

    fn wire_len(&self) -> (n: usize) {
        0
    }

    fn checked_len(&self) -> (r: Option<usize>) {
        Some(0)
    }

    open spec fn ser_fits(&self, cap: int) -> bool {
        true
    }

    fn serialize(self, buf: &mut [u8], fds: &mut Vec<Fd>) -> (r: Result<usize, &'static str>) {
        assert(buf@ =~= write_at(old(buf)@, 0, Seq::<u8>::empty()));
        assert(fds@ =~= old(fds)@ + Seq::<Fd>::empty());
        Ok(0)
    }

    proof fn lemma_fits(&self, cap: int) {
    }
}

impl DeepView for drop {
    type V = ();

    open spec fn deep_view(&self) -> () {
        ()
    }
}

impl Dsr for drop {
    open spec fn dsr_spec(buf: Seq<u8>, fds: Seq<Fd>) -> Decoded<()> {
        Decoded::Value((), 0, fds)
    }

    fn try_deserialize(buf: &[u8], fds: &mut Vec<Fd>) -> (r: Option<Result<(drop, usize), &'static str>>) {
        Some(Ok((drop {}, 0)))
    }
}

impl Codec for drop {
    open spec fn rt_ok(&self) -> bool {
        true
    }

    proof fn lemma_roundtrip(&self, tail: Seq<u8>, base: Seq<Fd>) {
        assert(Seq::<Fd>::empty().reverse() =~= Seq::<Fd>::empty());
        assert(base + Seq::<Fd>::empty() =~= base);
    }
}

impl drop {
    /// The arguments are read in the protocol's order, no arguments: the bytes
    /// and descriptors written for such arguments, one after the other,
    /// decode to exactly those arguments.
    pub proof fn lemma_layout(rest: Seq<u8>, queue: Seq<Fd>)
        ensures
            ({
                let bytes = Seq::<u8>::empty();
                let fds = Seq::<Fd>::empty();
                drop::dsr_spec(bytes + rest, queue + fds.reverse()) == Decoded::Value(
                    (),
                    bytes.len(),
                    queue,
                )
            }),
    {
        let m = drop {};
        m.lemma_roundtrip(rest, queue);
    }

    /// The message creates no object.
    pub proof fn lemma_creates(&self)
        ensures
            self.created_id() is None,
    {
    }
}

impl Msg<Obj> for drop {
    open spec fn opcode() -> u16 {
        4
    }

    open spec fn since_version() -> u32 {
        1
    }

    open spec fn created_id(&self) -> Option<u32> {
        None
    }

    open spec fn created_destructor(&self) -> Option<u16> {
        None
    }

    fn op() -> (r: u16) {
        4
    }

    fn since() -> u32 {
        1
    }

    fn new_id(&self) -> (r: Option<(u32, ObjMeta)>) {
        None
    }
}

impl Event<Obj> for drop {

}

/// advertise new selection
///
/// The selection event is sent out to notify the client of a new
/// wl_data_offer for the selection for this device.  The
/// data_device.data_offer and the data_offer.offer events are
/// sent out immediately before this event to introduce the data
/// offer object.  The selection event is sent to a client
/// immediately before receiving keyboard focus and when a new
/// selection is set while the client has keyboard focus.  The
/// data_offer is valid until a new data_offer or NULL is received
/// or until the client loses keyboard focus.  Switching surface with
/// keyboard focus within the same client doesn't mean a new selection
/// will be sent.  The client must destroy the previous selection
/// data_offer, if any, upon receiving this event.
///
#[derive(Debug)]
pub struct selection {
    // selection data_offer object
    pub id: Option<object<crate::wl_data_offer::Obj>>,
}

impl Ser for selection {
    open spec fn ser_ok(&self) -> bool {
        &&& self.id.ser_ok()
        &&& self.ser_bytes().len() <= usize::MAX
    }

    open spec fn ser_bytes(&self) -> Seq<u8> {
        self.id.ser_bytes()
    }

    open spec fn ser_fds(&self) -> Seq<Fd> {
        self.id.ser_fds()
    }

    fn wire_len(&self) -> (n: usize) {
        self.id.wire_len()
    }

    fn checked_len(&self) -> (r: Option<usize>) {
        let n0 = match self.id.checked_len() {
            Some(m) => m,
            None => return None,
        };
        Some(n0)
    }

    open spec fn ser_fits(&self, cap: int) -> bool {
        &&& 0 <= cap && self.id.ser_fits(cap - (0))
    }

    fn serialize(self, buf: &mut [u8], fds: &mut Vec<Fd>) -> (r: Result<usize, &'static str>) {
        let ghost me = self;
        let ghost b0 = buf@;
        let mut n: usize = 0;
        n = n + ser_at(self.id, buf, n, fds);
        assert(fds@ =~= old(fds)@ + me.ser_fds());
        Ok(n)
    }

    proof fn lemma_fits(&self, cap: int) {
        self.id.lemma_fits(cap - (0));
    }
}

impl DeepView for selection {
    type V = (<Option<object<crate::wl_data_offer::Obj>> as DeepView>::V,);

    open spec fn deep_view(&self) -> (<Option<object<crate::wl_data_offer::Obj>> as DeepView>::V,) {
        (self.id.deep_view(),)
    }
}

impl Dsr for selection {
    open spec fn dsr_spec(buf: Seq<u8>, fds: Seq<Fd>) -> Decoded<(<Option<object<crate::wl_data_offer::Obj>> as DeepView>::V,)> {
        match <Option<object<crate::wl_data_offer::Obj>>>::dsr_spec(buf, fds) {
            Decoded::Value(id, n0, q0) => Decoded::Value((id,), n0, q0),
            d => d.fail(),
        }
    }

    fn try_deserialize(buf: &[u8], fds: &mut Vec<Fd>) -> (r: Option<Result<(selection, usize), &'static str>>) {
        let mut n: usize = 0;
        let rest = &buf[n..buf.len()];
        assert(rest@ =~= buf@.skip(n as int));
        assert(n == 0 ==> rest@ =~= buf@);
        let (id, m) = match <Option<object<crate::wl_data_offer::Obj>>>::try_deserialize(rest, fds) {
            Some(Ok(p)) => p,
            Some(Err(e)) => return Some(Err(e)),
            None => return None,
        };
        n = n + m;
        Some(Ok((selection { id }, n)))
    }
}

impl Codec for selection {
    open spec fn rt_ok(&self) -> bool {
        &&& self.id.rt_ok()
    }

    proof fn lemma_roundtrip(&self, tail: Seq<u8>, base: Seq<Fd>) {
        let b0 = self.id.ser_bytes();
        let d0 = self.id.ser_fds();
        let s1 = tail;
        let s0 = b0 + s1;
        let buf = self.ser_bytes() + tail;
        assert(buf =~= s0);
        assert(buf.skip(0) =~= s0);
        assert(self.ser_fds() =~= Seq::<Fd>::empty());
        assert(base + self.ser_fds().reverse() =~= base);
        assert(d0 =~= Seq::<Fd>::empty());
        assert(base + d0.reverse() =~= base);
        self.id.lemma_roundtrip(s1, base);
    }
}

impl selection {
    /// The arguments are read in the protocol's order, `id`: the bytes
    /// and descriptors written for such arguments, one after the other,
    /// decode to exactly those arguments.
    pub proof fn lemma_layout(id: Option<object<crate::wl_data_offer::Obj>>, rest: Seq<u8>, queue: Seq<Fd>)
        requires
            id.ser_ok(),
            id.rt_ok(),
            id.ser_bytes().len() <= usize::MAX,
        ensures
            ({
                let bytes = id.ser_bytes();
                let fds = id.ser_fds();
                selection::dsr_spec(bytes + rest, queue + fds.reverse()) == Decoded::Value(
                    (id.deep_view(),),
                    bytes.len(),
                    queue,
                )
            }),
    {
        let m = selection { id };
        m.lemma_roundtrip(rest, queue);
    }

    /// The message creates no object.
    pub proof fn lemma_creates(&self)
        ensures
            self.created_id() is None,
    {
    }
}

impl Msg<Obj> for selection {
    open spec fn opcode() -> u16 {
        5
    }

    open spec fn since_version() -> u32 {
        1
    }

    open spec fn created_id(&self) -> Option<u32> {
        None
    }

    open spec fn created_destructor(&self) -> Option<u16> {
        None
    }

    fn op() -> (r: u16) {
        5
    }

    fn since() -> u32 {
        1
    }

    fn new_id(&self) -> (r: Option<(u32, ObjMeta)>) {
        None
    }
}

impl Event<Obj> for selection {

}

/// The opcode of each event: its index in the protocol's list of the
/// interface's events, so that no two events share one.
pub proof fn lemma_opcodes()
    ensures
        <data_offer as Msg<Obj>>::opcode() == 0,
        <enter as Msg<Obj>>::opcode() == 1,
        <leave as Msg<Obj>>::opcode() == 2,
        <motion as Msg<Obj>>::opcode() == 3,
        <drop as Msg<Obj>>::opcode() == 4,
        <selection as Msg<Obj>>::opcode() == 5,
        <data_offer as Msg<Obj>>::opcode() != <enter as Msg<Obj>>::opcode(),
        <data_offer as Msg<Obj>>::opcode() != <leave as Msg<Obj>>::opcode(),
        <data_offer as Msg<Obj>>::opcode() != <motion as Msg<Obj>>::opcode(),
        <data_offer as Msg<Obj>>::opcode() != <drop as Msg<Obj>>::opcode(),
        <data_offer as Msg<Obj>>::opcode() != <selection as Msg<Obj>>::opcode(),
        <enter as Msg<Obj>>::opcode() != <leave as Msg<Obj>>::opcode(),
        <enter as Msg<Obj>>::opcode() != <motion as Msg<Obj>>::opcode(),
        <enter as Msg<Obj>>::opcode() != <drop as Msg<Obj>>::opcode(),
        <enter as Msg<Obj>>::opcode() != <selection as Msg<Obj>>::opcode(),
        <leave as Msg<Obj>>::opcode() != <motion as Msg<Obj>>::opcode(),
        <leave as Msg<Obj>>::opcode() != <drop as Msg<Obj>>::opcode(),
        <leave as Msg<Obj>>::opcode() != <selection as Msg<Obj>>::opcode(),
        <motion as Msg<Obj>>::opcode() != <drop as Msg<Obj>>::opcode(),
        <motion as Msg<Obj>>::opcode() != <selection as Msg<Obj>>::opcode(),
        <drop as Msg<Obj>>::opcode() != <selection as Msg<Obj>>::opcode(),
{
}

} // verus!
