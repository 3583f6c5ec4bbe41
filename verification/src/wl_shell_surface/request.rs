use vstd::prelude::*;
use crate::objects::{type_id_of, new_id, object, Dyn, ObjMeta, Object, Msg, Request};
use crate::wire::{ser_at, write_at, lemma_write_then, lemma_reverse_add, lemma_skip_step, fixed, Codec, Decoded, Dsr, Fd, Ser};
use super::Obj;

verus! {

/// respond to a ping event
///
/// A client must respond to a ping event with a pong request or
/// the client may be deemed unresponsive.
///
#[derive(Debug)]
pub struct pong {
    // serial number of the ping event
    pub serial: u32,
}

impl Ser for pong {
    open spec fn ser_ok(&self) -> bool {
        &&& self.serial.ser_ok()
        &&& self.ser_bytes().len() <= usize::MAX
    }

    open spec fn ser_bytes(&self) -> Seq<u8> {
        self.serial.ser_bytes()
    }

    open spec fn ser_fds(&self) -> Seq<Fd> {
        self.serial.ser_fds()
    }

    fn wire_len(&self) -> (n: usize) {
        self.serial.wire_len()
    }

    fn checked_len(&self) -> (r: Option<usize>) {
        let n0 = match self.serial.checked_len() {
            Some(m) => m,
            None => return None,
        };
        Some(n0)
    }

    open spec fn ser_fits(&self, cap: int) -> bool {
        &&& 0 <= cap && self.serial.ser_fits(cap - (0))
    }

    fn serialize(self, buf: &mut [u8], fds: &mut Vec<Fd>) -> (r: Result<usize, &'static str>) {
        let ghost me = self;
        let ghost b0 = buf@;
        let mut n: usize = 0;
        n = n + ser_at(self.serial, buf, n, fds);
        assert(fds@ =~= old(fds)@ + me.ser_fds());
        Ok(n)
    }

    proof fn lemma_fits(&self, cap: int) {
        self.serial.lemma_fits(cap - (0));
    }
}

impl DeepView for pong {
    type V = (<u32 as DeepView>::V,);

    open spec fn deep_view(&self) -> (<u32 as DeepView>::V,) {
        (self.serial.deep_view(),)
    }
}

impl Dsr for pong {
    open spec fn dsr_spec(buf: Seq<u8>, fds: Seq<Fd>) -> Decoded<(<u32 as DeepView>::V,)> {
        match <u32>::dsr_spec(buf, fds) {
            Decoded::Value(serial, n0, q0) => Decoded::Value((serial,), n0, q0),
            d => d.fail(),
        }
    }

    fn try_deserialize(buf: &[u8], fds: &mut Vec<Fd>) -> (r: Option<Result<(pong, usize), &'static str>>) {
        let mut n: usize = 0;
        let rest = &buf[n..buf.len()];
        assert(rest@ =~= buf@.skip(n as int));
        assert(n == 0 ==> rest@ =~= buf@);
        let (serial, m) = match <u32>::try_deserialize(rest, fds) {
            Some(Ok(p)) => p,
            Some(Err(e)) => return Some(Err(e)),
            None => return None,
        };
        n = n + m;
        Some(Ok((pong { serial }, n)))
    }
}

impl Codec for pong {
    open spec fn rt_ok(&self) -> bool {
        &&& self.serial.rt_ok()
    }

    proof fn lemma_roundtrip(&self, tail: Seq<u8>, base: Seq<Fd>) {
        let b0 = self.serial.ser_bytes();
        let d0 = self.serial.ser_fds();
        let s1 = tail;
        let s0 = b0 + s1;
        let buf = self.ser_bytes() + tail;
        assert(buf =~= s0);
        assert(buf.skip(0) =~= s0);
        assert(self.ser_fds() =~= Seq::<Fd>::empty());
        assert(base + self.ser_fds().reverse() =~= base);
        assert(d0 =~= Seq::<Fd>::empty());
        assert(base + d0.reverse() =~= base);
        self.serial.lemma_roundtrip(s1, base);
    }
}

impl pong {
    /// The arguments are read in the protocol's order, `serial`: the bytes
    /// and descriptors written for such arguments, one after the other,
    /// decode to exactly those arguments.
    pub proof fn lemma_layout(serial: u32, rest: Seq<u8>, queue: Seq<Fd>)
        requires
            serial.ser_ok(),
            serial.rt_ok(),
            serial.ser_bytes().len() <= usize::MAX,
        ensures
            ({
                let bytes = serial.ser_bytes();
                let fds = serial.ser_fds();
                pong::dsr_spec(bytes + rest, queue + fds.reverse()) == Decoded::Value(
                    (serial.deep_view(),),
                    bytes.len(),
                    queue,
                )
            }),
    {
        let m = pong { serial };
        m.lemma_roundtrip(rest, queue);
    }

    /// The message creates no object.
    pub proof fn lemma_creates(&self)
        ensures
            self.created_id() is None,
    {
    }
}

impl Msg<Obj> for pong {
    open spec fn opcode() -> u16 {
        0
    }

    open spec fn since_version() -> u32 {
        1
    }

    open spec fn created_id(&self) -> Option<u32> {
        None
    }

    open spec fn created_destructor(&self) -> Option<u16> {
        None
    }

    fn op() -> (r: u16) {
        0
    }

    fn since() -> u32 {
        1
    }

    fn new_id(&self) -> (r: Option<(u32, ObjMeta)>) {
        None
    }
}

impl Request<Obj> for pong {

}

/// start an interactive move
///
/// Start a pointer-driven move of the surface.
///
/// This request must be used in response to a button press event.
/// The server may ignore move requests depending on the state of
/// the surface (e.g. fullscreen or maximized).
///
#[derive(Debug)]
pub struct move_ {
    // seat whose pointer is used
    pub seat: object<crate::wl_seat::Obj>,
    // serial number of the implicit grab on the pointer
    pub serial: u32,
}

impl Ser for move_ {
    open spec fn ser_ok(&self) -> bool {
        &&& self.seat.ser_ok()
        &&& self.serial.ser_ok()
        &&& self.ser_bytes().len() <= usize::MAX
    }

    open spec fn ser_bytes(&self) -> Seq<u8> {
        self.seat.ser_bytes() + self.serial.ser_bytes()
    }

    open spec fn ser_fds(&self) -> Seq<Fd> {
        self.seat.ser_fds() + self.serial.ser_fds()
    }

    fn wire_len(&self) -> (n: usize) {
        self.seat.wire_len() + self.serial.wire_len()
    }

    fn checked_len(&self) -> (r: Option<usize>) {
        let n0 = match self.seat.checked_len() {
            Some(m) => m,
            None => return None,
        };
        let n1 = match self.serial.checked_len() {
            Some(m) => match n0.checked_add(m) {
                Some(t) => t,
                None => return None,
            },
            None => return None,
        };
        Some(n1)
    }

    open spec fn ser_fits(&self, cap: int) -> bool {
        &&& 0 <= cap && self.seat.ser_fits(cap - (0))
        &&& self.seat.ser_bytes().len() <= cap && self.serial.ser_fits(cap - (self.seat.ser_bytes().len()))
    }

    fn serialize(self, buf: &mut [u8], fds: &mut Vec<Fd>) -> (r: Result<usize, &'static str>) {
        let ghost me = self;
        let ghost b0 = buf@;
        let mut n: usize = 0;
        n = n + ser_at(self.seat, buf, n, fds);
        assert(fds@ =~= old(fds)@ + me.seat.ser_fds());
        n = n + ser_at(self.serial, buf, n, fds);
        proof {
            lemma_write_then(b0, 0, me.seat.ser_bytes(), me.serial.ser_bytes());
        }
        assert(fds@ =~= old(fds)@ + me.ser_fds());
        Ok(n)
    }

    proof fn lemma_fits(&self, cap: int) {
        self.seat.lemma_fits(cap - (0));
        self.serial.lemma_fits(cap - (self.seat.ser_bytes().len()));
    }
}

impl DeepView for move_ {
    type V = (<object<crate::wl_seat::Obj> as DeepView>::V, <u32 as DeepView>::V,);

    open spec fn deep_view(&self) -> (<object<crate::wl_seat::Obj> as DeepView>::V, <u32 as DeepView>::V,) {
        (self.seat.deep_view(), self.serial.deep_view(),)
    }
}

impl Dsr for move_ {
    open spec fn dsr_spec(buf: Seq<u8>, fds: Seq<Fd>) -> Decoded<(<object<crate::wl_seat::Obj> as DeepView>::V, <u32 as DeepView>::V,)> {
        match <object<crate::wl_seat::Obj>>::dsr_spec(buf, fds) {
            Decoded::Value(seat, n0, q0) => {
                match <u32>::dsr_spec(buf.skip(n0 as int), q0) {
                    Decoded::Value(serial, m1, q1) => {
                        let n1 = n0 + m1;
                        Decoded::Value((seat, serial,), n1, q1)
                    },
                    d => d.fail(),
                }
            },
            d => d.fail(),
        }
    }

    fn try_deserialize(buf: &[u8], fds: &mut Vec<Fd>) -> (r: Option<Result<(move_, usize), &'static str>>) {
        let mut n: usize = 0;
        let rest = &buf[n..buf.len()];
        assert(rest@ =~= buf@.skip(n as int));
        assert(n == 0 ==> rest@ =~= buf@);
        let (seat, m) = match <object<crate::wl_seat::Obj>>::try_deserialize(rest, fds) {
            Some(Ok(p)) => p,
            Some(Err(e)) => return Some(Err(e)),
            None => return None,
        };
        n = n + m;
        let rest = &buf[n..buf.len()];
        assert(rest@ =~= buf@.skip(n as int));
        assert(n == 0 ==> rest@ =~= buf@);
        let (serial, m) = match <u32>::try_deserialize(rest, fds) {
            Some(Ok(p)) => p,
            Some(Err(e)) => return Some(Err(e)),
            None => return None,
        };
        n = n + m;
        Some(Ok((move_ { seat, serial }, n)))
    }
}

impl Codec for move_ {
    open spec fn rt_ok(&self) -> bool {
        &&& self.seat.rt_ok()
        &&& self.serial.rt_ok()
    }

    proof fn lemma_roundtrip(&self, tail: Seq<u8>, base: Seq<Fd>) {
        let b0 = self.seat.ser_bytes();
        let b1 = self.serial.ser_bytes();
        let d0 = self.seat.ser_fds();
        let d1 = self.serial.ser_fds();
        let s2 = tail;
        let s1 = b1 + s2;
        let s0 = b0 + s1;
        let buf = self.ser_bytes() + tail;
        assert(buf =~= s0);
        assert(buf.skip(0) =~= s0);
        assert(self.ser_fds() =~= Seq::<Fd>::empty());
        assert(base + self.ser_fds().reverse() =~= base);
        assert(d0 =~= Seq::<Fd>::empty());
        assert(base + d0.reverse() =~= base);
        self.seat.lemma_roundtrip(s1, base);
        assert(buf.skip((b0.len()) as int) == s1) by {
            lemma_skip_step(buf, (0) as int, b0, s1);
        }
        assert(d1 =~= Seq::<Fd>::empty());
        assert(base + d1.reverse() =~= base);
        self.serial.lemma_roundtrip(s2, base);
    }
}

impl move_ {
    /// The arguments are read in the protocol's order, `seat`, then `serial`: the bytes
    /// and descriptors written for such arguments, one after the other,
    /// decode to exactly those arguments.
    pub proof fn lemma_layout(seat: object<crate::wl_seat::Obj>, serial: u32, rest: Seq<u8>, queue: Seq<Fd>)
        requires
            seat.ser_ok(),
            seat.rt_ok(),
            serial.ser_ok(),
            serial.rt_ok(),
            seat.ser_bytes().len() + serial.ser_bytes().len() <= usize::MAX,
        ensures
            ({
                let bytes = seat.ser_bytes() + serial.ser_bytes();
                let fds = seat.ser_fds() + serial.ser_fds();
                move_::dsr_spec(bytes + rest, queue + fds.reverse()) == Decoded::Value(
                    (seat.deep_view(), serial.deep_view(),),
                    bytes.len(),
                    queue,
                )
            }),
    {
        let m = move_ { seat, serial };
        m.lemma_roundtrip(rest, queue);
    }

    /// The message creates no object.
    pub proof fn lemma_creates(&self)
        ensures
            self.created_id() is None,
    {
    }
}

impl Msg<Obj> for move_ {
    open spec fn opcode() -> u16 {
        1
    }

    open spec fn since_version() -> u32 {
        1
    }

    open spec fn created_id(&self) -> Option<u32> {
        None
    }

    open spec fn created_destructor(&self) -> Option<u16> {
        None
    }

    fn op() -> (r: u16) {
        1
    }

    fn since() -> u32 {
        1
    }

    fn new_id(&self) -> (r: Option<(u32, ObjMeta)>) {
        None
    }
}

impl Request<Obj> for move_ {

}

/// start an interactive resize
///
/// Start a pointer-driven resizing of the surface.
///
/// This request must be used in response to a button press event.
/// The server may ignore resize requests depending on the state of
/// the surface (e.g. fullscreen or maximized).
///
#[derive(Debug)]
pub struct resize {
    // seat whose pointer is used
    pub seat: object<crate::wl_seat::Obj>,
    // serial number of the implicit grab on the pointer
    pub serial: u32,
    // which edge or corner is being dragged
    pub edges: super::resize,
}

impl Ser for resize {
    open spec fn ser_ok(&self) -> bool {
        &&& self.seat.ser_ok()
        &&& self.serial.ser_ok()
        &&& self.edges.ser_ok()
        &&& self.ser_bytes().len() <= usize::MAX
    }

    open spec fn ser_bytes(&self) -> Seq<u8> {
        self.seat.ser_bytes() + self.serial.ser_bytes() + self.edges.ser_bytes()
    }

    open spec fn ser_fds(&self) -> Seq<Fd> {
        self.seat.ser_fds() + self.serial.ser_fds() + self.edges.ser_fds()
    }

    fn wire_len(&self) -> (n: usize) {
        self.seat.wire_len() + self.serial.wire_len() + self.edges.wire_len()
    }

    fn checked_len(&self) -> (r: Option<usize>) {
        let n0 = match self.seat.checked_len() {
            Some(m) => m,
            None => return None,
        };
        let n1 = match self.serial.checked_len() {
            Some(m) => match n0.checked_add(m) {
                Some(t) => t,
                None => return None,
            },
            None => return None,
        };
        let n2 = match self.edges.checked_len() {
            Some(m) => match n1.checked_add(m) {
                Some(t) => t,
                None => return None,
            },
            None => return None,
        };
        Some(n2)
    }

    open spec fn ser_fits(&self, cap: int) -> bool {
        &&& 0 <= cap && self.seat.ser_fits(cap - (0))
        &&& self.seat.ser_bytes().len() <= cap && self.serial.ser_fits(cap - (self.seat.ser_bytes().len()))
        &&& self.seat.ser_bytes().len() + self.serial.ser_bytes().len() <= cap && self.edges.ser_fits(cap - (self.seat.ser_bytes().len() + self.serial.ser_bytes().len()))
    }

    fn serialize(self, buf: &mut [u8], fds: &mut Vec<Fd>) -> (r: Result<usize, &'static str>) {
        let ghost me = self;
        let ghost b0 = buf@;
        let mut n: usize = 0;
        n = n + ser_at(self.seat, buf, n, fds);
        assert(fds@ =~= old(fds)@ + me.seat.ser_fds());
        n = n + ser_at(self.serial, buf, n, fds);
        proof {
            lemma_write_then(b0, 0, me.seat.ser_bytes(), me.serial.ser_bytes());
        }
        assert(fds@ =~= old(fds)@ + me.seat.ser_fds() + me.serial.ser_fds());
        n = n + ser_at(self.edges, buf, n, fds);
        proof {
            lemma_write_then(b0, 0, me.seat.ser_bytes() + me.serial.ser_bytes(), me.edges.ser_bytes());
        }
        assert(fds@ =~= old(fds)@ + me.ser_fds());
        Ok(n)
    }

    proof fn lemma_fits(&self, cap: int) {
        self.seat.lemma_fits(cap - (0));
        self.serial.lemma_fits(cap - (self.seat.ser_bytes().len()));
        self.edges.lemma_fits(cap - (self.seat.ser_bytes().len() + self.serial.ser_bytes().len()));
    }
}

impl DeepView for resize {
    type V = (<object<crate::wl_seat::Obj> as DeepView>::V, <u32 as DeepView>::V, <super::resize as DeepView>::V,);

    open spec fn deep_view(&self) -> (<object<crate::wl_seat::Obj> as DeepView>::V, <u32 as DeepView>::V, <super::resize as DeepView>::V,) {
        (self.seat.deep_view(), self.serial.deep_view(), self.edges.deep_view(),)
    }
}

impl Dsr for resize {
    open spec fn dsr_spec(buf: Seq<u8>, fds: Seq<Fd>) -> Decoded<(<object<crate::wl_seat::Obj> as DeepView>::V, <u32 as DeepView>::V, <super::resize as DeepView>::V,)> {
        match <object<crate::wl_seat::Obj>>::dsr_spec(buf, fds) {
            Decoded::Value(seat, n0, q0) => {
                match <u32>::dsr_spec(buf.skip(n0 as int), q0) {
                    Decoded::Value(serial, m1, q1) => {
                        let n1 = n0 + m1;
                        match <super::resize>::dsr_spec(buf.skip(n1 as int), q1) {
                            Decoded::Value(edges, m2, q2) => {
                                let n2 = n1 + m2;
                                Decoded::Value((seat, serial, edges,), n2, q2)
                            },
                            d => d.fail(),
                        }
                    },
                    d => d.fail(),
                }
            },
            d => d.fail(),
        }
    }

    fn try_deserialize(buf: &[u8], fds: &mut Vec<Fd>) -> (r: Option<Result<(resize, usize), &'static str>>) {
        let mut n: usize = 0;
        let rest = &buf[n..buf.len()];
        assert(rest@ =~= buf@.skip(n as int));
        assert(n == 0 ==> rest@ =~= buf@);
        let (seat, m) = match <object<crate::wl_seat::Obj>>::try_deserialize(rest, fds) {
            Some(Ok(p)) => p,
            Some(Err(e)) => return Some(Err(e)),
            None => return None,
        };
        n = n + m;
        let rest = &buf[n..buf.len()];
        assert(rest@ =~= buf@.skip(n as int));
        assert(n == 0 ==> rest@ =~= buf@);
        let (serial, m) = match <u32>::try_deserialize(rest, fds) {
            Some(Ok(p)) => p,
            Some(Err(e)) => return Some(Err(e)),
            None => return None,
        };
        n = n + m;
        let rest = &buf[n..buf.len()];
        assert(rest@ =~= buf@.skip(n as int));
        assert(n == 0 ==> rest@ =~= buf@);
        let (edges, m) = match <super::resize>::try_deserialize(rest, fds) {
            Some(Ok(p)) => p,
            Some(Err(e)) => return Some(Err(e)),
            None => return None,
        };
        n = n + m;
        Some(Ok((resize { seat, serial, edges }, n)))
    }
}

impl Codec for resize {
    open spec fn rt_ok(&self) -> bool {
        &&& self.seat.rt_ok()
        &&& self.serial.rt_ok()
        &&& self.edges.rt_ok()
    }

    proof fn lemma_roundtrip(&self, tail: Seq<u8>, base: Seq<Fd>) {
        let b0 = self.seat.ser_bytes();
        let b1 = self.serial.ser_bytes();
        let b2 = self.edges.ser_bytes();
        let d0 = self.seat.ser_fds();
        let d1 = self.serial.ser_fds();
        let d2 = self.edges.ser_fds();
        let s3 = tail;
        let s2 = b2 + s3;
        let s1 = b1 + s2;
        let s0 = b0 + s1;
        let buf = self.ser_bytes() + tail;
        assert(buf =~= s0);
        assert(buf.skip(0) =~= s0);
        assert(self.ser_fds() =~= Seq::<Fd>::empty());
        assert(base + self.ser_fds().reverse() =~= base);
        assert(d0 =~= Seq::<Fd>::empty());
        assert(base + d0.reverse() =~= base);
        self.seat.lemma_roundtrip(s1, base);
        assert(buf.skip((b0.len()) as int) == s1) by {
            lemma_skip_step(buf, (0) as int, b0, s1);
        }
        assert(d1 =~= Seq::<Fd>::empty());
        assert(base + d1.reverse() =~= base);
        self.serial.lemma_roundtrip(s2, base);
        assert(buf.skip((b0.len() + b1.len()) as int) == s2) by {
            lemma_skip_step(buf, (b0.len()) as int, b1, s2);
        }
        assert(d2 =~= Seq::<Fd>::empty());
        assert(base + d2.reverse() =~= base);
        self.edges.lemma_roundtrip(s3, base);
    }
}

impl resize {
    /// The arguments are read in the protocol's order, `seat`, then `serial`, then `edges`: the bytes
    /// and descriptors written for such arguments, one after the other,
    /// decode to exactly those arguments.
    pub proof fn lemma_layout(seat: object<crate::wl_seat::Obj>, serial: u32, edges: super::resize, rest: Seq<u8>, queue: Seq<Fd>)
        requires
            seat.ser_ok(),
            seat.rt_ok(),
            serial.ser_ok(),
            serial.rt_ok(),
            edges.ser_ok(),
            edges.rt_ok(),
            seat.ser_bytes().len() + serial.ser_bytes().len() + edges.ser_bytes().len() <= usize::MAX,
        ensures
            ({
                let bytes = seat.ser_bytes() + serial.ser_bytes() + edges.ser_bytes();
                let fds = seat.ser_fds() + serial.ser_fds() + edges.ser_fds();
                resize::dsr_spec(bytes + rest, queue + fds.reverse()) == Decoded::Value(
                    (seat.deep_view(), serial.deep_view(), edges.deep_view(),),
                    bytes.len(),
                    queue,
                )
            }),
    {
        let m = resize { seat, serial, edges };
        m.lemma_roundtrip(rest, queue);
    }

    /// The message creates no object.
    pub proof fn lemma_creates(&self)
        ensures
            self.created_id() is None,
    {
    }
}

impl Msg<Obj> for resize {
    open spec fn opcode() -> u16 {
        2
    }

    open spec fn since_version() -> u32 {
        1
    }

    open spec fn created_id(&self) -> Option<u32> {
        None
    }

    open spec fn created_destructor(&self) -> Option<u16> {
        None
    }

    fn op() -> (r: u16) {
        2
    }

    fn since() -> u32 {
        1
    }

    fn new_id(&self) -> (r: Option<(u32, ObjMeta)>) {
        None
    }
}

impl Request<Obj> for resize {

}

/// make the surface a toplevel surface
///
/// Map the surface as a toplevel surface.
///
/// A toplevel surface is not fullscreen, maximized or transient.
///
#[derive(Debug)]
pub struct set_toplevel {}

impl Ser for set_toplevel {
    open spec fn ser_ok(&self) -> bool {
        true
    }

    open spec fn ser_bytes(&self) -> Seq<u8> {
        Seq::empty()
    }

    open spec fn ser_fds(&self) -> Seq<Fd> {
        Seq::empty()
    }

    fn wire_len(&self) -> (n: usize) {
        0
    }

    fn checked_len(&self) -> (r: Option<usize>) {
        Some(0)
    }

    open spec fn ser_fits(&self, cap: int) -> bool {
        true
    }

    fn serialize(self, buf: &mut [u8], fds: &mut Vec<Fd>) -> (r: Result<usize, &'static str>) {
        assert(buf@ =~= write_at(old(buf)@, 0, Seq::<u8>::empty()));
        assert(fds@ =~= old(fds)@ + Seq::<Fd>::empty());
        Ok(0)
    }

    proof fn lemma_fits(&self, cap: int) {
    }
}

impl DeepView for set_toplevel {
    type V = ();

    open spec fn deep_view(&self) -> () {
        ()
    }
}

impl Dsr for set_toplevel {
    open spec fn dsr_spec(buf: Seq<u8>, fds: Seq<Fd>) -> Decoded<()> {
        Decoded::Value((), 0, fds)
    }

    fn try_deserialize(buf: &[u8], fds: &mut Vec<Fd>) -> (r: Option<Result<(set_toplevel, usize), &'static str>>) {
        Some(Ok((set_toplevel {}, 0)))
    }
}

impl Codec for set_toplevel {
    open spec fn rt_ok(&self) -> bool {
        true
    }

    proof fn lemma_roundtrip(&self, tail: Seq<u8>, base: Seq<Fd>) {
        assert(Seq::<Fd>::empty().reverse() =~= Seq::<Fd>::empty());
        assert(base + Seq::<Fd>::empty() =~= base);
    }
}

impl set_toplevel {
    /// The arguments are read in the protocol's order, no arguments: the bytes
    /// and descriptors written for such arguments, one after the other,
    /// decode to exactly those arguments.
    pub proof fn lemma_layout(rest: Seq<u8>, queue: Seq<Fd>)
        ensures
            ({
                let bytes = Seq::<u8>::empty();
                let fds = Seq::<Fd>::empty();
                set_toplevel::dsr_spec(bytes + rest, queue + fds.reverse()) == Decoded::Value(
                    (),
                    bytes.len(),
                    queue,
                )
            }),
    {
        let m = set_toplevel {};
        m.lemma_roundtrip(rest, queue);
    }

    /// The message creates no object.
    pub proof fn lemma_creates(&self)
        ensures
            self.created_id() is None,
    {
    }
}

impl Msg<Obj> for set_toplevel {
    open spec fn opcode() -> u16 {
        3
    }

    open spec fn since_version() -> u32 {
        1
    }

    open spec fn created_id(&self) -> Option<u32> {
        None
    }

    open spec fn created_destructor(&self) -> Option<u16> {
        None
    }

    fn op() -> (r: u16) {
        3
    }

    fn since() -> u32 {
        1
    }

    fn new_id(&self) -> (r: Option<(u32, ObjMeta)>) {
        None
    }
}

impl Request<Obj> for set_toplevel {

}

/// make the surface a transient surface
///
/// Map the surface relative to an existing surface.
///
/// The x and y arguments specify the location of the upper left
/// corner of the surface relative to the upper left corner of the
/// parent surface, in surface-local coordinates.
///
/// The flags argument controls details of the transient behaviour.
///
#[derive(Debug)]
pub struct set_transient {
    // parent surface
    pub parent: object<crate::wl_surface::Obj>,
    // surface-local x coordinate
    pub x: i32,
    // surface-local y coordinate
    pub y: i32,
    // transient surface behavior
    pub flags: super::transient,
}

impl Ser for set_transient {
    open spec fn ser_ok(&self) -> bool {
        &&& self.parent.ser_ok()
        &&& self.x.ser_ok()
        &&& self.y.ser_ok()
        &&& self.flags.ser_ok()
        &&& self.ser_bytes().len() <= usize::MAX
    }

    open spec fn ser_bytes(&self) -> Seq<u8> {
        self.parent.ser_bytes() + self.x.ser_bytes() + self.y.ser_bytes() + self.flags.ser_bytes()
    }

    open spec fn ser_fds(&self) -> Seq<Fd> {
        self.parent.ser_fds() + self.x.ser_fds() + self.y.ser_fds() + self.flags.ser_fds()
    }

    fn wire_len(&self) -> (n: usize) {
        self.parent.wire_len() + self.x.wire_len() + self.y.wire_len() + self.flags.wire_len()
    }

    fn checked_len(&self) -> (r: Option<usize>) {
        let n0 = match self.parent.checked_len() {
            Some(m) => m,
            None => return None,
        };
        let n1 = match self.x.checked_len() {
            Some(m) => match n0.checked_add(m) {
                Some(t) => t,
                None => return None,
            },
            None => return None,
        };
        let n2 = match self.y.checked_len() {
            Some(m) => match n1.checked_add(m) {
                Some(t) => t,
                None => return None,
            },
            None => return None,
        };
        let n3 = match self.flags.checked_len() {
            Some(m) => match n2.checked_add(m) {
                Some(t) => t,
                None => return None,
            },
            None => return None,
        };
        Some(n3)
    }

    open spec fn ser_fits(&self, cap: int) -> bool {
        &&& 0 <= cap && self.parent.ser_fits(cap - (0))
        &&& self.parent.ser_bytes().len() <= cap && self.x.ser_fits(cap - (self.parent.ser_bytes().len()))
        &&& self.parent.ser_bytes().len() + self.x.ser_bytes().len() <= cap && self.y.ser_fits(cap - (self.parent.ser_bytes().len() + self.x.ser_bytes().len()))
        &&& self.parent.ser_bytes().len() + self.x.ser_bytes().len() + self.y.ser_bytes().len() <= cap && self.flags.ser_fits(cap - (self.parent.ser_bytes().len() + self.x.ser_bytes().len() + self.y.ser_bytes().len()))
    }

    fn serialize(self, buf: &mut [u8], fds: &mut Vec<Fd>) -> (r: Result<usize, &'static str>) {
        let ghost me = self;
        let ghost b0 = buf@;
        let mut n: usize = 0;
        n = n + ser_at(self.parent, buf, n, fds);
        assert(fds@ =~= old(fds)@ + me.parent.ser_fds());
        n = n + ser_at(self.x, buf, n, fds);
        proof {
            lemma_write_then(b0, 0, me.parent.ser_bytes(), me.x.ser_bytes());
        }
        assert(fds@ =~= old(fds)@ + me.parent.ser_fds() + me.x.ser_fds());
        n = n + ser_at(self.y, buf, n, fds);
        proof {
            lemma_write_then(b0, 0, me.parent.ser_bytes() + me.x.ser_bytes(), me.y.ser_bytes());
        }
        assert(fds@ =~= old(fds)@ + me.parent.ser_fds() + me.x.ser_fds() + me.y.ser_fds());
        n = n + ser_at(self.flags, buf, n, fds);
        proof {
            lemma_write_then(b0, 0, me.parent.ser_bytes() + me.x.ser_bytes() + me.y.ser_bytes(), me.flags.ser_bytes());
        }
        assert(fds@ =~= old(fds)@ + me.ser_fds());
        Ok(n)
    }

    proof fn lemma_fits(&self, cap: int) {
        self.parent.lemma_fits(cap - (0));
        self.x.lemma_fits(cap - (self.parent.ser_bytes().len()));
        self.y.lemma_fits(cap - (self.parent.ser_bytes().len() + self.x.ser_bytes().len()));
        self.flags.lemma_fits(cap - (self.parent.ser_bytes().len() + self.x.ser_bytes().len() + self.y.ser_bytes().len()));
    }
}

impl DeepView for set_transient {
    type V = (<object<crate::wl_surface::Obj> as DeepView>::V, <i32 as DeepView>::V, <i32 as DeepView>::V, <super::transient as DeepView>::V,);

    open spec fn deep_view(&self) -> (<object<crate::wl_surface::Obj> as DeepView>::V, <i32 as DeepView>::V, <i32 as DeepView>::V, <super::transient as DeepView>::V,) {
        (self.parent.deep_view(), self.x.deep_view(), self.y.deep_view(), self.flags.deep_view(),)
    }
}

impl Dsr for set_transient {
    open spec fn dsr_spec(buf: Seq<u8>, fds: Seq<Fd>) -> Decoded<(<object<crate::wl_surface::Obj> as DeepView>::V, <i32 as DeepView>::V, <i32 as DeepView>::V, <super::transient as DeepView>::V,)> {
        match <object<crate::wl_surface::Obj>>::dsr_spec(buf, fds) {
            Decoded::Value(parent, n0, q0) => {
                match <i32>::dsr_spec(buf.skip(n0 as int), q0) {
                    Decoded::Value(x, m1, q1) => {
                        let n1 = n0 + m1;
                        match <i32>::dsr_spec(buf.skip(n1 as int), q1) {
                            Decoded::Value(y, m2, q2) => {
                                let n2 = n1 + m2;
                                match <super::transient>::dsr_spec(buf.skip(n2 as int), q2) {
                                    Decoded::Value(flags, m3, q3) => {
                                        let n3 = n2 + m3;
                                        Decoded::Value((parent, x, y, flags,), n3, q3)
                                    },
                                    d => d.fail(),
                                }
                            },
                            d => d.fail(),
                        }
                    },
                    d => d.fail(),
                }
            },
            d => d.fail(),
        }
    }

    fn try_deserialize(buf: &[u8], fds: &mut Vec<Fd>) -> (r: Option<Result<(set_transient, usize), &'static str>>) {
        let mut n: usize = 0;
        let rest = &buf[n..buf.len()];
        assert(rest@ =~= buf@.skip(n as int));
        assert(n == 0 ==> rest@ =~= buf@);
        let (parent, m) = match <object<crate::wl_surface::Obj>>::try_deserialize(rest, fds) {
            Some(Ok(p)) => p,
            Some(Err(e)) => return Some(Err(e)),
            None => return None,
        };
        n = n + m;
        let rest = &buf[n..buf.len()];
        assert(rest@ =~= buf@.skip(n as int));
        assert(n == 0 ==> rest@ =~= buf@);
        let (x, m) = match <i32>::try_deserialize(rest, fds) {
            Some(Ok(p)) => p,
            Some(Err(e)) => return Some(Err(e)),
            None => return None,
        };
        n = n + m;
        let rest = &buf[n..buf.len()];
        assert(rest@ =~= buf@.skip(n as int));
        assert(n == 0 ==> rest@ =~= buf@);
        let (y, m) = match <i32>::try_deserialize(rest, fds) {
            Some(Ok(p)) => p,
            Some(Err(e)) => return Some(Err(e)),
            None => return None,
        };
        n = n + m;
        let rest = &buf[n..buf.len()];
        assert(rest@ =~= buf@.skip(n as int));
        assert(n == 0 ==> rest@ =~= buf@);
        let (flags, m) = match <super::transient>::try_deserialize(rest, fds) {
            Some(Ok(p)) => p,
            Some(Err(e)) => return Some(Err(e)),
            None => return None,
        };
        n = n + m;
        Some(Ok((set_transient { parent, x, y, flags }, n)))
    }
}

impl Codec for set_transient {
    open spec fn rt_ok(&self) -> bool {
        &&& self.parent.rt_ok()
        &&& self.x.rt_ok()
        &&& self.y.rt_ok()
        &&& self.flags.rt_ok()
    }

    proof fn lemma_roundtrip(&self, tail: Seq<u8>, base: Seq<Fd>) {
        let b0 = self.parent.ser_bytes();
        let b1 = self.x.ser_bytes();
        let b2 = self.y.ser_bytes();
        let b3 = self.flags.ser_bytes();
        let d0 = self.parent.ser_fds();
        let d1 = self.x.ser_fds();
        let d2 = self.y.ser_fds();
        let d3 = self.flags.ser_fds();
        let s4 = tail;
        let s3 = b3 + s4;
        let s2 = b2 + s3;
        let s1 = b1 + s2;
        let s0 = b0 + s1;
        let buf = self.ser_bytes() + tail;
        assert(buf =~= s0);
        assert(buf.skip(0) =~= s0);
        assert(self.ser_fds() =~= Seq::<Fd>::empty());
        assert(base + self.ser_fds().reverse() =~= base);
        assert(d0 =~= Seq::<Fd>::empty());
        assert(base + d0.reverse() =~= base);
        self.parent.lemma_roundtrip(s1, base);
        assert(buf.skip((b0.len()) as int) == s1) by {
            lemma_skip_step(buf, (0) as int, b0, s1);
        }
        assert(d1 =~= Seq::<Fd>::empty());
        assert(base + d1.reverse() =~= base);
        self.x.lemma_roundtrip(s2, base);
        assert(buf.skip((b0.len() + b1.len()) as int) == s2) by {
            lemma_skip_step(buf, (b0.len()) as int, b1, s2);
        }
        assert(d2 =~= Seq::<Fd>::empty());
        assert(base + d2.reverse() =~= base);
        self.y.lemma_roundtrip(s3, base);
        assert(buf.skip((b0.len() + b1.len() + b2.len()) as int) == s3) by {
            lemma_skip_step(buf, (b0.len() + b1.len()) as int, b2, s3);
        }
        assert(d3 =~= Seq::<Fd>::empty());
        assert(base + d3.reverse() =~= base);
        self.flags.lemma_roundtrip(s4, base);
    }
}

impl set_transient {
    /// The arguments are read in the protocol's order, `parent`, then `x`, then `y`, then `flags`: the bytes
    /// and descriptors written for such arguments, one after the other,
    /// decode to exactly those arguments.
    pub proof fn lemma_layout(parent: object<crate::wl_surface::Obj>, x: i32, y: i32, flags: super::transient, rest: Seq<u8>, queue: Seq<Fd>)
        requires
            parent.ser_ok(),
            parent.rt_ok(),
            x.ser_ok(),
            x.rt_ok(),
            y.ser_ok(),
            y.rt_ok(),
            flags.ser_ok(),
            flags.rt_ok(),
            parent.ser_bytes().len() + x.ser_bytes().len() + y.ser_bytes().len() + flags.ser_bytes().len() <= usize::MAX,
        ensures
            ({
                let bytes = parent.ser_bytes() + x.ser_bytes() + y.ser_bytes() + flags.ser_bytes();
                let fds = parent.ser_fds() + x.ser_fds() + y.ser_fds() + flags.ser_fds();
                set_transient::dsr_spec(bytes + rest, queue + fds.reverse()) == Decoded::Value(
                    (parent.deep_view(), x.deep_view(), y.deep_view(), flags.deep_view(),),
                    bytes.len(),
                    queue,
                )
            }),
    {
        let m = set_transient { parent, x, y, flags };
        m.lemma_roundtrip(rest, queue);
    }

    /// The message creates no object.
    pub proof fn lemma_creates(&self)
        ensures
            self.created_id() is None,
    {
    }
}

impl Msg<Obj> for set_transient {
    open spec fn opcode() -> u16 {
        4
    }

    open spec fn since_version() -> u32 {
        1
    }

    open spec fn created_id(&self) -> Option<u32> {
        None
    }

    open spec fn created_destructor(&self) -> Option<u16> {
        None
    }

    fn op() -> (r: u16) {
        4
    }

    fn since() -> u32 {
        1
    }

    fn new_id(&self) -> (r: Option<(u32, ObjMeta)>) {
        None
    }
}

impl Request<Obj> for set_transient {

}

/// make the surface a fullscreen surface
///
/// Map the surface as a fullscreen surface.
///
/// If an output parameter is given then the surface will be made
/// fullscreen on that output. If the client does not specify the
/// output then the compositor will apply its policy - usually
/// choosing the output on which the surface has the biggest surface
/// area.
///
/// The client may specify a method to resolve a size conflict
/// between the output size and the surface size - this is provided
/// through the method parameter.
///
/// The framerate parameter is used only when the method is set
/// to "driver", to indicate the preferred framerate. A value of 0
/// indicates that the client does not care about framerate.  The
/// framerate is specified in mHz, that is framerate of 60000 is 60Hz.
///
/// A method of "scale" or "driver" implies a scaling operation of
/// the surface, either via a direct scaling operation or a change of
/// the output mode. This will override any kind of output scaling, so
/// that mapping a surface with a buffer size equal to the mode can
/// fill the screen independent of buffer_scale.
///
/// A method of "fill" means we don't scale up the buffer, however
/// any output scale is applied. This means that you may run into
/// an edge case where the application maps a buffer with the same
/// size of the output mode but buffer_scale 1 (thus making a
/// surface larger than the output). In this case it is allowed to
/// downscale the results to fit the screen.
///
/// The compositor must reply to this request with a configure event
/// with the dimensions for the output on which the surface will
/// be made fullscreen.
///
#[derive(Debug)]
pub struct set_fullscreen {
    // method for resolving size conflict
    pub method: super::fullscreen_method,
    // framerate in mHz
    pub framerate: u32,
    // output on which the surface is to be fullscreen
    pub output: Option<object<crate::wl_output::Obj>>,
}

impl Ser for set_fullscreen {
    open spec fn ser_ok(&self) -> bool {
        &&& self.method.ser_ok()
        &&& self.framerate.ser_ok()
        &&& self.output.ser_ok()
        &&& self.ser_bytes().len() <= usize::MAX
    }

    open spec fn ser_bytes(&self) -> Seq<u8> {
        self.method.ser_bytes() + self.framerate.ser_bytes() + self.output.ser_bytes()
    }

    open spec fn ser_fds(&self) -> Seq<Fd> {
        self.method.ser_fds() + self.framerate.ser_fds() + self.output.ser_fds()
    }

    fn wire_len(&self) -> (n: usize) {
        self.method.wire_len() + self.framerate.wire_len() + self.output.wire_len()
    }

    fn checked_len(&self) -> (r: Option<usize>) {
        let n0 = match self.method.checked_len() {
            Some(m) => m,
            None => return None,
        };
        let n1 = match self.framerate.checked_len() {
            Some(m) => match n0.checked_add(m) {
                Some(t) => t,
                None => return None,
            },
            None => return None,
        };
        let n2 = match self.output.checked_len() {
            Some(m) => match n1.checked_add(m) {
                Some(t) => t,
                None => return None,
            },
            None => return None,
        };
        Some(n2)
    }

    open spec fn ser_fits(&self, cap: int) -> bool {
        &&& 0 <= cap && self.method.ser_fits(cap - (0))
        &&& self.method.ser_bytes().len() <= cap && self.framerate.ser_fits(cap - (self.method.ser_bytes().len()))
        &&& self.method.ser_bytes().len() + self.framerate.ser_bytes().len() <= cap && self.output.ser_fits(cap - (self.method.ser_bytes().len() + self.framerate.ser_bytes().len()))
    }

    fn serialize(self, buf: &mut [u8], fds: &mut Vec<Fd>) -> (r: Result<usize, &'static str>) {
        let ghost me = self;
        let ghost b0 = buf@;
        let mut n: usize = 0;
        n = n + ser_at(self.method, buf, n, fds);
        assert(fds@ =~= old(fds)@ + me.method.ser_fds());
        n = n + ser_at(self.framerate, buf, n, fds);
        proof {
            lemma_write_then(b0, 0, me.method.ser_bytes(), me.framerate.ser_bytes());
        }
        assert(fds@ =~= old(fds)@ + me.method.ser_fds() + me.framerate.ser_fds());
        n = n + ser_at(self.output, buf, n, fds);
        proof {
            lemma_write_then(b0, 0, me.method.ser_bytes() + me.framerate.ser_bytes(), me.output.ser_bytes());
        }
        assert(fds@ =~= old(fds)@ + me.ser_fds());
        Ok(n)
    }

    proof fn lemma_fits(&self, cap: int) {
        self.method.lemma_fits(cap - (0));
        self.framerate.lemma_fits(cap - (self.method.ser_bytes().len()));
        self.output.lemma_fits(cap - (self.method.ser_bytes().len() + self.framerate.ser_bytes().len()));
    }
}

impl DeepView for set_fullscreen {
    type V = (<super::fullscreen_method as DeepView>::V, <u32 as DeepView>::V, <Option<object<crate::wl_output::Obj>> as DeepView>::V,);

    open spec fn deep_view(&self) -> (<super::fullscreen_method as DeepView>::V, <u32 as DeepView>::V, <Option<object<crate::wl_output::Obj>> as DeepView>::V,) {
        (self.method.deep_view(), self.framerate.deep_view(), self.output.deep_view(),)
    }
}

impl Dsr for set_fullscreen {
    open spec fn dsr_spec(buf: Seq<u8>, fds: Seq<Fd>) -> Decoded<(<super::fullscreen_method as DeepView>::V, <u32 as DeepView>::V, <Option<object<crate::wl_output::Obj>> as DeepView>::V,)> {
        match <super::fullscreen_method>::dsr_spec(buf, fds) {
            Decoded::Value(method, n0, q0) => {
                match <u32>::dsr_spec(buf.skip(n0 as int), q0) {
                    Decoded::Value(framerate, m1, q1) => {
                        let n1 = n0 + m1;
                        match <Option<object<crate::wl_output::Obj>>>::dsr_spec(buf.skip(n1 as int), q1) {
                            Decoded::Value(output, m2, q2) => {
                                let n2 = n1 + m2;
                                Decoded::Value((method, framerate, output,), n2, q2)
                            },
                            d => d.fail(),
                        }
                    },
                    d => d.fail(),
                }
            },
            d => d.fail(),
        }
    }

    fn try_deserialize(buf: &[u8], fds: &mut Vec<Fd>) -> (r: Option<Result<(set_fullscreen, usize), &'static str>>) {
        let mut n: usize = 0;
        let rest = &buf[n..buf.len()];
        assert(rest@ =~= buf@.skip(n as int));
        assert(n == 0 ==> rest@ =~= buf@);
        let (method, m) = match <super::fullscreen_method>::try_deserialize(rest, fds) {
            Some(Ok(p)) => p,
            Some(Err(e)) => return Some(Err(e)),
            None => return None,
        };
        n = n + m;
        let rest = &buf[n..buf.len()];
        assert(rest@ =~= buf@.skip(n as int));
        assert(n == 0 ==> rest@ =~= buf@);
        let (framerate, m) = match <u32>::try_deserialize(rest, fds) {
            Some(Ok(p)) => p,
            Some(Err(e)) => return Some(Err(e)),
            None => return None,
        };
        n = n + m;
        let rest = &buf[n..buf.len()];
        assert(rest@ =~= buf@.skip(n as int));
        assert(n == 0 ==> rest@ =~= buf@);
        let (output, m) = match <Option<object<crate::wl_output::Obj>>>::try_deserialize(rest, fds) {
            Some(Ok(p)) => p,
            Some(Err(e)) => return Some(Err(e)),
            None => return None,
        };
        n = n + m;
        Some(Ok((set_fullscreen { method, framerate, output }, n)))
    }
}

impl Codec for set_fullscreen {
    open spec fn rt_ok(&self) -> bool {
        &&& self.method.rt_ok()
        &&& self.framerate.rt_ok()
        &&& self.output.rt_ok()
    }

    proof fn lemma_roundtrip(&self, tail: Seq<u8>, base: Seq<Fd>) {
        let b0 = self.method.ser_bytes();
        let b1 = self.framerate.ser_bytes();
        let b2 = self.output.ser_bytes();
        let d0 = self.method.ser_fds();
        let d1 = self.framerate.ser_fds();
        let d2 = self.output.ser_fds();
        let s3 = tail;
        let s2 = b2 + s3;
        let s1 = b1 + s2;
        let s0 = b0 + s1;
        let buf = self.ser_bytes() + tail;
        assert(buf =~= s0);
        assert(buf.skip(0) =~= s0);
        assert(self.ser_fds() =~= Seq::<Fd>::empty());
        assert(base + self.ser_fds().reverse() =~= base);
        assert(d0 =~= Seq::<Fd>::empty());
        assert(base + d0.reverse() =~= base);
        self.method.lemma_roundtrip(s1, base);
        assert(buf.skip((b0.len()) as int) == s1) by {
            lemma_skip_step(buf, (0) as int, b0, s1);
        }
        assert(d1 =~= Seq::<Fd>::empty());
        assert(base + d1.reverse() =~= base);
        self.framerate.lemma_roundtrip(s2, base);
        assert(buf.skip((b0.len() + b1.len()) as int) == s2) by {
            lemma_skip_step(buf, (b0.len()) as int, b1, s2);
        }
        assert(d2 =~= Seq::<Fd>::empty());
        assert(base + d2.reverse() =~= base);
        self.output.lemma_roundtrip(s3, base);
    }
}

impl set_fullscreen {
    /// The arguments are read in the protocol's order, `method`, then `framerate`, then `output`: the bytes
    /// and descriptors written for such arguments, one after the other,
    /// decode to exactly those arguments.
    pub proof fn lemma_layout(method: super::fullscreen_method, framerate: u32, output: Option<object<crate::wl_output::Obj>>, rest: Seq<u8>, queue: Seq<Fd>)
        requires
            method.ser_ok(),
            method.rt_ok(),
            framerate.ser_ok(),
            framerate.rt_ok(),
            output.ser_ok(),
            output.rt_ok(),
            method.ser_bytes().len() + framerate.ser_bytes().len() + output.ser_bytes().len() <= usize::MAX,
        ensures
            ({
                let bytes = method.ser_bytes() + framerate.ser_bytes() + output.ser_bytes();
                let fds = method.ser_fds() + framerate.ser_fds() + output.ser_fds();
                set_fullscreen::dsr_spec(bytes + rest, queue + fds.reverse()) == Decoded::Value(
                    (method.deep_view(), framerate.deep_view(), output.deep_view(),),
                    bytes.len(),
                    queue,
                )
            }),
    {
        let m = set_fullscreen { method, framerate, output };
        m.lemma_roundtrip(rest, queue);
    }

    /// The message creates no object.
    pub proof fn lemma_creates(&self)
        ensures
            self.created_id() is None,
    {
    }
}

impl Msg<Obj> for set_fullscreen {
    open spec fn opcode() -> u16 {
        5
    }

    open spec fn since_version() -> u32 {
        1
    }

    open spec fn created_id(&self) -> Option<u32> {
        None
    }

    open spec fn created_destructor(&self) -> Option<u16> {
        None
    }

    fn op() -> (r: u16) {
        5
    }

    fn since() -> u32 {
        1
    }

    fn new_id(&self) -> (r: Option<(u32, ObjMeta)>) {
        None
    }
}

impl Request<Obj> for set_fullscreen {

}

/// make the surface a popup surface
///
/// Map the surface as a popup.
///
/// A popup surface is a transient surface with an added pointer
/// grab.
///
/// An existing implicit grab will be changed to owner-events mode,
/// and the popup grab will continue after the implicit grab ends
/// (i.e. releasing the mouse button does not cause the popup to
/// be unmapped).
///
/// The popup grab continues until the window is destroyed or a
/// mouse button is pressed in any other client's window. A click
/// in any of the client's surfaces is reported as normal, however,
/// clicks in other clients' surfaces will be discarded and trigger
/// the callback.
///
/// The x and y arguments specify the location of the upper left
/// corner of the surface relative to the upper left corner of the
/// parent surface, in surface-local coordinates.
///
#[derive(Debug)]
pub struct set_popup {
    // seat whose pointer is used
    pub seat: object<crate::wl_seat::Obj>,
    // serial number of the implicit grab on the pointer
    pub serial: u32,
    // parent surface
    pub parent: object<crate::wl_surface::Obj>,
    // surface-local x coordinate
    pub x: i32,
    // surface-local y coordinate
    pub y: i32,
    // transient surface behavior
    pub flags: super::transient,
}

impl Ser for set_popup {
    open spec fn ser_ok(&self) -> bool {
        &&& self.seat.ser_ok()
        &&& self.serial.ser_ok()
        &&& self.parent.ser_ok()
        &&& self.x.ser_ok()
        &&& self.y.ser_ok()
        &&& self.flags.ser_ok()
        &&& self.ser_bytes().len() <= usize::MAX
    }

    open spec fn ser_bytes(&self) -> Seq<u8> {
        self.seat.ser_bytes() + self.serial.ser_bytes() + self.parent.ser_bytes() + self.x.ser_bytes() + self.y.ser_bytes() + self.flags.ser_bytes()
    }

    open spec fn ser_fds(&self) -> Seq<Fd> {
        self.seat.ser_fds() + self.serial.ser_fds() + self.parent.ser_fds() + self.x.ser_fds() + self.y.ser_fds() + self.flags.ser_fds()
    }

    fn wire_len(&self) -> (n: usize) {
        self.seat.wire_len() + self.serial.wire_len() + self.parent.wire_len() + self.x.wire_len() + self.y.wire_len() + self.flags.wire_len()
    }

    fn checked_len(&self) -> (r: Option<usize>) {
        let n0 = match self.seat.checked_len() {
            Some(m) => m,
            None => return None,
        };
        let n1 = match self.serial.checked_len() {
            Some(m) => match n0.checked_add(m) {
                Some(t) => t,
                None => return None,
            },
            None => return None,
        };
        let n2 = match self.parent.checked_len() {
            Some(m) => match n1.checked_add(m) {
                Some(t) => t,
                None => return None,
            },
            None => return None,
        };
        let n3 = match self.x.checked_len() {
            Some(m) => match n2.checked_add(m) {
                Some(t) => t,
                None => return None,
            },
            None => return None,
        };
        let n4 = match self.y.checked_len() {
            Some(m) => match n3.checked_add(m) {
                Some(t) => t,
                None => return None,
            },
            None => return None,
        };
        let n5 = match self.flags.checked_len() {
            Some(m) => match n4.checked_add(m) {
                Some(t) => t,
                None => return None,
            },
            None => return None,
        };
        Some(n5)
    }

    open spec fn ser_fits(&self, cap: int) -> bool {
        &&& 0 <= cap && self.seat.ser_fits(cap - (0))
        &&& self.seat.ser_bytes().len() <= cap && self.serial.ser_fits(cap - (self.seat.ser_bytes().len()))
        &&& self.seat.ser_bytes().len() + self.serial.ser_bytes().len() <= cap && self.parent.ser_fits(cap - (self.seat.ser_bytes().len() + self.serial.ser_bytes().len()))
        &&& self.seat.ser_bytes().len() + self.serial.ser_bytes().len() + self.parent.ser_bytes().len() <= cap && self.x.ser_fits(cap - (self.seat.ser_bytes().len() + self.serial.ser_bytes().len() + self.parent.ser_bytes().len()))
        &&& self.seat.ser_bytes().len() + self.serial.ser_bytes().len() + self.parent.ser_bytes().len() + self.x.ser_bytes().len() <= cap && self.y.ser_fits(cap - (self.seat.ser_bytes().len() + self.serial.ser_bytes().len() + self.parent.ser_bytes().len() + self.x.ser_bytes().len()))
        &&& self.seat.ser_bytes().len() + self.serial.ser_bytes().len() + self.parent.ser_bytes().len() + self.x.ser_bytes().len() + self.y.ser_bytes().len() <= cap && self.flags.ser_fits(cap - (self.seat.ser_bytes().len() + self.serial.ser_bytes().len() + self.parent.ser_bytes().len() + self.x.ser_bytes().len() + self.y.ser_bytes().len()))
    }

    #[verifier::rlimit(60)]
    fn serialize(self, buf: &mut [u8], fds: &mut Vec<Fd>) -> (r: Result<usize, &'static str>) {
        let ghost me = self;
        let ghost b0 = buf@;
        let mut n: usize = 0;
        n = n + ser_at(self.seat, buf, n, fds);
        assert(fds@ =~= old(fds)@ + me.seat.ser_fds());
        n = n + ser_at(self.serial, buf, n, fds);
        proof {
            lemma_write_then(b0, 0, me.seat.ser_bytes(), me.serial.ser_bytes());
        }
        assert(fds@ =~= old(fds)@ + me.seat.ser_fds() + me.serial.ser_fds());
        n = n + ser_at(self.parent, buf, n, fds);
        proof {
            lemma_write_then(b0, 0, me.seat.ser_bytes() + me.serial.ser_bytes(), me.parent.ser_bytes());
        }
        assert(fds@ =~= old(fds)@ + me.seat.ser_fds() + me.serial.ser_fds() + me.parent.ser_fds());
        n = n + ser_at(self.x, buf, n, fds);
        proof {
            lemma_write_then(b0, 0, me.seat.ser_bytes() + me.serial.ser_bytes() + me.parent.ser_bytes(), me.x.ser_bytes());
        }
        assert(fds@ =~= old(fds)@ + me.seat.ser_fds() + me.serial.ser_fds() + me.parent.ser_fds() + me.x.ser_fds());
        n = n + ser_at(self.y, buf, n, fds);
        proof {
            lemma_write_then(b0, 0, me.seat.ser_bytes() + me.serial.ser_bytes() + me.parent.ser_bytes() + me.x.ser_bytes(), me.y.ser_bytes());
        }
        assert(fds@ =~= old(fds)@ + me.seat.ser_fds() + me.serial.ser_fds() + me.parent.ser_fds() + me.x.ser_fds() + me.y.ser_fds());
        n = n + ser_at(self.flags, buf, n, fds);
        proof {
            lemma_write_then(b0, 0, me.seat.ser_bytes() + me.serial.ser_bytes() + me.parent.ser_bytes() + me.x.ser_bytes() + me.y.ser_bytes(), me.flags.ser_bytes());
        }
        assert(fds@ =~= old(fds)@ + me.ser_fds());
        Ok(n)
    }

    proof fn lemma_fits(&self, cap: int) {
        self.seat.lemma_fits(cap - (0));
        self.serial.lemma_fits(cap - (self.seat.ser_bytes().len()));
        self.parent.lemma_fits(cap - (self.seat.ser_bytes().len() + self.serial.ser_bytes().len()));
        self.x.lemma_fits(cap - (self.seat.ser_bytes().len() + self.serial.ser_bytes().len() + self.parent.ser_bytes().len()));
        self.y.lemma_fits(cap - (self.seat.ser_bytes().len() + self.serial.ser_bytes().len() + self.parent.ser_bytes().len() + self.x.ser_bytes().len()));
        self.flags.lemma_fits(cap - (self.seat.ser_bytes().len() + self.serial.ser_bytes().len() + self.parent.ser_bytes().len() + self.x.ser_bytes().len() + self.y.ser_bytes().len()));
    }
}

impl DeepView for set_popup {
    type V = (<object<crate::wl_seat::Obj> as DeepView>::V, <u32 as DeepView>::V, <object<crate::wl_surface::Obj> as DeepView>::V, <i32 as DeepView>::V, <i32 as DeepView>::V, <super::transient as DeepView>::V,);

    open spec fn deep_view(&self) -> (<object<crate::wl_seat::Obj> as DeepView>::V, <u32 as DeepView>::V, <object<crate::wl_surface::Obj> as DeepView>::V, <i32 as DeepView>::V, <i32 as DeepView>::V, <super::transient as DeepView>::V,) {
        (self.seat.deep_view(), self.serial.deep_view(), self.parent.deep_view(), self.x.deep_view(), self.y.deep_view(), self.flags.deep_view(),)
    }
}

impl Dsr for set_popup {
    open spec fn dsr_spec(buf: Seq<u8>, fds: Seq<Fd>) -> Decoded<(<object<crate::wl_seat::Obj> as DeepView>::V, <u32 as DeepView>::V, <object<crate::wl_surface::Obj> as DeepView>::V, <i32 as DeepView>::V, <i32 as DeepView>::V, <super::transient as DeepView>::V,)> {
        match <object<crate::wl_seat::Obj>>::dsr_spec(buf, fds) {
            Decoded::Value(seat, n0, q0) => {
                match <u32>::dsr_spec(buf.skip(n0 as int), q0) {
                    Decoded::Value(serial, m1, q1) => {
                        let n1 = n0 + m1;
                        match <object<crate::wl_surface::Obj>>::dsr_spec(buf.skip(n1 as int), q1) {
                            Decoded::Value(parent, m2, q2) => {
                                let n2 = n1 + m2;
                                match <i32>::dsr_spec(buf.skip(n2 as int), q2) {
                                    Decoded::Value(x, m3, q3) => {
                                        let n3 = n2 + m3;
                                        match <i32>::dsr_spec(buf.skip(n3 as int), q3) {
                                            Decoded::Value(y, m4, q4) => {
                                                let n4 = n3 + m4;
                                                match <super::transient>::dsr_spec(buf.skip(n4 as int), q4) {
                                                    Decoded::Value(flags, m5, q5) => {
                                                        let n5 = n4 + m5;
                                                        Decoded::Value((seat, serial, parent, x, y, flags,), n5, q5)
                                                    },
                                                    d => d.fail(),
                                                }
                                            },
                                            d => d.fail(),
                                        }
                                    },
                                    d => d.fail(),
                                }
                            },
                            d => d.fail(),
                        }
                    },
                    d => d.fail(),
                }
            },
            d => d.fail(),
        }
    }

    #[verifier::rlimit(60)]
    fn try_deserialize(buf: &[u8], fds: &mut Vec<Fd>) -> (r: Option<Result<(set_popup, usize), &'static str>>) {
        let mut n: usize = 0;
        let rest = &buf[n..buf.len()];
        assert(rest@ =~= buf@.skip(n as int));
        assert(n == 0 ==> rest@ =~= buf@);
        let (seat, m) = match <object<crate::wl_seat::Obj>>::try_deserialize(rest, fds) {
            Some(Ok(p)) => p,
            Some(Err(e)) => return Some(Err(e)),
            None => return None,
        };
        n = n + m;
        let rest = &buf[n..buf.len()];
        assert(rest@ =~= buf@.skip(n as int));
        assert(n == 0 ==> rest@ =~= buf@);
        let (serial, m) = match <u32>::try_deserialize(rest, fds) {
            Some(Ok(p)) => p,
            Some(Err(e)) => return Some(Err(e)),
            None => return None,
        };
        n = n + m;
        let rest = &buf[n..buf.len()];
        assert(rest@ =~= buf@.skip(n as int));
        assert(n == 0 ==> rest@ =~= buf@);
        let (parent, m) = match <object<crate::wl_surface::Obj>>::try_deserialize(rest, fds) {
            Some(Ok(p)) => p,
            Some(Err(e)) => return Some(Err(e)),
            None => return None,
        };
        n = n + m;
        let rest = &buf[n..buf.len()];
        assert(rest@ =~= buf@.skip(n as int));
        assert(n == 0 ==> rest@ =~= buf@);
        let (x, m) = match <i32>::try_deserialize(rest, fds) {
            Some(Ok(p)) => p,
            Some(Err(e)) => return Some(Err(e)),
            None => return None,
        };
        n = n + m;
        let rest = &buf[n..buf.len()];
        assert(rest@ =~= buf@.skip(n as int));
        assert(n == 0 ==> rest@ =~= buf@);
        let (y, m) = match <i32>::try_deserialize(rest, fds) {
            Some(Ok(p)) => p,
            Some(Err(e)) => return Some(Err(e)),
            None => return None,
        };
        n = n + m;
        let rest = &buf[n..buf.len()];
        assert(rest@ =~= buf@.skip(n as int));
        assert(n == 0 ==> rest@ =~= buf@);
        let (flags, m) = match <super::transient>::try_deserialize(rest, fds) {
            Some(Ok(p)) => p,
            Some(Err(e)) => return Some(Err(e)),
            None => return None,
        };
        n = n + m;
        Some(Ok((set_popup { seat, serial, parent, x, y, flags }, n)))
    }
}

impl Codec for set_popup {
    open spec fn rt_ok(&self) -> bool {
        &&& self.seat.rt_ok()
        &&& self.serial.rt_ok()
        &&& self.parent.rt_ok()
        &&& self.x.rt_ok()
        &&& self.y.rt_ok()
        &&& self.flags.rt_ok()
    }

    #[verifier::rlimit(60)]
    proof fn lemma_roundtrip(&self, tail: Seq<u8>, base: Seq<Fd>) {
        let b0 = self.seat.ser_bytes();
        let b1 = self.serial.ser_bytes();
        let b2 = self.parent.ser_bytes();
        let b3 = self.x.ser_bytes();
        let b4 = self.y.ser_bytes();
        let b5 = self.flags.ser_bytes();
        let d0 = self.seat.ser_fds();
        let d1 = self.serial.ser_fds();
        let d2 = self.parent.ser_fds();
        let d3 = self.x.ser_fds();
        let d4 = self.y.ser_fds();
        let d5 = self.flags.ser_fds();
        let s6 = tail;
        let s5 = b5 + s6;
        let s4 = b4 + s5;
        let s3 = b3 + s4;
        let s2 = b2 + s3;
        let s1 = b1 + s2;
        let s0 = b0 + s1;
        let buf = self.ser_bytes() + tail;
        assert(buf =~= s0);
        assert(buf.skip(0) =~= s0);
        assert(self.ser_fds() =~= Seq::<Fd>::empty());
        assert(base + self.ser_fds().reverse() =~= base);
        assert(d0 =~= Seq::<Fd>::empty());
        assert(base + d0.reverse() =~= base);
        self.seat.lemma_roundtrip(s1, base);
        assert(buf.skip((b0.len()) as int) == s1) by {
            lemma_skip_step(buf, (0) as int, b0, s1);
        }
        assert(d1 =~= Seq::<Fd>::empty());
        assert(base + d1.reverse() =~= base);
        self.serial.lemma_roundtrip(s2, base);
        assert(buf.skip((b0.len() + b1.len()) as int) == s2) by {
            lemma_skip_step(buf, (b0.len()) as int, b1, s2);
        }
        assert(d2 =~= Seq::<Fd>::empty());
        assert(base + d2.reverse() =~= base);
        self.parent.lemma_roundtrip(s3, base);
        assert(buf.skip((b0.len() + b1.len() + b2.len()) as int) == s3) by {
            lemma_skip_step(buf, (b0.len() + b1.len()) as int, b2, s3);
        }
        assert(d3 =~= Seq::<Fd>::empty());
        assert(base + d3.reverse() =~= base);
        self.x.lemma_roundtrip(s4, base);
        assert(buf.skip((b0.len() + b1.len() + b2.len() + b3.len()) as int) == s4) by {
            lemma_skip_step(buf, (b0.len() + b1.len() + b2.len()) as int, b3, s4);
        }
        assert(d4 =~= Seq::<Fd>::empty());
        assert(base + d4.reverse() =~= base);
        self.y.lemma_roundtrip(s5, base);
        assert(buf.skip((b0.len() + b1.len() + b2.len() + b3.len() + b4.len()) as int) == s5) by {
            lemma_skip_step(buf, (b0.len() + b1.len() + b2.len() + b3.len()) as int, b4, s5);
        }
        assert(d5 =~= Seq::<Fd>::empty());
        assert(base + d5.reverse() =~= base);
        self.flags.lemma_roundtrip(s6, base);
    }
}

impl set_popup {
    /// The arguments are read in the protocol's order, `seat`, then `serial`, then `parent`, then `x`, then `y`, then `flags`: the bytes
    /// and descriptors written for such arguments, one after the other,
    /// decode to exactly those arguments.
    pub proof fn lemma_layout(seat: object<crate::wl_seat::Obj>, serial: u32, parent: object<crate::wl_surface::Obj>, x: i32, y: i32, flags: super::transient, rest: Seq<u8>, queue: Seq<Fd>)
        requires
            seat.ser_ok(),
            seat.rt_ok(),
            serial.ser_ok(),
            serial.rt_ok(),
            parent.ser_ok(),
            parent.rt_ok(),
            x.ser_ok(),
            x.rt_ok(),
            y.ser_ok(),
            y.rt_ok(),
            flags.ser_ok(),
            flags.rt_ok(),
            seat.ser_bytes().len() + serial.ser_bytes().len() + parent.ser_bytes().len() + x.ser_bytes().len() + y.ser_bytes().len() + flags.ser_bytes().len() <= usize::MAX,
        ensures
            ({
                let bytes = seat.ser_bytes() + serial.ser_bytes() + parent.ser_bytes() + x.ser_bytes() + y.ser_bytes() + flags.ser_bytes();
                let fds = seat.ser_fds() + serial.ser_fds() + parent.ser_fds() + x.ser_fds() + y.ser_fds() + flags.ser_fds();
                set_popup::dsr_spec(bytes + rest, queue + fds.reverse()) == Decoded::Value(
                    (seat.deep_view(), serial.deep_view(), parent.deep_view(), x.deep_view(), y.deep_view(), flags.deep_view(),),
                    bytes.len(),
                    queue,
                )
            }),
    {
        let m = set_popup { seat, serial, parent, x, y, flags };
        m.lemma_roundtrip(rest, queue);
    }

    /// The message creates no object.
    pub proof fn lemma_creates(&self)
        ensures
            self.created_id() is None,
    {
    }
}

impl Msg<Obj> for set_popup {
    open spec fn opcode() -> u16 {
        6
    }

    open spec fn since_version() -> u32 {
        1
    }

    open spec fn created_id(&self) -> Option<u32> {
        None
    }

    open spec fn created_destructor(&self) -> Option<u16> {
        None
    }

    fn op() -> (r: u16) {
        6
    }

    fn since() -> u32 {
        1
    }

    fn new_id(&self) -> (r: Option<(u32, ObjMeta)>) {
        None
    }
}

impl Request<Obj> for set_popup {

}

/// make the surface a maximized surface
///
/// Map the surface as a maximized surface.
///
/// If an output parameter is given then the surface will be
/// maximized on that output. If the client does not specify the
/// output then the compositor will apply its policy - usually
/// choosing the output on which the surface has the biggest surface
/// area.
///
/// The compositor will reply with a configure event telling
/// the expected new surface size. The operation is completed
/// on the next buffer attach to this surface.
///
/// A maximized surface typically fills the entire output it is
/// bound to, except for desktop elements such as panels. This is
/// the main difference between a maximized shell surface and a
/// fullscreen shell surface.
///
/// The details depend on the compositor implementation.
///
#[derive(Debug)]
pub struct set_maximized {
    // output on which the surface is to be maximized
    pub output: Option<object<crate::wl_output::Obj>>,
}

impl Ser for set_maximized {
    open spec fn ser_ok(&self) -> bool {
        &&& self.output.ser_ok()
        &&& self.ser_bytes().len() <= usize::MAX
    }

    open spec fn ser_bytes(&self) -> Seq<u8> {
        self.output.ser_bytes()
    }

    open spec fn ser_fds(&self) -> Seq<Fd> {
        self.output.ser_fds()
    }

    fn wire_len(&self) -> (n: usize) {
        self.output.wire_len()
    }

    fn checked_len(&self) -> (r: Option<usize>) {
        let n0 = match self.output.checked_len() {
            Some(m) => m,
            None => return None,
        };
        Some(n0)
    }

    open spec fn ser_fits(&self, cap: int) -> bool {
        &&& 0 <= cap && self.output.ser_fits(cap - (0))
    }

    fn serialize(self, buf: &mut [u8], fds: &mut Vec<Fd>) -> (r: Result<usize, &'static str>) {
        let ghost me = self;
        let ghost b0 = buf@;
        let mut n: usize = 0;
        n = n + ser_at(self.output, buf, n, fds);
        assert(fds@ =~= old(fds)@ + me.ser_fds());
        Ok(n)
    }

    proof fn lemma_fits(&self, cap: int) {
        self.output.lemma_fits(cap - (0));
    }
}

impl DeepView for set_maximized {
    type V = (<Option<object<crate::wl_output::Obj>> as DeepView>::V,);

    open spec fn deep_view(&self) -> (<Option<object<crate::wl_output::Obj>> as DeepView>::V,) {
        (self.output.deep_view(),)
    }
}

impl Dsr for set_maximized {
    open spec fn dsr_spec(buf: Seq<u8>, fds: Seq<Fd>) -> Decoded<(<Option<object<crate::wl_output::Obj>> as DeepView>::V,)> {
        match <Option<object<crate::wl_output::Obj>>>::dsr_spec(buf, fds) {
            Decoded::Value(output, n0, q0) => Decoded::Value((output,), n0, q0),
            d => d.fail(),
        }
    }

    fn try_deserialize(buf: &[u8], fds: &mut Vec<Fd>) -> (r: Option<Result<(set_maximized, usize), &'static str>>) {
        let mut n: usize = 0;
        let rest = &buf[n..buf.len()];
        assert(rest@ =~= buf@.skip(n as int));
        assert(n == 0 ==> rest@ =~= buf@);
        let (output, m) = match <Option<object<crate::wl_output::Obj>>>::try_deserialize(rest, fds) {
            Some(Ok(p)) => p,
            Some(Err(e)) => return Some(Err(e)),
            None => return None,
        };
        n = n + m;
        Some(Ok((set_maximized { output }, n)))
    }
}

impl Codec for set_maximized {
    open spec fn rt_ok(&self) -> bool {
        &&& self.output.rt_ok()
    }

    proof fn lemma_roundtrip(&self, tail: Seq<u8>, base: Seq<Fd>) {
        let b0 = self.output.ser_bytes();
        let d0 = self.output.ser_fds();
        let s1 = tail;
        let s0 = b0 + s1;
        let buf = self.ser_bytes() + tail;
        assert(buf =~= s0);
        assert(buf.skip(0) =~= s0);
        assert(self.ser_fds() =~= Seq::<Fd>::empty());
        assert(base + self.ser_fds().reverse() =~= base);
        assert(d0 =~= Seq::<Fd>::empty());
        assert(base + d0.reverse() =~= base);
        self.output.lemma_roundtrip(s1, base);
    }
}

impl set_maximized {
    /// The arguments are read in the protocol's order, `output`: the bytes
    /// and descriptors written for such arguments, one after the other,
    /// decode to exactly those arguments.
    pub proof fn lemma_layout(output: Option<object<crate::wl_output::Obj>>, rest: Seq<u8>, queue: Seq<Fd>)
        requires
            output.ser_ok(),
            output.rt_ok(),
            output.ser_bytes().len() <= usize::MAX,
        ensures
            ({
                let bytes = output.ser_bytes();
                let fds = output.ser_fds();
                set_maximized::dsr_spec(bytes + rest, queue + fds.reverse()) == Decoded::Value(
                    (output.deep_view(),),
                    bytes.len(),
                    queue,
                )
            }),
    {
        let m = set_maximized { output };
        m.lemma_roundtrip(rest, queue);
    }

    /// The message creates no object.
    pub proof fn lemma_creates(&self)
        ensures
            self.created_id() is None,
    {
    }
}

impl Msg<Obj> for set_maximized {
    open spec fn opcode() -> u16 {
        7
    }

    open spec fn since_version() -> u32 {
        1
    }

    open spec fn created_id(&self) -> Option<u32> {
        None
    }

    open spec fn created_destructor(&self) -> Option<u16> {
        None
    }

    fn op() -> (r: u16) {
        7
    }

    fn since() -> u32 {
        1
    }

    fn new_id(&self) -> (r: Option<(u32, ObjMeta)>) {
        None
    }
}

impl Request<Obj> for set_maximized {

}

/// set surface title
///
/// Set a short title for the surface.
///
/// This string may be used to identify the surface in a task bar,
/// window list, or other user interface elements provided by the
/// compositor.
///
/// The string must be encoded in UTF-8.
///
#[derive(Debug)]
pub struct set_title {
    // surface title
    pub title: String,
}

impl Ser for set_title {
    open spec fn ser_ok(&self) -> bool {
        &&& self.title.ser_ok()
        &&& self.ser_bytes().len() <= usize::MAX
    }

    open spec fn ser_bytes(&self) -> Seq<u8> {
        self.title.ser_bytes()
    }

    open spec fn ser_fds(&self) -> Seq<Fd> {
        self.title.ser_fds()
    }

    fn wire_len(&self) -> (n: usize) {
        self.title.wire_len()
    }

    fn checked_len(&self) -> (r: Option<usize>) {
        let n0 = match self.title.checked_len() {
            Some(m) => m,
            None => return None,
        };
        Some(n0)
    }

    open spec fn ser_fits(&self, cap: int) -> bool {
        &&& 0 <= cap && self.title.ser_fits(cap - (0))
    }

    fn serialize(self, buf: &mut [u8], fds: &mut Vec<Fd>) -> (r: Result<usize, &'static str>) {
        let ghost me = self;
        let ghost b0 = buf@;
        let mut n: usize = 0;
        n = n + ser_at(self.title, buf, n, fds);
        assert(fds@ =~= old(fds)@ + me.ser_fds());
        Ok(n)
    }

    proof fn lemma_fits(&self, cap: int) {
        self.title.lemma_fits(cap - (0));
    }
}

impl DeepView for set_title {
    type V = (<String as DeepView>::V,);

    open spec fn deep_view(&self) -> (<String as DeepView>::V,) {
        (self.title.deep_view(),)
    }
}

impl Dsr for set_title {
    open spec fn dsr_spec(buf: Seq<u8>, fds: Seq<Fd>) -> Decoded<(<String as DeepView>::V,)> {
        match <String>::dsr_spec(buf, fds) {
            Decoded::Value(title, n0, q0) => Decoded::Value((title,), n0, q0),
            d => d.fail(),
        }
    }

    fn try_deserialize(buf: &[u8], fds: &mut Vec<Fd>) -> (r: Option<Result<(set_title, usize), &'static str>>) {
        let mut n: usize = 0;
        let rest = &buf[n..buf.len()];
        assert(rest@ =~= buf@.skip(n as int));
        assert(n == 0 ==> rest@ =~= buf@);
        let (title, m) = match <String>::try_deserialize(rest, fds) {
            Some(Ok(p)) => p,
            Some(Err(e)) => return Some(Err(e)),
            None => return None,
        };
        n = n + m;
        Some(Ok((set_title { title }, n)))
    }
}

impl Codec for set_title {
    open spec fn rt_ok(&self) -> bool {
        &&& self.title.rt_ok()
    }

    proof fn lemma_roundtrip(&self, tail: Seq<u8>, base: Seq<Fd>) {
        let b0 = self.title.ser_bytes();
        let d0 = self.title.ser_fds();
        let s1 = tail;
        let s0 = b0 + s1;
        let buf = self.ser_bytes() + tail;
        assert(buf =~= s0);
        assert(buf.skip(0) =~= s0);
        assert(self.ser_fds() =~= Seq::<Fd>::empty());
        assert(base + self.ser_fds().reverse() =~= base);
        assert(d0 =~= Seq::<Fd>::empty());
        assert(base + d0.reverse() =~= base);
        self.title.lemma_roundtrip(s1, base);
    }
}

impl set_title {
    /// The arguments are read in the protocol's order, `title`: the bytes
    /// and descriptors written for such arguments, one after the other,
    /// decode to exactly those arguments.
    pub proof fn lemma_layout(title: String, rest: Seq<u8>, queue: Seq<Fd>)
        requires
            title.ser_ok(),
            title.rt_ok(),
            title.ser_bytes().len() <= usize::MAX,
        ensures
            ({
                let bytes = title.ser_bytes();
                let fds = title.ser_fds();
                set_title::dsr_spec(bytes + rest, queue + fds.reverse()) == Decoded::Value(
                    (title.deep_view(),),
                    bytes.len(),
                    queue,
                )
            }),
    {
        let m = set_title { title };
        m.lemma_roundtrip(rest, queue);
    }

    /// The message creates no object.
    pub proof fn lemma_creates(&self)
        ensures
            self.created_id() is None,
    {
    }
}

impl Msg<Obj> for set_title {
    open spec fn opcode() -> u16 {
        8
    }

    open spec fn since_version() -> u32 {
        1
    }

    open spec fn created_id(&self) -> Option<u32> {
        None
    }

    open spec fn created_destructor(&self) -> Option<u16> {
        None
    }

    fn op() -> (r: u16) {
        8
    }

    fn since() -> u32 {
        1
    }

    fn new_id(&self) -> (r: Option<(u32, ObjMeta)>) {
        None
    }
}

impl Request<Obj> for set_title {

}

/// set surface class
///
/// Set a class for the surface.
///
/// The surface class identifies the general class of applications
/// to which the surface belongs. A common convention is to use the
/// file name (or the full path if it is a non-standard location) of
/// the application's .desktop file as the class.
///
#[derive(Debug)]
pub struct set_class {
    // surface class
    pub class_: String,
}

impl Ser for set_class {
    open spec fn ser_ok(&self) -> bool {
        &&& self.class_.ser_ok()
        &&& self.ser_bytes().len() <= usize::MAX
    }

    open spec fn ser_bytes(&self) -> Seq<u8> {
        self.class_.ser_bytes()
    }

    open spec fn ser_fds(&self) -> Seq<Fd> {
        self.class_.ser_fds()
    }

    fn wire_len(&self) -> (n: usize) {
        self.class_.wire_len()
    }

    fn checked_len(&self) -> (r: Option<usize>) {
        let n0 = match self.class_.checked_len() {
            Some(m) => m,
            None => return None,
        };
        Some(n0)
    }

    open spec fn ser_fits(&self, cap: int) -> bool {
        &&& 0 <= cap && self.class_.ser_fits(cap - (0))
    }

    fn serialize(self, buf: &mut [u8], fds: &mut Vec<Fd>) -> (r: Result<usize, &'static str>) {
        let ghost me = self;
        let ghost b0 = buf@;
        let mut n: usize = 0;
        n = n + ser_at(self.class_, buf, n, fds);
        assert(fds@ =~= old(fds)@ + me.ser_fds());
        Ok(n)
    }

    proof fn lemma_fits(&self, cap: int) {
        self.class_.lemma_fits(cap - (0));
    }
}

impl DeepView for set_class {
    type V = (<String as DeepView>::V,);

    open spec fn deep_view(&self) -> (<String as DeepView>::V,) {
        (self.class_.deep_view(),)
    }
}

impl Dsr for set_class {
    open spec fn dsr_spec(buf: Seq<u8>, fds: Seq<Fd>) -> Decoded<(<String as DeepView>::V,)> {
        match <String>::dsr_spec(buf, fds) {
            Decoded::Value(class_, n0, q0) => Decoded::Value((class_,), n0, q0),
            d => d.fail(),
        }
    }

    fn try_deserialize(buf: &[u8], fds: &mut Vec<Fd>) -> (r: Option<Result<(set_class, usize), &'static str>>) {
        let mut n: usize = 0;
        let rest = &buf[n..buf.len()];
        assert(rest@ =~= buf@.skip(n as int));
        assert(n == 0 ==> rest@ =~= buf@);
        let (class_, m) = match <String>::try_deserialize(rest, fds) {
            Some(Ok(p)) => p,
            Some(Err(e)) => return Some(Err(e)),
            None => return None,
        };
        n = n + m;
        Some(Ok((set_class { class_ }, n)))
    }
}

impl Codec for set_class {
    open spec fn rt_ok(&self) -> bool {
        &&& self.class_.rt_ok()
    }

    proof fn lemma_roundtrip(&self, tail: Seq<u8>, base: Seq<Fd>) {
        let b0 = self.class_.ser_bytes();
        let d0 = self.class_.ser_fds();
        let s1 = tail;
        let s0 = b0 + s1;
        let buf = self.ser_bytes() + tail;
        assert(buf =~= s0);
        assert(buf.skip(0) =~= s0);
        assert(self.ser_fds() =~= Seq::<Fd>::empty());
        assert(base + self.ser_fds().reverse() =~= base);
        assert(d0 =~= Seq::<Fd>::empty());
        assert(base + d0.reverse() =~= base);
        self.class_.lemma_roundtrip(s1, base);
    }
}

impl set_class {
    /// The arguments are read in the protocol's order, `class_`: the bytes
    /// and descriptors written for such arguments, one after the other,
    /// decode to exactly those arguments.
    pub proof fn lemma_layout(class_: String, rest: Seq<u8>, queue: Seq<Fd>)
        requires
            class_.ser_ok(),
            class_.rt_ok(),
            class_.ser_bytes().len() <= usize::MAX,
        ensures
            ({
                let bytes = class_.ser_bytes();
                let fds = class_.ser_fds();
                set_class::dsr_spec(bytes + rest, queue + fds.reverse()) == Decoded::Value(
                    (class_.deep_view(),),
                    bytes.len(),
                    queue,
                )
            }),
    {
        let m = set_class { class_ };
        m.lemma_roundtrip(rest, queue);
    }

    /// The message creates no object.
    pub proof fn lemma_creates(&self)
        ensures
            self.created_id() is None,
    {
    }
}

impl Msg<Obj> for set_class {
    open spec fn opcode() -> u16 {
        9
    }

    open spec fn since_version() -> u32 {
        1
    }

    open spec fn created_id(&self) -> Option<u32> {
        None
    }

    open spec fn created_destructor(&self) -> Option<u16> {
        None
    }

    fn op() -> (r: u16) {
        9
    }

    fn since() -> u32 {
        1
    }

    fn new_id(&self) -> (r: Option<(u32, ObjMeta)>) {
        None
    }
}

impl Request<Obj> for set_class {

}

/// The opcode of each request: its index in the protocol's list of the
/// interface's requests, so that no two requests share one.
pub proof fn lemma_opcodes()
    ensures
        <pong as Msg<Obj>>::opcode() == 0,
        <move_ as Msg<Obj>>::opcode() == 1,
        <resize as Msg<Obj>>::opcode() == 2,
        <set_toplevel as Msg<Obj>>::opcode() == 3,
        <set_transient as Msg<Obj>>::opcode() == 4,
        <set_fullscreen as Msg<Obj>>::opcode() == 5,
        <set_popup as Msg<Obj>>::opcode() == 6,
        <set_maximized as Msg<Obj>>::opcode() == 7,
        <set_title as Msg<Obj>>::opcode() == 8,
        <set_class as Msg<Obj>>::opcode() == 9,
        <pong as Msg<Obj>>::opcode() != <move_ as Msg<Obj>>::opcode(),
        <pong as Msg<Obj>>::opcode() != <resize as Msg<Obj>>::opcode(),
        <pong as Msg<Obj>>::opcode() != <set_toplevel as Msg<Obj>>::opcode(),
        <pong as Msg<Obj>>::opcode() != <set_transient as Msg<Obj>>::opcode(),
        <pong as Msg<Obj>>::opcode() != <set_fullscreen as Msg<Obj>>::opcode(),
        <pong as Msg<Obj>>::opcode() != <set_popup as Msg<Obj>>::opcode(),
        <pong as Msg<Obj>>::opcode() != <set_maximized as Msg<Obj>>::opcode(),
        <pong as Msg<Obj>>::opcode() != <set_title as Msg<Obj>>::opcode(),
        <pong as Msg<Obj>>::opcode() != <set_class as Msg<Obj>>::opcode(),
        <move_ as Msg<Obj>>::opcode() != <resize as Msg<Obj>>::opcode(),
        <move_ as Msg<Obj>>::opcode() != <set_toplevel as Msg<Obj>>::opcode(),
        <move_ as Msg<Obj>>::opcode() != <set_transient as Msg<Obj>>::opcode(),
        <move_ as Msg<Obj>>::opcode() != <set_fullscreen as Msg<Obj>>::opcode(),
        <move_ as Msg<Obj>>::opcode() != <set_popup as Msg<Obj>>::opcode(),
        <move_ as Msg<Obj>>::opcode() != <set_maximized as Msg<Obj>>::opcode(),
        <move_ as Msg<Obj>>::opcode() != <set_title as Msg<Obj>>::opcode(),
        <move_ as Msg<Obj>>::opcode() != <set_class as Msg<Obj>>::opcode(),
        <resize as Msg<Obj>>::opcode() != <set_toplevel as Msg<Obj>>::opcode(),
        <resize as Msg<Obj>>::opcode() != <set_transient as Msg<Obj>>::opcode(),
        <resize as Msg<Obj>>::opcode() != <set_fullscreen as Msg<Obj>>::opcode(),
        <resize as Msg<Obj>>::opcode() != <set_popup as Msg<Obj>>::opcode(),
        <resize as Msg<Obj>>::opcode() != <set_maximized as Msg<Obj>>::opcode(),
        <resize as Msg<Obj>>::opcode() != <set_title as Msg<Obj>>::opcode(),
        <resize as Msg<Obj>>::opcode() != <set_class as Msg<Obj>>::opcode(),
        <set_toplevel as Msg<Obj>>::opcode() != <set_transient as Msg<Obj>>::opcode(),
        <set_toplevel as Msg<Obj>>::opcode() != <set_fullscreen as Msg<Obj>>::opcode(),
        <set_toplevel as Msg<Obj>>::opcode() != <set_popup as Msg<Obj>>::opcode(),
        <set_toplevel as Msg<Obj>>::opcode() != <set_maximized as Msg<Obj>>::opcode(),
        <set_toplevel as Msg<Obj>>::opcode() != <set_title as Msg<Obj>>::opcode(),
        <set_toplevel as Msg<Obj>>::opcode() != <set_class as Msg<Obj>>::opcode(),
        <set_transient as Msg<Obj>>::opcode() != <set_fullscreen as Msg<Obj>>::opcode(),
        <set_transient as Msg<Obj>>::opcode() != <set_popup as Msg<Obj>>::opcode(),
        <set_transient as Msg<Obj>>::opcode() != <set_maximized as Msg<Obj>>::opcode(),
        <set_transient as Msg<Obj>>::opcode() != <set_title as Msg<Obj>>::opcode(),
        <set_transient as Msg<Obj>>::opcode() != <set_class as Msg<Obj>>::opcode(),
        <set_fullscreen as Msg<Obj>>::opcode() != <set_popup as Msg<Obj>>::opcode(),
        <set_fullscreen as Msg<Obj>>::opcode() != <set_maximized as Msg<Obj>>::opcode(),
        <set_fullscreen as Msg<Obj>>::opcode() != <set_title as Msg<Obj>>::opcode(),
        <set_fullscreen as Msg<Obj>>::opcode() != <set_class as Msg<Obj>>::opcode(),
        <set_popup as Msg<Obj>>::opcode() != <set_maximized as Msg<Obj>>::opcode(),
        <set_popup as Msg<Obj>>::opcode() != <set_title as Msg<Obj>>::opcode(),
        <set_popup as Msg<Obj>>::opcode() != <set_class as Msg<Obj>>::opcode(),
        <set_maximized as Msg<Obj>>::opcode() != <set_title as Msg<Obj>>::opcode(),
        <set_maximized as Msg<Obj>>::opcode() != <set_class as Msg<Obj>>::opcode(),
        <set_title as Msg<Obj>>::opcode() != <set_class as Msg<Obj>>::opcode(),
        <Obj as Object>::destructor_op() is None,
{
}

} // verus!
