use vstd::prelude::*;
use crate::objects::{type_id_of, new_id, object, Dyn, ObjMeta, Object, Msg, Event};
use crate::wire::{ser_at, write_at, lemma_write_then, lemma_reverse_add, lemma_skip_step, fixed, Codec, Decoded, Dsr, Fd, Ser};
use super::Obj;

verus! {

/// ping client
///
/// Ping a client to check if it is receiving events and sending
/// requests. A client is expected to reply with a pong request.
///
#[derive(Debug)]
pub struct ping {
    // serial number of the ping
    pub serial: u32,
}

impl Ser for ping {
    open spec fn ser_ok(&self) -> bool {
        &&& self.serial.ser_ok()
        &&& self.ser_bytes().len() <= usize::MAX
    }

    open spec fn ser_bytes(&self) -> Seq<u8> {
        self.serial.ser_bytes()
    }

    open spec fn ser_fds(&self) -> Seq<Fd> {
        self.serial.ser_fds()
    }

    fn wire_len(&self) -> (n: usize) {
        self.serial.wire_len()
    }

    fn checked_len(&self) -> (r: Option<usize>) {
        let n0 = match self.serial.checked_len() {
            Some(m) => m,
            None => return None,
        };
        Some(n0)
    }

    open spec fn ser_fits(&self, cap: int) -> bool {
        &&& 0 <= cap && self.serial.ser_fits(cap - (0))
    }

    fn serialize(self, buf: &mut [u8], fds: &mut Vec<Fd>) -> (r: Result<usize, &'static str>) {
        let ghost me = self;
        let ghost b0 = buf@;
        let mut n: usize = 0;
        n = n + ser_at(self.serial, buf, n, fds);
        assert(fds@ =~= old(fds)@ + me.ser_fds());
        Ok(n)
    }

    proof fn lemma_fits(&self, cap: int) {
        self.serial.lemma_fits(cap - (0));
    }
}

impl DeepView for ping {
    type V = (<u32 as DeepView>::V,);

    open spec fn deep_view(&self) -> (<u32 as DeepView>::V,) {
        (self.serial.deep_view(),)
    }
}

impl Dsr for ping {
    open spec fn dsr_spec(buf: Seq<u8>, fds: Seq<Fd>) -> Decoded<(<u32 as DeepView>::V,)> {
        match <u32>::dsr_spec(buf, fds) {
            Decoded::Value(serial, n0, q0) => Decoded::Value((serial,), n0, q0),
            d => d.fail(),
        }
    }

    fn try_deserialize(buf: &[u8], fds: &mut Vec<Fd>) -> (r: Option<Result<(ping, usize), &'static str>>) {
        let mut n: usize = 0;
        let rest = &buf[n..buf.len()];
        assert(rest@ =~= buf@.skip(n as int));
        assert(n == 0 ==> rest@ =~= buf@);
        let (serial, m) = match <u32>::try_deserialize(rest, fds) {
            Some(Ok(p)) => p,
            Some(Err(e)) => return Some(Err(e)),
            None => return None,
        };
        n = n + m;
        Some(Ok((ping { serial }, n)))
    }
}

impl Codec for ping {
    open spec fn rt_ok(&self) -> bool {
        &&& self.serial.rt_ok()
    }

    proof fn lemma_roundtrip(&self, tail: Seq<u8>, base: Seq<Fd>) {
        let b0 = self.serial.ser_bytes();
        let d0 = self.serial.ser_fds();
        let s1 = tail;
        let s0 = b0 + s1;
        let buf = self.ser_bytes() + tail;
        assert(buf =~= s0);
        assert(buf.skip(0) =~= s0);
        assert(self.ser_fds() =~= Seq::<Fd>::empty());
        assert(base + self.ser_fds().reverse() =~= base);
        assert(d0 =~= Seq::<Fd>::empty());
        assert(base + d0.reverse() =~= base);
        self.serial.lemma_roundtrip(s1, base);
    }
}

impl ping {
    /// The arguments are read in the protocol's order, `serial`: the bytes
    /// and descriptors written for such arguments, one after the other,
    /// decode to exactly those arguments.
    pub proof fn lemma_layout(serial: u32, rest: Seq<u8>, queue: Seq<Fd>)
        requires
            serial.ser_ok(),
            serial.rt_ok(),
            serial.ser_bytes().len() <= usize::MAX,
        ensures
            ({
                let bytes = serial.ser_bytes();
                let fds = serial.ser_fds();
                ping::dsr_spec(bytes + rest, queue + fds.reverse()) == Decoded::Value(
                    (serial.deep_view(),),
                    bytes.len(),
                    queue,
                )
            }),
    {
        let m = ping { serial };
        m.lemma_roundtrip(rest, queue);
    }

    /// The message creates no object.
    pub proof fn lemma_creates(&self)
        ensures
            self.created_id() is None,
    {
    }
}

impl Msg<Obj> for ping {
    open spec fn opcode() -> u16 {
        0
    }

    open spec fn since_version() -> u32 {
        1
    }

    open spec fn created_id(&self) -> Option<u32> {
        None
    }

    open spec fn created_destructor(&self) -> Option<u16> {
        None
    }

    fn op() -> (r: u16) {
        0
    }

    fn since() -> u32 {
        1
    }

    fn new_id(&self) -> (r: Option<(u32, ObjMeta)>) {
        None
    }
}

impl Event<Obj> for ping {

}

/// suggest resize
///
/// The configure event asks the client to resize its surface.
///
/// The size is a hint, in the sense that the client is free to
/// ignore it if it doesn't resize, pick a smaller size (to
/// satisfy aspect ratio or resize in steps of NxM pixels).
///
/// The edges parameter provides a hint about how the surface
/// was resized. The client may use this information to decide
/// how to adjust its content to the new size (e.g. a scrolling
/// area might adjust its content position to leave the viewable
/// content unmoved).
///
/// The client is free to dismiss all but the last configure
/// event it received.
///
/// The width and height arguments specify the size of the window
/// in surface-local coordinates.
///
#[derive(Debug)]
pub struct configure {
    // how the surface was resized
    pub edges: super::resize,
    // new width of the surface
    pub width: i32,
    // new height of the surface
    pub height: i32,
}

impl Ser for configure {
    open spec fn ser_ok(&self) -> bool {
        &&& self.edges.ser_ok()
        &&& self.width.ser_ok()
        &&& self.height.ser_ok()
        &&& self.ser_bytes().len() <= usize::MAX
    }

    open spec fn ser_bytes(&self) -> Seq<u8> {
        self.edges.ser_bytes() + self.width.ser_bytes() + self.height.ser_bytes()
    }

    open spec fn ser_fds(&self) -> Seq<Fd> {
        self.edges.ser_fds() + self.width.ser_fds() + self.height.ser_fds()
    }

    fn wire_len(&self) -> (n: usize) {
        self.edges.wire_len() + self.width.wire_len() + self.height.wire_len()
    }

    fn checked_len(&self) -> (r: Option<usize>) {
        let n0 = match self.edges.checked_len() {
            Some(m) => m,
            None => return None,
        };
        let n1 = match self.width.checked_len() {
            Some(m) => match n0.checked_add(m) {
                Some(t) => t,
                None => return None,
            },
            None => return None,
        };
        let n2 = match self.height.checked_len() {
            Some(m) => match n1.checked_add(m) {
                Some(t) => t,
                None => return None,
            },
            None => return None,
        };
        Some(n2)
    }

    open spec fn ser_fits(&self, cap: int) -> bool {
        &&& 0 <= cap && self.edges.ser_fits(cap - (0))
        &&& self.edges.ser_bytes().len() <= cap && self.width.ser_fits(cap - (self.edges.ser_bytes().len()))
        &&& self.edges.ser_bytes().len() + self.width.ser_bytes().len() <= cap && self.height.ser_fits(cap - (self.edges.ser_bytes().len() + self.width.ser_bytes().len()))
    }

    fn serialize(self, buf: &mut [u8], fds: &mut Vec<Fd>) -> (r: Result<usize, &'static str>) {
        let ghost me = self;
        let ghost b0 = buf@;
        let mut n: usize = 0;
        n = n + ser_at(self.edges, buf, n, fds);
        assert(fds@ =~= old(fds)@ + me.edges.ser_fds());
        n = n + ser_at(self.width, buf, n, fds);
        proof {
            lemma_write_then(b0, 0, me.edges.ser_bytes(), me.width.ser_bytes());
        }
        assert(fds@ =~= old(fds)@ + me.edges.ser_fds() + me.width.ser_fds());
        n = n + ser_at(self.height, buf, n, fds);
        proof {
            lemma_write_then(b0, 0, me.edges.ser_bytes() + me.width.ser_bytes(), me.height.ser_bytes());
        }
        assert(fds@ =~= old(fds)@ + me.ser_fds());
        Ok(n)
    }

    proof fn lemma_fits(&self, cap: int) {
        self.edges.lemma_fits(cap - (0));
        self.width.lemma_fits(cap - (self.edges.ser_bytes().len()));
        self.height.lemma_fits(cap - (self.edges.ser_bytes().len() + self.width.ser_bytes().len()));
    }
}

impl DeepView for configure {
    type V = (<super::resize as DeepView>::V, <i32 as DeepView>::V, <i32 as DeepView>::V,);

    open spec fn deep_view(&self) -> (<super::resize as DeepView>::V, <i32 as DeepView>::V, <i32 as DeepView>::V,) {
        (self.edges.deep_view(), self.width.deep_view(), self.height.deep_view(),)
    }
}

impl Dsr for configure {
    open spec fn dsr_spec(buf: Seq<u8>, fds: Seq<Fd>) -> Decoded<(<super::resize as DeepView>::V, <i32 as DeepView>::V, <i32 as DeepView>::V,)> {
        match <super::resize>::dsr_spec(buf, fds) {
            Decoded::Value(edges, n0, q0) => {
                match <i32>::dsr_spec(buf.skip(n0 as int), q0) {
                    Decoded::Value(width, m1, q1) => {
                        let n1 = n0 + m1;
                        match <i32>::dsr_spec(buf.skip(n1 as int), q1) {
                            Decoded::Value(height, m2, q2) => {
                                let n2 = n1 + m2;
                                Decoded::Value((edges, width, height,), n2, q2)
                            },
                            d => d.fail(),
                        }
                    },
                    d => d.fail(),
                }
            },
            d => d.fail(),
        }
    }

    fn try_deserialize(buf: &[u8], fds: &mut Vec<Fd>) -> (r: Option<Result<(configure, usize), &'static str>>) {
        let mut n: usize = 0;
        let rest = &buf[n..buf.len()];
        assert(rest@ =~= buf@.skip(n as int));
        assert(n == 0 ==> rest@ =~= buf@);
        let (edges, m) = match <super::resize>::try_deserialize(rest, fds) {
            Some(Ok(p)) => p,
            Some(Err(e)) => return Some(Err(e)),
            None => return None,
        };
        n = n + m;
        let rest = &buf[n..buf.len()];
        assert(rest@ =~= buf@.skip(n as int));
        assert(n == 0 ==> rest@ =~= buf@);
        let (width, m) = match <i32>::try_deserialize(rest, fds) {
            Some(Ok(p)) => p,
            Some(Err(e)) => return Some(Err(e)),
            None => return None,
        };
        n = n + m;
        let rest = &buf[n..buf.len()];
        assert(rest@ =~= buf@.skip(n as int));
        assert(n == 0 ==> rest@ =~= buf@);
        let (height, m) = match <i32>::try_deserialize(rest, fds) {
            Some(Ok(p)) => p,
            Some(Err(e)) => return Some(Err(e)),
            None => return None,
        };
        n = n + m;
        Some(Ok((configure { edges, width, height }, n)))
    }
}

impl Codec for configure {
    open spec fn rt_ok(&self) -> bool {
        &&& self.edges.rt_ok()
        &&& self.width.rt_ok()
        &&& self.height.rt_ok()
    }

    proof fn lemma_roundtrip(&self, tail: Seq<u8>, base: Seq<Fd>) {
        let b0 = self.edges.ser_bytes();
        let b1 = self.width.ser_bytes();
        let b2 = self.height.ser_bytes();
        let d0 = self.edges.ser_fds();
        let d1 = self.width.ser_fds();
        let d2 = self.height.ser_fds();
        let s3 = tail;
        let s2 = b2 + s3;
        let s1 = b1 + s2;
        let s0 = b0 + s1;
        let buf = self.ser_bytes() + tail;
        assert(buf =~= s0);
        assert(buf.skip(0) =~= s0);
        assert(self.ser_fds() =~= Seq::<Fd>::empty());
        assert(base + self.ser_fds().reverse() =~= base);
        assert(d0 =~= Seq::<Fd>::empty());
        assert(base + d0.reverse() =~= base);
        self.edges.lemma_roundtrip(s1, base);
        assert(buf.skip((b0.len()) as int) == s1) by {
            lemma_skip_step(buf, (0) as int, b0, s1);
        }
        assert(d1 =~= Seq::<Fd>::empty());
        assert(base + d1.reverse() =~= base);
        self.width.lemma_roundtrip(s2, base);
        assert(buf.skip((b0.len() + b1.len()) as int) == s2) by {
            lemma_skip_step(buf, (b0.len()) as int, b1, s2);
        }
        assert(d2 =~= Seq::<Fd>::empty());
        assert(base + d2.reverse() =~= base);
        self.height.lemma_roundtrip(s3, base);
    }
}

impl configure {
    /// The arguments are read in the protocol's order, `edges`, then `width`, then `height`: the bytes
    /// and descriptors written for such arguments, one after the other,
    /// decode to exactly those arguments.
    pub proof fn lemma_layout(edges: super::resize, width: i32, height: i32, rest: Seq<u8>, queue: Seq<Fd>)
        requires
            edges.ser_ok(),
            edges.rt_ok(),
            width.ser_ok(),
            width.rt_ok(),
            height.ser_ok(),
            height.rt_ok(),
            edges.ser_bytes().len() + width.ser_bytes().len() + height.ser_bytes().len() <= usize::MAX,
        ensures
            ({
                let bytes = edges.ser_bytes() + width.ser_bytes() + height.ser_bytes();
                let fds = edges.ser_fds() + width.ser_fds() + height.ser_fds();
                configure::dsr_spec(bytes + rest, queue + fds.reverse()) == Decoded::Value(
                    (edges.deep_view(), width.deep_view(), height.deep_view(),),
                    bytes.len(),
                    queue,
                )
            }),
    {
        let m = configure { edges, width, height };
        m.lemma_roundtrip(rest, queue);
    }

    /// The message creates no object.
    pub proof fn lemma_creates(&self)
        ensures
            self.created_id() is None,
    {
    }
}

impl Msg<Obj> for configure {
    open spec fn opcode() -> u16 {
        1
    }

    open spec fn since_version() -> u32 {
        1
    }

    open spec fn created_id(&self) -> Option<u32> {
        None
    }

    open spec fn created_destructor(&self) -> Option<u16> {
        None
    }

    fn op() -> (r: u16) {
        1
    }

    fn since() -> u32 {
        1
    }

    fn new_id(&self) -> (r: Option<(u32, ObjMeta)>) {
        None
    }
}

impl Event<Obj> for configure {

}

/// popup interaction is done
///
/// The popup_done event is sent out when a popup grab is broken,
/// that is, when the user clicks a surface that doesn't belong
/// to the client owning the popup surface.
///
#[derive(Debug)]
pub struct popup_done {}

impl Ser for popup_done {
    open spec fn ser_ok(&self) -> bool {
        true
    }

    open spec fn ser_bytes(&self) -> Seq<u8> {
        Seq::empty()
    }

    open spec fn ser_fds(&self) -> Seq<Fd> {
        Seq::empty()
    }

    fn wire_len(&self) -> (n: usize) {
        0
    }

    fn checked_len(&self) -> (r: Option<usize>) {
        Some(0)
    }

    open spec fn ser_fits(&self, cap: int) -> bool {
        true
    }

    fn serialize(self, buf: &mut [u8], fds: &mut Vec<Fd>) -> (r: Result<usize, &'static str>) {
        assert(buf@ =~= write_at(old(buf)@, 0, Seq::<u8>::empty()));
        assert(fds@ =~= old(fds)@ + Seq::<Fd>::empty());
        Ok(0)
    }

    proof fn lemma_fits(&self, cap: int) {
    }
}

impl DeepView for popup_done {
    type V = ();

    open spec fn deep_view(&self) -> () {
        ()
    }
}

impl Dsr for popup_done {
    open spec fn dsr_spec(buf: Seq<u8>, fds: Seq<Fd>) -> Decoded<()> {
        Decoded::Value((), 0, fds)
    }

    fn try_deserialize(buf: &[u8], fds: &mut Vec<Fd>) -> (r: Option<Result<(popup_done, usize), &'static str>>) {
        Some(Ok((popup_done {}, 0)))
    }
}

impl Codec for popup_done {
    open spec fn rt_ok(&self) -> bool {
        true
    }

    proof fn lemma_roundtrip(&self, tail: Seq<u8>, base: Seq<Fd>) {
        assert(Seq::<Fd>::empty().reverse() =~= Seq::<Fd>::empty());
        assert(base + Seq::<Fd>::empty() =~= base);
    }
}

impl popup_done {
    /// The arguments are read in the protocol's order, no arguments: the bytes
    /// and descriptors written for such arguments, one after the other,
    /// decode to exactly those arguments.
    pub proof fn lemma_layout(rest: Seq<u8>, queue: Seq<Fd>)
        ensures
            ({
                let bytes = Seq::<u8>::empty();
                let fds = Seq::<Fd>::empty();
                popup_done::dsr_spec(bytes + rest, queue + fds.reverse()) == Decoded::Value(
                    (),
                    bytes.len(),
                    queue,
                )
            }),
    {
        let m = popup_done {};
        m.lemma_roundtrip(rest, queue);
    }

    /// The message creates no object.
    pub proof fn lemma_creates(&self)
        ensures
            self.created_id() is None,
    {
    }
}

impl Msg<Obj> for popup_done {
    open spec fn opcode() -> u16 {
        2
    }

    open spec fn since_version() -> u32 {
        1
    }

    open spec fn created_id(&self) -> Option<u32> {
        None
    }

    open spec fn created_destructor(&self) -> Option<u16> {
        None
    }

    fn op() -> (r: u16) {
        2
    }

    fn since() -> u32 {
        1
    }

    fn new_id(&self) -> (r: Option<(u32, ObjMeta)>) {
        None
    }
}

impl Event<Obj> for popup_done {

}

/// The opcode of each event: its index in the protocol's list of the
/// interface's events, so that no two events share one.
pub proof fn lemma_opcodes()
    ensures
        <ping as Msg<Obj>>::opcode() == 0,
        <configure as Msg<Obj>>::opcode() == 1,
        <popup_done as Msg<Obj>>::opcode() == 2,
        <ping as Msg<Obj>>::opcode() != <configure as Msg<Obj>>::opcode(),
        <ping as Msg<Obj>>::opcode() != <popup_done as Msg<Obj>>::opcode(),
        <configure as Msg<Obj>>::opcode() != <popup_done as Msg<Obj>>::opcode(),
{
}

} // verus!
