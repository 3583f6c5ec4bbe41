use vstd::prelude::*;
use crate::objects::{type_id_of, new_id, object, Dyn, ObjMeta, Object, Msg, Event};
use crate::wire::{ser_at, write_at, lemma_write_then, lemma_reverse_add, lemma_skip_step, fixed, Codec, Decoded, Dsr, Fd, Ser};
use super::Obj;

verus! {

/// configure the popup surface
///
/// This event asks the popup surface to configure itself given the
/// configuration. The configured state should not be applied immediately.
/// See xdg_surface.configure for details.
///
/// The x and y arguments represent the position the popup was placed at
/// given the xdg_positioner rule, relative to the upper left corner of the
/// window geometry of the parent surface.
///
/// For version 2 or older, the configure event for an xdg_popup is only
/// ever sent once for the initial configuration. Starting with version 3,
/// it may be sent again if the popup is setup with an xdg_positioner with
/// set_reactive requested, or in response to xdg_popup.reposition requests.
///
#[derive(Debug)]
pub struct configure {
    // x position relative to parent surface window geometry
    pub x: i32,
    // y position relative to parent surface window geometry
    pub y: i32,
    // window geometry width
    pub width: i32,
    // window geometry height
    pub height: i32,
}

impl Ser for configure {
    open spec fn ser_ok(&self) -> bool {
        &&& self.x.ser_ok()
        &&& self.y.ser_ok()
        &&& self.width.ser_ok()
        &&& self.height.ser_ok()
        &&& self.ser_bytes().len() <= usize::MAX
    }

    open spec fn ser_bytes(&self) -> Seq<u8> {
        self.x.ser_bytes() + self.y.ser_bytes() + self.width.ser_bytes() + self.height.ser_bytes()
    }

    open spec fn ser_fds(&self) -> Seq<Fd> {
        self.x.ser_fds() + self.y.ser_fds() + self.width.ser_fds() + self.height.ser_fds()
    }

    fn wire_len(&self) -> (n: usize) {
        self.x.wire_len() + self.y.wire_len() + self.width.wire_len() + self.height.wire_len()
    }

    fn checked_len(&self) -> (r: Option<usize>) {
        let n0 = match self.x.checked_len() {
            Some(m) => m,
            None => return None,
        };
        let n1 = match self.y.checked_len() {
            Some(m) => match n0.checked_add(m) {
                Some(t) => t,
                None => return None,
            },
            None => return None,
        };
        let n2 = match self.width.checked_len() {
            Some(m) => match n1.checked_add(m) {
                Some(t) => t,
                None => return None,
            },
            None => return None,
        };
        let n3 = match self.height.checked_len() {
            Some(m) => match n2.checked_add(m) {
                Some(t) => t,
                None => return None,
            },
            None => return None,
        };
        Some(n3)
    }

    open spec fn ser_fits(&self, cap: int) -> bool {
        &&& 0 <= cap && self.x.ser_fits(cap - (0))
        &&& self.x.ser_bytes().len() <= cap && self.y.ser_fits(cap - (self.x.ser_bytes().len()))
        &&& self.x.ser_bytes().len() + self.y.ser_bytes().len() <= cap && self.width.ser_fits(cap - (self.x.ser_bytes().len() + self.y.ser_bytes().len()))
        &&& self.x.ser_bytes().len() + self.y.ser_bytes().len() + self.width.ser_bytes().len() <= cap && self.height.ser_fits(cap - (self.x.ser_bytes().len() + self.y.ser_bytes().len() + self.width.ser_bytes().len()))
    }

    fn serialize(self, buf: &mut [u8], fds: &mut Vec<Fd>) -> (r: Result<usize, &'static str>) {
        let ghost me = self;
        let ghost b0 = buf@;
        let mut n: usize = 0;
        n = n + ser_at(self.x, buf, n, fds);
        assert(fds@ =~= old(fds)@ + me.x.ser_fds());
        n = n + ser_at(self.y, buf, n, fds);
        proof {
            lemma_write_then(b0, 0, me.x.ser_bytes(), me.y.ser_bytes());
        }
        assert(fds@ =~= old(fds)@ + me.x.ser_fds() + me.y.ser_fds());
        n = n + ser_at(self.width, buf, n, fds);
        proof {
            lemma_write_then(b0, 0, me.x.ser_bytes() + me.y.ser_bytes(), me.width.ser_bytes());
        }
        assert(fds@ =~= old(fds)@ + me.x.ser_fds() + me.y.ser_fds() + me.width.ser_fds());
        n = n + ser_at(self.height, buf, n, fds);
        proof {
            lemma_write_then(b0, 0, me.x.ser_bytes() + me.y.ser_bytes() + me.width.ser_bytes(), me.height.ser_bytes());
        }
        assert(fds@ =~= old(fds)@ + me.ser_fds());
        Ok(n)
    }

    proof fn lemma_fits(&self, cap: int) {
        self.x.lemma_fits(cap - (0));
        self.y.lemma_fits(cap - (self.x.ser_bytes().len()));
        self.width.lemma_fits(cap - (self.x.ser_bytes().len() + self.y.ser_bytes().len()));
        self.height.lemma_fits(cap - (self.x.ser_bytes().len() + self.y.ser_bytes().len() + self.width.ser_bytes().len()));
    }
}

impl DeepView for configure {
    type V = (<i32 as DeepView>::V, <i32 as DeepView>::V, <i32 as DeepView>::V, <i32 as DeepView>::V,);

    open spec fn deep_view(&self) -> (<i32 as DeepView>::V, <i32 as DeepView>::V, <i32 as DeepView>::V, <i32 as DeepView>::V,) {
        (self.x.deep_view(), self.y.deep_view(), self.width.deep_view(), self.height.deep_view(),)
    }
}

impl Dsr for configure {
    open spec fn dsr_spec(buf: Seq<u8>, fds: Seq<Fd>) -> Decoded<(<i32 as DeepView>::V, <i32 as DeepView>::V, <i32 as DeepView>::V, <i32 as DeepView>::V,)> {
        match <i32>::dsr_spec(buf, fds) {
            Decoded::Value(x, n0, q0) => {
                match <i32>::dsr_spec(buf.skip(n0 as int), q0) {
                    Decoded::Value(y, m1, q1) => {
                        let n1 = n0 + m1;
                        match <i32>::dsr_spec(buf.skip(n1 as int), q1) {
                            Decoded::Value(width, m2, q2) => {
                                let n2 = n1 + m2;
                                match <i32>::dsr_spec(buf.skip(n2 as int), q2) {
                                    Decoded::Value(height, m3, q3) => {
                                        let n3 = n2 + m3;
                                        Decoded::Value((x, y, width, height,), n3, q3)
                                    },
                                    d => d.fail(),
                                }
                            },
                            d => d.fail(),
                        }
                    },
                    d => d.fail(),
                }
            },
            d => d.fail(),
        }
    }

    fn try_deserialize(buf: &[u8], fds: &mut Vec<Fd>) -> (r: Option<Result<(configure, usize), &'static str>>) {
        let mut n: usize = 0;
        let rest = &buf[n..buf.len()];
        assert(rest@ =~= buf@.skip(n as int));
        assert(n == 0 ==> rest@ =~= buf@);
        let (x, m) = match <i32>::try_deserialize(rest, fds) {
            Some(Ok(p)) => p,
            Some(Err(e)) => return Some(Err(e)),
            None => return None,
        };
        n = n + m;
        let rest = &buf[n..buf.len()];
        assert(rest@ =~= buf@.skip(n as int));
        assert(n == 0 ==> rest@ =~= buf@);
        let (y, m) = match <i32>::try_deserialize(rest, fds) {
            Some(Ok(p)) => p,
            Some(Err(e)) => return Some(Err(e)),
            None => return None,
        };
        n = n + m;
        let rest = &buf[n..buf.len()];
        assert(rest@ =~= buf@.skip(n as int));
        assert(n == 0 ==> rest@ =~= buf@);
        let (width, m) = match <i32>::try_deserialize(rest, fds) {
            Some(Ok(p)) => p,
            Some(Err(e)) => return Some(Err(e)),
            None => return None,
        };
        n = n + m;
        let rest = &buf[n..buf.len()];
        assert(rest@ =~= buf@.skip(n as int));
        assert(n == 0 ==> rest@ =~= buf@);
        let (height, m) = match <i32>::try_deserialize(rest, fds) {
            Some(Ok(p)) => p,
            Some(Err(e)) => return Some(Err(e)),
            None => return None,
        };
        n = n + m;
        Some(Ok((configure { x, y, width, height }, n)))
    }
}

impl Codec for configure {
    open spec fn rt_ok(&self) -> bool {
        &&& self.x.rt_ok()
        &&& self.y.rt_ok()
        &&& self.width.rt_ok()
        &&& self.height.rt_ok()
    }

    proof fn lemma_roundtrip(&self, tail: Seq<u8>, base: Seq<Fd>) {
        let b0 = self.x.ser_bytes();
        let b1 = self.y.ser_bytes();
        let b2 = self.width.ser_bytes();
        let b3 = self.height.ser_bytes();
        let d0 = self.x.ser_fds();
        let d1 = self.y.ser_fds();
        let d2 = self.width.ser_fds();
        let d3 = self.height.ser_fds();
        let s4 = tail;
        let s3 = b3 + s4;
        let s2 = b2 + s3;
        let s1 = b1 + s2;
        let s0 = b0 + s1;
        let buf = self.ser_bytes() + tail;
        assert(buf =~= s0);
        assert(buf.skip(0) =~= s0);
        assert(self.ser_fds() =~= Seq::<Fd>::empty());
        assert(base + self.ser_fds().reverse() =~= base);
        assert(d0 =~= Seq::<Fd>::empty());
        assert(base + d0.reverse() =~= base);
        self.x.lemma_roundtrip(s1, base);
        assert(buf.skip((b0.len()) as int) == s1) by {
            lemma_skip_step(buf, (0) as int, b0, s1);
        }
        assert(d1 =~= Seq::<Fd>::empty());
        assert(base + d1.reverse() =~= base);
        self.y.lemma_roundtrip(s2, base);
        assert(buf.skip((b0.len() + b1.len()) as int) == s2) by {
            lemma_skip_step(buf, (b0.len()) as int, b1, s2);
        }
        assert(d2 =~= Seq::<Fd>::empty());
        assert(base + d2.reverse() =~= base);
        self.width.lemma_roundtrip(s3, base);
        assert(buf.skip((b0.len() + b1.len() + b2.len()) as int) == s3) by {
            lemma_skip_step(buf, (b0.len() + b1.len()) as int, b2, s3);
        }
        assert(d3 =~= Seq::<Fd>::empty());
        assert(base + d3.reverse() =~= base);
        self.height.lemma_roundtrip(s4, base);
    }
}

impl configure {
    /// The arguments are read in the protocol's order, `x`, then `y`, then `width`, then `height`: the bytes
    /// and descriptors written for such arguments, one after the other,
    /// decode to exactly those arguments.
    pub proof fn lemma_layout(x: i32, y: i32, width: i32, height: i32, rest: Seq<u8>, queue: Seq<Fd>)
        requires
            x.ser_ok(),
            x.rt_ok(),
            y.ser_ok(),
            y.rt_ok(),
            width.ser_ok(),
            width.rt_ok(),
            height.ser_ok(),
            height.rt_ok(),
            x.ser_bytes().len() + y.ser_bytes().len() + width.ser_bytes().len() + height.ser_bytes().len() <= usize::MAX,
        ensures
            ({
                let bytes = x.ser_bytes() + y.ser_bytes() + width.ser_bytes() + height.ser_bytes();
                let fds = x.ser_fds() + y.ser_fds() + width.ser_fds() + height.ser_fds();
                configure::dsr_spec(bytes + rest, queue + fds.reverse()) == Decoded::Value(
                    (x.deep_view(), y.deep_view(), width.deep_view(), height.deep_view(),),
                    bytes.len(),
                    queue,
                )
            }),
    {
        let m = configure { x, y, width, height };
        m.lemma_roundtrip(rest, queue);
    }

    /// The message creates no object.
    pub proof fn lemma_creates(&self)
        ensures
            self.created_id() is None,
    {
    }
}

impl Msg<Obj> for configure {
    open spec fn opcode() -> u16 {
        0
    }

    open spec fn since_version() -> u32 {
        1
    }

    open spec fn created_id(&self) -> Option<u32> {
        None
    }

    open spec fn created_destructor(&self) -> Option<u16> {
        None
    }

    fn op() -> (r: u16) {
        0
    }

    fn since() -> u32 {
        1
    }

    fn new_id(&self) -> (r: Option<(u32, ObjMeta)>) {
        None
    }
}

impl Event<Obj> for configure {

}

/// popup interaction is done
///
/// The popup_done event is sent out when a popup is dismissed by the
/// compositor. The client should destroy the xdg_popup object at this
/// point.
///
#[derive(Debug)]
pub struct popup_done {}

impl Ser for popup_done {
    open spec fn ser_ok(&self) -> bool {
        true
    }

    open spec fn ser_bytes(&self) -> Seq<u8> {
        Seq::empty()
    }

    open spec fn ser_fds(&self) -> Seq<Fd> {
        Seq::empty()
    }

    fn wire_len(&self) -> (n: usize) {
        0
    }

    fn checked_len(&self) -> (r: Option<usize>) {
        Some(0)
    }

    open spec fn ser_fits(&self, cap: int) -> bool {
        true
    }

    fn serialize(self, buf: &mut [u8], fds: &mut Vec<Fd>) -> (r: Result<usize, &'static str>) {
        assert(buf@ =~= write_at(old(buf)@, 0, Seq::<u8>::empty()));
        assert(fds@ =~= old(fds)@ + Seq::<Fd>::empty());
        Ok(0)
    }

    proof fn lemma_fits(&self, cap: int) {
    }
}

impl DeepView for popup_done {
    type V = ();

    open spec fn deep_view(&self) -> () {
        ()
    }
}

impl Dsr for popup_done {
    open spec fn dsr_spec(buf: Seq<u8>, fds: Seq<Fd>) -> Decoded<()> {
        Decoded::Value((), 0, fds)
    }

    fn try_deserialize(buf: &[u8], fds: &mut Vec<Fd>) -> (r: Option<Result<(popup_done, usize), &'static str>>) {
        Some(Ok((popup_done {}, 0)))
    }
}

impl Codec for popup_done {
    open spec fn rt_ok(&self) -> bool {
        true
    }

    proof fn lemma_roundtrip(&self, tail: Seq<u8>, base: Seq<Fd>) {
        assert(Seq::<Fd>::empty().reverse() =~= Seq::<Fd>::empty());
        assert(base + Seq::<Fd>::empty() =~= base);
    }
}

impl popup_done {
    /// The arguments are read in the protocol's order, no arguments: the bytes
    /// and descriptors written for such arguments, one after the other,
    /// decode to exactly those arguments.
    pub proof fn lemma_layout(rest: Seq<u8>, queue: Seq<Fd>)
        ensures
            ({
                let bytes = Seq::<u8>::empty();
                let fds = Seq::<Fd>::empty();
                popup_done::dsr_spec(bytes + rest, queue + fds.reverse()) == Decoded::Value(
                    (),
                    bytes.len(),
                    queue,
                )
            }),
    {
        let m = popup_done {};
        m.lemma_roundtrip(rest, queue);
    }

    /// The message creates no object.
    pub proof fn lemma_creates(&self)
        ensures
            self.created_id() is None,
    {
    }
}

impl Msg<Obj> for popup_done {
    open spec fn opcode() -> u16 {
        1
    }

    open spec fn since_version() -> u32 {
        1
    }

    open spec fn created_id(&self) -> Option<u32> {
        None
    }

    open spec fn created_destructor(&self) -> Option<u16> {
        None
    }

    fn op() -> (r: u16) {
        1
    }

    fn since() -> u32 {
        1
    }

    fn new_id(&self) -> (r: Option<(u32, ObjMeta)>) {
        None
    }
}

impl Event<Obj> for popup_done {

}

/// signal the completion of a repositioned request
///
/// The repositioned event is sent as part of a popup configuration
/// sequence, together with xdg_popup.configure and lastly
/// xdg_surface.configure to notify the completion of a reposition request.
///
/// The repositioned event is to notify about the completion of a
/// xdg_popup.reposition request. The token argument is the token passed
/// in the xdg_popup.reposition request.
///
/// Immediately after this event is emitted, xdg_popup.configure and
/// xdg_surface.configure will be sent with the updated size and position,
/// as well as a new configure serial.
///
/// The client should optionally update the content of the popup, but must
/// acknowledge the new popup configuration for the new position to take
/// effect. See xdg_surface.ack_configure for details.
///
#[derive(Debug)]
pub struct repositioned {
    // reposition request token
    pub token: u32,
}

impl Ser for repositioned {
    open spec fn ser_ok(&self) -> bool {
        &&& self.token.ser_ok()
        &&& self.ser_bytes().len() <= usize::MAX
    }

    open spec fn ser_bytes(&self) -> Seq<u8> {
        self.token.ser_bytes()
    }

    open spec fn ser_fds(&self) -> Seq<Fd> {
        self.token.ser_fds()
    }

    fn wire_len(&self) -> (n: usize) {
        self.token.wire_len()
    }

    fn checked_len(&self) -> (r: Option<usize>) {
        let n0 = match self.token.checked_len() {
            Some(m) => m,
            None => return None,
        };
        Some(n0)
    }

    open spec fn ser_fits(&self, cap: int) -> bool {
        &&& 0 <= cap && self.token.ser_fits(cap - (0))
    }

    fn serialize(self, buf: &mut [u8], fds: &mut Vec<Fd>) -> (r: Result<usize, &'static str>) {
        let ghost me = self;
        let ghost b0 = buf@;
        let mut n: usize = 0;
        n = n + ser_at(self.token, buf, n, fds);
        assert(fds@ =~= old(fds)@ + me.ser_fds());
        Ok(n)
    }

    proof fn lemma_fits(&self, cap: int) {
        self.token.lemma_fits(cap - (0));
    }
}

impl DeepView for repositioned {
    type V = (<u32 as DeepView>::V,);

    open spec fn deep_view(&self) -> (<u32 as DeepView>::V,) {
        (self.token.deep_view(),)
    }
}

impl Dsr for repositioned {
    open spec fn dsr_spec(buf: Seq<u8>, fds: Seq<Fd>) -> Decoded<(<u32 as DeepView>::V,)> {
        match <u32>::dsr_spec(buf, fds) {
            Decoded::Value(token, n0, q0) => Decoded::Value((token,), n0, q0),
            d => d.fail(),
        }
    }

    fn try_deserialize(buf: &[u8], fds: &mut Vec<Fd>) -> (r: Option<Result<(repositioned, usize), &'static str>>) {
        let mut n: usize = 0;
        let rest = &buf[n..buf.len()];
        assert(rest@ =~= buf@.skip(n as int));
        assert(n == 0 ==> rest@ =~= buf@);
        let (token, m) = match <u32>::try_deserialize(rest, fds) {
            Some(Ok(p)) => p,
            Some(Err(e)) => return Some(Err(e)),
            None => return None,
        };
        n = n + m;
        Some(Ok((repositioned { token }, n)))
    }
}

impl Codec for repositioned {
    open spec fn rt_ok(&self) -> bool {
        &&& self.token.rt_ok()
    }

    proof fn lemma_roundtrip(&self, tail: Seq<u8>, base: Seq<Fd>) {
        let b0 = self.token.ser_bytes();
        let d0 = self.token.ser_fds();
        let s1 = tail;
        let s0 = b0 + s1;
        let buf = self.ser_bytes() + tail;
        assert(buf =~= s0);
        assert(buf.skip(0) =~= s0);
        assert(self.ser_fds() =~= Seq::<Fd>::empty());
        assert(base + self.ser_fds().reverse() =~= base);
        assert(d0 =~= Seq::<Fd>::empty());
        assert(base + d0.reverse() =~= base);
        self.token.lemma_roundtrip(s1, base);
    }
}

impl repositioned {
    /// The arguments are read in the protocol's order, `token`: the bytes
    /// and descriptors written for such arguments, one after the other,
    /// decode to exactly those arguments.
    pub proof fn lemma_layout(token: u32, rest: Seq<u8>, queue: Seq<Fd>)
        requires
            token.ser_ok(),
            token.rt_ok(),
            token.ser_bytes().len() <= usize::MAX,
        ensures
            ({
                let bytes = token.ser_bytes();
                let fds = token.ser_fds();
                repositioned::dsr_spec(bytes + rest, queue + fds.reverse()) == Decoded::Value(
                    (token.deep_view(),),
                    bytes.len(),
                    queue,
                )
            }),
    {
        let m = repositioned { token };
        m.lemma_roundtrip(rest, queue);
    }

    /// The message creates no object.
    pub proof fn lemma_creates(&self)
        ensures
            self.created_id() is None,
    {
    }
}

impl Msg<Obj> for repositioned {
    open spec fn opcode() -> u16 {
        2
    }

    open spec fn since_version() -> u32 {
        1
    }

    open spec fn created_id(&self) -> Option<u32> {
        None
    }

    open spec fn created_destructor(&self) -> Option<u16> {
        None
    }

    fn op() -> (r: u16) {
        2
    }

    fn since() -> u32 {
        1
    }

    fn new_id(&self) -> (r: Option<(u32, ObjMeta)>) {
        None
    }
}

impl Event<Obj> for repositioned {

}

/// The opcode of each event: its index in the protocol's list of the
/// interface's events, so that no two events share one.
pub proof fn lemma_opcodes()
    ensures
        <configure as Msg<Obj>>::opcode() == 0,
        <popup_done as Msg<Obj>>::opcode() == 1,
        <repositioned as Msg<Obj>>::opcode() == 2,
        <configure as Msg<Obj>>::opcode() != <popup_done as Msg<Obj>>::opcode(),
        <configure as Msg<Obj>>::opcode() != <repositioned as Msg<Obj>>::opcode(),
        <popup_done as Msg<Obj>>::opcode() != <repositioned as Msg<Obj>>::opcode(),
{
}

} // verus!
