use vstd::prelude::*;
use crate::objects::{type_id_of, new_id, object, Dyn, ObjMeta, Object, Msg, Request};
use crate::wire::{ser_at, write_at, lemma_write_then, lemma_reverse_add, lemma_skip_step, fixed, Codec, Decoded, Dsr, Fd, Ser};
use super::Obj;

verus! {

/// remove xdg_popup interface
///
/// This destroys the popup. Explicitly destroying the xdg_popup
/// object will also dismiss the popup, and unmap the surface.
///
/// If this xdg_popup is not the "topmost" popup, the
/// xdg_wm_base.not_the_topmost_popup protocol error will be sent.
///
#[derive(Debug)]
pub struct destroy {}

impl Ser for destroy {
    open spec fn ser_ok(&self) -> bool {
        true
    }

    open spec fn ser_bytes(&self) -> Seq<u8> {
        Seq::empty()
    }

    open spec fn ser_fds(&self) -> Seq<Fd> {
        Seq::empty()
    }

    fn wire_len(&self) -> (n: usize) {
        0
    }

    fn checked_len(&self) -> (r: Option<usize>) {
        Some(0)
    }

    open spec fn ser_fits(&self, cap: int) -> bool {
        true
    }

    fn serialize(self, buf: &mut [u8], fds: &mut Vec<Fd>) -> (r: Result<usize, &'static str>) {
        assert(buf@ =~= write_at(old(buf)@, 0, Seq::<u8>::empty()));
        assert(fds@ =~= old(fds)@ + Seq::<Fd>::empty());
        Ok(0)
    }

    proof fn lemma_fits(&self, cap: int) {
    }
}

impl DeepView for destroy {
    type V = ();

    open spec fn deep_view(&self) -> () {
        ()
    }
}

impl Dsr for destroy {
    open spec fn dsr_spec(buf: Seq<u8>, fds: Seq<Fd>) -> Decoded<()> {
        Decoded::Value((), 0, fds)
    }

    fn try_deserialize(buf: &[u8], fds: &mut Vec<Fd>) -> (r: Option<Result<(destroy, usize), &'static str>>) {
        Some(Ok((destroy {}, 0)))
    }
}

impl Codec for destroy {
    open spec fn rt_ok(&self) -> bool {
        true
    }

    proof fn lemma_roundtrip(&self, tail: Seq<u8>, base: Seq<Fd>) {
        assert(Seq::<Fd>::empty().reverse() =~= Seq::<Fd>::empty());
        assert(base + Seq::<Fd>::empty() =~= base);
    }
}

impl destroy {
    /// The arguments are read in the protocol's order, no arguments: the bytes
    /// and descriptors written for such arguments, one after the other,
    /// decode to exactly those arguments.
    pub proof fn lemma_layout(rest: Seq<u8>, queue: Seq<Fd>)
        ensures
            ({
                let bytes = Seq::<u8>::empty();
                let fds = Seq::<Fd>::empty();
                destroy::dsr_spec(bytes + rest, queue + fds.reverse()) == Decoded::Value(
                    (),
                    bytes.len(),
                    queue,
                )
            }),
    {
        let m = destroy {};
        m.lemma_roundtrip(rest, queue);
    }

    /// The message creates no object.
    pub proof fn lemma_creates(&self)
        ensures
            self.created_id() is None,
    {
    }
}

impl Msg<Obj> for destroy {
    open spec fn opcode() -> u16 {
        0
    }

    open spec fn since_version() -> u32 {
        1
    }

    open spec fn created_id(&self) -> Option<u32> {
        None
    }

    open spec fn created_destructor(&self) -> Option<u16> {
        None
    }

    fn op() -> (r: u16) {
        0
    }

    fn since() -> u32 {
        1
    }

    fn new_id(&self) -> (r: Option<(u32, ObjMeta)>) {
        None
    }
}

impl Request<Obj> for destroy {

}

/// make the popup take an explicit grab
///
/// This request makes the created popup take an explicit grab. An explicit
/// grab will be dismissed when the user dismisses the popup, or when the
/// client destroys the xdg_popup. This can be done by the user clicking
/// outside the surface, using the keyboard, or even locking the screen
/// through closing the lid or a timeout.
///
/// If the compositor denies the grab, the popup will be immediately
/// dismissed.
///
/// This request must be used in response to some sort of user action like a
/// button press, key press, or touch down event. The serial number of the
/// event should be passed as 'serial'.
///
/// The parent of a grabbing popup must either be an xdg_toplevel surface or
/// another xdg_popup with an explicit grab. If the parent is another
/// xdg_popup it means that the popups are nested, with this popup now being
/// the topmost popup.
///
/// Nested popups must be destroyed in the reverse order they were created
/// in, e.g. the only popup you are allowed to destroy at all times is the
/// topmost one.
///
/// When compositors choose to dismiss a popup, they may dismiss every
/// nested grabbing popup as well. When a compositor dismisses popups, it
/// will follow the same dismissing order as required from the client.
///
/// If the topmost grabbing popup is destroyed, the grab will be returned to
/// the parent of the popup, if that parent previously had an explicit grab.
///
/// If the parent is a grabbing popup which has already been dismissed, this
/// popup will be immediately dismissed. If the parent is a popup that did
/// not take an explicit grab, an error will be raised.
///
/// During a popup grab, the client owning the grab will receive pointer
/// and touch events for all their surfaces as normal (similar to an
/// "owner-events" grab in X11 parlance), while the top most grabbing popup
/// will always have keyboard focus.
///
#[derive(Debug)]
pub struct grab {
    // the wl_seat of the user event
    pub seat: object<crate::wl_seat::Obj>,
    // the serial of the user event
    pub serial: u32,
}

impl Ser for grab {
    open spec fn ser_ok(&self) -> bool {
        &&& self.seat.ser_ok()
        &&& self.serial.ser_ok()
        &&& self.ser_bytes().len() <= usize::MAX
    }

    open spec fn ser_bytes(&self) -> Seq<u8> {
        self.seat.ser_bytes() + self.serial.ser_bytes()
    }

    open spec fn ser_fds(&self) -> Seq<Fd> {
        self.seat.ser_fds() + self.serial.ser_fds()
    }

    fn wire_len(&self) -> (n: usize) {
        self.seat.wire_len() + self.serial.wire_len()
    }

    fn checked_len(&self) -> (r: Option<usize>) {
        let n0 = match self.seat.checked_len() {
            Some(m) => m,
            None => return None,
        };
        let n1 = match self.serial.checked_len() {
            Some(m) => match n0.checked_add(m) {
                Some(t) => t,
                None => return None,
            },
            None => return None,
        };
        Some(n1)
    }

    open spec fn ser_fits(&self, cap: int) -> bool {
        &&& 0 <= cap && self.seat.ser_fits(cap - (0))
        &&& self.seat.ser_bytes().len() <= cap && self.serial.ser_fits(cap - (self.seat.ser_bytes().len()))
    }

    fn serialize(self, buf: &mut [u8], fds: &mut Vec<Fd>) -> (r: Result<usize, &'static str>) {
        let ghost me = self;
        let ghost b0 = buf@;
        let mut n: usize = 0;
        n = n + ser_at(self.seat, buf, n, fds);
        assert(fds@ =~= old(fds)@ + me.seat.ser_fds());
        n = n + ser_at(self.serial, buf, n, fds);
        proof {
            lemma_write_then(b0, 0, me.seat.ser_bytes(), me.serial.ser_bytes());
        }
        assert(fds@ =~= old(fds)@ + me.ser_fds());
        Ok(n)
    }

    proof fn lemma_fits(&self, cap: int) {
        self.seat.lemma_fits(cap - (0));
        self.serial.lemma_fits(cap - (self.seat.ser_bytes().len()));
    }
}

impl DeepView for grab {
    type V = (<object<crate::wl_seat::Obj> as DeepView>::V, <u32 as DeepView>::V,);

    open spec fn deep_view(&self) -> (<object<crate::wl_seat::Obj> as DeepView>::V, <u32 as DeepView>::V,) {
        (self.seat.deep_view(), self.serial.deep_view(),)
    }
}

impl Dsr for grab {
    open spec fn dsr_spec(buf: Seq<u8>, fds: Seq<Fd>) -> Decoded<(<object<crate::wl_seat::Obj> as DeepView>::V, <u32 as DeepView>::V,)> {
        match <object<crate::wl_seat::Obj>>::dsr_spec(buf, fds) {
            Decoded::Value(seat, n0, q0) => {
                match <u32>::dsr_spec(buf.skip(n0 as int), q0) {
                    Decoded::Value(serial, m1, q1) => {
                        let n1 = n0 + m1;
                        Decoded::Value((seat, serial,), n1, q1)
                    },
                    d => d.fail(),
                }
            },
            d => d.fail(),
        }
    }

    fn try_deserialize(buf: &[u8], fds: &mut Vec<Fd>) -> (r: Option<Result<(grab, usize), &'static str>>) {
        let mut n: usize = 0;
        let rest = &buf[n..buf.len()];
        assert(rest@ =~= buf@.skip(n as int));
        assert(n == 0 ==> rest@ =~= buf@);
        let (seat, m) = match <object<crate::wl_seat::Obj>>::try_deserialize(rest, fds) {
            Some(Ok(p)) => p,
            Some(Err(e)) => return Some(Err(e)),
            None => return None,
        };
        n = n + m;
        let rest = &buf[n..buf.len()];
        assert(rest@ =~= buf@.skip(n as int));
        assert(n == 0 ==> rest@ =~= buf@);
        let (serial, m) = match <u32>::try_deserialize(rest, fds) {
            Some(Ok(p)) => p,
            Some(Err(e)) => return Some(Err(e)),
            None => return None,
        };
        n = n + m;
        Some(Ok((grab { seat, serial }, n)))
    }
}

impl Codec for grab {
    open spec fn rt_ok(&self) -> bool {
        &&& self.seat.rt_ok()
        &&& self.serial.rt_ok()
    }

    proof fn lemma_roundtrip(&self, tail: Seq<u8>, base: Seq<Fd>) {
        let b0 = self.seat.ser_bytes();
        let b1 = self.serial.ser_bytes();
        let d0 = self.seat.ser_fds();
        let d1 = self.serial.ser_fds();
        let s2 = tail;
        let s1 = b1 + s2;
        let s0 = b0 + s1;
        let buf = self.ser_bytes() + tail;
        assert(buf =~= s0);
        assert(buf.skip(0) =~= s0);
        assert(self.ser_fds() =~= Seq::<Fd>::empty());
        assert(base + self.ser_fds().reverse() =~= base);
        assert(d0 =~= Seq::<Fd>::empty());
        assert(base + d0.reverse() =~= base);
        self.seat.lemma_roundtrip(s1, base);
        assert(buf.skip((b0.len()) as int) == s1) by {
            lemma_skip_step(buf, (0) as int, b0, s1);
        }
        assert(d1 =~= Seq::<Fd>::empty());
        assert(base + d1.reverse() =~= base);
        self.serial.lemma_roundtrip(s2, base);
    }
}

impl grab {
    /// The arguments are read in the protocol's order, `seat`, then `serial`: the bytes
    /// and descriptors written for such arguments, one after the other,
    /// decode to exactly those arguments.
    pub proof fn lemma_layout(seat: object<crate::wl_seat::Obj>, serial: u32, rest: Seq<u8>, queue: Seq<Fd>)
        requires
            seat.ser_ok(),
            seat.rt_ok(),
            serial.ser_ok(),
            serial.rt_ok(),
            seat.ser_bytes().len() + serial.ser_bytes().len() <= usize::MAX,
        ensures
            ({
                let bytes = seat.ser_bytes() + serial.ser_bytes();
                let fds = seat.ser_fds() + serial.ser_fds();
                grab::dsr_spec(bytes + rest, queue + fds.reverse()) == Decoded::Value(
                    (seat.deep_view(), serial.deep_view(),),
                    bytes.len(),
                    queue,
                )
            }),
    {
        let m = grab { seat, serial };
        m.lemma_roundtrip(rest, queue);
    }

    /// The message creates no object.
    pub proof fn lemma_creates(&self)
        ensures
            self.created_id() is None,
    {
    }
}

impl Msg<Obj> for grab {
    open spec fn opcode() -> u16 {
        1
    }

    open spec fn since_version() -> u32 {
        1
    }

    open spec fn created_id(&self) -> Option<u32> {
        None
    }

    open spec fn created_destructor(&self) -> Option<u16> {
        None
    }

    fn op() -> (r: u16) {
        1
    }

    fn since() -> u32 {
        1
    }

    fn new_id(&self) -> (r: Option<(u32, ObjMeta)>) {
        None
    }
}

impl Request<Obj> for grab {

}

/// recalculate the popup's location
///
/// Reposition an already-mapped popup. The popup will be placed given the
/// details in the passed xdg_positioner object, and a
/// xdg_popup.repositioned followed by xdg_popup.configure and
/// xdg_surface.configure will be emitted in response. Any parameters set
/// by the previous positioner will be discarded.
///
/// The passed token will be sent in the corresponding
/// xdg_popup.repositioned event. The new popup position will not take
/// effect until the corresponding configure event is acknowledged by the
/// client. See xdg_popup.repositioned for details. The token itself is
/// opaque, and has no other special meaning.
///
/// If multiple reposition requests are sent, the compositor may skip all
/// but the last one.
///
/// If the popup is repositioned in response to a configure event for its
/// parent, the client should send an xdg_positioner.set_parent_configure
/// and possibly an xdg_positioner.set_parent_size request to allow the
/// compositor to properly constrain the popup.
///
/// If the popup is repositioned together with a parent that is being
/// resized, but not in response to a configure event, the client should
/// send an xdg_positioner.set_parent_size request.
///
#[derive(Debug)]
pub struct reposition {
    //
    pub positioner: object<crate::xdg_positioner::Obj>,
    // reposition request token
    pub token: u32,
}

impl Ser for reposition {
    open spec fn ser_ok(&self) -> bool {
        &&& self.positioner.ser_ok()
        &&& self.token.ser_ok()
        &&& self.ser_bytes().len() <= usize::MAX
    }

    open spec fn ser_bytes(&self) -> Seq<u8> {
        self.positioner.ser_bytes() + self.token.ser_bytes()
    }

    open spec fn ser_fds(&self) -> Seq<Fd> {
        self.positioner.ser_fds() + self.token.ser_fds()
    }

    fn wire_len(&self) -> (n: usize) {
        self.positioner.wire_len() + self.token.wire_len()
    }

    fn checked_len(&self) -> (r: Option<usize>) {
        let n0 = match self.positioner.checked_len() {
            Some(m) => m,
            None => return None,
        };
        let n1 = match self.token.checked_len() {
            Some(m) => match n0.checked_add(m) {
                Some(t) => t,
                None => return None,
            },
            None => return None,
        };
        Some(n1)
    }

    open spec fn ser_fits(&self, cap: int) -> bool {
        &&& 0 <= cap && self.positioner.ser_fits(cap - (0))
        &&& self.positioner.ser_bytes().len() <= cap && self.token.ser_fits(cap - (self.positioner.ser_bytes().len()))
    }

    fn serialize(self, buf: &mut [u8], fds: &mut Vec<Fd>) -> (r: Result<usize, &'static str>) {
        let ghost me = self;
        let ghost b0 = buf@;
        let mut n: usize = 0;
        n = n + ser_at(self.positioner, buf, n, fds);
        assert(fds@ =~= old(fds)@ + me.positioner.ser_fds());
        n = n + ser_at(self.token, buf, n, fds);
        proof {
            lemma_write_then(b0, 0, me.positioner.ser_bytes(), me.token.ser_bytes());
        }
        assert(fds@ =~= old(fds)@ + me.ser_fds());
        Ok(n)
    }

    proof fn lemma_fits(&self, cap: int) {
        self.positioner.lemma_fits(cap - (0));
        self.token.lemma_fits(cap - (self.positioner.ser_bytes().len()));
    }
}

impl DeepView for reposition {
    type V = (<object<crate::xdg_positioner::Obj> as DeepView>::V, <u32 as DeepView>::V,);

    open spec fn deep_view(&self) -> (<object<crate::xdg_positioner::Obj> as DeepView>::V, <u32 as DeepView>::V,) {
        (self.positioner.deep_view(), self.token.deep_view(),)
    }
}

impl Dsr for reposition {
    open spec fn dsr_spec(buf: Seq<u8>, fds: Seq<Fd>) -> Decoded<(<object<crate::xdg_positioner::Obj> as DeepView>::V, <u32 as DeepView>::V,)> {
        match <object<crate::xdg_positioner::Obj>>::dsr_spec(buf, fds) {
            Decoded::Value(positioner, n0, q0) => {
                match <u32>::dsr_spec(buf.skip(n0 as int), q0) {
                    Decoded::Value(token, m1, q1) => {
                        let n1 = n0 + m1;
                        Decoded::Value((positioner, token,), n1, q1)
                    },
                    d => d.fail(),
                }
            },
            d => d.fail(),
        }
    }

    fn try_deserialize(buf: &[u8], fds: &mut Vec<Fd>) -> (r: Option<Result<(reposition, usize), &'static str>>) {
        let mut n: usize = 0;
        let rest = &buf[n..buf.len()];
        assert(rest@ =~= buf@.skip(n as int));
        assert(n == 0 ==> rest@ =~= buf@);
        let (positioner, m) = match <object<crate::xdg_positioner::Obj>>::try_deserialize(rest, fds) {
            Some(Ok(p)) => p,
            Some(Err(e)) => return Some(Err(e)),
            None => return None,
        };
        n = n + m;
        let rest = &buf[n..buf.len()];
        assert(rest@ =~= buf@.skip(n as int));
        assert(n == 0 ==> rest@ =~= buf@);
        let (token, m) = match <u32>::try_deserialize(rest, fds) {
            Some(Ok(p)) => p,
            Some(Err(e)) => return Some(Err(e)),
            None => return None,
        };
        n = n + m;
        Some(Ok((reposition { positioner, token }, n)))
    }
}

impl Codec for reposition {
    open spec fn rt_ok(&self) -> bool {
        &&& self.positioner.rt_ok()
        &&& self.token.rt_ok()
    }

    proof fn lemma_roundtrip(&self, tail: Seq<u8>, base: Seq<Fd>) {
        let b0 = self.positioner.ser_bytes();
        let b1 = self.token.ser_bytes();
        let d0 = self.positioner.ser_fds();
        let d1 = self.token.ser_fds();
        let s2 = tail;
        let s1 = b1 + s2;
        let s0 = b0 + s1;
        let buf = self.ser_bytes() + tail;
        assert(buf =~= s0);
        assert(buf.skip(0) =~= s0);
        assert(self.ser_fds() =~= Seq::<Fd>::empty());
        assert(base + self.ser_fds().reverse() =~= base);
        assert(d0 =~= Seq::<Fd>::empty());
        assert(base + d0.reverse() =~= base);
        self.positioner.lemma_roundtrip(s1, base);
        assert(buf.skip((b0.len()) as int) == s1) by {
            lemma_skip_step(buf, (0) as int, b0, s1);
        }
        assert(d1 =~= Seq::<Fd>::empty());
        assert(base + d1.reverse() =~= base);
        self.token.lemma_roundtrip(s2, base);
    }
}

impl reposition {
    /// The arguments are read in the protocol's order, `positioner`, then `token`: the bytes
    /// and descriptors written for such arguments, one after the other,
    /// decode to exactly those arguments.
    pub proof fn lemma_layout(positioner: object<crate::xdg_positioner::Obj>, token: u32, rest: Seq<u8>, queue: Seq<Fd>)
        requires
            positioner.ser_ok(),
            positioner.rt_ok(),
            token.ser_ok(),
            token.rt_ok(),
            positioner.ser_bytes().len() + token.ser_bytes().len() <= usize::MAX,
        ensures
            ({
                let bytes = positioner.ser_bytes() + token.ser_bytes();
                let fds = positioner.ser_fds() + token.ser_fds();
                reposition::dsr_spec(bytes + rest, queue + fds.reverse()) == Decoded::Value(
                    (positioner.deep_view(), token.deep_view(),),
                    bytes.len(),
                    queue,
                )
            }),
    {
        let m = reposition { positioner, token };
        m.lemma_roundtrip(rest, queue);
    }

    /// The message creates no object.
    pub proof fn lemma_creates(&self)
        ensures
            self.created_id() is None,
    {
    }
}

impl Msg<Obj> for reposition {
    open spec fn opcode() -> u16 {
        2
    }

    open spec fn since_version() -> u32 {
        1
    }

    open spec fn created_id(&self) -> Option<u32> {
        None
    }

    open spec fn created_destructor(&self) -> Option<u16> {
        None
    }

    fn op() -> (r: u16) {
        2
    }

    fn since() -> u32 {
        1
    }

    fn new_id(&self) -> (r: Option<(u32, ObjMeta)>) {
        None
    }
}

impl Request<Obj> for reposition {

}

/// The opcode of each request: its index in the protocol's list of the
/// interface's requests, so that no two requests share one.
pub proof fn lemma_opcodes()
    ensures
        <destroy as Msg<Obj>>::opcode() == 0,
        <grab as Msg<Obj>>::opcode() == 1,
        <reposition as Msg<Obj>>::opcode() == 2,
        <destroy as Msg<Obj>>::opcode() != <grab as Msg<Obj>>::opcode(),
        <destroy as Msg<Obj>>::opcode() != <reposition as Msg<Obj>>::opcode(),
        <grab as Msg<Obj>>::opcode() != <reposition as Msg<Obj>>::opcode(),
        <Obj as Object>::destructor_op() == Some(<destroy as Msg<Obj>>::opcode()),
{
}

} // verus!
