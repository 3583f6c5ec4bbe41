use vstd::prelude::*;
use crate::objects::{type_id_of, new_id, object, Dyn, ObjMeta, Object, Msg, Event};
use crate::wire::{ser_at, write_at, lemma_write_then, lemma_reverse_add, lemma_skip_step, fixed, Codec, Decoded, Dsr, Fd, Ser};
use super::Obj;

verus! {

/// suggest a surface change
///
/// This configure event asks the client to resize its toplevel surface or
/// to change its state. The configured state should not be applied
/// immediately. See xdg_surface.configure for details.
///
/// The width and height arguments specify a hint to the window
/// about how its surface should be resized in window geometry
/// coordinates. See set_window_geometry.
///
/// If the width or height arguments are zero, it means the client
/// should decide its own window dimension. This may happen when the
/// compositor needs to configure the state of the surface but doesn't
/// have any information about any previous or expected dimension.
///
/// The states listed in the event specify how the width/height
/// arguments should be interpreted, and possibly how it should be
/// drawn.
///
/// Clients must send an ack_configure in response to this event. See
/// xdg_surface.configure and xdg_surface.ack_configure for details.
///
#[derive(Debug)]
pub struct configure {
    //
    pub width: i32,
    //
    pub height: i32,
    //
    pub states: Vec<u8>,
}

impl Ser for configure {
    open spec fn ser_ok(&self) -> bool {
        &&& self.width.ser_ok()
        &&& self.height.ser_ok()
        &&& self.states.ser_ok()
        &&& self.ser_bytes().len() <= usize::MAX
    }

    open spec fn ser_bytes(&self) -> Seq<u8> {
        self.width.ser_bytes() + self.height.ser_bytes() + self.states.ser_bytes()
    }

    open spec fn ser_fds(&self) -> Seq<Fd> {
        self.width.ser_fds() + self.height.ser_fds() + self.states.ser_fds()
    }

    fn wire_len(&self) -> (n: usize) {
        self.width.wire_len() + self.height.wire_len() + self.states.wire_len()
    }

    fn checked_len(&self) -> (r: Option<usize>) {
        let n0 = match self.width.checked_len() {
            Some(m) => m,
            None => return None,
        };
        let n1 = match self.height.checked_len() {
            Some(m) => match n0.checked_add(m) {
                Some(t) => t,
                None => return None,
            },
            None => return None,
        };
        let n2 = match self.states.checked_len() {
            Some(m) => match n1.checked_add(m) {
                Some(t) => t,
                None => return None,
            },
            None => return None,
        };
        Some(n2)
    }

    open spec fn ser_fits(&self, cap: int) -> bool {
        &&& 0 <= cap && self.width.ser_fits(cap - (0))
        &&& self.width.ser_bytes().len() <= cap && self.height.ser_fits(cap - (self.width.ser_bytes().len()))
        &&& self.width.ser_bytes().len() + self.height.ser_bytes().len() <= cap && self.states.ser_fits(cap - (self.width.ser_bytes().len() + self.height.ser_bytes().len()))
    }

    fn serialize(self, buf: &mut [u8], fds: &mut Vec<Fd>) -> (r: Result<usize, &'static str>) {
        let ghost me = self;
        let ghost b0 = buf@;
        let mut n: usize = 0;
        n = n + ser_at(self.width, buf, n, fds);
        assert(fds@ =~= old(fds)@ + me.width.ser_fds());
        n = n + ser_at(self.height, buf, n, fds);
        proof {
            lemma_write_then(b0, 0, me.width.ser_bytes(), me.height.ser_bytes());
        }
        assert(fds@ =~= old(fds)@ + me.width.ser_fds() + me.height.ser_fds());
        n = n + ser_at(self.states, buf, n, fds);
        proof {
            lemma_write_then(b0, 0, me.width.ser_bytes() + me.height.ser_bytes(), me.states.ser_bytes());
        }
        assert(fds@ =~= old(fds)@ + me.ser_fds());
        Ok(n)
    }

    proof fn lemma_fits(&self, cap: int) {
        self.width.lemma_fits(cap - (0));
        self.height.lemma_fits(cap - (self.width.ser_bytes().len()));
        self.states.lemma_fits(cap - (self.width.ser_bytes().len() + self.height.ser_bytes().len()));
    }
}

impl DeepView for configure {
    type V = (<i32 as DeepView>::V, <i32 as DeepView>::V, <Vec<u8> as DeepView>::V,);

    open spec fn deep_view(&self) -> (<i32 as DeepView>::V, <i32 as DeepView>::V, <Vec<u8> as DeepView>::V,) {
        (self.width.deep_view(), self.height.deep_view(), self.states.deep_view(),)
    }
}

impl Dsr for configure {
    open spec fn dsr_spec(buf: Seq<u8>, fds: Seq<Fd>) -> Decoded<(<i32 as DeepView>::V, <i32 as DeepView>::V, <Vec<u8> as DeepView>::V,)> {
        match <i32>::dsr_spec(buf, fds) {
            Decoded::Value(width, n0, q0) => {
                match <i32>::dsr_spec(buf.skip(n0 as int), q0) {
                    Decoded::Value(height, m1, q1) => {
                        let n1 = n0 + m1;
                        match <Vec<u8>>::dsr_spec(buf.skip(n1 as int), q1) {
                            Decoded::Value(states, m2, q2) => {
                                let n2 = n1 + m2;
                                Decoded::Value((width, height, states,), n2, q2)
                            },
                            d => d.fail(),
                        }
                    },
                    d => d.fail(),
                }
            },
            d => d.fail(),
        }
    }

    fn try_deserialize(buf: &[u8], fds: &mut Vec<Fd>) -> (r: Option<Result<(configure, usize), &'static str>>) {
        let mut n: usize = 0;
        let rest = &buf[n..buf.len()];
        assert(rest@ =~= buf@.skip(n as int));
        assert(n == 0 ==> rest@ =~= buf@);
        let (width, m) = match <i32>::try_deserialize(rest, fds) {
            Some(Ok(p)) => p,
            Some(Err(e)) => return Some(Err(e)),
            None => return None,
        };
        n = n + m;
        let rest = &buf[n..buf.len()];
        assert(rest@ =~= buf@.skip(n as int));
        assert(n == 0 ==> rest@ =~= buf@);
        let (height, m) = match <i32>::try_deserialize(rest, fds) {
            Some(Ok(p)) => p,
            Some(Err(e)) => return Some(Err(e)),
            None => return None,
        };
        n = n + m;
        let rest = &buf[n..buf.len()];
        assert(rest@ =~= buf@.skip(n as int));
        assert(n == 0 ==> rest@ =~= buf@);
        let (states, m) = match <Vec<u8>>::try_deserialize(rest, fds) {
            Some(Ok(p)) => p,
            Some(Err(e)) => return Some(Err(e)),
            None => return None,
        };
        n = n + m;
        Some(Ok((configure { width, height, states }, n)))
    }
}

impl Codec for configure {
    open spec fn rt_ok(&self) -> bool {
        &&& self.width.rt_ok()
        &&& self.height.rt_ok()
        &&& self.states.rt_ok()
    }

    proof fn lemma_roundtrip(&self, tail: Seq<u8>, base: Seq<Fd>) {
        let b0 = self.width.ser_bytes();
        let b1 = self.height.ser_bytes();
        let b2 = self.states.ser_bytes();
        let d0 = self.width.ser_fds();
        let d1 = self.height.ser_fds();
        let d2 = self.states.ser_fds();
        let s3 = tail;
        let s2 = b2 + s3;
        let s1 = b1 + s2;
        let s0 = b0 + s1;
        let buf = self.ser_bytes() + tail;
        assert(buf =~= s0);
        assert(buf.skip(0) =~= s0);
        assert(self.ser_fds() =~= Seq::<Fd>::empty());
        assert(base + self.ser_fds().reverse() =~= base);
        assert(d0 =~= Seq::<Fd>::empty());
        assert(base + d0.reverse() =~= base);
        self.width.lemma_roundtrip(s1, base);
        assert(buf.skip((b0.len()) as int) == s1) by {
            lemma_skip_step(buf, (0) as int, b0, s1);
        }
        assert(d1 =~= Seq::<Fd>::empty());
        assert(base + d1.reverse() =~= base);
        self.height.lemma_roundtrip(s2, base);
        assert(buf.skip((b0.len() + b1.len()) as int) == s2) by {
            lemma_skip_step(buf, (b0.len()) as int, b1, s2);
        }
        assert(d2 =~= Seq::<Fd>::empty());
        assert(base + d2.reverse() =~= base);
        self.states.lemma_roundtrip(s3, base);
    }
}

impl configure {
    /// The arguments are read in the protocol's order, `width`, then `height`, then `states`: the bytes
    /// and descriptors written for such arguments, one after the other,
    /// decode to exactly those arguments.
    pub proof fn lemma_layout(width: i32, height: i32, states: Vec<u8>, rest: Seq<u8>, queue: Seq<Fd>)
        requires
            width.ser_ok(),
            width.rt_ok(),
            height.ser_ok(),
            height.rt_ok(),
            states.ser_ok(),
            states.rt_ok(),
            width.ser_bytes().len() + height.ser_bytes().len() + states.ser_bytes().len() <= usize::MAX,
        ensures
            ({
                let bytes = width.ser_bytes() + height.ser_bytes() + states.ser_bytes();
                let fds = width.ser_fds() + height.ser_fds() + states.ser_fds();
                configure::dsr_spec(bytes + rest, queue + fds.reverse()) == Decoded::Value(
                    (width.deep_view(), height.deep_view(), states.deep_view(),),
                    bytes.len(),
                    queue,
                )
            }),
    {
        let m = configure { width, height, states };
        m.lemma_roundtrip(rest, queue);
    }

    /// The message creates no object.
    pub proof fn lemma_creates(&self)
        ensures
            self.created_id() is None,
    {
    }
}

impl Msg<Obj> for configure {
    open spec fn opcode() -> u16 {
        0
    }

    open spec fn since_version() -> u32 {
        1
    }

    open spec fn created_id(&self) -> Option<u32> {
        None
    }

    open spec fn created_destructor(&self) -> Option<u16> {
        None
    }

    fn op() -> (r: u16) {
        0
    }

    fn since() -> u32 {
        1
    }

    fn new_id(&self) -> (r: Option<(u32, ObjMeta)>) {
        None
    }
}

impl Event<Obj> for configure {

}

/// surface wants to be closed
///
/// The close event is sent by the compositor when the user
/// wants the surface to be closed. This should be equivalent to
/// the user clicking the close button in client-side decorations,
/// if your application has any.
///
/// This is only a request that the user intends to close the
/// window. The client may choose to ignore this request, or show
/// a dialog to ask the user to save their data, etc.
///
#[derive(Debug)]
pub struct close {}

impl Ser for close {
    open spec fn ser_ok(&self) -> bool {
        true
    }

    open spec fn ser_bytes(&self) -> Seq<u8> {
        Seq::empty()
    }

    open spec fn ser_fds(&self) -> Seq<Fd> {
        Seq::empty()
    }

    fn wire_len(&self) -> (n: usize) {
        0
    }

    fn checked_len(&self) -> (r: Option<usize>) {
        Some(0)
    }

    open spec fn ser_fits(&self, cap: int) -> bool {
        true
    }

    fn serialize(self, buf: &mut [u8], fds: &mut Vec<Fd>) -> (r: Result<usize, &'static str>) {
        assert(buf@ =~= write_at(old(buf)@, 0, Seq::<u8>::empty()));
        assert(fds@ =~= old(fds)@ + Seq::<Fd>::empty());
        Ok(0)
    }

    proof fn lemma_fits(&self, cap: int) {
    }
}

impl DeepView for close {
    type V = ();

    open spec fn deep_view(&self) -> () {
        ()
    }
}

impl Dsr for close {
    open spec fn dsr_spec(buf: Seq<u8>, fds: Seq<Fd>) -> Decoded<()> {
        Decoded::Value((), 0, fds)
    }

    fn try_deserialize(buf: &[u8], fds: &mut Vec<Fd>) -> (r: Option<Result<(close, usize), &'static str>>) {
        Some(Ok((close {}, 0)))
    }
}

impl Codec for close {
    open spec fn rt_ok(&self) -> bool {
        true
    }

    proof fn lemma_roundtrip(&self, tail: Seq<u8>, base: Seq<Fd>) {
        assert(Seq::<Fd>::empty().reverse() =~= Seq::<Fd>::empty());
        assert(base + Seq::<Fd>::empty() =~= base);
    }
}

impl close {
    /// The arguments are read in the protocol's order, no arguments: the bytes
    /// and descriptors written for such arguments, one after the other,
    /// decode to exactly those arguments.
    pub proof fn lemma_layout(rest: Seq<u8>, queue: Seq<Fd>)
        ensures
            ({
                let bytes = Seq::<u8>::empty();
                let fds = Seq::<Fd>::empty();
                close::dsr_spec(bytes + rest, queue + fds.reverse()) == Decoded::Value(
                    (),
                    bytes.len(),
                    queue,
                )
            }),
    {
        let m = close {};
        m.lemma_roundtrip(rest, queue);
    }

    /// The message creates no object.
    pub proof fn lemma_creates(&self)
        ensures
            self.created_id() is None,
    {
    }
}

impl Msg<Obj> for close {
    open spec fn opcode() -> u16 {
        1
    }

    open spec fn since_version() -> u32 {
        1
    }

    open spec fn created_id(&self) -> Option<u32> {
        None
    }

    open spec fn created_destructor(&self) -> Option<u16> {
        None
    }

    fn op() -> (r: u16) {
        1
    }

    fn since() -> u32 {
        1
    }

    fn new_id(&self) -> (r: Option<(u32, ObjMeta)>) {
        None
    }
}

impl Event<Obj> for close {

}

/// recommended window geometry bounds
///
/// The configure_bounds event may be sent prior to a xdg_toplevel.configure
/// event to communicate the bounds a window geometry size is recommended
/// to constrain to.
///
/// The passed width and height are in surface coordinate space. If width
/// and height are 0, it means bounds is unknown and equivalent to as if no
/// configure_bounds event was ever sent for this surface.
///
/// The bounds can for example correspond to the size of a monitor excluding
/// any panels or other shell components, so that a surface isn't created in
/// a way that it cannot fit.
///
/// The bounds may change at any point, and in such a case, a new
/// xdg_toplevel.configure_bounds will be sent, followed by
/// xdg_toplevel.configure and xdg_surface.configure.
///
#[derive(Debug)]
pub struct configure_bounds {
    //
    pub width: i32,
    //
    pub height: i32,
}

impl Ser for configure_bounds {
    open spec fn ser_ok(&self) -> bool {
        &&& self.width.ser_ok()
        &&& self.height.ser_ok()
        &&& self.ser_bytes().len() <= usize::MAX
    }

    open spec fn ser_bytes(&self) -> Seq<u8> {
        self.width.ser_bytes() + self.height.ser_bytes()
    }

    open spec fn ser_fds(&self) -> Seq<Fd> {
        self.width.ser_fds() + self.height.ser_fds()
    }

    fn wire_len(&self) -> (n: usize) {
        self.width.wire_len() + self.height.wire_len()
    }

    fn checked_len(&self) -> (r: Option<usize>) {
        let n0 = match self.width.checked_len() {
            Some(m) => m,
            None => return None,
        };
        let n1 = match self.height.checked_len() {
            Some(m) => match n0.checked_add(m) {
                Some(t) => t,
                None => return None,
            },
            None => return None,
        };
        Some(n1)
    }

    open spec fn ser_fits(&self, cap: int) -> bool {
        &&& 0 <= cap && self.width.ser_fits(cap - (0))
        &&& self.width.ser_bytes().len() <= cap && self.height.ser_fits(cap - (self.width.ser_bytes().len()))
    }

    fn serialize(self, buf: &mut [u8], fds: &mut Vec<Fd>) -> (r: Result<usize, &'static str>) {
        let ghost me = self;
        let ghost b0 = buf@;
        let mut n: usize = 0;
        n = n + ser_at(self.width, buf, n, fds);
        assert(fds@ =~= old(fds)@ + me.width.ser_fds());
        n = n + ser_at(self.height, buf, n, fds);
        proof {
            lemma_write_then(b0, 0, me.width.ser_bytes(), me.height.ser_bytes());
        }
        assert(fds@ =~= old(fds)@ + me.ser_fds());
        Ok(n)
    }

    proof fn lemma_fits(&self, cap: int) {
        self.width.lemma_fits(cap - (0));
        self.height.lemma_fits(cap - (self.width.ser_bytes().len()));
    }
}

impl DeepView for configure_bounds {
    type V = (<i32 as DeepView>::V, <i32 as DeepView>::V,);

    open spec fn deep_view(&self) -> (<i32 as DeepView>::V, <i32 as DeepView>::V,) {
        (self.width.deep_view(), self.height.deep_view(),)
    }
}

impl Dsr for configure_bounds {
    open spec fn dsr_spec(buf: Seq<u8>, fds: Seq<Fd>) -> Decoded<(<i32 as DeepView>::V, <i32 as DeepView>::V,)> {
        match <i32>::dsr_spec(buf, fds) {
            Decoded::Value(width, n0, q0) => {
                match <i32>::dsr_spec(buf.skip(n0 as int), q0) {
                    Decoded::Value(height, m1, q1) => {
                        let n1 = n0 + m1;
                        Decoded::Value((width, height,), n1, q1)
                    },
                    d => d.fail(),
                }
            },
            d => d.fail(),
        }
    }

    fn try_deserialize(buf: &[u8], fds: &mut Vec<Fd>) -> (r: Option<Result<(configure_bounds, usize), &'static str>>) {
        let mut n: usize = 0;
        let rest = &buf[n..buf.len()];
        assert(rest@ =~= buf@.skip(n as int));
        assert(n == 0 ==> rest@ =~= buf@);
        let (width, m) = match <i32>::try_deserialize(rest, fds) {
            Some(Ok(p)) => p,
            Some(Err(e)) => return Some(Err(e)),
            None => return None,
        };
        n = n + m;
        let rest = &buf[n..buf.len()];
        assert(rest@ =~= buf@.skip(n as int));
        assert(n == 0 ==> rest@ =~= buf@);
        let (height, m) = match <i32>::try_deserialize(rest, fds) {
            Some(Ok(p)) => p,
            Some(Err(e)) => return Some(Err(e)),
            None => return None,
        };
        n = n + m;
        Some(Ok((configure_bounds { width, height }, n)))
    }
}

impl Codec for configure_bounds {
    open spec fn rt_ok(&self) -> bool {
        &&& self.width.rt_ok()
        &&& self.height.rt_ok()
    }

    proof fn lemma_roundtrip(&self, tail: Seq<u8>, base: Seq<Fd>) {
        let b0 = self.width.ser_bytes();
        let b1 = self.height.ser_bytes();
        let d0 = self.width.ser_fds();
        let d1 = self.height.ser_fds();
        let s2 = tail;
        let s1 = b1 + s2;
        let s0 = b0 + s1;
        let buf = self.ser_bytes() + tail;
        assert(buf =~= s0);
        assert(buf.skip(0) =~= s0);
        assert(self.ser_fds() =~= Seq::<Fd>::empty());
        assert(base + self.ser_fds().reverse() =~= base);
        assert(d0 =~= Seq::<Fd>::empty());
        assert(base + d0.reverse() =~= base);
        self.width.lemma_roundtrip(s1, base);
        assert(buf.skip((b0.len()) as int) == s1) by {
            lemma_skip_step(buf, (0) as int, b0, s1);
        }
        assert(d1 =~= Seq::<Fd>::empty());
        assert(base + d1.reverse() =~= base);
        self.height.lemma_roundtrip(s2, base);
    }
}

impl configure_bounds {
    /// The arguments are read in the protocol's order, `width`, then `height`: the bytes
    /// and descriptors written for such arguments, one after the other,
    /// decode to exactly those arguments.
    pub proof fn lemma_layout(width: i32, height: i32, rest: Seq<u8>, queue: Seq<Fd>)
        requires
            width.ser_ok(),
            width.rt_ok(),
            height.ser_ok(),
            height.rt_ok(),
            width.ser_bytes().len() + height.ser_bytes().len() <= usize::MAX,
        ensures
            ({
                let bytes = width.ser_bytes() + height.ser_bytes();
                let fds = width.ser_fds() + height.ser_fds();
                configure_bounds::dsr_spec(bytes + rest, queue + fds.reverse()) == Decoded::Value(
                    (width.deep_view(), height.deep_view(),),
                    bytes.len(),
                    queue,
                )
            }),
    {
        let m = configure_bounds { width, height };
        m.lemma_roundtrip(rest, queue);
    }

    /// The message creates no object.
    pub proof fn lemma_creates(&self)
        ensures
            self.created_id() is None,
    {
    }
}

impl Msg<Obj> for configure_bounds {
    open spec fn opcode() -> u16 {
        2
    }

    open spec fn since_version() -> u32 {
        1
    }

    open spec fn created_id(&self) -> Option<u32> {
        None
    }

    open spec fn created_destructor(&self) -> Option<u16> {
        None
    }

    fn op() -> (r: u16) {
        2
    }

    fn since() -> u32 {
        1
    }

    fn new_id(&self) -> (r: Option<(u32, ObjMeta)>) {
        None
    }
}

impl Event<Obj> for configure_bounds {

}

/// compositor capabilities
///
/// This event advertises the capabilities supported by the compositor. If
/// a capability isn't supported, clients should hide or disable the UI
/// elements that expose this functionality. For instance, if the
/// compositor doesn't advertise support for minimized toplevels, a button
/// triggering the set_minimized request should not be displayed.
///
/// The compositor will ignore requests it doesn't support. For instance,
/// a compositor which doesn't advertise support for minimized will ignore
/// set_minimized requests.
///
/// Compositors must send this event once before the first
/// xdg_surface.configure event. When the capabilities change, compositors
/// must send this event again and then send an xdg_surface.configure
/// event.
///
/// The configured state should not be applied immediately. See
/// xdg_surface.configure for details.
///
/// The capabilities are sent as an array of 32-bit unsigned integers in
/// native endianness.
///
#[derive(Debug)]
pub struct wm_capabilities {
    // array of 32-bit capabilities
    pub capabilities: Vec<u8>,
}

impl Ser for wm_capabilities {
    open spec fn ser_ok(&self) -> bool {
        &&& self.capabilities.ser_ok()
        &&& self.ser_bytes().len() <= usize::MAX
    }

    open spec fn ser_bytes(&self) -> Seq<u8> {
        self.capabilities.ser_bytes()
    }

    open spec fn ser_fds(&self) -> Seq<Fd> {
        self.capabilities.ser_fds()
    }

    fn wire_len(&self) -> (n: usize) {
        self.capabilities.wire_len()
    }

    fn checked_len(&self) -> (r: Option<usize>) {
        let n0 = match self.capabilities.checked_len() {
            Some(m) => m,
            None => return None,
        };
        Some(n0)
    }

    open spec fn ser_fits(&self, cap: int) -> bool {
        &&& 0 <= cap && self.capabilities.ser_fits(cap - (0))
    }

    fn serialize(self, buf: &mut [u8], fds: &mut Vec<Fd>) -> (r: Result<usize, &'static str>) {
        let ghost me = self;
        let ghost b0 = buf@;
        let mut n: usize = 0;
        n = n + ser_at(self.capabilities, buf, n, fds);
        assert(fds@ =~= old(fds)@ + me.ser_fds());
        Ok(n)
    }

    proof fn lemma_fits(&self, cap: int) {
        self.capabilities.lemma_fits(cap - (0));
    }
}

impl DeepView for wm_capabilities {
    type V = (<Vec<u8> as DeepView>::V,);

    open spec fn deep_view(&self) -> (<Vec<u8> as DeepView>::V,) {
        (self.capabilities.deep_view(),)
    }
}

impl Dsr for wm_capabilities {
    open spec fn dsr_spec(buf: Seq<u8>, fds: Seq<Fd>) -> Decoded<(<Vec<u8> as DeepView>::V,)> {
        match <Vec<u8>>::dsr_spec(buf, fds) {
            Decoded::Value(capabilities, n0, q0) => Decoded::Value((capabilities,), n0, q0),
            d => d.fail(),
        }
    }

    fn try_deserialize(buf: &[u8], fds: &mut Vec<Fd>) -> (r: Option<Result<(wm_capabilities, usize), &'static str>>) {
        let mut n: usize = 0;
        let rest = &buf[n..buf.len()];
        assert(rest@ =~= buf@.skip(n as int));
        assert(n == 0 ==> rest@ =~= buf@);
        let (capabilities, m) = match <Vec<u8>>::try_deserialize(rest, fds) {
            Some(Ok(p)) => p,
            Some(Err(e)) => return Some(Err(e)),
            None => return None,
        };
        n = n + m;
        Some(Ok((wm_capabilities { capabilities }, n)))
    }
}

impl Codec for wm_capabilities {
    open spec fn rt_ok(&self) -> bool {
        &&& self.capabilities.rt_ok()
    }

    proof fn lemma_roundtrip(&self, tail: Seq<u8>, base: Seq<Fd>) {
        let b0 = self.capabilities.ser_bytes();
        let d0 = self.capabilities.ser_fds();
        let s1 = tail;
        let s0 = b0 + s1;
        let buf = self.ser_bytes() + tail;
        assert(buf =~= s0);
        assert(buf.skip(0) =~= s0);
        assert(self.ser_fds() =~= Seq::<Fd>::empty());
        assert(base + self.ser_fds().reverse() =~= base);
        assert(d0 =~= Seq::<Fd>::empty());
        assert(base + d0.reverse() =~= base);
        self.capabilities.lemma_roundtrip(s1, base);
    }
}

impl wm_capabilities {
    /// The arguments are read in the protocol's order, `capabilities`: the bytes
    /// and descriptors written for such arguments, one after the other,
    /// decode to exactly those arguments.
    pub proof fn lemma_layout(capabilities: Vec<u8>, rest: Seq<u8>, queue: Seq<Fd>)
        requires
            capabilities.ser_ok(),
            capabilities.rt_ok(),
            capabilities.ser_bytes().len() <= usize::MAX,
        ensures
            ({
                let bytes = capabilities.ser_bytes();
                let fds = capabilities.ser_fds();
                wm_capabilities::dsr_spec(bytes + rest, queue + fds.reverse()) == Decoded::Value(
                    (capabilities.deep_view(),),
                    bytes.len(),
                    queue,
                )
            }),
    {
        let m = wm_capabilities { capabilities };
        m.lemma_roundtrip(rest, queue);
    }

    /// The message creates no object.
    pub proof fn lemma_creates(&self)
        ensures
            self.created_id() is None,
    {
    }
}

impl Msg<Obj> for wm_capabilities {
    open spec fn opcode() -> u16 {
        3
    }

    open spec fn since_version() -> u32 {
        1
    }

    open spec fn created_id(&self) -> Option<u32> {
        None
    }

    open spec fn created_destructor(&self) -> Option<u16> {
        None
    }

    fn op() -> (r: u16) {
        3
    }

    fn since() -> u32 {
        1
    }

    fn new_id(&self) -> (r: Option<(u32, ObjMeta)>) {
        None
    }
}

impl Event<Obj> for wm_capabilities {

}

/// The opcode of each event: its index in the protocol's list of the
/// interface's events, so that no two events share one.
pub proof fn lemma_opcodes()
    ensures
        <configure as Msg<Obj>>::opcode() == 0,
        <close as Msg<Obj>>::opcode() == 1,
        <configure_bounds as Msg<Obj>>::opcode() == 2,
        <wm_capabilities as Msg<Obj>>::opcode() == 3,
        <configure as Msg<Obj>>::opcode() != <close as Msg<Obj>>::opcode(),
        <configure as Msg<Obj>>::opcode() != <configure_bounds as Msg<Obj>>::opcode(),
        <configure as Msg<Obj>>::opcode() != <wm_capabilities as Msg<Obj>>::opcode(),
        <close as Msg<Obj>>::opcode() != <configure_bounds as Msg<Obj>>::opcode(),
        <close as Msg<Obj>>::opcode() != <wm_capabilities as Msg<Obj>>::opcode(),
        <configure_bounds as Msg<Obj>>::opcode() != <wm_capabilities as Msg<Obj>>::opcode(),
{
}

} // verus!
