use vstd::prelude::*;
use crate::objects::{type_id_of, new_id, object, Dyn, ObjMeta, Object, Msg, Request};
use crate::wire::{ser_at, write_at, lemma_write_then, lemma_reverse_add, lemma_skip_step, fixed, Codec, Decoded, Dsr, Fd, Ser};
use super::Obj;

verus! {

/// set the pointer surface
///
/// Set the pointer surface, i.e., the surface that contains the
/// pointer image (cursor). This request gives the surface the role
/// of a cursor. If the surface already has another role, it raises
/// a protocol error.
///
/// The cursor actually changes only if the pointer
/// focus for this device is one of the requesting client's surfaces
/// or the surface parameter is the current pointer surface. If
/// there was a previous surface set with this request it is
/// replaced. If surface is NULL, the pointer image is hidden.
///
/// The parameters hotspot_x and hotspot_y define the position of
/// the pointer surface relative to the pointer location. Its
/// top-left corner is always at (x, y) - (hotspot_x, hotspot_y),
/// where (x, y) are the coordinates of the pointer location, in
/// surface-local coordinates.
///
/// On surface.attach requests to the pointer surface, hotspot_x
/// and hotspot_y are decremented by the x and y parameters
/// passed to the request. Attach must be confirmed by
/// wl_surface.commit as usual.
///
/// The hotspot can also be updated by passing the currently set
/// pointer surface to this request with new values for hotspot_x
/// and hotspot_y.
///
/// The input region is ignored for wl_surfaces with the role of
/// a cursor. When the use as a cursor ends, the wl_surface is
/// unmapped.
///
/// The serial parameter must match the latest wl_pointer.enter
/// serial number sent to the client. Otherwise the request will be
/// ignored.
///
#[derive(Debug)]
pub struct set_cursor {
    // serial number of the enter event
    pub serial: u32,
    // pointer surface
    pub surface: Option<object<crate::wl_surface::Obj>>,
    // surface-local x coordinate
    pub hotspot_x: i32,
    // surface-local y coordinate
    pub hotspot_y: i32,
}

impl Ser for set_cursor {
    open spec fn ser_ok(&self) -> bool {
        &&& self.serial.ser_ok()
        &&& self.surface.ser_ok()
        &&& self.hotspot_x.ser_ok()
        &&& self.hotspot_y.ser_ok()
        &&& self.ser_bytes().len() <= usize::MAX
    }

    open spec fn ser_bytes(&self) -> Seq<u8> {
        self.serial.ser_bytes() + self.surface.ser_bytes() + self.hotspot_x.ser_bytes() + self.hotspot_y.ser_bytes()
    }

    open spec fn ser_fds(&self) -> Seq<Fd> {
        self.serial.ser_fds() + self.surface.ser_fds() + self.hotspot_x.ser_fds() + self.hotspot_y.ser_fds()
    }

    fn wire_len(&self) -> (n: usize) {
        self.serial.wire_len() + self.surface.wire_len() + self.hotspot_x.wire_len() + self.hotspot_y.wire_len()
    }

    fn checked_len(&self) -> (r: Option<usize>) {
        let n0 = match self.serial.checked_len() {
            Some(m) => m,
            None => return None,
        };
        let n1 = match self.surface.checked_len() {
            Some(m) => match n0.checked_add(m) {
                Some(t) => t,
                None => return None,
            },
            None => return None,
        };
        let n2 = match self.hotspot_x.checked_len() {
            Some(m) => match n1.checked_add(m) {
                Some(t) => t,
                None => return None,
            },
            None => return None,
        };
        let n3 = match self.hotspot_y.checked_len() {
            Some(m) => match n2.checked_add(m) {
                Some(t) => t,
                None => return None,
            },
            None => return None,
        };
        Some(n3)
    }

    open spec fn ser_fits(&self, cap: int) -> bool {
        &&& 0 <= cap && self.serial.ser_fits(cap - (0))
        &&& self.serial.ser_bytes().len() <= cap && self.surface.ser_fits(cap - (self.serial.ser_bytes().len()))
        &&& self.serial.ser_bytes().len() + self.surface.ser_bytes().len() <= cap && self.hotspot_x.ser_fits(cap - (self.serial.ser_bytes().len() + self.surface.ser_bytes().len()))
        &&& self.serial.ser_bytes().len() + self.surface.ser_bytes().len() + self.hotspot_x.ser_bytes().len() <= cap && self.hotspot_y.ser_fits(cap - (self.serial.ser_bytes().len() + self.surface.ser_bytes().len() + self.hotspot_x.ser_bytes().len()))
    }

    fn serialize(self, buf: &mut [u8], fds: &mut Vec<Fd>) -> (r: Result<usize, &'static str>) {
        let ghost me = self;
        let ghost b0 = buf@;
        let mut n: usize = 0;
        n = n + ser_at(self.serial, buf, n, fds);
        assert(fds@ =~= old(fds)@ + me.serial.ser_fds());
        n = n + ser_at(self.surface, buf, n, fds);
        proof {
            lemma_write_then(b0, 0, me.serial.ser_bytes(), me.surface.ser_bytes());
        }
        assert(fds@ =~= old(fds)@ + me.serial.ser_fds() + me.surface.ser_fds());
        n = n + ser_at(self.hotspot_x, buf, n, fds);
        proof {
            lemma_write_then(b0, 0, me.serial.ser_bytes() + me.surface.ser_bytes(), me.hotspot_x.ser_bytes());
        }
        assert(fds@ =~= old(fds)@ + me.serial.ser_fds() + me.surface.ser_fds() + me.hotspot_x.ser_fds());
        n = n + ser_at(self.hotspot_y, buf, n, fds);
        proof {
            lemma_write_then(b0, 0, me.serial.ser_bytes() + me.surface.ser_bytes() + me.hotspot_x.ser_bytes(), me.hotspot_y.ser_bytes());
        }
        assert(fds@ =~= old(fds)@ + me.ser_fds());
        Ok(n)
    }

    proof fn lemma_fits(&self, cap: int) {
        self.serial.lemma_fits(cap - (0));
        self.surface.lemma_fits(cap - (self.serial.ser_bytes().len()));
        self.hotspot_x.lemma_fits(cap - (self.serial.ser_bytes().len() + self.surface.ser_bytes().len()));
        self.hotspot_y.lemma_fits(cap - (self.serial.ser_bytes().len() + self.surface.ser_bytes().len() + self.hotspot_x.ser_bytes().len()));
    }
}

impl DeepView for set_cursor {
    type V = (<u32 as DeepView>::V, <Option<object<crate::wl_surface::Obj>> as DeepView>::V, <i32 as DeepView>::V, <i32 as DeepView>::V,);

    open spec fn deep_view(&self) -> (<u32 as DeepView>::V, <Option<object<crate::wl_surface::Obj>> as DeepView>::V, <i32 as DeepView>::V, <i32 as DeepView>::V,) {
        (self.serial.deep_view(), self.surface.deep_view(), self.hotspot_x.deep_view(), self.hotspot_y.deep_view(),)
    }
}

impl Dsr for set_cursor {
    open spec fn dsr_spec(buf: Seq<u8>, fds: Seq<Fd>) -> Decoded<(<u32 as DeepView>::V, <Option<object<crate::wl_surface::Obj>> as DeepView>::V, <i32 as DeepView>::V, <i32 as DeepView>::V,)> {
        match <u32>::dsr_spec(buf, fds) {
            Decoded::Value(serial, n0, q0) => {
                match <Option<object<crate::wl_surface::Obj>>>::dsr_spec(buf.skip(n0 as int), q0) {
                    Decoded::Value(surface, m1, q1) => {
                        let n1 = n0 + m1;
                        match <i32>::dsr_spec(buf.skip(n1 as int), q1) {
                            Decoded::Value(hotspot_x, m2, q2) => {
                                let n2 = n1 + m2;
                                match <i32>::dsr_spec(buf.skip(n2 as int), q2) {
                                    Decoded::Value(hotspot_y, m3, q3) => {
                                        let n3 = n2 + m3;
                                        Decoded::Value((serial, surface, hotspot_x, hotspot_y,), n3, q3)
                                    },
                                    d => d.fail(),
                                }
                            },
                            d => d.fail(),
                        }
                    },
                    d => d.fail(),
                }
            },
            d => d.fail(),
        }
    }

    fn try_deserialize(buf: &[u8], fds: &mut Vec<Fd>) -> (r: Option<Result<(set_cursor, usize), &'static str>>) {
        let mut n: usize = 0;
        let rest = &buf[n..buf.len()];
        assert(rest@ =~= buf@.skip(n as int));
        assert(n == 0 ==> rest@ =~= buf@);
        let (serial, m) = match <u32>::try_deserialize(rest, fds) {
            Some(Ok(p)) => p,
            Some(Err(e)) => return Some(Err(e)),
            None => return None,
        };
        n = n + m;
        let rest = &buf[n..buf.len()];
        assert(rest@ =~= buf@.skip(n as int));
        assert(n == 0 ==> rest@ =~= buf@);
        let (surface, m) = match <Option<object<crate::wl_surface::Obj>>>::try_deserialize(rest, fds) {
            Some(Ok(p)) => p,
            Some(Err(e)) => return Some(Err(e)),
            None => return None,
        };
        n = n + m;
        let rest = &buf[n..buf.len()];
        assert(rest@ =~= buf@.skip(n as int));
        assert(n == 0 ==> rest@ =~= buf@);
        let (hotspot_x, m) = match <i32>::try_deserialize(rest, fds) {
            Some(Ok(p)) => p,
            Some(Err(e)) => return Some(Err(e)),
            None => return None,
        };
        n = n + m;
        let rest = &buf[n..buf.len()];
        assert(rest@ =~= buf@.skip(n as int));
        assert(n == 0 ==> rest@ =~= buf@);
        let (hotspot_y, m) = match <i32>::try_deserialize(rest, fds) {
            Some(Ok(p)) => p,
            Some(Err(e)) => return Some(Err(e)),
            None => return None,
        };
        n = n + m;
        Some(Ok((set_cursor { serial, surface, hotspot_x, hotspot_y }, n)))
    }
}

impl Codec for set_cursor {
    open spec fn rt_ok(&self) -> bool {
        &&& self.serial.rt_ok()
        &&& self.surface.rt_ok()
        &&& self.hotspot_x.rt_ok()
        &&& self.hotspot_y.rt_ok()
    }

    proof fn lemma_roundtrip(&self, tail: Seq<u8>, base: Seq<Fd>) {
        let b0 = self.serial.ser_bytes();
        let b1 = self.surface.ser_bytes();
        let b2 = self.hotspot_x.ser_bytes();
        let b3 = self.hotspot_y.ser_bytes();
        let d0 = self.serial.ser_fds();
        let d1 = self.surface.ser_fds();
        let d2 = self.hotspot_x.ser_fds();
        let d3 = self.hotspot_y.ser_fds();
        let s4 = tail;
        let s3 = b3 + s4;
        let s2 = b2 + s3;
        let s1 = b1 + s2;
        let s0 = b0 + s1;
        let buf = self.ser_bytes() + tail;
        assert(buf =~= s0);
        assert(buf.skip(0) =~= s0);
        assert(self.ser_fds() =~= Seq::<Fd>::empty());
        assert(base + self.ser_fds().reverse() =~= base);
        assert(d0 =~= Seq::<Fd>::empty());
        assert(base + d0.reverse() =~= base);
        self.serial.lemma_roundtrip(s1, base);
        assert(buf.skip((b0.len()) as int) == s1) by {
            lemma_skip_step(buf, (0) as int, b0, s1);
        }
        assert(d1 =~= Seq::<Fd>::empty());
        assert(base + d1.reverse() =~= base);
        self.surface.lemma_roundtrip(s2, base);
        assert(buf.skip((b0.len() + b1.len()) as int) == s2) by {
            lemma_skip_step(buf, (b0.len()) as int, b1, s2);
        }
        assert(d2 =~= Seq::<Fd>::empty());
        assert(base + d2.reverse() =~= base);
        self.hotspot_x.lemma_roundtrip(s3, base);
        assert(buf.skip((b0.len() + b1.len() + b2.len()) as int) == s3) by {
            lemma_skip_step(buf, (b0.len() + b1.len()) as int, b2, s3);
        }
        assert(d3 =~= Seq::<Fd>::empty());
        assert(base + d3.reverse() =~= base);
        self.hotspot_y.lemma_roundtrip(s4, base);
    }
}

impl set_cursor {
    /// The arguments are read in the protocol's order, `serial`, then `surface`, then `hotspot_x`, then `hotspot_y`: the bytes
    /// and descriptors written for such arguments, one after the other,
    /// decode to exactly those arguments.
    pub proof fn lemma_layout(serial: u32, surface: Option<object<crate::wl_surface::Obj>>, hotspot_x: i32, hotspot_y: i32, rest: Seq<u8>, queue: Seq<Fd>)
        requires
            serial.ser_ok(),
            serial.rt_ok(),
            surface.ser_ok(),
            surface.rt_ok(),
            hotspot_x.ser_ok(),
            hotspot_x.rt_ok(),
            hotspot_y.ser_ok(),
            hotspot_y.rt_ok(),
            serial.ser_bytes().len() + surface.ser_bytes().len() + hotspot_x.ser_bytes().len() + hotspot_y.ser_bytes().len() <= usize::MAX,
        ensures
            ({
                let bytes = serial.ser_bytes() + surface.ser_bytes() + hotspot_x.ser_bytes() + hotspot_y.ser_bytes();
                let fds = serial.ser_fds() + surface.ser_fds() + hotspot_x.ser_fds() + hotspot_y.ser_fds();
                set_cursor::dsr_spec(bytes + rest, queue + fds.reverse()) == Decoded::Value(
                    (serial.deep_view(), surface.deep_view(), hotspot_x.deep_view(), hotspot_y.deep_view(),),
                    bytes.len(),
                    queue,
                )
            }),
    {
        let m = set_cursor { serial, surface, hotspot_x, hotspot_y };
        m.lemma_roundtrip(rest, queue);
    }

    /// The message creates no object.
    pub proof fn lemma_creates(&self)
        ensures
            self.created_id() is None,
    {
    }
}

impl Msg<Obj> for set_cursor {
    open spec fn opcode() -> u16 {
        0
    }

    open spec fn since_version() -> u32 {
        1
    }

    open spec fn created_id(&self) -> Option<u32> {
        None
    }

    open spec fn created_destructor(&self) -> Option<u16> {
        None
    }

    fn op() -> (r: u16) {
        0
    }

    fn since() -> u32 {
        1
    }

    fn new_id(&self) -> (r: Option<(u32, ObjMeta)>) {
        None
    }
}

impl Request<Obj> for set_cursor {

}

/// release the pointer object
///
/// Using this request a client can tell the server that it is not going to
/// use the pointer object anymore.
///
/// This request destroys the pointer proxy object, so clients must not call
/// wl_pointer_destroy() after using this request.
///
#[derive(Debug)]
pub struct release {}

impl Ser for release {
    open spec fn ser_ok(&self) -> bool {
        true
    }

    open spec fn ser_bytes(&self) -> Seq<u8> {
        Seq::empty()
    }

    open spec fn ser_fds(&self) -> Seq<Fd> {
        Seq::empty()
    }

    fn wire_len(&self) -> (n: usize) {
        0
    }

    fn checked_len(&self) -> (r: Option<usize>) {
        Some(0)
    }

    open spec fn ser_fits(&self, cap: int) -> bool {
        true
    }

    fn serialize(self, buf: &mut [u8], fds: &mut Vec<Fd>) -> (r: Result<usize, &'static str>) {
        assert(buf@ =~= write_at(old(buf)@, 0, Seq::<u8>::empty()));
        assert(fds@ =~= old(fds)@ + Seq::<Fd>::empty());
        Ok(0)
    }

    proof fn lemma_fits(&self, cap: int) {
    }
}

impl DeepView for release {
    type V = ();

    open spec fn deep_view(&self) -> () {
        ()
    }
}

impl Dsr for release {
    open spec fn dsr_spec(buf: Seq<u8>, fds: Seq<Fd>) -> Decoded<()> {
        Decoded::Value((), 0, fds)
    }

    fn try_deserialize(buf: &[u8], fds: &mut Vec<Fd>) -> (r: Option<Result<(release, usize), &'static str>>) {
        Some(Ok((release {}, 0)))
    }
}

impl Codec for release {
    open spec fn rt_ok(&self) -> bool {
        true
    }

    proof fn lemma_roundtrip(&self, tail: Seq<u8>, base: Seq<Fd>) {
        assert(Seq::<Fd>::empty().reverse() =~= Seq::<Fd>::empty());
        assert(base + Seq::<Fd>::empty() =~= base);
    }
}

impl release {
    /// The arguments are read in the protocol's order, no arguments: the bytes
    /// and descriptors written for such arguments, one after the other,
    /// decode to exactly those arguments.
    pub proof fn lemma_layout(rest: Seq<u8>, queue: Seq<Fd>)
        ensures
            ({
                let bytes = Seq::<u8>::empty();
                let fds = Seq::<Fd>::empty();
                release::dsr_spec(bytes + rest, queue + fds.reverse()) == Decoded::Value(
                    (),
                    bytes.len(),
                    queue,
                )
            }),
    {
        let m = release {};
        m.lemma_roundtrip(rest, queue);
    }

    /// The message creates no object.
    pub proof fn lemma_creates(&self)
        ensures
            self.created_id() is None,
    {
    }
}

impl Msg<Obj> for release {
    open spec fn opcode() -> u16 {
        1
    }

    open spec fn since_version() -> u32 {
        1
    }

    open spec fn created_id(&self) -> Option<u32> {
        None
    }

    open spec fn created_destructor(&self) -> Option<u16> {
        None
    }

    fn op() -> (r: u16) {
        1
    }

    fn since() -> u32 {
        1
    }

    fn new_id(&self) -> (r: Option<(u32, ObjMeta)>) {
        None
    }
}

impl Request<Obj> for release {

}

/// The opcode of each request: its index in the protocol's list of the
/// interface's requests, so that no two requests share one.
pub proof fn lemma_opcodes()
    ensures
        <set_cursor as Msg<Obj>>::opcode() == 0,
        <release as Msg<Obj>>::opcode() == 1,
        <set_cursor as Msg<Obj>>::opcode() != <release as Msg<Obj>>::opcode(),
        <Obj as Object>::destructor_op() == Some(<release as Msg<Obj>>::opcode()),
{
}

} // verus!
