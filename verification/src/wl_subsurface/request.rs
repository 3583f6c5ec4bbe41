use vstd::prelude::*;
use crate::objects::{type_id_of, new_id, object, Dyn, ObjMeta, Object, Msg, Request};
use crate::wire::{ser_at, write_at, lemma_write_then, lemma_reverse_add, lemma_skip_step, fixed, Codec, Decoded, Dsr, Fd, Ser};
use super::Obj;

verus! {

/// remove sub-surface interface
///
/// The sub-surface interface is removed from the wl_surface object
/// that was turned into a sub-surface with a
/// wl_subcompositor.get_subsurface request. The wl_surface's association
/// to the parent is deleted. The wl_surface is unmapped immediately.
///
#[derive(Debug)]
pub struct destroy {}

impl Ser for destroy {
    open spec fn ser_ok(&self) -> bool {
        true
    }

    open spec fn ser_bytes(&self) -> Seq<u8> {
        Seq::empty()
    }

    open spec fn ser_fds(&self) -> Seq<Fd> {
        Seq::empty()
    }

    fn wire_len(&self) -> (n: usize) {
        0
    }

    fn checked_len(&self) -> (r: Option<usize>) {
        Some(0)
    }

    open spec fn ser_fits(&self, cap: int) -> bool {
        true
    }

    fn serialize(self, buf: &mut [u8], fds: &mut Vec<Fd>) -> (r: Result<usize, &'static str>) {
        assert(buf@ =~= write_at(old(buf)@, 0, Seq::<u8>::empty()));
        assert(fds@ =~= old(fds)@ + Seq::<Fd>::empty());
        Ok(0)
    }

    proof fn lemma_fits(&self, cap: int) {
    }
}

impl DeepView for destroy {
    type V = ();

    open spec fn deep_view(&self) -> () {
        ()
    }
}

impl Dsr for destroy {
    open spec fn dsr_spec(buf: Seq<u8>, fds: Seq<Fd>) -> Decoded<()> {
        Decoded::Value((), 0, fds)
    }

    fn try_deserialize(buf: &[u8], fds: &mut Vec<Fd>) -> (r: Option<Result<(destroy, usize), &'static str>>) {
        Some(Ok((destroy {}, 0)))
    }
}

impl Codec for destroy {
    open spec fn rt_ok(&self) -> bool {
        true
    }

    proof fn lemma_roundtrip(&self, tail: Seq<u8>, base: Seq<Fd>) {
        assert(Seq::<Fd>::empty().reverse() =~= Seq::<Fd>::empty());
        assert(base + Seq::<Fd>::empty() =~= base);
    }
}

impl destroy {
    /// The arguments are read in the protocol's order, no arguments: the bytes
    /// and descriptors written for such arguments, one after the other,
    /// decode to exactly those arguments.
    pub proof fn lemma_layout(rest: Seq<u8>, queue: Seq<Fd>)
        ensures
            ({
                let bytes = Seq::<u8>::empty();
                let fds = Seq::<Fd>::empty();
                destroy::dsr_spec(bytes + rest, queue + fds.reverse()) == Decoded::Value(
                    (),
                    bytes.len(),
                    queue,
                )
            }),
    {
        let m = destroy {};
        m.lemma_roundtrip(rest, queue);
    }

    /// The message creates no object.
    pub proof fn lemma_creates(&self)
        ensures
            self.created_id() is None,
    {
    }
}

impl Msg<Obj> for destroy {
    open spec fn opcode() -> u16 {
        0
    }

    open spec fn since_version() -> u32 {
        1
    }

    open spec fn created_id(&self) -> Option<u32> {
        None
    }

    open spec fn created_destructor(&self) -> Option<u16> {
        None
    }

    fn op() -> (r: u16) {
        0
    }

    fn since() -> u32 {
        1
    }

    fn new_id(&self) -> (r: Option<(u32, ObjMeta)>) {
        None
    }
}

impl Request<Obj> for destroy {

}

/// reposition the sub-surface
///
/// This schedules a sub-surface position change.
/// The sub-surface will be moved so that its origin (top left
/// corner pixel) will be at the location x, y of the parent surface
/// coordinate system. The coordinates are not restricted to the parent
/// surface area. Negative values are allowed.
///
/// The scheduled coordinates will take effect whenever the state of the
/// parent surface is applied. When this happens depends on whether the
/// parent surface is in synchronized mode or not. See
/// wl_subsurface.set_sync and wl_subsurface.set_desync for details.
///
/// If more than one set_position request is invoked by the client before
/// the commit of the parent surface, the position of a new request always
/// replaces the scheduled position from any previous request.
///
/// The initial position is 0, 0.
///
#[derive(Debug)]
pub struct set_position {
    // x coordinate in the parent surface
    pub x: i32,
    // y coordinate in the parent surface
    pub y: i32,
}

impl Ser for set_position {
    open spec fn ser_ok(&self) -> bool {
        &&& self.x.ser_ok()
        &&& self.y.ser_ok()
        &&& self.ser_bytes().len() <= usize::MAX
    }

    open spec fn ser_bytes(&self) -> Seq<u8> {
        self.x.ser_bytes() + self.y.ser_bytes()
    }

    open spec fn ser_fds(&self) -> Seq<Fd> {
        self.x.ser_fds() + self.y.ser_fds()
    }

    fn wire_len(&self) -> (n: usize) {
        self.x.wire_len() + self.y.wire_len()
    }

    fn checked_len(&self) -> (r: Option<usize>) {
        let n0 = match self.x.checked_len() {
            Some(m) => m,
            None => return None,
        };
        let n1 = match self.y.checked_len() {
            Some(m) => match n0.checked_add(m) {
                Some(t) => t,
                None => return None,
            },
            None => return None,
        };
        Some(n1)
    }

    open spec fn ser_fits(&self, cap: int) -> bool {
        &&& 0 <= cap && self.x.ser_fits(cap - (0))
        &&& self.x.ser_bytes().len() <= cap && self.y.ser_fits(cap - (self.x.ser_bytes().len()))
    }

    fn serialize(self, buf: &mut [u8], fds: &mut Vec<Fd>) -> (r: Result<usize, &'static str>) {
        let ghost me = self;
        let ghost b0 = buf@;
        let mut n: usize = 0;
        n = n + ser_at(self.x, buf, n, fds);
        assert(fds@ =~= old(fds)@ + me.x.ser_fds());
        n = n + ser_at(self.y, buf, n, fds);
        proof {
            lemma_write_then(b0, 0, me.x.ser_bytes(), me.y.ser_bytes());
        }
        assert(fds@ =~= old(fds)@ + me.ser_fds());
        Ok(n)
    }

    proof fn lemma_fits(&self, cap: int) {
        self.x.lemma_fits(cap - (0));
        self.y.lemma_fits(cap - (self.x.ser_bytes().len()));
    }
}

impl DeepView for set_position {
    type V = (<i32 as DeepView>::V, <i32 as DeepView>::V,);

    open spec fn deep_view(&self) -> (<i32 as DeepView>::V, <i32 as DeepView>::V,) {
        (self.x.deep_view(), self.y.deep_view(),)
    }
}

impl Dsr for set_position {
    open spec fn dsr_spec(buf: Seq<u8>, fds: Seq<Fd>) -> Decoded<(<i32 as DeepView>::V, <i32 as DeepView>::V,)> {
        match <i32>::dsr_spec(buf, fds) {
            Decoded::Value(x, n0, q0) => {
                match <i32>::dsr_spec(buf.skip(n0 as int), q0) {
                    Decoded::Value(y, m1, q1) => {
                        let n1 = n0 + m1;
                        Decoded::Value((x, y,), n1, q1)
                    },
                    d => d.fail(),
                }
            },
            d => d.fail(),
        }
    }

    fn try_deserialize(buf: &[u8], fds: &mut Vec<Fd>) -> (r: Option<Result<(set_position, usize), &'static str>>) {
        let mut n: usize = 0;
        let rest = &buf[n..buf.len()];
        assert(rest@ =~= buf@.skip(n as int));
        assert(n == 0 ==> rest@ =~= buf@);
        let (x, m) = match <i32>::try_deserialize(rest, fds) {
            Some(Ok(p)) => p,
            Some(Err(e)) => return Some(Err(e)),
            None => return None,
        };
        n = n + m;
        let rest = &buf[n..buf.len()];
        assert(rest@ =~= buf@.skip(n as int));
        assert(n == 0 ==> rest@ =~= buf@);
        let (y, m) = match <i32>::try_deserialize(rest, fds) {
            Some(Ok(p)) => p,
            Some(Err(e)) => return Some(Err(e)),
            None => return None,
        };
        n = n + m;
        Some(Ok((set_position { x, y }, n)))
    }
}

impl Codec for set_position {
    open spec fn rt_ok(&self) -> bool {
        &&& self.x.rt_ok()
        &&& self.y.rt_ok()
    }

    proof fn lemma_roundtrip(&self, tail: Seq<u8>, base: Seq<Fd>) {
        let b0 = self.x.ser_bytes();
        let b1 = self.y.ser_bytes();
        let d0 = self.x.ser_fds();
        let d1 = self.y.ser_fds();
        let s2 = tail;
        let s1 = b1 + s2;
        let s0 = b0 + s1;
        let buf = self.ser_bytes() + tail;
        assert(buf =~= s0);
        assert(buf.skip(0) =~= s0);
        assert(self.ser_fds() =~= Seq::<Fd>::empty());
        assert(base + self.ser_fds().reverse() =~= base);
        assert(d0 =~= Seq::<Fd>::empty());
        assert(base + d0.reverse() =~= base);
        self.x.lemma_roundtrip(s1, base);
        assert(buf.skip((b0.len()) as int) == s1) by {
            lemma_skip_step(buf, (0) as int, b0, s1);
        }
        assert(d1 =~= Seq::<Fd>::empty());
        assert(base + d1.reverse() =~= base);
        self.y.lemma_roundtrip(s2, base);
    }
}

impl set_position {
    /// The arguments are read in the protocol's order, `x`, then `y`: the bytes
    /// and descriptors written for such arguments, one after the other,
    /// decode to exactly those arguments.
    pub proof fn lemma_layout(x: i32, y: i32, rest: Seq<u8>, queue: Seq<Fd>)
        requires
            x.ser_ok(),
            x.rt_ok(),
            y.ser_ok(),
            y.rt_ok(),
            x.ser_bytes().len() + y.ser_bytes().len() <= usize::MAX,
        ensures
            ({
                let bytes = x.ser_bytes() + y.ser_bytes();
                let fds = x.ser_fds() + y.ser_fds();
                set_position::dsr_spec(bytes + rest, queue + fds.reverse()) == Decoded::Value(
                    (x.deep_view(), y.deep_view(),),
                    bytes.len(),
                    queue,
                )
            }),
    {
        let m = set_position { x, y };
        m.lemma_roundtrip(rest, queue);
    }

    /// The message creates no object.
    pub proof fn lemma_creates(&self)
        ensures
            self.created_id() is None,
    {
    }
}

impl Msg<Obj> for set_position {
    open spec fn opcode() -> u16 {
        1
    }

    open spec fn since_version() -> u32 {
        1
    }

    open spec fn created_id(&self) -> Option<u32> {
        None
    }

    open spec fn created_destructor(&self) -> Option<u16> {
        None
    }

    fn op() -> (r: u16) {
        1
    }

    fn since() -> u32 {
        1
    }

    fn new_id(&self) -> (r: Option<(u32, ObjMeta)>) {
        None
    }
}

impl Request<Obj> for set_position {

}

/// restack the sub-surface
///
/// This sub-surface is taken from the stack, and put back just
/// above the reference surface, changing the z-order of the sub-surfaces.
/// The reference surface must be one of the sibling surfaces, or the
/// parent surface. Using any other surface, including this sub-surface,
/// will cause a protocol error.
///
/// The z-order is double-buffered. Requests are handled in order and
/// applied immediately to a pending state. The final pending state is
/// copied to the active state the next time the state of the parent
/// surface is applied. When this happens depends on whether the parent
/// surface is in synchronized mode or not. See wl_subsurface.set_sync and
/// wl_subsurface.set_desync for details.
///
/// A new sub-surface is initially added as the top-most in the stack
/// of its siblings and parent.
///
#[derive(Debug)]
pub struct place_above {
    // the reference surface
    pub sibling: object<crate::wl_surface::Obj>,
}

impl Ser for place_above {
    open spec fn ser_ok(&self) -> bool {
        &&& self.sibling.ser_ok()
        &&& self.ser_bytes().len() <= usize::MAX
    }

    open spec fn ser_bytes(&self) -> Seq<u8> {
        self.sibling.ser_bytes()
    }

    open spec fn ser_fds(&self) -> Seq<Fd> {
        self.sibling.ser_fds()
    }

    fn wire_len(&self) -> (n: usize) {
        self.sibling.wire_len()
    }

    fn checked_len(&self) -> (r: Option<usize>) {
        let n0 = match self.sibling.checked_len() {
            Some(m) => m,
            None => return None,
        };
        Some(n0)
    }

    open spec fn ser_fits(&self, cap: int) -> bool {
        &&& 0 <= cap && self.sibling.ser_fits(cap - (0))
    }

    fn serialize(self, buf: &mut [u8], fds: &mut Vec<Fd>) -> (r: Result<usize, &'static str>) {
        let ghost me = self;
        let ghost b0 = buf@;
        let mut n: usize = 0;
        n = n + ser_at(self.sibling, buf, n, fds);
        assert(fds@ =~= old(fds)@ + me.ser_fds());
        Ok(n)
    }

    proof fn lemma_fits(&self, cap: int) {
        self.sibling.lemma_fits(cap - (0));
    }
}

impl DeepView for place_above {
    type V = (<object<crate::wl_surface::Obj> as DeepView>::V,);

    open spec fn deep_view(&self) -> (<object<crate::wl_surface::Obj> as DeepView>::V,) {
        (self.sibling.deep_view(),)
    }
}

impl Dsr for place_above {
    open spec fn dsr_spec(buf: Seq<u8>, fds: Seq<Fd>) -> Decoded<(<object<crate::wl_surface::Obj> as DeepView>::V,)> {
        match <object<crate::wl_surface::Obj>>::dsr_spec(buf, fds) {
            Decoded::Value(sibling, n0, q0) => Decoded::Value((sibling,), n0, q0),
            d => d.fail(),
        }
    }

    fn try_deserialize(buf: &[u8], fds: &mut Vec<Fd>) -> (r: Option<Result<(place_above, usize), &'static str>>) {
        let mut n: usize = 0;
        let rest = &buf[n..buf.len()];
        assert(rest@ =~= buf@.skip(n as int));
        assert(n == 0 ==> rest@ =~= buf@);
        let (sibling, m) = match <object<crate::wl_surface::Obj>>::try_deserialize(rest, fds) {
            Some(Ok(p)) => p,
            Some(Err(e)) => return Some(Err(e)),
            None => return None,
        };
        n = n + m;
        Some(Ok((place_above { sibling }, n)))
    }
}

impl Codec for place_above {
    open spec fn rt_ok(&self) -> bool {
        &&& self.sibling.rt_ok()
    }

    proof fn lemma_roundtrip(&self, tail: Seq<u8>, base: Seq<Fd>) {
        let b0 = self.sibling.ser_bytes();
        let d0 = self.sibling.ser_fds();
        let s1 = tail;
        let s0 = b0 + s1;
        let buf = self.ser_bytes() + tail;
        assert(buf =~= s0);
        assert(buf.skip(0) =~= s0);
        assert(self.ser_fds() =~= Seq::<Fd>::empty());
        assert(base + self.ser_fds().reverse() =~= base);
        assert(d0 =~= Seq::<Fd>::empty());
        assert(base + d0.reverse() =~= base);
        self.sibling.lemma_roundtrip(s1, base);
    }
}

impl place_above {
    /// The arguments are read in the protocol's order, `sibling`: the bytes
    /// and descriptors written for such arguments, one after the other,
    /// decode to exactly those arguments.
    pub proof fn lemma_layout(sibling: object<crate::wl_surface::Obj>, rest: Seq<u8>, queue: Seq<Fd>)
        requires
            sibling.ser_ok(),
            sibling.rt_ok(),
            sibling.ser_bytes().len() <= usize::MAX,
        ensures
            ({
                let bytes = sibling.ser_bytes();
                let fds = sibling.ser_fds();
                place_above::dsr_spec(bytes + rest, queue + fds.reverse()) == Decoded::Value(
                    (sibling.deep_view(),),
                    bytes.len(),
                    queue,
                )
            }),
    {
        let m = place_above { sibling };
        m.lemma_roundtrip(rest, queue);
    }

    /// The message creates no object.
    pub proof fn lemma_creates(&self)
        ensures
            self.created_id() is None,
    {
    }
}

impl Msg<Obj> for place_above {
    open spec fn opcode() -> u16 {
        2
    }

    open spec fn since_version() -> u32 {
        1
    }

    open spec fn created_id(&self) -> Option<u32> {
        None
    }

    open spec fn created_destructor(&self) -> Option<u16> {
        None
    }

    fn op() -> (r: u16) {
        2
    }

    fn since() -> u32 {
        1
    }

    fn new_id(&self) -> (r: Option<(u32, ObjMeta)>) {
        None
    }
}

impl Request<Obj> for place_above {

}

/// restack the sub-surface
///
/// The sub-surface is placed just below the reference surface.
/// See wl_subsurface.place_above.
///
#[derive(Debug)]
pub struct place_below {
    // the reference surface
    pub sibling: object<crate::wl_surface::Obj>,
}

impl Ser for place_below {
    open spec fn ser_ok(&self) -> bool {
        &&& self.sibling.ser_ok()
        &&& self.ser_bytes().len() <= usize::MAX
    }

    open spec fn ser_bytes(&self) -> Seq<u8> {
        self.sibling.ser_bytes()
    }

    open spec fn ser_fds(&self) -> Seq<Fd> {
        self.sibling.ser_fds()
    }

    fn wire_len(&self) -> (n: usize) {
        self.sibling.wire_len()
    }

    fn checked_len(&self) -> (r: Option<usize>) {
        let n0 = match self.sibling.checked_len() {
            Some(m) => m,
            None => return None,
        };
        Some(n0)
    }

    open spec fn ser_fits(&self, cap: int) -> bool {
        &&& 0 <= cap && self.sibling.ser_fits(cap - (0))
    }

    fn serialize(self, buf: &mut [u8], fds: &mut Vec<Fd>) -> (r: Result<usize, &'static str>) {
        let ghost me = self;
        let ghost b0 = buf@;
        let mut n: usize = 0;
        n = n + ser_at(self.sibling, buf, n, fds);
        assert(fds@ =~= old(fds)@ + me.ser_fds());
        Ok(n)
    }

    proof fn lemma_fits(&self, cap: int) {
        self.sibling.lemma_fits(cap - (0));
    }
}

impl DeepView for place_below {
    type V = (<object<crate::wl_surface::Obj> as DeepView>::V,);

    open spec fn deep_view(&self) -> (<object<crate::wl_surface::Obj> as DeepView>::V,) {
        (self.sibling.deep_view(),)
    }
}

impl Dsr for place_below {
    open spec fn dsr_spec(buf: Seq<u8>, fds: Seq<Fd>) -> Decoded<(<object<crate::wl_surface::Obj> as DeepView>::V,)> {
        match <object<crate::wl_surface::Obj>>::dsr_spec(buf, fds) {
            Decoded::Value(sibling, n0, q0) => Decoded::Value((sibling,), n0, q0),
            d => d.fail(),
        }
    }

    fn try_deserialize(buf: &[u8], fds: &mut Vec<Fd>) -> (r: Option<Result<(place_below, usize), &'static str>>) {
        let mut n: usize = 0;
        let rest = &buf[n..buf.len()];
        assert(rest@ =~= buf@.skip(n as int));
        assert(n == 0 ==> rest@ =~= buf@);
        let (sibling, m) = match <object<crate::wl_surface::Obj>>::try_deserialize(rest, fds) {
            Some(Ok(p)) => p,
            Some(Err(e)) => return Some(Err(e)),
            None => return None,
        };
        n = n + m;
        Some(Ok((place_below { sibling }, n)))
    }
}

impl Codec for place_below {
    open spec fn rt_ok(&self) -> bool {
        &&& self.sibling.rt_ok()
    }

    proof fn lemma_roundtrip(&self, tail: Seq<u8>, base: Seq<Fd>) {
        let b0 = self.sibling.ser_bytes();
        let d0 = self.sibling.ser_fds();
        let s1 = tail;
        let s0 = b0 + s1;
        let buf = self.ser_bytes() + tail;
        assert(buf =~= s0);
        assert(buf.skip(0) =~= s0);
        assert(self.ser_fds() =~= Seq::<Fd>::empty());
        assert(base + self.ser_fds().reverse() =~= base);
        assert(d0 =~= Seq::<Fd>::empty());
        assert(base + d0.reverse() =~= base);
        self.sibling.lemma_roundtrip(s1, base);
    }
}

impl place_below {
    /// The arguments are read in the protocol's order, `sibling`: the bytes
    /// and descriptors written for such arguments, one after the other,
    /// decode to exactly those arguments.
    pub proof fn lemma_layout(sibling: object<crate::wl_surface::Obj>, rest: Seq<u8>, queue: Seq<Fd>)
        requires
            sibling.ser_ok(),
            sibling.rt_ok(),
            sibling.ser_bytes().len() <= usize::MAX,
        ensures
            ({
                let bytes = sibling.ser_bytes();
                let fds = sibling.ser_fds();
                place_below::dsr_spec(bytes + rest, queue + fds.reverse()) == Decoded::Value(
                    (sibling.deep_view(),),
                    bytes.len(),
                    queue,
                )
            }),
    {
        let m = place_below { sibling };
        m.lemma_roundtrip(rest, queue);
    }

    /// The message creates no object.
    pub proof fn lemma_creates(&self)
        ensures
            self.created_id() is None,
    {
    }
}

impl Msg<Obj> for place_below {
    open spec fn opcode() -> u16 {
        3
    }

    open spec fn since_version() -> u32 {
        1
    }

    open spec fn created_id(&self) -> Option<u32> {
        None
    }

    open spec fn created_destructor(&self) -> Option<u16> {
        None
    }

    fn op() -> (r: u16) {
        3
    }

    fn since() -> u32 {
        1
    }

    fn new_id(&self) -> (r: Option<(u32, ObjMeta)>) {
        None
    }
}

impl Request<Obj> for place_below {

}

/// set sub-surface to synchronized mode
///
/// Change the commit behaviour of the sub-surface to synchronized
/// mode, also described as the parent dependent mode.
///
/// In synchronized mode, wl_surface.commit on a sub-surface will
/// accumulate the committed state in a cache, but the state will
/// not be applied and hence will not change the compositor output.
/// The cached state is applied to the sub-surface immediately after
/// the parent surface's state is applied. This ensures atomic
/// updates of the parent and all its synchronized sub-surfaces.
/// Applying the cached state will invalidate the cache, so further
/// parent surface commits do not (re-)apply old state.
///
/// See wl_subsurface for the recursive effect of this mode.
///
#[derive(Debug)]
pub struct set_sync {}

impl Ser for set_sync {
    open spec fn ser_ok(&self) -> bool {
        true
    }

    open spec fn ser_bytes(&self) -> Seq<u8> {
        Seq::empty()
    }

    open spec fn ser_fds(&self) -> Seq<Fd> {
        Seq::empty()
    }

    fn wire_len(&self) -> (n: usize) {
        0
    }

    fn checked_len(&self) -> (r: Option<usize>) {
        Some(0)
    }

    open spec fn ser_fits(&self, cap: int) -> bool {
        true
    }

    fn serialize(self, buf: &mut [u8], fds: &mut Vec<Fd>) -> (r: Result<usize, &'static str>) {
        assert(buf@ =~= write_at(old(buf)@, 0, Seq::<u8>::empty()));
        assert(fds@ =~= old(fds)@ + Seq::<Fd>::empty());
        Ok(0)
    }

    proof fn lemma_fits(&self, cap: int) {
    }
}

impl DeepView for set_sync {
    type V = ();

    open spec fn deep_view(&self) -> () {
        ()
    }
}

impl Dsr for set_sync {
    open spec fn dsr_spec(buf: Seq<u8>, fds: Seq<Fd>) -> Decoded<()> {
        Decoded::Value((), 0, fds)
    }

    fn try_deserialize(buf: &[u8], fds: &mut Vec<Fd>) -> (r: Option<Result<(set_sync, usize), &'static str>>) {
        Some(Ok((set_sync {}, 0)))
    }
}

impl Codec for set_sync {
    open spec fn rt_ok(&self) -> bool {
        true
    }

    proof fn lemma_roundtrip(&self, tail: Seq<u8>, base: Seq<Fd>) {
        assert(Seq::<Fd>::empty().reverse() =~= Seq::<Fd>::empty());
        assert(base + Seq::<Fd>::empty() =~= base);
    }
}

impl set_sync {
    /// The arguments are read in the protocol's order, no arguments: the bytes
    /// and descriptors written for such arguments, one after the other,
    /// decode to exactly those arguments.
    pub proof fn lemma_layout(rest: Seq<u8>, queue: Seq<Fd>)
        ensures
            ({
                let bytes = Seq::<u8>::empty();
                let fds = Seq::<Fd>::empty();
                set_sync::dsr_spec(bytes + rest, queue + fds.reverse()) == Decoded::Value(
                    (),
                    bytes.len(),
                    queue,
                )
            }),
    {
        let m = set_sync {};
        m.lemma_roundtrip(rest, queue);
    }

    /// The message creates no object.
    pub proof fn lemma_creates(&self)
        ensures
            self.created_id() is None,
    {
    }
}

impl Msg<Obj> for set_sync {
    open spec fn opcode() -> u16 {
        4
    }

    open spec fn since_version() -> u32 {
        1
    }

    open spec fn created_id(&self) -> Option<u32> {
        None
    }

    open spec fn created_destructor(&self) -> Option<u16> {
        None
    }

    fn op() -> (r: u16) {
        4
    }

    fn since() -> u32 {
        1
    }

    fn new_id(&self) -> (r: Option<(u32, ObjMeta)>) {
        None
    }
}

impl Request<Obj> for set_sync {

}

/// set sub-surface to desynchronized mode
///
/// Change the commit behaviour of the sub-surface to desynchronized
/// mode, also described as independent or freely running mode.
///
/// In desynchronized mode, wl_surface.commit on a sub-surface will
/// apply the pending state directly, without caching, as happens
/// normally with a wl_surface. Calling wl_surface.commit on the
/// parent surface has no effect on the sub-surface's wl_surface
/// state. This mode allows a sub-surface to be updated on its own.
///
/// If cached state exists when wl_surface.commit is called in
/// desynchronized mode, the pending state is added to the cached
/// state, and applied as a whole. This invalidates the cache.
///
/// Note: even if a sub-surface is set to desynchronized, a parent
/// sub-surface may override it to behave as synchronized. For details,
/// see wl_subsurface.
///
/// If a surface's parent surface behaves as desynchronized, then
/// the cached state is applied on set_desync.
///
#[derive(Debug)]
pub struct set_desync {}

impl Ser for set_desync {
    open spec fn ser_ok(&self) -> bool {
        true
    }

    open spec fn ser_bytes(&self) -> Seq<u8> {
        Seq::empty()
    }

    open spec fn ser_fds(&self) -> Seq<Fd> {
        Seq::empty()
    }

    fn wire_len(&self) -> (n: usize) {
        0
    }

    fn checked_len(&self) -> (r: Option<usize>) {
        Some(0)
    }

    open spec fn ser_fits(&self, cap: int) -> bool {
        true
    }

    fn serialize(self, buf: &mut [u8], fds: &mut Vec<Fd>) -> (r: Result<usize, &'static str>) {
        assert(buf@ =~= write_at(old(buf)@, 0, Seq::<u8>::empty()));
        assert(fds@ =~= old(fds)@ + Seq::<Fd>::empty());
        Ok(0)
    }

    proof fn lemma_fits(&self, cap: int) {
    }
}

impl DeepView for set_desync {
    type V = ();

    open spec fn deep_view(&self) -> () {
        ()
    }
}

impl Dsr for set_desync {
    open spec fn dsr_spec(buf: Seq<u8>, fds: Seq<Fd>) -> Decoded<()> {
        Decoded::Value((), 0, fds)
    }

    fn try_deserialize(buf: &[u8], fds: &mut Vec<Fd>) -> (r: Option<Result<(set_desync, usize), &'static str>>) {
        Some(Ok((set_desync {}, 0)))
    }
}

impl Codec for set_desync {
    open spec fn rt_ok(&self) -> bool {
        true
    }

    proof fn lemma_roundtrip(&self, tail: Seq<u8>, base: Seq<Fd>) {
        assert(Seq::<Fd>::empty().reverse() =~= Seq::<Fd>::empty());
        assert(base + Seq::<Fd>::empty() =~= base);
    }
}

impl set_desync {
    /// The arguments are read in the protocol's order, no arguments: the bytes
    /// and descriptors written for such arguments, one after the other,
    /// decode to exactly those arguments.
    pub proof fn lemma_layout(rest: Seq<u8>, queue: Seq<Fd>)
        ensures
            ({
                let bytes = Seq::<u8>::empty();
                let fds = Seq::<Fd>::empty();
                set_desync::dsr_spec(bytes + rest, queue + fds.reverse()) == Decoded::Value(
                    (),
                    bytes.len(),
                    queue,
                )
            }),
    {
        let m = set_desync {};
        m.lemma_roundtrip(rest, queue);
    }

    /// The message creates no object.
    pub proof fn lemma_creates(&self)
        ensures
            self.created_id() is None,
    {
    }
}

impl Msg<Obj> for set_desync {
    open spec fn opcode() -> u16 {
        5
    }

    open spec fn since_version() -> u32 {
        1
    }

    open spec fn created_id(&self) -> Option<u32> {
        None
    }

    open spec fn created_destructor(&self) -> Option<u16> {
        None
    }

    fn op() -> (r: u16) {
        5
    }

    fn since() -> u32 {
        1
    }

    fn new_id(&self) -> (r: Option<(u32, ObjMeta)>) {
        None
    }
}

impl Request<Obj> for set_desync {

}

/// The opcode of each request: its index in the protocol's list of the
/// interface's requests, so that no two requests share one.
pub proof fn lemma_opcodes()
    ensures
        <destroy as Msg<Obj>>::opcode() == 0,
        <set_position as Msg<Obj>>::opcode() == 1,
        <place_above as Msg<Obj>>::opcode() == 2,
        <place_below as Msg<Obj>>::opcode() == 3,
        <set_sync as Msg<Obj>>::opcode() == 4,
        <set_desync as Msg<Obj>>::opcode() == 5,
        <destroy as Msg<Obj>>::opcode() != <set_position as Msg<Obj>>::opcode(),
        <destroy as Msg<Obj>>::opcode() != <place_above as Msg<Obj>>::opcode(),
        <destroy as Msg<Obj>>::opcode() != <place_below as Msg<Obj>>::opcode(),
        <destroy as Msg<Obj>>::opcode() != <set_sync as Msg<Obj>>::opcode(),
        <destroy as Msg<Obj>>::opcode() != <set_desync as Msg<Obj>>::opcode(),
        <set_position as Msg<Obj>>::opcode() != <place_above as Msg<Obj>>::opcode(),
        <set_position as Msg<Obj>>::opcode() != <place_below as Msg<Obj>>::opcode(),
        <set_position as Msg<Obj>>::opcode() != <set_sync as Msg<Obj>>::opcode(),
        <set_position as Msg<Obj>>::opcode() != <set_desync as Msg<Obj>>::opcode(),
        <place_above as Msg<Obj>>::opcode() != <place_below as Msg<Obj>>::opcode(),
        <place_above as Msg<Obj>>::opcode() != <set_sync as Msg<Obj>>::opcode(),
        <place_above as Msg<Obj>>::opcode() != <set_desync as Msg<Obj>>::opcode(),
        <place_below as Msg<Obj>>::opcode() != <set_sync as Msg<Obj>>::opcode(),
        <place_below as Msg<Obj>>::opcode() != <set_desync as Msg<Obj>>::opcode(),
        <set_sync as Msg<Obj>>::opcode() != <set_desync as Msg<Obj>>::opcode(),
        <Obj as Object>::destructor_op() == Some(<destroy as Msg<Obj>>::opcode()),
{
}

} // verus!
