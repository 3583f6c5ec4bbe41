use vstd::prelude::*;
use crate::objects::{type_id_of, new_id, object, Dyn, ObjMeta, Object, Msg, Request};
use crate::wire::{ser_at, write_at, lemma_write_then, lemma_reverse_add, lemma_skip_step, fixed, Codec, Decoded, Dsr, Fd, Ser};
use super::Obj;

verus! {

/// unbind from the subcompositor interface
///
/// Informs the server that the client will not be using this
/// protocol object anymore. This does not affect any other
/// objects, wl_subsurface objects included.
///
#[derive(Debug)]
pub struct destroy {}

impl Ser for destroy {
    open spec fn ser_ok(&self) -> bool {
        true
    }

    open spec fn ser_bytes(&self) -> Seq<u8> {
        Seq::empty()
    }

    open spec fn ser_fds(&self) -> Seq<Fd> {
        Seq::empty()
    }

    fn wire_len(&self) -> (n: usize) {
        0
    }

    fn checked_len(&self) -> (r: Option<usize>) {
        Some(0)
    }

    open spec fn ser_fits(&self, cap: int) -> bool {
        true
    }

    fn serialize(self, buf: &mut [u8], fds: &mut Vec<Fd>) -> (r: Result<usize, &'static str>) {
        assert(buf@ =~= write_at(old(buf)@, 0, Seq::<u8>::empty()));
        assert(fds@ =~= old(fds)@ + Seq::<Fd>::empty());
        Ok(0)
    }

    proof fn lemma_fits(&self, cap: int) {
    }
}

impl DeepView for destroy {
    type V = ();

    open spec fn deep_view(&self) -> () {
        ()
    }
}

impl Dsr for destroy {
    open spec fn dsr_spec(buf: Seq<u8>, fds: Seq<Fd>) -> Decoded<()> {
        Decoded::Value((), 0, fds)
    }

    fn try_deserialize(buf: &[u8], fds: &mut Vec<Fd>) -> (r: Option<Result<(destroy, usize), &'static str>>) {
        Some(Ok((destroy {}, 0)))
    }
}

impl Codec for destroy {
    open spec fn rt_ok(&self) -> bool {
        true
    }

    proof fn lemma_roundtrip(&self, tail: Seq<u8>, base: Seq<Fd>) {
        assert(Seq::<Fd>::empty().reverse() =~= Seq::<Fd>::empty());
        assert(base + Seq::<Fd>::empty() =~= base);
    }
}

impl destroy {
    /// The arguments are read in the protocol's order, no arguments: the bytes
    /// and descriptors written for such arguments, one after the other,
    /// decode to exactly those arguments.
    pub proof fn lemma_layout(rest: Seq<u8>, queue: Seq<Fd>)
        ensures
            ({
                let bytes = Seq::<u8>::empty();
                let fds = Seq::<Fd>::empty();
                destroy::dsr_spec(bytes + rest, queue + fds.reverse()) == Decoded::Value(
                    (),
                    bytes.len(),
                    queue,
                )
            }),
    {
        let m = destroy {};
        m.lemma_roundtrip(rest, queue);
    }

    /// The message creates no object.
    pub proof fn lemma_creates(&self)
        ensures
            self.created_id() is None,
    {
    }
}

impl Msg<Obj> for destroy {
    open spec fn opcode() -> u16 {
        0
    }

    open spec fn since_version() -> u32 {
        1
    }

    open spec fn created_id(&self) -> Option<u32> {
        None
    }

    open spec fn created_destructor(&self) -> Option<u16> {
        None
    }

    fn op() -> (r: u16) {
        0
    }

    fn since() -> u32 {
        1
    }

    fn new_id(&self) -> (r: Option<(u32, ObjMeta)>) {
        None
    }
}

impl Request<Obj> for destroy {

}

/// give a surface the role sub-surface
///
/// Create a sub-surface interface for the given surface, and
/// associate it with the given parent surface. This turns a
/// plain wl_surface into a sub-surface.
///
/// The to-be sub-surface must not already have another role, and it
/// must not have an existing wl_subsurface object. Otherwise the
/// bad_surface protocol error is raised.
///
/// Adding sub-surfaces to a parent is a double-buffered operation on the
/// parent (see wl_surface.commit). The effect of adding a sub-surface
/// becomes visible on the next time the state of the parent surface is
/// applied.
///
/// The parent surface must not be one of the child surface's descendants,
/// and the parent must be different from the child surface, otherwise the
/// bad_parent protocol error is raised.
///
/// This request modifies the behaviour of wl_surface.commit request on
/// the sub-surface, see the documentation on wl_subsurface interface.
///
#[derive(Debug)]
pub struct get_subsurface {
    // the new sub-surface object ID
    pub id: new_id<crate::wl_subsurface::Obj>,
    // the surface to be turned into a sub-surface
    pub surface: object<crate::wl_surface::Obj>,
    // the parent surface
    pub parent: object<crate::wl_surface::Obj>,
}

impl Ser for get_subsurface {
    open spec fn ser_ok(&self) -> bool {
        &&& self.id.ser_ok()
        &&& self.surface.ser_ok()
        &&& self.parent.ser_ok()
        &&& self.ser_bytes().len() <= usize::MAX
    }

    open spec fn ser_bytes(&self) -> Seq<u8> {
        self.id.ser_bytes() + self.surface.ser_bytes() + self.parent.ser_bytes()
    }

    open spec fn ser_fds(&self) -> Seq<Fd> {
        self.id.ser_fds() + self.surface.ser_fds() + self.parent.ser_fds()
    }

    fn wire_len(&self) -> (n: usize) {
        self.id.wire_len() + self.surface.wire_len() + self.parent.wire_len()
    }

    fn checked_len(&self) -> (r: Option<usize>) {
        let n0 = match self.id.checked_len() {
            Some(m) => m,
            None => return None,
        };
        let n1 = match self.surface.checked_len() {
            Some(m) => match n0.checked_add(m) {
                Some(t) => t,
                None => return None,
            },
            None => return None,
        };
        let n2 = match self.parent.checked_len() {
            Some(m) => match n1.checked_add(m) {
                Some(t) => t,
                None => return None,
            },
            None => return None,
        };
        Some(n2)
    }

    open spec fn ser_fits(&self, cap: int) -> bool {
        &&& 0 <= cap && self.id.ser_fits(cap - (0))
        &&& self.id.ser_bytes().len() <= cap && self.surface.ser_fits(cap - (self.id.ser_bytes().len()))
        &&& self.id.ser_bytes().len() + self.surface.ser_bytes().len() <= cap && self.parent.ser_fits(cap - (self.id.ser_bytes().len() + self.surface.ser_bytes().len()))
    }

    fn serialize(self, buf: &mut [u8], fds: &mut Vec<Fd>) -> (r: Result<usize, &'static str>) {
        let ghost me = self;
        let ghost b0 = buf@;
        let mut n: usize = 0;
        n = n + ser_at(self.id, buf, n, fds);
        assert(fds@ =~= old(fds)@ + me.id.ser_fds());
        n = n + ser_at(self.surface, buf, n, fds);
        proof {
            lemma_write_then(b0, 0, me.id.ser_bytes(), me.surface.ser_bytes());
        }
        assert(fds@ =~= old(fds)@ + me.id.ser_fds() + me.surface.ser_fds());
        n = n + ser_at(self.parent, buf, n, fds);
        proof {
            lemma_write_then(b0, 0, me.id.ser_bytes() + me.surface.ser_bytes(), me.parent.ser_bytes());
        }
        assert(fds@ =~= old(fds)@ + me.ser_fds());
        Ok(n)
    }

    proof fn lemma_fits(&self, cap: int) {
        self.id.lemma_fits(cap - (0));
        self.surface.lemma_fits(cap - (self.id.ser_bytes().len()));
        self.parent.lemma_fits(cap - (self.id.ser_bytes().len() + self.surface.ser_bytes().len()));
    }
}

impl DeepView for get_subsurface {
    type V = (<new_id<crate::wl_subsurface::Obj> as DeepView>::V, <object<crate::wl_surface::Obj> as DeepView>::V, <object<crate::wl_surface::Obj> as DeepView>::V,);

    open spec fn deep_view(&self) -> (<new_id<crate::wl_subsurface::Obj> as DeepView>::V, <object<crate::wl_surface::Obj> as DeepView>::V, <object<crate::wl_surface::Obj> as DeepView>::V,) {
        (self.id.deep_view(), self.surface.deep_view(), self.parent.deep_view(),)
    }
}

impl Dsr for get_subsurface {
    open spec fn dsr_spec(buf: Seq<u8>, fds: Seq<Fd>) -> Decoded<(<new_id<crate::wl_subsurface::Obj> as DeepView>::V, <object<crate::wl_surface::Obj> as DeepView>::V, <object<crate::wl_surface::Obj> as DeepView>::V,)> {
        match <new_id<crate::wl_subsurface::Obj>>::dsr_spec(buf, fds) {
            Decoded::Value(id, n0, q0) => {
                match <object<crate::wl_surface::Obj>>::dsr_spec(buf.skip(n0 as int), q0) {
                    Decoded::Value(surface, m1, q1) => {
                        let n1 = n0 + m1;
                        match <object<crate::wl_surface::Obj>>::dsr_spec(buf.skip(n1 as int), q1) {
                            Decoded::Value(parent, m2, q2) => {
                                let n2 = n1 + m2;
                                Decoded::Value((id, surface, parent,), n2, q2)
                            },
                            d => d.fail(),
                        }
                    },
                    d => d.fail(),
                }
            },
            d => d.fail(),
        }
    }

    fn try_deserialize(buf: &[u8], fds: &mut Vec<Fd>) -> (r: Option<Result<(get_subsurface, usize), &'static str>>) {
        let mut n: usize = 0;
        let rest = &buf[n..buf.len()];
        assert(rest@ =~= buf@.skip(n as int));
        assert(n == 0 ==> rest@ =~= buf@);
        let (id, m) = match <new_id<crate::wl_subsurface::Obj>>::try_deserialize(rest, fds) {
            Some(Ok(p)) => p,
            Some(Err(e)) => return Some(Err(e)),
            None => return None,
        };
        n = n + m;
        let rest = &buf[n..buf.len()];
        assert(rest@ =~= buf@.skip(n as int));
        assert(n == 0 ==> rest@ =~= buf@);
        let (surface, m) = match <object<crate::wl_surface::Obj>>::try_deserialize(rest, fds) {
            Some(Ok(p)) => p,
            Some(Err(e)) => return Some(Err(e)),
            None => return None,
        };
        n = n + m;
        let rest = &buf[n..buf.len()];
        assert(rest@ =~= buf@.skip(n as int));
        assert(n == 0 ==> rest@ =~= buf@);
        let (parent, m) = match <object<crate::wl_surface::Obj>>::try_deserialize(rest, fds) {
            Some(Ok(p)) => p,
            Some(Err(e)) => return Some(Err(e)),
            None => return None,
        };
        n = n + m;
        Some(Ok((get_subsurface { id, surface, parent }, n)))
    }
}

impl Codec for get_subsurface {
    open spec fn rt_ok(&self) -> bool {
        &&& self.id.rt_ok()
        &&& self.surface.rt_ok()
        &&& self.parent.rt_ok()
    }

    proof fn lemma_roundtrip(&self, tail: Seq<u8>, base: Seq<Fd>) {
        let b0 = self.id.ser_bytes();
        let b1 = self.surface.ser_bytes();
        let b2 = self.parent.ser_bytes();
        let d0 = self.id.ser_fds();
        let d1 = self.surface.ser_fds();
        let d2 = self.parent.ser_fds();
        let s3 = tail;
        let s2 = b2 + s3;
        let s1 = b1 + s2;
        let s0 = b0 + s1;
        let buf = self.ser_bytes() + tail;
        assert(buf =~= s0);
        assert(buf.skip(0) =~= s0);
        assert(self.ser_fds() =~= Seq::<Fd>::empty());
        assert(base + self.ser_fds().reverse() =~= base);
        assert(d0 =~= Seq::<Fd>::empty());
        assert(base + d0.reverse() =~= base);
        self.id.lemma_roundtrip(s1, base);
        assert(buf.skip((b0.len()) as int) == s1) by {
            lemma_skip_step(buf, (0) as int, b0, s1);
        }
        assert(d1 =~= Seq::<Fd>::empty());
        assert(base + d1.reverse() =~= base);
        self.surface.lemma_roundtrip(s2, base);
        assert(buf.skip((b0.len() + b1.len()) as int) == s2) by {
            lemma_skip_step(buf, (b0.len()) as int, b1, s2);
        }
        assert(d2 =~= Seq::<Fd>::empty());
        assert(base + d2.reverse() =~= base);
        self.parent.lemma_roundtrip(s3, base);
    }
}

impl get_subsurface {
    /// The arguments are read in the protocol's order, `id`, then `surface`, then `parent`: the bytes
    /// and descriptors written for such arguments, one after the other,
    /// decode to exactly those arguments.
    pub proof fn lemma_layout(id: new_id<crate::wl_subsurface::Obj>, surface: object<crate::wl_surface::Obj>, parent: object<crate::wl_surface::Obj>, rest: Seq<u8>, queue: Seq<Fd>)
        requires
            id.ser_ok(),
            id.rt_ok(),
            surface.ser_ok(),
            surface.rt_ok(),
            parent.ser_ok(),
            parent.rt_ok(),
            id.ser_bytes().len() + surface.ser_bytes().len() + parent.ser_bytes().len() <= usize::MAX,
        ensures
            ({
                let bytes = id.ser_bytes() + surface.ser_bytes() + parent.ser_bytes();
                let fds = id.ser_fds() + surface.ser_fds() + parent.ser_fds();
                get_subsurface::dsr_spec(bytes + rest, queue + fds.reverse()) == Decoded::Value(
                    (id.deep_view(), surface.deep_view(), parent.deep_view(),),
                    bytes.len(),
                    queue,
                )
            }),
    {
        let m = get_subsurface { id, surface, parent };
        m.lemma_roundtrip(rest, queue);
    }

    /// The object the message creates is the one its `id` argument names,
    /// with the destructor of that argument's interface.
    pub proof fn lemma_creates(&self)
        ensures
            self.created_id() == Some(self.id.0),
            self.created_destructor() == <crate::wl_subsurface::Obj as Object>::destructor_op(),
    {
    }
}

impl Msg<Obj> for get_subsurface {
    open spec fn opcode() -> u16 {
        1
    }

    open spec fn since_version() -> u32 {
        1
    }

    open spec fn created_id(&self) -> Option<u32> {
        Some(self.id.0)
    }

    open spec fn created_destructor(&self) -> Option<u16> {
        crate::wl_subsurface::Obj::destructor_op()
    }

    fn op() -> (r: u16) {
        1
    }

    fn since() -> u32 {
        1
    }

    fn new_id(&self) -> (r: Option<(u32, ObjMeta)>) {
        let id = self.id.0;
        let meta = ObjMeta {
            alive: true,
            destructor: crate::wl_subsurface::Obj::destructor(),
            type_id: type_id_of::<crate::wl_subsurface::Obj>(),
        };
        Some((id, meta))
    }
}

impl Request<Obj> for get_subsurface {

}

/// The opcode of each request: its index in the protocol's list of the
/// interface's requests, so that no two requests share one.
pub proof fn lemma_opcodes()
    ensures
        <destroy as Msg<Obj>>::opcode() == 0,
        <get_subsurface as Msg<Obj>>::opcode() == 1,
        <destroy as Msg<Obj>>::opcode() != <get_subsurface as Msg<Obj>>::opcode(),
        <Obj as Object>::destructor_op() == Some(<destroy as Msg<Obj>>::opcode()),
{
}

} // verus!
