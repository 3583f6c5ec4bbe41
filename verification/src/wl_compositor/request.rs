use vstd::prelude::*;
use crate::objects::{type_id_of, new_id, object, Dyn, ObjMeta, Object, Msg, Request};
use crate::wire::{ser_at, write_at, lemma_write_then, lemma_reverse_add, lemma_skip_step, fixed, Codec, Decoded, Dsr, Fd, Ser};
use super::Obj;

verus! {

/// create new surface
///
/// Ask the compositor to create a new surface.
///
#[derive(Debug)]
pub struct create_surface {
    // the new surface
    pub id: new_id<crate::wl_surface::Obj>,
}

impl Ser for create_surface {
    open spec fn ser_ok(&self) -> bool {
        &&& self.id.ser_ok()
        &&& self.ser_bytes().len() <= usize::MAX
    }

    open spec fn ser_bytes(&self) -> Seq<u8> {
        self.id.ser_bytes()
    }

    open spec fn ser_fds(&self) -> Seq<Fd> {
        self.id.ser_fds()
    }

    fn wire_len(&self) -> (n: usize) {
        self.id.wire_len()
    }

    fn checked_len(&self) -> (r: Option<usize>) {
        let n0 = match self.id.checked_len() {
            Some(m) => m,
            None => return None,
        };
        Some(n0)
    }

    open spec fn ser_fits(&self, cap: int) -> bool {
        &&& 0 <= cap && self.id.ser_fits(cap - (0))
    }

    fn serialize(self, buf: &mut [u8], fds: &mut Vec<Fd>) -> (r: Result<usize, &'static str>) {
        let ghost me = self;
        let ghost b0 = buf@;
        let mut n: usize = 0;
        n = n + ser_at(self.id, buf, n, fds);
        assert(fds@ =~= old(fds)@ + me.ser_fds());
        Ok(n)
    }

    proof fn lemma_fits(&self, cap: int) {
        self.id.lemma_fits(cap - (0));
    }
}

impl DeepView for create_surface {
    type V = (<new_id<crate::wl_surface::Obj> as DeepView>::V,);

    open spec fn deep_view(&self) -> (<new_id<crate::wl_surface::Obj> as DeepView>::V,) {
        (self.id.deep_view(),)
    }
}

impl Dsr for create_surface {
    open spec fn dsr_spec(buf: Seq<u8>, fds: Seq<Fd>) -> Decoded<(<new_id<crate::wl_surface::Obj> as DeepView>::V,)> {
        match <new_id<crate::wl_surface::Obj>>::dsr_spec(buf, fds) {
            Decoded::Value(id, n0, q0) => Decoded::Value((id,), n0, q0),
            d => d.fail(),
        }
    }

    fn try_deserialize(buf: &[u8], fds: &mut Vec<Fd>) -> (r: Option<Result<(create_surface, usize), &'static str>>) {
        let mut n: usize = 0;
        let rest = &buf[n..buf.len()];
        assert(rest@ =~= buf@.skip(n as int));
        assert(n == 0 ==> rest@ =~= buf@);
        let (id, m) = match <new_id<crate::wl_surface::Obj>>::try_deserialize(rest, fds) {
            Some(Ok(p)) => p,
            Some(Err(e)) => return Some(Err(e)),
            None => return None,
        };
        n = n + m;
        Some(Ok((create_surface { id }, n)))
    }
}

impl Codec for create_surface {
    open spec fn rt_ok(&self) -> bool {
        &&& self.id.rt_ok()
    }

    proof fn lemma_roundtrip(&self, tail: Seq<u8>, base: Seq<Fd>) {
        let b0 = self.id.ser_bytes();
        let d0 = self.id.ser_fds();
        let s1 = tail;
        let s0 = b0 + s1;
        let buf = self.ser_bytes() + tail;
        assert(buf =~= s0);
        assert(buf.skip(0) =~= s0);
        assert(self.ser_fds() =~= Seq::<Fd>::empty());
        assert(base + self.ser_fds().reverse() =~= base);
        assert(d0 =~= Seq::<Fd>::empty());
        assert(base + d0.reverse() =~= base);
        self.id.lemma_roundtrip(s1, base);
    }
}

impl create_surface {
    /// The arguments are read in the protocol's order, `id`: the bytes
    /// and descriptors written for such arguments, one after the other,
    /// decode to exactly those arguments.
    pub proof fn lemma_layout(id: new_id<crate::wl_surface::Obj>, rest: Seq<u8>, queue: Seq<Fd>)
        requires
            id.ser_ok(),
            id.rt_ok(),
            id.ser_bytes().len() <= usize::MAX,
        ensures
            ({
                let bytes = id.ser_bytes();
                let fds = id.ser_fds();
                create_surface::dsr_spec(bytes + rest, queue + fds.reverse()) == Decoded::Value(
                    (id.deep_view(),),
                    bytes.len(),
                    queue,
                )
            }),
    {
        let m = create_surface { id };
        m.lemma_roundtrip(rest, queue);
    }

    /// The object the message creates is the one its `id` argument names,
    /// with the destructor of that argument's interface.
    pub proof fn lemma_creates(&self)
        ensures
            self.created_id() == Some(self.id.0),
            self.created_destructor() == <crate::wl_surface::Obj as Object>::destructor_op(),
    {
    }
}

impl Msg<Obj> for create_surface {
    open spec fn opcode() -> u16 {
        0
    }

    open spec fn since_version() -> u32 {
        1
    }

    open spec fn created_id(&self) -> Option<u32> {
        Some(self.id.0)
    }

    open spec fn created_destructor(&self) -> Option<u16> {
        crate::wl_surface::Obj::destructor_op()
    }

    fn op() -> (r: u16) {
        0
    }

    fn since() -> u32 {
        1
    }

    fn new_id(&self) -> (r: Option<(u32, ObjMeta)>) {
        let id = self.id.0;
        let meta = ObjMeta {
            alive: true,
            destructor: crate::wl_surface::Obj::destructor(),
            type_id: type_id_of::<crate::wl_surface::Obj>(),
        };
        Some((id, meta))
    }
}

impl Request<Obj> for create_surface {

}

/// create new region
///
/// Ask the compositor to create a new region.
///
#[derive(Debug)]
pub struct create_region {
    // the new region
    pub id: new_id<crate::wl_region::Obj>,
}

impl Ser for create_region {
    open spec fn ser_ok(&self) -> bool {
        &&& self.id.ser_ok()
        &&& self.ser_bytes().len() <= usize::MAX
    }

    open spec fn ser_bytes(&self) -> Seq<u8> {
        self.id.ser_bytes()
    }

    open spec fn ser_fds(&self) -> Seq<Fd> {
        self.id.ser_fds()
    }

    fn wire_len(&self) -> (n: usize) {
        self.id.wire_len()
    }

    fn checked_len(&self) -> (r: Option<usize>) {
        let n0 = match self.id.checked_len() {
            Some(m) => m,
            None => return None,
        };
        Some(n0)
    }

    open spec fn ser_fits(&self, cap: int) -> bool {
        &&& 0 <= cap && self.id.ser_fits(cap - (0))
    }

    fn serialize(self, buf: &mut [u8], fds: &mut Vec<Fd>) -> (r: Result<usize, &'static str>) {
        let ghost me = self;
        let ghost b0 = buf@;
        let mut n: usize = 0;
        n = n + ser_at(self.id, buf, n, fds);
        assert(fds@ =~= old(fds)@ + me.ser_fds());
        Ok(n)
    }

    proof fn lemma_fits(&self, cap: int) {
        self.id.lemma_fits(cap - (0));
    }
}

impl DeepView for create_region {
    type V = (<new_id<crate::wl_region::Obj> as DeepView>::V,);

    open spec fn deep_view(&self) -> (<new_id<crate::wl_region::Obj> as DeepView>::V,) {
        (self.id.deep_view(),)
    }
}

impl Dsr for create_region {
    open spec fn dsr_spec(buf: Seq<u8>, fds: Seq<Fd>) -> Decoded<(<new_id<crate::wl_region::Obj> as DeepView>::V,)> {
        match <new_id<crate::wl_region::Obj>>::dsr_spec(buf, fds) {
            Decoded::Value(id, n0, q0) => Decoded::Value((id,), n0, q0),
            d => d.fail(),
        }
    }

    fn try_deserialize(buf: &[u8], fds: &mut Vec<Fd>) -> (r: Option<Result<(create_region, usize), &'static str>>) {
        let mut n: usize = 0;
        let rest = &buf[n..buf.len()];
        assert(rest@ =~= buf@.skip(n as int));
        assert(n == 0 ==> rest@ =~= buf@);
        let (id, m) = match <new_id<crate::wl_region::Obj>>::try_deserialize(rest, fds) {
            Some(Ok(p)) => p,
            Some(Err(e)) => return Some(Err(e)),
            None => return None,
        };
        n = n + m;
        Some(Ok((create_region { id }, n)))
    }
}

impl Codec for create_region {
    open spec fn rt_ok(&self) -> bool {
        &&& self.id.rt_ok()
    }

    proof fn lemma_roundtrip(&self, tail: Seq<u8>, base: Seq<Fd>) {
        let b0 = self.id.ser_bytes();
        let d0 = self.id.ser_fds();
        let s1 = tail;
        let s0 = b0 + s1;
        let buf = self.ser_bytes() + tail;
        assert(buf =~= s0);
        assert(buf.skip(0) =~= s0);
        assert(self.ser_fds() =~= Seq::<Fd>::empty());
        assert(base + self.ser_fds().reverse() =~= base);
        assert(d0 =~= Seq::<Fd>::empty());
        assert(base + d0.reverse() =~= base);
        self.id.lemma_roundtrip(s1, base);
    }
}

impl create_region {
    /// The arguments are read in the protocol's order, `id`: the bytes
    /// and descriptors written for such arguments, one after the other,
    /// decode to exactly those arguments.
    pub proof fn lemma_layout(id: new_id<crate::wl_region::Obj>, rest: Seq<u8>, queue: Seq<Fd>)
        requires
            id.ser_ok(),
            id.rt_ok(),
            id.ser_bytes().len() <= usize::MAX,
        ensures
            ({
                let bytes = id.ser_bytes();
                let fds = id.ser_fds();
                create_region::dsr_spec(bytes + rest, queue + fds.reverse()) == Decoded::Value(
                    (id.deep_view(),),
                    bytes.len(),
                    queue,
                )
            }),
    {
        let m = create_region { id };
        m.lemma_roundtrip(rest, queue);
    }

    /// The object the message creates is the one its `id` argument names,
    /// with the destructor of that argument's interface.
    pub proof fn lemma_creates(&self)
        ensures
            self.created_id() == Some(self.id.0),
            self.created_destructor() == <crate::wl_region::Obj as Object>::destructor_op(),
    {
    }
}

impl Msg<Obj> for create_region {
    open spec fn opcode() -> u16 {
        1
    }

    open spec fn since_version() -> u32 {
        1
    }

    open spec fn created_id(&self) -> Option<u32> {
        Some(self.id.0)
    }

    open spec fn created_destructor(&self) -> Option<u16> {
        crate::wl_region::Obj::destructor_op()
    }

    fn op() -> (r: u16) {
        1
    }

    fn since() -> u32 {
        1
    }

    fn new_id(&self) -> (r: Option<(u32, ObjMeta)>) {
        let id = self.id.0;
        let meta = ObjMeta {
            alive: true,
            destructor: crate::wl_region::Obj::destructor(),
            type_id: type_id_of::<crate::wl_region::Obj>(),
        };
        Some((id, meta))
    }
}

impl Request<Obj> for create_region {

}

/// The opcode of each request: its index in the protocol's list of the
/// interface's requests, so that no two requests share one.
pub proof fn lemma_opcodes()
    ensures
        <create_surface as Msg<Obj>>::opcode() == 0,
        <create_region as Msg<Obj>>::opcode() == 1,
        <create_surface as Msg<Obj>>::opcode() != <create_region as Msg<Obj>>::opcode(),
        <Obj as Object>::destructor_op() is None,
{
}

} // verus!
