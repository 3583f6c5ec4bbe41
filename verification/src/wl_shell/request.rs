use vstd::prelude::*;
use crate::objects::{type_id_of, new_id, object, Dyn, ObjMeta, Object, Msg, Request};
use crate::wire::{ser_at, write_at, lemma_write_then, lemma_reverse_add, lemma_skip_step, fixed, Codec, Decoded, Dsr, Fd, Ser};
use super::Obj;

verus! {

/// create a shell surface from a surface
///
/// Create a shell surface for an existing surface. This gives
/// the wl_surface the role of a shell surface. If the wl_surface
/// already has another role, it raises a protocol error.
///
/// Only one shell surface can be associated with a given surface.
///
#[derive(Debug)]
pub struct get_shell_surface {
    // shell surface to create
    pub id: new_id<crate::wl_shell_surface::Obj>,
    // surface to be given the shell surface role
    pub surface: object<crate::wl_surface::Obj>,
}

impl Ser for get_shell_surface {
    open spec fn ser_ok(&self) -> bool {
        &&& self.id.ser_ok()
        &&& self.surface.ser_ok()
        &&& self.ser_bytes().len() <= usize::MAX
    }

    open spec fn ser_bytes(&self) -> Seq<u8> {
        self.id.ser_bytes() + self.surface.ser_bytes()
    }

    open spec fn ser_fds(&self) -> Seq<Fd> {
        self.id.ser_fds() + self.surface.ser_fds()
    }

    fn wire_len(&self) -> (n: usize) {
        self.id.wire_len() + self.surface.wire_len()
    }

    fn checked_len(&self) -> (r: Option<usize>) {
        let n0 = match self.id.checked_len() {
            Some(m) => m,
            None => return None,
        };
        let n1 = match self.surface.checked_len() {
            Some(m) => match n0.checked_add(m) {
                Some(t) => t,
                None => return None,
            },
            None => return None,
        };
        Some(n1)
    }

    open spec fn ser_fits(&self, cap: int) -> bool {
        &&& 0 <= cap && self.id.ser_fits(cap - (0))
        &&& self.id.ser_bytes().len() <= cap && self.surface.ser_fits(cap - (self.id.ser_bytes().len()))
    }

    fn serialize(self, buf: &mut [u8], fds: &mut Vec<Fd>) -> (r: Result<usize, &'static str>) {
        let ghost me = self;
        let ghost b0 = buf@;
        let mut n: usize = 0;
        n = n + ser_at(self.id, buf, n, fds);
        assert(fds@ =~= old(fds)@ + me.id.ser_fds());
        n = n + ser_at(self.surface, buf, n, fds);
        proof {
            lemma_write_then(b0, 0, me.id.ser_bytes(), me.surface.ser_bytes());
        }
        assert(fds@ =~= old(fds)@ + me.ser_fds());
        Ok(n)
    }

    proof fn lemma_fits(&self, cap: int) {
        self.id.lemma_fits(cap - (0));
        self.surface.lemma_fits(cap - (self.id.ser_bytes().len()));
    }
}

impl DeepView for get_shell_surface {
    type V = (<new_id<crate::wl_shell_surface::Obj> as DeepView>::V, <object<crate::wl_surface::Obj> as DeepView>::V,);

    open spec fn deep_view(&self) -> (<new_id<crate::wl_shell_surface::Obj> as DeepView>::V, <object<crate::wl_surface::Obj> as DeepView>::V,) {
        (self.id.deep_view(), self.surface.deep_view(),)
    }
}

impl Dsr for get_shell_surface {
    open spec fn dsr_spec(buf: Seq<u8>, fds: Seq<Fd>) -> Decoded<(<new_id<crate::wl_shell_surface::Obj> as DeepView>::V, <object<crate::wl_surface::Obj> as DeepView>::V,)> {
        match <new_id<crate::wl_shell_surface::Obj>>::dsr_spec(buf, fds) {
            Decoded::Value(id, n0, q0) => {
                match <object<crate::wl_surface::Obj>>::dsr_spec(buf.skip(n0 as int), q0) {
                    Decoded::Value(surface, m1, q1) => {
                        let n1 = n0 + m1;
                        Decoded::Value((id, surface,), n1, q1)
                    },
                    d => d.fail(),
                }
            },
            d => d.fail(),
        }
    }

    fn try_deserialize(buf: &[u8], fds: &mut Vec<Fd>) -> (r: Option<Result<(get_shell_surface, usize), &'static str>>) {
        let mut n: usize = 0;
        let rest = &buf[n..buf.len()];
        assert(rest@ =~= buf@.skip(n as int));
        assert(n == 0 ==> rest@ =~= buf@);
        let (id, m) = match <new_id<crate::wl_shell_surface::Obj>>::try_deserialize(rest, fds) {
            Some(Ok(p)) => p,
            Some(Err(e)) => return Some(Err(e)),
            None => return None,
        };
        n = n + m;
        let rest = &buf[n..buf.len()];
        assert(rest@ =~= buf@.skip(n as int));
        assert(n == 0 ==> rest@ =~= buf@);
        let (surface, m) = match <object<crate::wl_surface::Obj>>::try_deserialize(rest, fds) {
            Some(Ok(p)) => p,
            Some(Err(e)) => return Some(Err(e)),
            None => return None,
        };
        n = n + m;
        Some(Ok((get_shell_surface { id, surface }, n)))
    }
}

impl Codec for get_shell_surface {
    open spec fn rt_ok(&self) -> bool {
        &&& self.id.rt_ok()
        &&& self.surface.rt_ok()
    }

    proof fn lemma_roundtrip(&self, tail: Seq<u8>, base: Seq<Fd>) {
        let b0 = self.id.ser_bytes();
        let b1 = self.surface.ser_bytes();
        let d0 = self.id.ser_fds();
        let d1 = self.surface.ser_fds();
        let s2 = tail;
        let s1 = b1 + s2;
        let s0 = b0 + s1;
        let buf = self.ser_bytes() + tail;
        assert(buf =~= s0);
        assert(buf.skip(0) =~= s0);
        assert(self.ser_fds() =~= Seq::<Fd>::empty());
        assert(base + self.ser_fds().reverse() =~= base);
        assert(d0 =~= Seq::<Fd>::empty());
        assert(base + d0.reverse() =~= base);
        self.id.lemma_roundtrip(s1, base);
        assert(buf.skip((b0.len()) as int) == s1) by {
            lemma_skip_step(buf, (0) as int, b0, s1);
        }
        assert(d1 =~= Seq::<Fd>::empty());
        assert(base + d1.reverse() =~= base);
        self.surface.lemma_roundtrip(s2, base);
    }
}

impl get_shell_surface {
    /// The arguments are read in the protocol's order, `id`, then `surface`: the bytes
    /// and descriptors written for such arguments, one after the other,
    /// decode to exactly those arguments.
    pub proof fn lemma_layout(id: new_id<crate::wl_shell_surface::Obj>, surface: object<crate::wl_surface::Obj>, rest: Seq<u8>, queue: Seq<Fd>)
        requires
            id.ser_ok(),
            id.rt_ok(),
            surface.ser_ok(),
            surface.rt_ok(),
            id.ser_bytes().len() + surface.ser_bytes().len() <= usize::MAX,
        ensures
            ({
                let bytes = id.ser_bytes() + surface.ser_bytes();
                let fds = id.ser_fds() + surface.ser_fds();
                get_shell_surface::dsr_spec(bytes + rest, queue + fds.reverse()) == Decoded::Value(
                    (id.deep_view(), surface.deep_view(),),
                    bytes.len(),
                    queue,
                )
            }),
    {
        let m = get_shell_surface { id, surface };
        m.lemma_roundtrip(rest, queue);
    }

    /// The object the message creates is the one its `id` argument names,
    /// with the destructor of that argument's interface.
    pub proof fn lemma_creates(&self)
        ensures
            self.created_id() == Some(self.id.0),
            self.created_destructor() == <crate::wl_shell_surface::Obj as Object>::destructor_op(),
    {
    }
}

impl Msg<Obj> for get_shell_surface {
    open spec fn opcode() -> u16 {
        0
    }

    open spec fn since_version() -> u32 {
        1
    }

    open spec fn created_id(&self) -> Option<u32> {
        Some(self.id.0)
    }

    open spec fn created_destructor(&self) -> Option<u16> {
        crate::wl_shell_surface::Obj::destructor_op()
    }

    fn op() -> (r: u16) {
        0
    }

    fn since() -> u32 {
        1
    }

    fn new_id(&self) -> (r: Option<(u32, ObjMeta)>) {
        let id = self.id.0;
        let meta = ObjMeta {
            alive: true,
            destructor: crate::wl_shell_surface::Obj::destructor(),
            type_id: type_id_of::<crate::wl_shell_surface::Obj>(),
        };
        Some((id, meta))
    }
}

impl Request<Obj> for get_shell_surface {

}

/// The opcode of each request: its index in the protocol's list of the
/// interface's requests, so that no two requests share one.
pub proof fn lemma_opcodes()
    ensures
        <get_shell_surface as Msg<Obj>>::opcode() == 0,
        <Obj as Object>::destructor_op() is None,
{
}

} // verus!
