use vstd::prelude::*;
use crate::objects::{type_id_of, new_id, object, Dyn, ObjMeta, Object, Msg, Request};
use crate::wire::{ser_at, write_at, lemma_write_then, lemma_reverse_add, lemma_skip_step, fixed, Codec, Decoded, Dsr, Fd, Ser};
use super::Obj;

verus! {

/// create a layer_surface from a surface
///
/// Create a layer surface for an existing surface. This assigns the role of
/// layer_surface, or raises a protocol error if another role is already
/// assigned.
///
/// Creating a layer surface from a wl_surface which has a buffer attached
/// or committed is a client error, and any attempts by a client to attach
/// or manipulate a buffer prior to the first layer_surface.configure call
/// must also be treated as errors.
///
/// After creating a layer_surface object and setting it up, the client
/// must perform an initial commit without any buffer attached.
/// The compositor will reply with a layer_surface.configure event.
/// The client must acknowledge it and is then allowed to attach a buffer
/// to map the surface.
///
/// You may pass NULL for output to allow the compositor to decide which
/// output to use. Generally this will be the one that the user most
/// recently interacted with.
///
/// Clients can specify a namespace that defines the purpose of the layer
/// surface.
///
#[derive(Debug)]
pub struct get_layer_surface {
    //
    pub id: new_id<crate::zwlr_layer_surface_v1::Obj>,
    //
    pub surface: object<crate::wl_surface::Obj>,
    //
    pub output: Option<object<crate::wl_output::Obj>>,
    // layer to add this surface to
    pub layer: super::layer,
    // namespace for the layer surface
    pub namespace: String,
}

impl Ser for get_layer_surface {
    open spec fn ser_ok(&self) -> bool {
        &&& self.id.ser_ok()
        &&& self.surface.ser_ok()
        &&& self.output.ser_ok()
        &&& self.layer.ser_ok()
        &&& self.namespace.ser_ok()
        &&& self.ser_bytes().len() <= usize::MAX
    }

    open spec fn ser_bytes(&self) -> Seq<u8> {
        self.id.ser_bytes() + self.surface.ser_bytes() + self.output.ser_bytes() + self.layer.ser_bytes() + self.namespace.ser_bytes()
    }

    open spec fn ser_fds(&self) -> Seq<Fd> {
        self.id.ser_fds() + self.surface.ser_fds() + self.output.ser_fds() + self.layer.ser_fds() + self.namespace.ser_fds()
    }

    fn wire_len(&self) -> (n: usize) {
        self.id.wire_len() + self.surface.wire_len() + self.output.wire_len() + self.layer.wire_len() + self.namespace.wire_len()
    }

    fn checked_len(&self) -> (r: Option<usize>) {
        let n0 = match self.id.checked_len() {
            Some(m) => m,
            None => return None,
        };
        let n1 = match self.surface.checked_len() {
            Some(m) => match n0.checked_add(m) {
                Some(t) => t,
                None => return None,
            },
            None => return None,
        };
        let n2 = match self.output.checked_len() {
            Some(m) => match n1.checked_add(m) {
                Some(t) => t,
                None => return None,
            },
            None => return None,
        };
        let n3 = match self.layer.checked_len() {
            Some(m) => match n2.checked_add(m) {
                Some(t) => t,
                None => return None,
            },
            None => return None,
        };
        let n4 = match self.namespace.checked_len() {
            Some(m) => match n3.checked_add(m) {
                Some(t) => t,
                None => return None,
            },
            None => return None,
        };
        Some(n4)
    }

    open spec fn ser_fits(&self, cap: int) -> bool {
        &&& 0 <= cap && self.id.ser_fits(cap - (0))
        &&& self.id.ser_bytes().len() <= cap && self.surface.ser_fits(cap - (self.id.ser_bytes().len()))
        &&& self.id.ser_bytes().len() + self.surface.ser_bytes().len() <= cap && self.output.ser_fits(cap - (self.id.ser_bytes().len() + self.surface.ser_bytes().len()))
        &&& self.id.ser_bytes().len() + self.surface.ser_bytes().len() + self.output.ser_bytes().len() <= cap && self.layer.ser_fits(cap - (self.id.ser_bytes().len() + self.surface.ser_bytes().len() + self.output.ser_bytes().len()))
        &&& self.id.ser_bytes().len() + self.surface.ser_bytes().len() + self.output.ser_bytes().len() + self.layer.ser_bytes().len() <= cap && self.namespace.ser_fits(cap - (self.id.ser_bytes().len() + self.surface.ser_bytes().len() + self.output.ser_bytes().len() + self.layer.ser_bytes().len()))
    }

    fn serialize(self, buf: &mut [u8], fds: &mut Vec<Fd>) -> (r: Result<usize, &'static str>) {
        let ghost me = self;
        let ghost b0 = buf@;
        let mut n: usize = 0;
        n = n + ser_at(self.id, buf, n, fds);
        assert(fds@ =~= old(fds)@ + me.id.ser_fds());
        n = n + ser_at(self.surface, buf, n, fds);
        proof {
            lemma_write_then(b0, 0, me.id.ser_bytes(), me.surface.ser_bytes());
        }
        assert(fds@ =~= old(fds)@ + me.id.ser_fds() + me.surface.ser_fds());
        n = n + ser_at(self.output, buf, n, fds);
        proof {
            lemma_write_then(b0, 0, me.id.ser_bytes() + me.surface.ser_bytes(), me.output.ser_bytes());
        }
        assert(fds@ =~= old(fds)@ + me.id.ser_fds() + me.surface.ser_fds() + me.output.ser_fds());
        n = n + ser_at(self.layer, buf, n, fds);
        proof {
            lemma_write_then(b0, 0, me.id.ser_bytes() + me.surface.ser_bytes() + me.output.ser_bytes(), me.layer.ser_bytes());
        }
        assert(fds@ =~= old(fds)@ + me.id.ser_fds() + me.surface.ser_fds() + me.output.ser_fds() + me.layer.ser_fds());
        n = n + ser_at(self.namespace, buf, n, fds);
        proof {
            lemma_write_then(b0, 0, me.id.ser_bytes() + me.surface.ser_bytes() + me.output.ser_bytes() + me.layer.ser_bytes(), me.namespace.ser_bytes());
        }
        assert(fds@ =~= old(fds)@ + me.ser_fds());
        Ok(n)
    }

    proof fn lemma_fits(&self, cap: int) {
        self.id.lemma_fits(cap - (0));
        self.surface.lemma_fits(cap - (self.id.ser_bytes().len()));
        self.output.lemma_fits(cap - (self.id.ser_bytes().len() + self.surface.ser_bytes().len()));
        self.layer.lemma_fits(cap - (self.id.ser_bytes().len() + self.surface.ser_bytes().len() + self.output.ser_bytes().len()));
        self.namespace.lemma_fits(cap - (self.id.ser_bytes().len() + self.surface.ser_bytes().len() + self.output.ser_bytes().len() + self.layer.ser_bytes().len()));
    }
}

impl DeepView for get_layer_surface {
    type V = (<new_id<crate::zwlr_layer_surface_v1::Obj> as DeepView>::V, <object<crate::wl_surface::Obj> as DeepView>::V, <Option<object<crate::wl_output::Obj>> as DeepView>::V, <super::layer as DeepView>::V, <String as DeepView>::V,);

    open spec fn deep_view(&self) -> (<new_id<crate::zwlr_layer_surface_v1::Obj> as DeepView>::V, <object<crate::wl_surface::Obj> as DeepView>::V, <Option<object<crate::wl_output::Obj>> as DeepView>::V, <super::layer as DeepView>::V, <String as DeepView>::V,) {
        (self.id.deep_view(), self.surface.deep_view(), self.output.deep_view(), self.layer.deep_view(), self.namespace.deep_view(),)
    }
}

impl Dsr for get_layer_surface {
    open spec fn dsr_spec(buf: Seq<u8>, fds: Seq<Fd>) -> Decoded<(<new_id<crate::zwlr_layer_surface_v1::Obj> as DeepView>::V, <object<crate::wl_surface::Obj> as DeepView>::V, <Option<object<crate::wl_output::Obj>> as DeepView>::V, <super::layer as DeepView>::V, <String as DeepView>::V,)> {
        match <new_id<crate::zwlr_layer_surface_v1::Obj>>::dsr_spec(buf, fds) {
            Decoded::Value(id, n0, q0) => {
                match <object<crate::wl_surface::Obj>>::dsr_spec(buf.skip(n0 as int), q0) {
                    Decoded::Value(surface, m1, q1) => {
                        let n1 = n0 + m1;
                        match <Option<object<crate::wl_output::Obj>>>::dsr_spec(buf.skip(n1 as int), q1) {
                            Decoded::Value(output, m2, q2) => {
                                let n2 = n1 + m2;
                                match <super::layer>::dsr_spec(buf.skip(n2 as int), q2) {
                                    Decoded::Value(layer, m3, q3) => {
                                        let n3 = n2 + m3;
                                        match <String>::dsr_spec(buf.skip(n3 as int), q3) {
                                            Decoded::Value(namespace, m4, q4) => {
                                                let n4 = n3 + m4;
                                                Decoded::Value((id, surface, output, layer, namespace,), n4, q4)
                                            },
                                            d => d.fail(),
                                        }
                                    },
                                    d => d.fail(),
                                }
                            },
                            d => d.fail(),
                        }
                    },
                    d => d.fail(),
                }
            },
            d => d.fail(),
        }
    }

    fn try_deserialize(buf: &[u8], fds: &mut Vec<Fd>) -> (r: Option<Result<(get_layer_surface, usize), &'static str>>) {
        let mut n: usize = 0;
        let rest = &buf[n..buf.len()];
        assert(rest@ =~= buf@.skip(n as int));
        assert(n == 0 ==> rest@ =~= buf@);
        let (id, m) = match <new_id<crate::zwlr_layer_surface_v1::Obj>>::try_deserialize(rest, fds) {
            Some(Ok(p)) => p,
            Some(Err(e)) => return Some(Err(e)),
            None => return None,
        };
        n = n + m;
        let rest = &buf[n..buf.len()];
        assert(rest@ =~= buf@.skip(n as int));
        assert(n == 0 ==> rest@ =~= buf@);
        let (surface, m) = match <object<crate::wl_surface::Obj>>::try_deserialize(rest, fds) {
            Some(Ok(p)) => p,
            Some(Err(e)) => return Some(Err(e)),
            None => return None,
        };
        n = n + m;
        let rest = &buf[n..buf.len()];
        assert(rest@ =~= buf@.skip(n as int));
        assert(n == 0 ==> rest@ =~= buf@);
        let (output, m) = match <Option<object<crate::wl_output::Obj>>>::try_deserialize(rest, fds) {
            Some(Ok(p)) => p,
            Some(Err(e)) => return Some(Err(e)),
            None => return None,
        };
        n = n + m;
        let rest = &buf[n..buf.len()];
        assert(rest@ =~= buf@.skip(n as int));
        assert(n == 0 ==> rest@ =~= buf@);
        let (layer, m) = match <super::layer>::try_deserialize(rest, fds) {
            Some(Ok(p)) => p,
            Some(Err(e)) => return Some(Err(e)),
            None => return None,
        };
        n = n + m;
        let rest = &buf[n..buf.len()];
        assert(rest@ =~= buf@.skip(n as int));
        assert(n == 0 ==> rest@ =~= buf@);
        let (namespace, m) = match <String>::try_deserialize(rest, fds) {
            Some(Ok(p)) => p,
            Some(Err(e)) => return Some(Err(e)),
            None => return None,
        };
        n = n + m;
        Some(Ok((get_layer_surface { id, surface, output, layer, namespace }, n)))
    }
}

impl Codec for get_layer_surface {
    open spec fn rt_ok(&self) -> bool {
        &&& self.id.rt_ok()
        &&& self.surface.rt_ok()
        &&& self.output.rt_ok()
        &&& self.layer.rt_ok()
        &&& self.namespace.rt_ok()
    }

    proof fn lemma_roundtrip(&self, tail: Seq<u8>, base: Seq<Fd>) {
        let b0 = self.id.ser_bytes();
        let b1 = self.surface.ser_bytes();
        let b2 = self.output.ser_bytes();
        let b3 = self.layer.ser_bytes();
        let b4 = self.namespace.ser_bytes();
        let d0 = self.id.ser_fds();
        let d1 = self.surface.ser_fds();
        let d2 = self.output.ser_fds();
        let d3 = self.layer.ser_fds();
        let d4 = self.namespace.ser_fds();
        let s5 = tail;
        let s4 = b4 + s5;
        let s3 = b3 + s4;
        let s2 = b2 + s3;
        let s1 = b1 + s2;
        let s0 = b0 + s1;
        let buf = self.ser_bytes() + tail;
        assert(buf =~= s0);
        assert(buf.skip(0) =~= s0);
        assert(self.ser_fds() =~= Seq::<Fd>::empty());
        assert(base + self.ser_fds().reverse() =~= base);
        assert(d0 =~= Seq::<Fd>::empty());
        assert(base + d0.reverse() =~= base);
        self.id.lemma_roundtrip(s1, base);
        assert(buf.skip((b0.len()) as int) == s1) by {
            lemma_skip_step(buf, (0) as int, b0, s1);
        }
        assert(d1 =~= Seq::<Fd>::empty());
        assert(base + d1.reverse() =~= base);
        self.surface.lemma_roundtrip(s2, base);
        assert(buf.skip((b0.len() + b1.len()) as int) == s2) by {
            lemma_skip_step(buf, (b0.len()) as int, b1, s2);
        }
        assert(d2 =~= Seq::<Fd>::empty());
        assert(base + d2.reverse() =~= base);
        self.output.lemma_roundtrip(s3, base);
        assert(buf.skip((b0.len() + b1.len() + b2.len()) as int) == s3) by {
            lemma_skip_step(buf, (b0.len() + b1.len()) as int, b2, s3);
        }
        assert(d3 =~= Seq::<Fd>::empty());
        assert(base + d3.reverse() =~= base);
        self.layer.lemma_roundtrip(s4, base);
        assert(buf.skip((b0.len() + b1.len() + b2.len() + b3.len()) as int) == s4) by {
            lemma_skip_step(buf, (b0.len() + b1.len() + b2.len()) as int, b3, s4);
        }
        assert(d4 =~= Seq::<Fd>::empty());
        assert(base + d4.reverse() =~= base);
        self.namespace.lemma_roundtrip(s5, base);
    }
}

impl get_layer_surface {
    /// The arguments are read in the protocol's order, `id`, then `surface`, then `output`, then `layer`, then `namespace`: the bytes
    /// and descriptors written for such arguments, one after the other,
    /// decode to exactly those arguments.
    pub proof fn lemma_layout(id: new_id<crate::zwlr_layer_surface_v1::Obj>, surface: object<crate::wl_surface::Obj>, output: Option<object<crate::wl_output::Obj>>, layer: super::layer, namespace: String, rest: Seq<u8>, queue: Seq<Fd>)
        requires
            id.ser_ok(),
            id.rt_ok(),
            surface.ser_ok(),
            surface.rt_ok(),
            output.ser_ok(),
            output.rt_ok(),
            layer.ser_ok(),
            layer.rt_ok(),
            namespace.ser_ok(),
            namespace.rt_ok(),
            id.ser_bytes().len() + surface.ser_bytes().len() + output.ser_bytes().len() + layer.ser_bytes().len() + namespace.ser_bytes().len() <= usize::MAX,
        ensures
            ({
                let bytes = id.ser_bytes() + surface.ser_bytes() + output.ser_bytes() + layer.ser_bytes() + namespace.ser_bytes();
                let fds = id.ser_fds() + surface.ser_fds() + output.ser_fds() + layer.ser_fds() + namespace.ser_fds();
                get_layer_surface::dsr_spec(bytes + rest, queue + fds.reverse()) == Decoded::Value(
                    (id.deep_view(), surface.deep_view(), output.deep_view(), layer.deep_view(), namespace.deep_view(),),
                    bytes.len(),
                    queue,
                )
            }),
    {
        let m = get_layer_surface { id, surface, output, layer, namespace };
        m.lemma_roundtrip(rest, queue);
    }

    /// The object the message creates is the one its `id` argument names,
    /// with the destructor of that argument's interface.
    pub proof fn lemma_creates(&self)
        ensures
            self.created_id() == Some(self.id.0),
            self.created_destructor() == <crate::zwlr_layer_surface_v1::Obj as Object>::destructor_op(),
    {
    }
}

impl Msg<Obj> for get_layer_surface {
    open spec fn opcode() -> u16 {
        0
    }

    open spec fn since_version() -> u32 {
        1
    }

    open spec fn created_id(&self) -> Option<u32> {
        Some(self.id.0)
    }

    open spec fn created_destructor(&self) -> Option<u16> {
        crate::zwlr_layer_surface_v1::Obj::destructor_op()
    }

    fn op() -> (r: u16) {
        0
    }

    fn since() -> u32 {
        1
    }

    fn new_id(&self) -> (r: Option<(u32, ObjMeta)>) {
        let id = self.id.0;
        let meta = ObjMeta {
            alive: true,
            destructor: crate::zwlr_layer_surface_v1::Obj::destructor(),
            type_id: type_id_of::<crate::zwlr_layer_surface_v1::Obj>(),
        };
        Some((id, meta))
    }
}

impl Request<Obj> for get_layer_surface {

}

/// destroy the layer_shell object
///
/// This request indicates that the client will not use the layer_shell
/// object any more. Objects that have been created through this instance
/// are not affected.
///
#[derive(Debug)]
pub struct destroy {}

impl Ser for destroy {
    open spec fn ser_ok(&self) -> bool {
        true
    }

    open spec fn ser_bytes(&self) -> Seq<u8> {
        Seq::empty()
    }

    open spec fn ser_fds(&self) -> Seq<Fd> {
        Seq::empty()
    }

    fn wire_len(&self) -> (n: usize) {
        0
    }

    fn checked_len(&self) -> (r: Option<usize>) {
        Some(0)
    }

    open spec fn ser_fits(&self, cap: int) -> bool {
        true
    }

    fn serialize(self, buf: &mut [u8], fds: &mut Vec<Fd>) -> (r: Result<usize, &'static str>) {
        assert(buf@ =~= write_at(old(buf)@, 0, Seq::<u8>::empty()));
        assert(fds@ =~= old(fds)@ + Seq::<Fd>::empty());
        Ok(0)
    }

    proof fn lemma_fits(&self, cap: int) {
    }
}

impl DeepView for destroy {
    type V = ();

    open spec fn deep_view(&self) -> () {
        ()
    }
}

impl Dsr for destroy {
    open spec fn dsr_spec(buf: Seq<u8>, fds: Seq<Fd>) -> Decoded<()> {
        Decoded::Value((), 0, fds)
    }

    fn try_deserialize(buf: &[u8], fds: &mut Vec<Fd>) -> (r: Option<Result<(destroy, usize), &'static str>>) {
        Some(Ok((destroy {}, 0)))
    }
}

impl Codec for destroy {
    open spec fn rt_ok(&self) -> bool {
        true
    }

    proof fn lemma_roundtrip(&self, tail: Seq<u8>, base: Seq<Fd>) {
        assert(Seq::<Fd>::empty().reverse() =~= Seq::<Fd>::empty());
        assert(base + Seq::<Fd>::empty() =~= base);
    }
}

impl destroy {
    /// The arguments are read in the protocol's order, no arguments: the bytes
    /// and descriptors written for such arguments, one after the other,
    /// decode to exactly those arguments.
    pub proof fn lemma_layout(rest: Seq<u8>, queue: Seq<Fd>)
        ensures
            ({
                let bytes = Seq::<u8>::empty();
                let fds = Seq::<Fd>::empty();
                destroy::dsr_spec(bytes + rest, queue + fds.reverse()) == Decoded::Value(
                    (),
                    bytes.len(),
                    queue,
                )
            }),
    {
        let m = destroy {};
        m.lemma_roundtrip(rest, queue);
    }

    /// The message creates no object.
    pub proof fn lemma_creates(&self)
        ensures
            self.created_id() is None,
    {
    }
}

impl Msg<Obj> for destroy {
    open spec fn opcode() -> u16 {
        1
    }

    open spec fn since_version() -> u32 {
        1
    }

    open spec fn created_id(&self) -> Option<u32> {
        None
    }

    open spec fn created_destructor(&self) -> Option<u16> {
        None
    }

    fn op() -> (r: u16) {
        1
    }

    fn since() -> u32 {
        1
    }

    fn new_id(&self) -> (r: Option<(u32, ObjMeta)>) {
        None
    }
}

impl Request<Obj> for destroy {

}

/// The opcode of each request: its index in the protocol's list of the
/// interface's requests, so that no two requests share one.
pub proof fn lemma_opcodes()
    ensures
        <get_layer_surface as Msg<Obj>>::opcode() == 0,
        <destroy as Msg<Obj>>::opcode() == 1,
        <get_layer_surface as Msg<Obj>>::opcode() != <destroy as Msg<Obj>>::opcode(),
        <Obj as Object>::destructor_op() == Some(<destroy as Msg<Obj>>::opcode()),
{
}

} // verus!
