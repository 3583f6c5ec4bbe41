use vstd::prelude::*;
use crate::objects::{type_id_of, new_id, object, Dyn, ObjMeta, Object, Msg, Event};
use crate::wire::{ser_at, write_at, lemma_write_then, lemma_reverse_add, lemma_skip_step, fixed, Codec, Decoded, Dsr, Fd, Ser};
use super::Obj;

verus! {

/// announce global object
///
/// Notify the client of global objects.
///
/// The event notifies the client that a global object with
/// the given name is now available, and it implements the
/// given version of the given interface.
///
#[derive(Debug)]
pub struct global {
    // numeric name of the global object
    pub name: u32,
    // interface implemented by the object
    pub interface: String,
    // interface version
    pub version: u32,
}

impl Ser for global {
    open spec fn ser_ok(&self) -> bool {
        &&& self.name.ser_ok()
        &&& self.interface.ser_ok()
        &&& self.version.ser_ok()
        &&& self.ser_bytes().len() <= usize::MAX
    }

    open spec fn ser_bytes(&self) -> Seq<u8> {
        self.name.ser_bytes() + self.interface.ser_bytes() + self.version.ser_bytes()
    }

    open spec fn ser_fds(&self) -> Seq<Fd> {
        self.name.ser_fds() + self.interface.ser_fds() + self.version.ser_fds()
    }

    fn wire_len(&self) -> (n: usize) {
        self.name.wire_len() + self.interface.wire_len() + self.version.wire_len()
    }

    fn checked_len(&self) -> (r: Option<usize>) {
        let n0 = match self.name.checked_len() {
            Some(m) => m,
            None => return None,
        };
        let n1 = match self.interface.checked_len() {
            Some(m) => match n0.checked_add(m) {
                Some(t) => t,
                None => return None,
            },
            None => return None,
        };
        let n2 = match self.version.checked_len() {
            Some(m) => match n1.checked_add(m) {
                Some(t) => t,
                None => return None,
            },
            None => return None,
        };
        Some(n2)
    }

    open spec fn ser_fits(&self, cap: int) -> bool {
        &&& 0 <= cap && self.name.ser_fits(cap - (0))
        &&& self.name.ser_bytes().len() <= cap && self.interface.ser_fits(cap - (self.name.ser_bytes().len()))
        &&& self.name.ser_bytes().len() + self.interface.ser_bytes().len() <= cap && self.version.ser_fits(cap - (self.name.ser_bytes().len() + self.interface.ser_bytes().len()))
    }

    fn serialize(self, buf: &mut [u8], fds: &mut Vec<Fd>) -> (r: Result<usize, &'static str>) {
        let ghost me = self;
        let ghost b0 = buf@;
        let mut n: usize = 0;
        n = n + ser_at(self.name, buf, n, fds);
        assert(fds@ =~= old(fds)@ + me.name.ser_fds());
        n = n + ser_at(self.interface, buf, n, fds);
        proof {
            lemma_write_then(b0, 0, me.name.ser_bytes(), me.interface.ser_bytes());
        }
        assert(fds@ =~= old(fds)@ + me.name.ser_fds() + me.interface.ser_fds());
        n = n + ser_at(self.version, buf, n, fds);
        proof {
            lemma_write_then(b0, 0, me.name.ser_bytes() + me.interface.ser_bytes(), me.version.ser_bytes());
        }
        assert(fds@ =~= old(fds)@ + me.ser_fds());
        Ok(n)
    }

    proof fn lemma_fits(&self, cap: int) {
        self.name.lemma_fits(cap - (0));
        self.interface.lemma_fits(cap - (self.name.ser_bytes().len()));
        self.version.lemma_fits(cap - (self.name.ser_bytes().len() + self.interface.ser_bytes().len()));
    }
}

impl DeepView for global {
    type V = (<u32 as DeepView>::V, <String as DeepView>::V, <u32 as DeepView>::V,);

    open spec fn deep_view(&self) -> (<u32 as DeepView>::V, <String as DeepView>::V, <u32 as DeepView>::V,) {
        (self.name.deep_view(), self.interface.deep_view(), self.version.deep_view(),)
    }
}

impl Dsr for global {
    open spec fn dsr_spec(buf: Seq<u8>, fds: Seq<Fd>) -> Decoded<(<u32 as DeepView>::V, <String as DeepView>::V, <u32 as DeepView>::V,)> {
        match <u32>::dsr_spec(buf, fds) {
            Decoded::Value(name, n0, q0) => {
                match <String>::dsr_spec(buf.skip(n0 as int), q0) {
                    Decoded::Value(interface, m1, q1) => {
                        let n1 = n0 + m1;
                        match <u32>::dsr_spec(buf.skip(n1 as int), q1) {
                            Decoded::Value(version, m2, q2) => {
                                let n2 = n1 + m2;
                                Decoded::Value((name, interface, version,), n2, q2)
                            },
                            d => d.fail(),
                        }
                    },
                    d => d.fail(),
                }
            },
            d => d.fail(),
        }
    }

    fn try_deserialize(buf: &[u8], fds: &mut Vec<Fd>) -> (r: Option<Result<(global, usize), &'static str>>) {
        let mut n: usize = 0;
        let rest = &buf[n..buf.len()];
        assert(rest@ =~= buf@.skip(n as int));
        assert(n == 0 ==> rest@ =~= buf@);
        let (name, m) = match <u32>::try_deserialize(rest, fds) {
            Some(Ok(p)) => p,
            Some(Err(e)) => return Some(Err(e)),
            None => return None,
        };
        n = n + m;
        let rest = &buf[n..buf.len()];
        assert(rest@ =~= buf@.skip(n as int));
        assert(n == 0 ==> rest@ =~= buf@);
        let (interface, m) = match <String>::try_deserialize(rest, fds) {
            Some(Ok(p)) => p,
            Some(Err(e)) => return Some(Err(e)),
            None => return None,
        };
        n = n + m;
        let rest = &buf[n..buf.len()];
        assert(rest@ =~= buf@.skip(n as int));
        assert(n == 0 ==> rest@ =~= buf@);
        let (version, m) = match <u32>::try_deserialize(rest, fds) {
            Some(Ok(p)) => p,
            Some(Err(e)) => return Some(Err(e)),
            None => return None,
        };
        n = n + m;
        Some(Ok((global { name, interface, version }, n)))
    }
}

impl Codec for global {
    open spec fn rt_ok(&self) -> bool {
        &&& self.name.rt_ok()
        &&& self.interface.rt_ok()
        &&& self.version.rt_ok()
    }

    proof fn lemma_roundtrip(&self, tail: Seq<u8>, base: Seq<Fd>) {
        let b0 = self.name.ser_bytes();
        let b1 = self.interface.ser_bytes();
        let b2 = self.version.ser_bytes();
        let d0 = self.name.ser_fds();
        let d1 = self.interface.ser_fds();
        let d2 = self.version.ser_fds();
        let s3 = tail;
        let s2 = b2 + s3;
        let s1 = b1 + s2;
        let s0 = b0 + s1;
        let buf = self.ser_bytes() + tail;
        assert(buf =~= s0);
        assert(buf.skip(0) =~= s0);
        assert(self.ser_fds() =~= Seq::<Fd>::empty());
        assert(base + self.ser_fds().reverse() =~= base);
        assert(d0 =~= Seq::<Fd>::empty());
        assert(base + d0.reverse() =~= base);
        self.name.lemma_roundtrip(s1, base);
        assert(buf.skip((b0.len()) as int) == s1) by {
            lemma_skip_step(buf, (0) as int, b0, s1);
        }
        assert(d1 =~= Seq::<Fd>::empty());
        assert(base + d1.reverse() =~= base);
        self.interface.lemma_roundtrip(s2, base);
        assert(buf.skip((b0.len() + b1.len()) as int) == s2) by {
            lemma_skip_step(buf, (b0.len()) as int, b1, s2);
        }
        assert(d2 =~= Seq::<Fd>::empty());
        assert(base + d2.reverse() =~= base);
        self.version.lemma_roundtrip(s3, base);
    }
}

impl global {
    /// The arguments are read in the protocol's order, `name`, then `interface`, then `version`: the bytes
    /// and descriptors written for such arguments, one after the other,
    /// decode to exactly those arguments.
    pub proof fn lemma_layout(name: u32, interface: String, version: u32, rest: Seq<u8>, queue: Seq<Fd>)
        requires
            name.ser_ok(),
            name.rt_ok(),
            interface.ser_ok(),
            interface.rt_ok(),
            version.ser_ok(),
            version.rt_ok(),
            name.ser_bytes().len() + interface.ser_bytes().len() + version.ser_bytes().len() <= usize::MAX,
        ensures
            ({
                let bytes = name.ser_bytes() + interface.ser_bytes() + version.ser_bytes();
                let fds = name.ser_fds() + interface.ser_fds() + version.ser_fds();
                global::dsr_spec(bytes + rest, queue + fds.reverse()) == Decoded::Value(
                    (name.deep_view(), interface.deep_view(), version.deep_view(),),
                    bytes.len(),
                    queue,
                )
            }),
    {
        let m = global { name, interface, version };
        m.lemma_roundtrip(rest, queue);
    }

    /// The message creates no object.
    pub proof fn lemma_creates(&self)
        ensures
            self.created_id() is None,
    {
    }
}

impl Msg<Obj> for global {
    open spec fn opcode() -> u16 {
        0
    }

    open spec fn since_version() -> u32 {
        1
    }

    open spec fn created_id(&self) -> Option<u32> {
        None
    }

    open spec fn created_destructor(&self) -> Option<u16> {
        None
    }

    fn op() -> (r: u16) {
        0
    }

    fn since() -> u32 {
        1
    }

    fn new_id(&self) -> (r: Option<(u32, ObjMeta)>) {
        None
    }
}

impl Event<Obj> for global {

}

/// announce removal of global object
///
/// Notify the client of removed global objects.
///
/// This event notifies the client that the global identified
/// by name is no longer available.  If the client bound to
/// the global using the bind request, the client should now
/// destroy that object.
///
/// The object remains valid and requests to the object will be
/// ignored until the client destroys it, to avoid races between
/// the global going away and a client sending a request to it.
///
#[derive(Debug)]
pub struct global_remove {
    // numeric name of the global object
    pub name: u32,
}

impl Ser for global_remove {
    open spec fn ser_ok(&self) -> bool {
        &&& self.name.ser_ok()
        &&& self.ser_bytes().len() <= usize::MAX
    }

    open spec fn ser_bytes(&self) -> Seq<u8> {
        self.name.ser_bytes()
    }

    open spec fn ser_fds(&self) -> Seq<Fd> {
        self.name.ser_fds()
    }

    fn wire_len(&self) -> (n: usize) {
        self.name.wire_len()
    }

    fn checked_len(&self) -> (r: Option<usize>) {
        let n0 = match self.name.checked_len() {
            Some(m) => m,
            None => return None,
        };
        Some(n0)
    }

    open spec fn ser_fits(&self, cap: int) -> bool {
        &&& 0 <= cap && self.name.ser_fits(cap - (0))
    }

    fn serialize(self, buf: &mut [u8], fds: &mut Vec<Fd>) -> (r: Result<usize, &'static str>) {
        let ghost me = self;
        let ghost b0 = buf@;
        let mut n: usize = 0;
        n = n + ser_at(self.name, buf, n, fds);
        assert(fds@ =~= old(fds)@ + me.ser_fds());
        Ok(n)
    }

    proof fn lemma_fits(&self, cap: int) {
        self.name.lemma_fits(cap - (0));
    }
}

impl DeepView for global_remove {
    type V = (<u32 as DeepView>::V,);

    open spec fn deep_view(&self) -> (<u32 as DeepView>::V,) {
        (self.name.deep_view(),)
    }
}

impl Dsr for global_remove {
    open spec fn dsr_spec(buf: Seq<u8>, fds: Seq<Fd>) -> Decoded<(<u32 as DeepView>::V,)> {
        match <u32>::dsr_spec(buf, fds) {
            Decoded::Value(name, n0, q0) => Decoded::Value((name,), n0, q0),
            d => d.fail(),
        }
    }

    fn try_deserialize(buf: &[u8], fds: &mut Vec<Fd>) -> (r: Option<Result<(global_remove, usize), &'static str>>) {
        let mut n: usize = 0;
        let rest = &buf[n..buf.len()];
        assert(rest@ =~= buf@.skip(n as int));
        assert(n == 0 ==> rest@ =~= buf@);
        let (name, m) = match <u32>::try_deserialize(rest, fds) {
            Some(Ok(p)) => p,
            Some(Err(e)) => return Some(Err(e)),
            None => return None,
        };
        n = n + m;
        Some(Ok((global_remove { name }, n)))
    }
}

impl Codec for global_remove {
    open spec fn rt_ok(&self) -> bool {
        &&& self.name.rt_ok()
    }

    proof fn lemma_roundtrip(&self, tail: Seq<u8>, base: Seq<Fd>) {
        let b0 = self.name.ser_bytes();
        let d0 = self.name.ser_fds();
        let s1 = tail;
        let s0 = b0 + s1;
        let buf = self.ser_bytes() + tail;
        assert(buf =~= s0);
        assert(buf.skip(0) =~= s0);
        assert(self.ser_fds() =~= Seq::<Fd>::empty());
        assert(base + self.ser_fds().reverse() =~= base);
        assert(d0 =~= Seq::<Fd>::empty());
        assert(base + d0.reverse() =~= base);
        self.name.lemma_roundtrip(s1, base);
    }
}

impl global_remove {
    /// The arguments are read in the protocol's order, `name`: the bytes
    /// and descriptors written for such arguments, one after the other,
    /// decode to exactly those arguments.
    pub proof fn lemma_layout(name: u32, rest: Seq<u8>, queue: Seq<Fd>)
        requires
            name.ser_ok(),
            name.rt_ok(),
            name.ser_bytes().len() <= usize::MAX,
        ensures
            ({
                let bytes = name.ser_bytes();
                let fds = name.ser_fds();
                global_remove::dsr_spec(bytes + rest, queue + fds.reverse()) == Decoded::Value(
                    (name.deep_view(),),
                    bytes.len(),
                    queue,
                )
            }),
    {
        let m = global_remove { name };
        m.lemma_roundtrip(rest, queue);
    }

    /// The message creates no object.
    pub proof fn lemma_creates(&self)
        ensures
            self.created_id() is None,
    {
    }
}

impl Msg<Obj> for global_remove {
    open spec fn opcode() -> u16 {
        1
    }

    open spec fn since_version() -> u32 {
        1
    }

    open spec fn created_id(&self) -> Option<u32> {
        None
    }

    open spec fn created_destructor(&self) -> Option<u16> {
        None
    }

    fn op() -> (r: u16) {
        1
    }

    fn since() -> u32 {
        1
    }

    fn new_id(&self) -> (r: Option<(u32, ObjMeta)>) {
        None
    }
}

impl Event<Obj> for global_remove {

}

/// The opcode of each event: its index in the protocol's list of the
/// interface's events, so that no two events share one.
pub proof fn lemma_opcodes()
    ensures
        <global as Msg<Obj>>::opcode() == 0,
        <global_remove as Msg<Obj>>::opcode() == 1,
        <global as Msg<Obj>>::opcode() != <global_remove as Msg<Obj>>::opcode(),
{
}

} // verus!
