use vstd::prelude::*;
use crate::wire::{u32_wire, lemma_u32_wire, ser_at, write_at, lemma_write_then, Codec, Decoded, Dsr, Fd, Ser};

verus! {

/// `std::any::TypeId`, the identity of a Rust type.
#[verifier::external_type_specification]
#[verifier::external_body]
pub struct ExTypeId(std::any::TypeId);

/// `std::any::TypeId::of`: the identity of the type `T`. Nothing is stated of
/// the value; the library only stores it.
#[verifier::external_body]
pub fn type_id_of<T: ?Sized + 'static>() -> std::any::TypeId {
    std::any::TypeId::of::<T>()
}

/// A reference to a protocol object: its id and its interface.
#[derive(Debug, Clone, Copy)]
pub struct object<T>(pub u32, pub T);

/// An object id that a message creates, with the interface of the new object.
#[derive(Debug, Clone, Copy)]
pub struct new_id<T>(pub u32, pub T);

/// An object of an interface named at run time, with the version asked for.
#[derive(Debug, Clone)]
pub struct Dyn {
    pub name: String,
    pub version: u32,
}

/// What the client keeps about each object id it knows.
pub struct ObjMeta {
    pub alive: bool,
    pub destructor: Option<u16>,
    pub type_id: std::any::TypeId,
}

/// An interface of the protocol: a unit type that stands for it.
pub trait Object: Codec + Sized + 'static {
    /// The interface's protocol name.
    spec fn interface_name() -> Seq<char>;

    /// Opcode of the request that destroys an object of this interface, if any.
    spec fn destructor_op() -> Option<u16>;

    fn new_obj() -> Self;

    /// The interface, named at run time, with the given version.
    fn new_dyn(version: u32) -> (d: Dyn)
        ensures
            d.name@ == Self::interface_name(),
            d.version == version,
    ;

    fn destructor() -> (r: Option<u16>)
        ensures
            r == Self::destructor_op(),
    ;

    /// The interface value carries nothing on the wire.
    proof fn lemma_unit(&self, buf: Seq<u8>, fds: Seq<Fd>)
        ensures
            self.ser_ok(),
            self.rt_ok(),
            self.ser_bytes() == Seq::<u8>::empty(),
            self.ser_fds() == Seq::<Fd>::empty(),
            Self::dsr_spec(buf, fds) matches Decoded::Value(v, n, left) && v == self.deep_view() && n == 0
                && left == fds,
    ;
}

/// A message of interface `T`.
pub trait Msg<T>: Codec {
    /// The message's opcode within its interface.
    spec fn opcode() -> u16;

    /// Interface version that introduced the message.
    spec fn since_version() -> u32;

    /// Id of the object that the message creates, if it creates one.
    spec fn created_id(&self) -> Option<u32>;

    /// Destructor opcode of the interface of the object that the message creates.
    spec fn created_destructor(&self) -> Option<u16>;

    fn op() -> (r: u16)
        ensures
            r == Self::opcode(),
    ;

    /// Interface version that introduced the message.
    fn since() -> (r: u32)
        ensures
            r == Self::since_version(),
    ;

    /// The object the message creates, with what the client keeps about it.
    fn new_id(&self) -> (r: Option<(u32, ObjMeta)>)
        ensures
            r is Some <==> self.created_id() is Some,
            r matches Some((id, meta)) ==> self.created_id() == Some(id) && meta.alive
                && meta.destructor == self.created_destructor(),
    ;
}

/// A message that the client sends on an object of interface `T`.
pub trait Request<T>: Msg<T> {

}

/// A message that the client receives on an object of interface `T`.
pub trait Event<T>: Msg<T> {

}

impl<T> new_id<T> {
    /// The created object as a plain reference.
    pub fn to_object(self) -> (r: object<T>)
        ensures
            r.0 == self.0,
            r.1 == self.1,
    {
        object(self.0, self.1)
    }
}

impl<T: Object> object<T> {
    /// The same object, its interface named at run time with `version`.
    pub fn to_dyn(self, version: u32) -> (r: object<Dyn>)
        ensures
            r.0 == self.0,
            r.1.name@ == T::interface_name(),
            r.1.version == version,
    {
        object(self.0, T::new_dyn(version))
    }
}

impl<T: Object> new_id<T> {
    /// The same new object, its interface named at run time with `version`.
    pub fn to_dyn(self, version: u32) -> (r: new_id<Dyn>)
        ensures
            r.0 == self.0,
            r.1.name@ == T::interface_name(),
            r.1.version == version,
    {
        new_id(self.0, T::new_dyn(version))
    }
}

impl<T: DeepView> DeepView for object<T> {
    type V = (u32, T::V);

    open spec fn deep_view(&self) -> (u32, T::V) {
        (self.0, self.1.deep_view())
    }
}

impl<T: Ser> Ser for object<T> {
    open spec fn ser_ok(&self) -> bool {
        self.1.ser_ok() && self.1.ser_bytes().len() + 4 <= usize::MAX
    }

    open spec fn ser_bytes(&self) -> Seq<u8> {
        self.1.ser_bytes() + u32_wire(self.0)
    }

    open spec fn ser_fds(&self) -> Seq<Fd> {
        self.1.ser_fds()
    }

    fn wire_len(&self) -> (n: usize) {
        self.1.wire_len() + 4
    }

    fn checked_len(&self) -> (r: Option<usize>) {
        match self.1.checked_len() {
            Some(n) => n.checked_add(4),
            None => None,
        }
    }

    open spec fn ser_fits(&self, cap: int) -> bool {
        self.1.ser_fits(cap) && self.1.ser_bytes().len() <= cap
    }

    fn serialize(self, buf: &mut [u8], fds: &mut Vec<Fd>) -> (r: Result<usize, &'static str>) {
        let ghost me = self;
        let ghost b0 = buf@;
        let id = self.0;
        let n = ser_at(self.1, buf, 0, fds);
        let m = ser_at(id, buf, n, fds);
        proof {
            lemma_write_then(b0, 0, me.1.ser_bytes(), u32_wire(id));
        }
        assert(fds@ =~= old(fds)@ + me.ser_fds());
        Ok(n + m)
    }

    proof fn lemma_fits(&self, cap: int) {
        self.1.lemma_fits(cap);
    }
}

impl<T: Dsr> Dsr for object<T> {
    open spec fn dsr_spec(buf: Seq<u8>, fds: Seq<Fd>) -> Decoded<(u32, T::V)> {
        match T::dsr_spec(buf, fds) {
            Decoded::Value(v, m, left) => match u32::dsr_spec(buf.skip(m as int), left) {
                Decoded::Value(n, len, left2) => if n == 0 {
                    Decoded::Failure("null object where none was expected", left2)
                } else {
                    Decoded::Value((n, v), len + m, left2)
                },
                Decoded::Failure(e, left2) => Decoded::Failure(e, left2),
                Decoded::Undefined => Decoded::Undefined,
            },
            Decoded::Failure(e, left) => Decoded::Failure(e, left),
            Decoded::Undefined => Decoded::Undefined,
        }
    }

    fn try_deserialize(buf: &[u8], fds: &mut Vec<Fd>) -> (r: Option<Result<(object<T>, usize), &'static str>>) {
        let (v, m) = match T::try_deserialize(buf, fds) {
            Some(Ok(p)) => p,
            Some(Err(e)) => return Some(Err(e)),
            None => return None,
        };
        let rest = &buf[m..buf.len()];
        assert(rest@ =~= buf@.skip(m as int));
        let (n, len) = match u32::try_deserialize(rest, fds) {
            Some(Ok(p)) => p,
            Some(Err(e)) => return Some(Err(e)),
            None => return None,
        };
        if n == 0 {
            Some(Err("null object where none was expected"))
        } else {
            Some(Ok((object(n, v), len + m)))
        }
    }
}

impl<T: Codec> Codec for object<T> {
    open spec fn rt_ok(&self) -> bool {
        self.0 != 0 && self.1.rt_ok()
    }

    proof fn lemma_roundtrip(&self, tail: Seq<u8>, base: Seq<Fd>) {
        let tb = self.1.ser_bytes();
        let iw = u32_wire(self.0);
        assert((tb + iw) + tail =~= tb + (iw + tail));
        self.1.lemma_roundtrip(iw + tail, base);
        assert(((tb + iw) + tail).skip(tb.len() as int) =~= iw + tail);
        lemma_u32_wire(self.0);
    }
}

impl<T: DeepView> DeepView for new_id<T> {
    type V = (u32, T::V);

    open spec fn deep_view(&self) -> (u32, T::V) {
        (self.0, self.1.deep_view())
    }
}

impl<T: Ser> Ser for new_id<T> {
    open spec fn ser_ok(&self) -> bool {
        self.1.ser_ok() && self.1.ser_bytes().len() + 4 <= usize::MAX
    }

    open spec fn ser_bytes(&self) -> Seq<u8> {
        self.1.ser_bytes() + u32_wire(self.0)
    }

    open spec fn ser_fds(&self) -> Seq<Fd> {
        self.1.ser_fds()
    }

    fn wire_len(&self) -> (n: usize) {
        self.1.wire_len() + 4
    }

    fn checked_len(&self) -> (r: Option<usize>) {
        match self.1.checked_len() {
            Some(n) => n.checked_add(4),
            None => None,
        }
    }

    open spec fn ser_fits(&self, cap: int) -> bool {
        self.1.ser_fits(cap) && self.1.ser_bytes().len() <= cap
    }

    fn serialize(self, buf: &mut [u8], fds: &mut Vec<Fd>) -> (r: Result<usize, &'static str>) {
        let ghost me = self;
        let ghost b0 = buf@;
        let id = self.0;
        let n = ser_at(self.1, buf, 0, fds);
        let m = ser_at(id, buf, n, fds);
        proof {
            lemma_write_then(b0, 0, me.1.ser_bytes(), u32_wire(id));
        }
        assert(fds@ =~= old(fds)@ + me.ser_fds());
        Ok(n + m)
    }

    proof fn lemma_fits(&self, cap: int) {
        self.1.lemma_fits(cap);
    }
}

impl<T: Dsr> Dsr for new_id<T> {
    open spec fn dsr_spec(buf: Seq<u8>, fds: Seq<Fd>) -> Decoded<(u32, T::V)> {
        match T::dsr_spec(buf, fds) {
            Decoded::Value(v, m, left) => match u32::dsr_spec(buf.skip(m as int), left) {
                Decoded::Value(n, len, left2) => if n == 0 {
                    Decoded::Failure("null object where none was expected", left2)
                } else {
                    Decoded::Value((n, v), len + m, left2)
                },
                Decoded::Failure(e, left2) => Decoded::Failure(e, left2),
                Decoded::Undefined => Decoded::Undefined,
            },
            Decoded::Failure(e, left) => Decoded::Failure(e, left),
            Decoded::Undefined => Decoded::Undefined,
        }
    }

    fn try_deserialize(buf: &[u8], fds: &mut Vec<Fd>) -> (r: Option<Result<(new_id<T>, usize), &'static str>>) {
        let (v, m) = match T::try_deserialize(buf, fds) {
            Some(Ok(p)) => p,
            Some(Err(e)) => return Some(Err(e)),
            None => return None,
        };
        let rest = &buf[m..buf.len()];
        assert(rest@ =~= buf@.skip(m as int));
        let (n, len) = match u32::try_deserialize(rest, fds) {
            Some(Ok(p)) => p,
            Some(Err(e)) => return Some(Err(e)),
            None => return None,
        };
        if n == 0 {
            Some(Err("null object where none was expected"))
        } else {
            Some(Ok((new_id(n, v), len + m)))
        }
    }
}

impl<T: Codec> Codec for new_id<T> {
    open spec fn rt_ok(&self) -> bool {
        self.0 != 0 && self.1.rt_ok()
    }

    proof fn lemma_roundtrip(&self, tail: Seq<u8>, base: Seq<Fd>) {
        let tb = self.1.ser_bytes();
        let iw = u32_wire(self.0);
        assert((tb + iw) + tail =~= tb + (iw + tail));
        self.1.lemma_roundtrip(iw + tail, base);
        assert(((tb + iw) + tail).skip(tb.len() as int) =~= iw + tail);
        lemma_u32_wire(self.0);
    }
}

impl<T: Object> Ser for Option<object<T>> {
    open spec fn ser_ok(&self) -> bool {
        true
    }

    open spec fn ser_bytes(&self) -> Seq<u8> {
        match self {
            Some(o) => u32_wire(o.0),
            None => u32_wire(0),
        }
    }

    open spec fn ser_fds(&self) -> Seq<Fd> {
        Seq::empty()
    }

    fn wire_len(&self) -> (n: usize) {
        4
    }

    fn checked_len(&self) -> (r: Option<usize>) {
        Some(4)
    }

    open spec fn ser_fits(&self, cap: int) -> bool {
        true
    }

    fn serialize(self, buf: &mut [u8], fds: &mut Vec<Fd>) -> (r: Result<usize, &'static str>) {
        match self {
            Some(obj) => obj.0.serialize(buf, fds),
            None => 0u32.serialize(buf, fds),
        }
    }

    proof fn lemma_fits(&self, cap: int) {
    }
}

impl<T: Object> Dsr for Option<object<T>> {
    open spec fn dsr_spec(buf: Seq<u8>, fds: Seq<Fd>) -> Decoded<Option<(u32, T::V)>> {
        match u32::dsr_spec(buf, fds) {
            Decoded::Value(n, len, left) => if n == 0 {
                Decoded::Value(None, len, left)
            } else {
                match T::dsr_spec(buf, left) {
                    Decoded::Value(v, m, left2) => Decoded::Value(Some((n, v)), len + m, left2),
                    Decoded::Failure(e, left2) => Decoded::Failure(e, left2),
                    Decoded::Undefined => Decoded::Undefined,
                }
            },
            Decoded::Failure(e, left) => Decoded::Failure(e, left),
            Decoded::Undefined => Decoded::Undefined,
        }
    }

    fn try_deserialize(buf: &[u8], fds: &mut Vec<Fd>) -> (r: Option<Result<(Option<object<T>>, usize), &'static str>>) {
        let (n, len) = match u32::try_deserialize(buf, fds) {
            Some(Ok(p)) => p,
            Some(Err(e)) => return Some(Err(e)),
            None => return None,
        };
        if n == 0 {
            Some(Ok((None, len)))
        } else {
            let (v, m) = match T::try_deserialize(buf, fds) {
                Some(Ok(p)) => p,
                Some(Err(e)) => return Some(Err(e)),
                None => return None,
            };
            proof {
                v.lemma_unit(buf@, old(fds)@);
            }
            let r = Some(object(n, v));
            assert(r.deep_view() == Some((n, v.deep_view())));
            Some(Ok((r, len + m)))
        }
    }
}

impl<T: Object> Codec for Option<object<T>> {
    open spec fn rt_ok(&self) -> bool {
        self matches Some(o) ==> o.0 != 0
    }

    proof fn lemma_roundtrip(&self, tail: Seq<u8>, base: Seq<Fd>) {
        assert(Seq::<Fd>::empty().reverse() =~= Seq::<Fd>::empty());
        assert(base + Seq::<Fd>::empty() =~= base);
        match self {
            Some(o) => {
                lemma_u32_wire(o.0);
                let buf = u32_wire(o.0) + tail;
                o.1.lemma_unit(buf, base);
            },
            None => {
                lemma_u32_wire(0);
            },
        }
    }
}

impl DeepView for Dyn {
    type V = (Seq<char>, u32);

    open spec fn deep_view(&self) -> (Seq<char>, u32) {
        (self.name@, self.version)
    }
}

impl Ser for Dyn {
    open spec fn ser_ok(&self) -> bool {
        self.name.ser_ok() && self.name.ser_bytes().len() + 4 <= usize::MAX
    }

    open spec fn ser_bytes(&self) -> Seq<u8> {
        self.name.ser_bytes() + u32_wire(self.version)
    }

    open spec fn ser_fds(&self) -> Seq<Fd> {
        Seq::empty()
    }

    fn wire_len(&self) -> (n: usize) {
        self.name.wire_len() + 4
    }

    fn checked_len(&self) -> (r: Option<usize>) {
        match self.name.checked_len() {
            Some(n) => n.checked_add(4),
            None => None,
        }
    }

    open spec fn ser_fits(&self, cap: int) -> bool {
        self.name.ser_fits(cap) && self.name.ser_bytes().len() <= cap
    }

    fn serialize(self, buf: &mut [u8], fds: &mut Vec<Fd>) -> (r: Result<usize, &'static str>) {
        let ghost me = self;
        let ghost b0 = buf@;
        let version = self.version;
        let n = ser_at(self.name, buf, 0, fds);
        let m = ser_at(version, buf, n, fds);
        proof {
            lemma_write_then(b0, 0, me.name.ser_bytes(), u32_wire(version));
        }
        assert(fds@ =~= old(fds)@ + me.ser_fds());
        Ok(n + m)
    }

    proof fn lemma_fits(&self, cap: int) {
        self.name.lemma_fits(cap);
    }
}

impl Dsr for Dyn {
    open spec fn dsr_spec(buf: Seq<u8>, fds: Seq<Fd>) -> Decoded<(Seq<char>, u32)> {
        match String::dsr_spec(buf, fds) {
            Decoded::Value(name, n, left) => match u32::dsr_spec(buf.skip(n as int), left) {
                Decoded::Value(version, m, left2) => Decoded::Value((name, version), n + m, left2),
                Decoded::Failure(e, left2) => Decoded::Failure(e, left2),
                Decoded::Undefined => Decoded::Undefined,
            },
            Decoded::Failure(e, left) => Decoded::Failure(e, left),
            Decoded::Undefined => Decoded::Undefined,
        }
    }

    fn try_deserialize(buf: &[u8], fds: &mut Vec<Fd>) -> (r: Option<Result<(Dyn, usize), &'static str>>) {
        let (name, n) = match String::try_deserialize(buf, fds) {
            Some(Ok(p)) => p,
            Some(Err(e)) => return Some(Err(e)),
            None => return None,
        };
        let rest = &buf[n..buf.len()];
        assert(rest@ =~= buf@.skip(n as int));
        let (version, m) = match u32::try_deserialize(rest, fds) {
            Some(Ok(p)) => p,
            Some(Err(e)) => return Some(Err(e)),
            None => return None,
        };
        Some(Ok((Dyn { name, version }, n + m)))
    }
}

impl Codec for Dyn {
    open spec fn rt_ok(&self) -> bool {
        self.name.rt_ok()
    }

    proof fn lemma_roundtrip(&self, tail: Seq<u8>, base: Seq<Fd>) {
        let nb = self.name.ser_bytes();
        let vw = u32_wire(self.version);
        assert((nb + vw) + tail =~= nb + (vw + tail));
        self.name.lemma_roundtrip(vw + tail, base);
        assert(((nb + vw) + tail).skip(nb.len() as int) =~= vw + tail);
        lemma_u32_wire(self.version);
        assert(Seq::<Fd>::empty().reverse() =~= Seq::<Fd>::empty());
        assert(base + Seq::<Fd>::empty() =~= base);
    }
}

impl Ser for () {
    open spec fn ser_ok(&self) -> bool {
        true
    }

    open spec fn ser_bytes(&self) -> Seq<u8> {
        Seq::empty()
    }

    open spec fn ser_fds(&self) -> Seq<Fd> {
        Seq::empty()
    }

    fn wire_len(&self) -> (n: usize) {
        0
    }

    fn checked_len(&self) -> (r: Option<usize>) {
        Some(0)
    }

    open spec fn ser_fits(&self, cap: int) -> bool {
        true
    }

    fn serialize(self, buf: &mut [u8], fds: &mut Vec<Fd>) -> (r: Result<usize, &'static str>) {
        assert(buf@ =~= write_at(old(buf)@, 0, Seq::<u8>::empty()));
        assert(fds@ =~= old(fds)@ + Seq::<Fd>::empty());
        Ok(0)
    }

    proof fn lemma_fits(&self, cap: int) {
    }
}

impl Dsr for () {
    open spec fn dsr_spec(buf: Seq<u8>, fds: Seq<Fd>) -> Decoded<()> {
        Decoded::Value((), 0, fds)
    }

    fn try_deserialize(buf: &[u8], fds: &mut Vec<Fd>) -> (r: Option<Result<((), usize), &'static str>>) {
        Some(Ok(((), 0)))
    }
}

impl Codec for () {
    open spec fn rt_ok(&self) -> bool {
        true
    }

    proof fn lemma_roundtrip(&self, tail: Seq<u8>, base: Seq<Fd>) {
        assert(Seq::<Fd>::empty().reverse() =~= Seq::<Fd>::empty());
        assert(base + Seq::<Fd>::empty() =~= base);
    }
}

} // verus!
