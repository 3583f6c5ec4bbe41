use vstd::prelude::*;
use crate::objects::{type_id_of, new_id, object, Dyn, ObjMeta, Object, Msg, Event};
use crate::wire::{ser_at, write_at, lemma_write_then, lemma_reverse_add, lemma_skip_step, fixed, Codec, Decoded, Dsr, Fd, Ser};
use super::Obj;

verus! {

/// fatal error event
///
/// The error event is sent out when a fatal (non-recoverable)
/// error has occurred.  The object_id argument is the object
/// where the error occurred, most often in response to a request
/// to that object.  The code identifies the error and is defined
/// by the object interface.  As such, each interface defines its
/// own set of error codes.  The message is a brief description
/// of the error, for (debugging) convenience.
///
#[derive(Debug)]
pub struct error {
    // object where the error occurred
    pub object_id: object<()>,
    // error code
    pub code: u32,
    // error description
    pub message: String,
}

impl Ser for error {
    open spec fn ser_ok(&self) -> bool {
        &&& self.object_id.ser_ok()
        &&& self.code.ser_ok()
        &&& self.message.ser_ok()
        &&& self.ser_bytes().len() <= usize::MAX
    }

    open spec fn ser_bytes(&self) -> Seq<u8> {
        self.object_id.ser_bytes() + self.code.ser_bytes() + self.message.ser_bytes()
    }

    open spec fn ser_fds(&self) -> Seq<Fd> {
        self.object_id.ser_fds() + self.code.ser_fds() + self.message.ser_fds()
    }

    fn wire_len(&self) -> (n: usize) {
        self.object_id.wire_len() + self.code.wire_len() + self.message.wire_len()
    }

    fn checked_len(&self) -> (r: Option<usize>) {
        let n0 = match self.object_id.checked_len() {
            Some(m) => m,
            None => return None,
        };
        let n1 = match self.code.checked_len() {
            Some(m) => match n0.checked_add(m) {
                Some(t) => t,
                None => return None,
            },
            None => return None,
        };
        let n2 = match self.message.checked_len() {
            Some(m) => match n1.checked_add(m) {
                Some(t) => t,
                None => return None,
            },
            None => return None,
        };
        Some(n2)
    }

    open spec fn ser_fits(&self, cap: int) -> bool {
        &&& 0 <= cap && self.object_id.ser_fits(cap - (0))
        &&& self.object_id.ser_bytes().len() <= cap && self.code.ser_fits(cap - (self.object_id.ser_bytes().len()))
        &&& self.object_id.ser_bytes().len() + self.code.ser_bytes().len() <= cap && self.message.ser_fits(cap - (self.object_id.ser_bytes().len() + self.code.ser_bytes().len()))
    }

    fn serialize(self, buf: &mut [u8], fds: &mut Vec<Fd>) -> (r: Result<usize, &'static str>) {
        let ghost me = self;
        let ghost b0 = buf@;
        let mut n: usize = 0;
        n = n + ser_at(self.object_id, buf, n, fds);
        assert(fds@ =~= old(fds)@ + me.object_id.ser_fds());
        n = n + ser_at(self.code, buf, n, fds);
        proof {
            lemma_write_then(b0, 0, me.object_id.ser_bytes(), me.code.ser_bytes());
        }
        assert(fds@ =~= old(fds)@ + me.object_id.ser_fds() + me.code.ser_fds());
        n = n + ser_at(self.message, buf, n, fds);
        proof {
            lemma_write_then(b0, 0, me.object_id.ser_bytes() + me.code.ser_bytes(), me.message.ser_bytes());
        }
        assert(fds@ =~= old(fds)@ + me.ser_fds());
        Ok(n)
    }

    proof fn lemma_fits(&self, cap: int) {
        self.object_id.lemma_fits(cap - (0));
        self.code.lemma_fits(cap - (self.object_id.ser_bytes().len()));
        self.message.lemma_fits(cap - (self.object_id.ser_bytes().len() + self.code.ser_bytes().len()));
    }
}

impl DeepView for error {
    type V = (<object<()> as DeepView>::V, <u32 as DeepView>::V, <String as DeepView>::V,);

    open spec fn deep_view(&self) -> (<object<()> as DeepView>::V, <u32 as DeepView>::V, <String as DeepView>::V,) {
        (self.object_id.deep_view(), self.code.deep_view(), self.message.deep_view(),)
    }
}

impl Dsr for error {
    open spec fn dsr_spec(buf: Seq<u8>, fds: Seq<Fd>) -> Decoded<(<object<()> as DeepView>::V, <u32 as DeepView>::V, <String as DeepView>::V,)> {
        match <object<()>>::dsr_spec(buf, fds) {
            Decoded::Value(object_id, n0, q0) => {
                match <u32>::dsr_spec(buf.skip(n0 as int), q0) {
                    Decoded::Value(code, m1, q1) => {
                        let n1 = n0 + m1;
                        match <String>::dsr_spec(buf.skip(n1 as int), q1) {
                            Decoded::Value(message, m2, q2) => {
                                let n2 = n1 + m2;
                                Decoded::Value((object_id, code, message,), n2, q2)
                            },
                            d => d.fail(),
                        }
                    },
                    d => d.fail(),
                }
            },
            d => d.fail(),
        }
    }

    fn try_deserialize(buf: &[u8], fds: &mut Vec<Fd>) -> (r: Option<Result<(error, usize), &'static str>>) {
        let mut n: usize = 0;
        let rest = &buf[n..buf.len()];
        assert(rest@ =~= buf@.skip(n as int));
        assert(n == 0 ==> rest@ =~= buf@);
        let (object_id, m) = match <object<()>>::try_deserialize(rest, fds) {
            Some(Ok(p)) => p,
            Some(Err(e)) => return Some(Err(e)),
            None => return None,
        };
        n = n + m;
        let rest = &buf[n..buf.len()];
        assert(rest@ =~= buf@.skip(n as int));
        assert(n == 0 ==> rest@ =~= buf@);
        let (code, m) = match <u32>::try_deserialize(rest, fds) {
            Some(Ok(p)) => p,
            Some(Err(e)) => return Some(Err(e)),
            None => return None,
        };
        n = n + m;
        let rest = &buf[n..buf.len()];
        assert(rest@ =~= buf@.skip(n as int));
        assert(n == 0 ==> rest@ =~= buf@);
        let (message, m) = match <String>::try_deserialize(rest, fds) {
            Some(Ok(p)) => p,
            Some(Err(e)) => return Some(Err(e)),
            None => return None,
        };
        n = n + m;
        Some(Ok((error { object_id, code, message }, n)))
    }
}

impl Codec for error {
    open spec fn rt_ok(&self) -> bool {
        &&& self.object_id.rt_ok()
        &&& self.code.rt_ok()
        &&& self.message.rt_ok()
    }

    proof fn lemma_roundtrip(&self, tail: Seq<u8>, base: Seq<Fd>) {
        let b0 = self.object_id.ser_bytes();
        let b1 = self.code.ser_bytes();
        let b2 = self.message.ser_bytes();
        let d0 = self.object_id.ser_fds();
        let d1 = self.code.ser_fds();
        let d2 = self.message.ser_fds();
        let s3 = tail;
        let s2 = b2 + s3;
        let s1 = b1 + s2;
        let s0 = b0 + s1;
        let buf = self.ser_bytes() + tail;
        assert(buf =~= s0);
        assert(buf.skip(0) =~= s0);
        assert(self.ser_fds() =~= Seq::<Fd>::empty());
        assert(base + self.ser_fds().reverse() =~= base);
        assert(d0 =~= Seq::<Fd>::empty());
        assert(base + d0.reverse() =~= base);
        self.object_id.lemma_roundtrip(s1, base);
        assert(buf.skip((b0.len()) as int) == s1) by {
            lemma_skip_step(buf, (0) as int, b0, s1);
        }
        assert(d1 =~= Seq::<Fd>::empty());
        assert(base + d1.reverse() =~= base);
        self.code.lemma_roundtrip(s2, base);
        assert(buf.skip((b0.len() + b1.len()) as int) == s2) by {
            lemma_skip_step(buf, (b0.len()) as int, b1, s2);
        }
        assert(d2 =~= Seq::<Fd>::empty());
        assert(base + d2.reverse() =~= base);
        self.message.lemma_roundtrip(s3, base);
    }
}

impl error {
    /// The arguments are read in the protocol's order, `object_id`, then `code`, then `message`: the bytes
    /// and descriptors written for such arguments, one after the other,
    /// decode to exactly those arguments.
    pub proof fn lemma_layout(object_id: object<()>, code: u32, message: String, rest: Seq<u8>, queue: Seq<Fd>)
        requires
            object_id.ser_ok(),
            object_id.rt_ok(),
            code.ser_ok(),
            code.rt_ok(),
            message.ser_ok(),
            message.rt_ok(),
            object_id.ser_bytes().len() + code.ser_bytes().len() + message.ser_bytes().len() <= usize::MAX,
        ensures
            ({
                let bytes = object_id.ser_bytes() + code.ser_bytes() + message.ser_bytes();
                let fds = object_id.ser_fds() + code.ser_fds() + message.ser_fds();
                error::dsr_spec(bytes + rest, queue + fds.reverse()) == Decoded::Value(
                    (object_id.deep_view(), code.deep_view(), message.deep_view(),),
                    bytes.len(),
                    queue,
                )
            }),
    {
        let m = error { object_id, code, message };
        m.lemma_roundtrip(rest, queue);
    }

    /// The message creates no object.
    pub proof fn lemma_creates(&self)
        ensures
            self.created_id() is None,
    {
    }
}

impl Msg<Obj> for error {
    open spec fn opcode() -> u16 {
        0
    }

    open spec fn since_version() -> u32 {
        1
    }

    open spec fn created_id(&self) -> Option<u32> {
        None
    }

    open spec fn created_destructor(&self) -> Option<u16> {
        None
    }

    fn op() -> (r: u16) {
        0
    }

    fn since() -> u32 {
        1
    }

    fn new_id(&self) -> (r: Option<(u32, ObjMeta)>) {
        None
    }
}

impl Event<Obj> for error {

}

/// acknowledge object ID deletion
///
/// This event is used internally by the object ID management
/// logic. When a client deletes an object that it had created,
/// the server will send this event to acknowledge that it has
/// seen the delete request. When the client receives this event,
/// it will know that it can safely reuse the object ID.
///
#[derive(Debug)]
pub struct delete_id {
    // deleted object ID
    pub id: u32,
}

impl Ser for delete_id {
    open spec fn ser_ok(&self) -> bool {
        &&& self.id.ser_ok()
        &&& self.ser_bytes().len() <= usize::MAX
    }

    open spec fn ser_bytes(&self) -> Seq<u8> {
        self.id.ser_bytes()
    }

    open spec fn ser_fds(&self) -> Seq<Fd> {
        self.id.ser_fds()
    }

    fn wire_len(&self) -> (n: usize) {
        self.id.wire_len()
    }

    fn checked_len(&self) -> (r: Option<usize>) {
        let n0 = match self.id.checked_len() {
            Some(m) => m,
            None => return None,
        };
        Some(n0)
    }

    open spec fn ser_fits(&self, cap: int) -> bool {
        &&& 0 <= cap && self.id.ser_fits(cap - (0))
    }

    fn serialize(self, buf: &mut [u8], fds: &mut Vec<Fd>) -> (r: Result<usize, &'static str>) {
        let ghost me = self;
        let ghost b0 = buf@;
        let mut n: usize = 0;
        n = n + ser_at(self.id, buf, n, fds);
        assert(fds@ =~= old(fds)@ + me.ser_fds());
        Ok(n)
    }

    proof fn lemma_fits(&self, cap: int) {
        self.id.lemma_fits(cap - (0));
    }
}

impl DeepView for delete_id {
    type V = (<u32 as DeepView>::V,);

    open spec fn deep_view(&self) -> (<u32 as DeepView>::V,) {
        (self.id.deep_view(),)
    }
}

impl Dsr for delete_id {
    open spec fn dsr_spec(buf: Seq<u8>, fds: Seq<Fd>) -> Decoded<(<u32 as DeepView>::V,)> {
        match <u32>::dsr_spec(buf, fds) {
            Decoded::Value(id, n0, q0) => Decoded::Value((id,), n0, q0),
            d => d.fail(),
        }
    }

    fn try_deserialize(buf: &[u8], fds: &mut Vec<Fd>) -> (r: Option<Result<(delete_id, usize), &'static str>>) {
        let mut n: usize = 0;
        let rest = &buf[n..buf.len()];
        assert(rest@ =~= buf@.skip(n as int));
        assert(n == 0 ==> rest@ =~= buf@);
        let (id, m) = match <u32>::try_deserialize(rest, fds) {
            Some(Ok(p)) => p,
            Some(Err(e)) => return Some(Err(e)),
            None => return None,
        };
        n = n + m;
        Some(Ok((delete_id { id }, n)))
    }
}

impl Codec for delete_id {
    open spec fn rt_ok(&self) -> bool {
        &&& self.id.rt_ok()
    }

    proof fn lemma_roundtrip(&self, tail: Seq<u8>, base: Seq<Fd>) {
        let b0 = self.id.ser_bytes();
        let d0 = self.id.ser_fds();
        let s1 = tail;
        let s0 = b0 + s1;
        let buf = self.ser_bytes() + tail;
        assert(buf =~= s0);
        assert(buf.skip(0) =~= s0);
        assert(self.ser_fds() =~= Seq::<Fd>::empty());
        assert(base + self.ser_fds().reverse() =~= base);
        assert(d0 =~= Seq::<Fd>::empty());
        assert(base + d0.reverse() =~= base);
        self.id.lemma_roundtrip(s1, base);
    }
}

impl delete_id {
    /// The arguments are read in the protocol's order, `id`: the bytes
    /// and descriptors written for such arguments, one after the other,
    /// decode to exactly those arguments.
    pub proof fn lemma_layout(id: u32, rest: Seq<u8>, queue: Seq<Fd>)
        requires
            id.ser_ok(),
            id.rt_ok(),
            id.ser_bytes().len() <= usize::MAX,
        ensures
            ({
                let bytes = id.ser_bytes();
                let fds = id.ser_fds();
                delete_id::dsr_spec(bytes + rest, queue + fds.reverse()) == Decoded::Value(
                    (id.deep_view(),),
                    bytes.len(),
                    queue,
                )
            }),
    {
        let m = delete_id { id };
        m.lemma_roundtrip(rest, queue);
    }

    /// The message creates no object.
    pub proof fn lemma_creates(&self)
        ensures
            self.created_id() is None,
    {
    }
}

impl Msg<Obj> for delete_id {
    open spec fn opcode() -> u16 {
        1
    }

    open spec fn since_version() -> u32 {
        1
    }

    open spec fn created_id(&self) -> Option<u32> {
        None
    }

    open spec fn created_destructor(&self) -> Option<u16> {
        None
    }

    fn op() -> (r: u16) {
        1
    }

    fn since() -> u32 {
        1
    }

    fn new_id(&self) -> (r: Option<(u32, ObjMeta)>) {
        None
    }
}

impl Event<Obj> for delete_id {

}

/// The opcode of each event: its index in the protocol's list of the
/// interface's events, so that no two events share one.
pub proof fn lemma_opcodes()
    ensures
        <error as Msg<Obj>>::opcode() == 0,
        <delete_id as Msg<Obj>>::opcode() == 1,
        <error as Msg<Obj>>::opcode() != <delete_id as Msg<Obj>>::opcode(),
{
}

} // verus!
