use vstd::prelude::*;
use crate::objects::{type_id_of, new_id, object, Dyn, ObjMeta, Object, Msg, Request};
use crate::wire::{ser_at, write_at, lemma_write_then, lemma_reverse_add, lemma_skip_step, fixed, Codec, Decoded, Dsr, Fd, Ser};
use super::Obj;

verus! {

/// accept one of the offered mime types
///
/// Indicate that the client can accept the given mime type, or
/// NULL for not accepted.
///
/// For objects of version 2 or older, this request is used by the
/// client to give feedback whether the client can receive the given
/// mime type, or NULL if none is accepted; the feedback does not
/// determine whether the drag-and-drop operation succeeds or not.
///
/// For objects of version 3 or newer, this request determines the
/// final result of the drag-and-drop operation. If the end result
/// is that no mime types were accepted, the drag-and-drop operation
/// will be cancelled and the corresponding drag source will receive
/// wl_data_source.cancelled. Clients may still use this event in
/// conjunction with wl_data_source.action for feedback.
///
#[derive(Debug)]
pub struct accept {
    // serial number of the accept request
    pub serial: u32,
    // mime type accepted by the client
    pub mime_type: String,
}

impl Ser for accept {
    open spec fn ser_ok(&self) -> bool {
        &&& self.serial.ser_ok()
        &&& self.mime_type.ser_ok()
        &&& self.ser_bytes().len() <= usize::MAX
    }

    open spec fn ser_bytes(&self) -> Seq<u8> {
        self.serial.ser_bytes() + self.mime_type.ser_bytes()
    }

    open spec fn ser_fds(&self) -> Seq<Fd> {
        self.serial.ser_fds() + self.mime_type.ser_fds()
    }

    fn wire_len(&self) -> (n: usize) {
        self.serial.wire_len() + self.mime_type.wire_len()
    }

    fn checked_len(&self) -> (r: Option<usize>) {
        let n0 = match self.serial.checked_len() {
            Some(m) => m,
            None => return None,
        };
        let n1 = match self.mime_type.checked_len() {
            Some(m) => match n0.checked_add(m) {
                Some(t) => t,
                None => return None,
            },
            None => return None,
        };
        Some(n1)
    }

    open spec fn ser_fits(&self, cap: int) -> bool {
        &&& 0 <= cap && self.serial.ser_fits(cap - (0))
        &&& self.serial.ser_bytes().len() <= cap && self.mime_type.ser_fits(cap - (self.serial.ser_bytes().len()))
    }

    fn serialize(self, buf: &mut [u8], fds: &mut Vec<Fd>) -> (r: Result<usize, &'static str>) {
        let ghost me = self;
        let ghost b0 = buf@;
        let mut n: usize = 0;
        n = n + ser_at(self.serial, buf, n, fds);
        assert(fds@ =~= old(fds)@ + me.serial.ser_fds());
        n = n + ser_at(self.mime_type, buf, n, fds);
        proof {
            lemma_write_then(b0, 0, me.serial.ser_bytes(), me.mime_type.ser_bytes());
        }
        assert(fds@ =~= old(fds)@ + me.ser_fds());
        Ok(n)
    }

    proof fn lemma_fits(&self, cap: int) {
        self.serial.lemma_fits(cap - (0));
        self.mime_type.lemma_fits(cap - (self.serial.ser_bytes().len()));
    }
}

impl DeepView for accept {
    type V = (<u32 as DeepView>::V, <String as DeepView>::V,);

    open spec fn deep_view(&self) -> (<u32 as DeepView>::V, <String as DeepView>::V,) {
        (self.serial.deep_view(), self.mime_type.deep_view(),)
    }
}

impl Dsr for accept {
    open spec fn dsr_spec(buf: Seq<u8>, fds: Seq<Fd>) -> Decoded<(<u32 as DeepView>::V, <String as DeepView>::V,)> {
        match <u32>::dsr_spec(buf, fds) {
            Decoded::Value(serial, n0, q0) => {
                match <String>::dsr_spec(buf.skip(n0 as int), q0) {
                    Decoded::Value(mime_type, m1, q1) => {
                        let n1 = n0 + m1;
                        Decoded::Value((serial, mime_type,), n1, q1)
                    },
                    d => d.fail(),
                }
            },
            d => d.fail(),
        }
    }

    fn try_deserialize(buf: &[u8], fds: &mut Vec<Fd>) -> (r: Option<Result<(accept, usize), &'static str>>) {
        let mut n: usize = 0;
        let rest = &buf[n..buf.len()];
        assert(rest@ =~= buf@.skip(n as int));
        assert(n == 0 ==> rest@ =~= buf@);
        let (serial, m) = match <u32>::try_deserialize(rest, fds) {
            Some(Ok(p)) => p,
            Some(Err(e)) => return Some(Err(e)),
            None => return None,
        };
        n = n + m;
        let rest = &buf[n..buf.len()];
        assert(rest@ =~= buf@.skip(n as int));
        assert(n == 0 ==> rest@ =~= buf@);
        let (mime_type, m) = match <String>::try_deserialize(rest, fds) {
            Some(Ok(p)) => p,
            Some(Err(e)) => return Some(Err(e)),
            None => return None,
        };
        n = n + m;
        Some(Ok((accept { serial, mime_type }, n)))
    }
}

impl Codec for accept {
    open spec fn rt_ok(&self) -> bool {
        &&& self.serial.rt_ok()
        &&& self.mime_type.rt_ok()
    }

    proof fn lemma_roundtrip(&self, tail: Seq<u8>, base: Seq<Fd>) {
        let b0 = self.serial.ser_bytes();
        let b1 = self.mime_type.ser_bytes();
        let d0 = self.serial.ser_fds();
        let d1 = self.mime_type.ser_fds();
        let s2 = tail;
        let s1 = b1 + s2;
        let s0 = b0 + s1;
        let buf = self.ser_bytes() + tail;
        assert(buf =~= s0);
        assert(buf.skip(0) =~= s0);
        assert(self.ser_fds() =~= Seq::<Fd>::empty());
        assert(base + self.ser_fds().reverse() =~= base);
        assert(d0 =~= Seq::<Fd>::empty());
        assert(base + d0.reverse() =~= base);
        self.serial.lemma_roundtrip(s1, base);
        assert(buf.skip((b0.len()) as int) == s1) by {
            lemma_skip_step(buf, (0) as int, b0, s1);
        }
        assert(d1 =~= Seq::<Fd>::empty());
        assert(base + d1.reverse() =~= base);
        self.mime_type.lemma_roundtrip(s2, base);
    }
}

impl accept {
    /// The arguments are read in the protocol's order, `serial`, then `mime_type`: the bytes
    /// and descriptors written for such arguments, one after the other,
    /// decode to exactly those arguments.
    pub proof fn lemma_layout(serial: u32, mime_type: String, rest: Seq<u8>, queue: Seq<Fd>)
        requires
            serial.ser_ok(),
            serial.rt_ok(),
            mime_type.ser_ok(),
            mime_type.rt_ok(),
            serial.ser_bytes().len() + mime_type.ser_bytes().len() <= usize::MAX,
        ensures
            ({
                let bytes = serial.ser_bytes() + mime_type.ser_bytes();
                let fds = serial.ser_fds() + mime_type.ser_fds();
                accept::dsr_spec(bytes + rest, queue + fds.reverse()) == Decoded::Value(
                    (serial.deep_view(), mime_type.deep_view(),),
                    bytes.len(),
                    queue,
                )
            }),
    {
        let m = accept { serial, mime_type };
        m.lemma_roundtrip(rest, queue);
    }

    /// The message creates no object.
    pub proof fn lemma_creates(&self)
        ensures
            self.created_id() is None,
    {
    }
}

impl Msg<Obj> for accept {
    open spec fn opcode() -> u16 {
        0
    }

    open spec fn since_version() -> u32 {
        1
    }

    open spec fn created_id(&self) -> Option<u32> {
        None
    }

    open spec fn created_destructor(&self) -> Option<u16> {
        None
    }

    fn op() -> (r: u16) {
        0
    }

    fn since() -> u32 {
        1
    }

    fn new_id(&self) -> (r: Option<(u32, ObjMeta)>) {
        None
    }
}

impl Request<Obj> for accept {

}

/// request that the data is transferred
///
/// To transfer the offered data, the client issues this request
/// and indicates the mime type it wants to receive.  The transfer
/// happens through the passed file descriptor (typically created
/// with the pipe system call).  The source client writes the data
/// in the mime type representation requested and then closes the
/// file descriptor.
///
/// The receiving client reads from the read end of the pipe until
/// EOF and then closes its end, at which point the transfer is
/// complete.
///
/// This request may happen multiple times for different mime types,
/// both before and after wl_data_device.drop. Drag-and-drop destination
/// clients may preemptively fetch data or examine it more closely to
/// determine acceptance.
///
#[derive(Debug)]
pub struct receive {
    // mime type desired by receiver
    pub mime_type: String,
    // file descriptor for data transfer
    pub fd: Fd,
}

impl Ser for receive {
    open spec fn ser_ok(&self) -> bool {
        &&& self.mime_type.ser_ok()
        &&& self.fd.ser_ok()
        &&& self.ser_bytes().len() <= usize::MAX
    }

    open spec fn ser_bytes(&self) -> Seq<u8> {
        self.mime_type.ser_bytes() + self.fd.ser_bytes()
    }

    open spec fn ser_fds(&self) -> Seq<Fd> {
        self.mime_type.ser_fds() + self.fd.ser_fds()
    }

    fn wire_len(&self) -> (n: usize) {
        self.mime_type.wire_len() + self.fd.wire_len()
    }

    fn checked_len(&self) -> (r: Option<usize>) {
        let n0 = match self.mime_type.checked_len() {
            Some(m) => m,
            None => return None,
        };
        let n1 = match self.fd.checked_len() {
            Some(m) => match n0.checked_add(m) {
                Some(t) => t,
                None => return None,
            },
            None => return None,
        };
        Some(n1)
    }

    open spec fn ser_fits(&self, cap: int) -> bool {
        &&& 0 <= cap && self.mime_type.ser_fits(cap - (0))
        &&& self.mime_type.ser_bytes().len() <= cap && self.fd.ser_fits(cap - (self.mime_type.ser_bytes().len()))
    }

    fn serialize(self, buf: &mut [u8], fds: &mut Vec<Fd>) -> (r: Result<usize, &'static str>) {
        let ghost me = self;
        let ghost b0 = buf@;
        let mut n: usize = 0;
        n = n + ser_at(self.mime_type, buf, n, fds);
        assert(fds@ =~= old(fds)@ + me.mime_type.ser_fds());
        n = n + ser_at(self.fd, buf, n, fds);
        proof {
            lemma_write_then(b0, 0, me.mime_type.ser_bytes(), me.fd.ser_bytes());
        }
        assert(fds@ =~= old(fds)@ + me.ser_fds());
        Ok(n)
    }

    proof fn lemma_fits(&self, cap: int) {
        self.mime_type.lemma_fits(cap - (0));
        self.fd.lemma_fits(cap - (self.mime_type.ser_bytes().len()));
    }
}

impl DeepView for receive {
    type V = (<String as DeepView>::V, <Fd as DeepView>::V,);

    open spec fn deep_view(&self) -> (<String as DeepView>::V, <Fd as DeepView>::V,) {
        (self.mime_type.deep_view(), self.fd.deep_view(),)
    }
}

impl Dsr for receive {
    open spec fn dsr_spec(buf: Seq<u8>, fds: Seq<Fd>) -> Decoded<(<String as DeepView>::V, <Fd as DeepView>::V,)> {
        match <String>::dsr_spec(buf, fds) {
            Decoded::Value(mime_type, n0, q0) => {
                match <Fd>::dsr_spec(buf.skip(n0 as int), q0) {
                    Decoded::Value(fd, m1, q1) => {
                        let n1 = n0 + m1;
                        Decoded::Value((mime_type, fd,), n1, q1)
                    },
                    d => d.fail(),
                }
            },
            d => d.fail(),
        }
    }

    fn try_deserialize(buf: &[u8], fds: &mut Vec<Fd>) -> (r: Option<Result<(receive, usize), &'static str>>) {
        let mut n: usize = 0;
        let rest = &buf[n..buf.len()];
        assert(rest@ =~= buf@.skip(n as int));
        assert(n == 0 ==> rest@ =~= buf@);
        let (mime_type, m) = match <String>::try_deserialize(rest, fds) {
            Some(Ok(p)) => p,
            Some(Err(e)) => return Some(Err(e)),
            None => return None,
        };
        n = n + m;
        let rest = &buf[n..buf.len()];
        assert(rest@ =~= buf@.skip(n as int));
        assert(n == 0 ==> rest@ =~= buf@);
        let (fd, m) = match <Fd>::try_deserialize(rest, fds) {
            Some(Ok(p)) => p,
            Some(Err(e)) => return Some(Err(e)),
            None => return None,
        };
        n = n + m;
        Some(Ok((receive { mime_type, fd }, n)))
    }
}

impl Codec for receive {
    open spec fn rt_ok(&self) -> bool {
        &&& self.mime_type.rt_ok()
        &&& self.fd.rt_ok()
    }

    proof fn lemma_roundtrip(&self, tail: Seq<u8>, base: Seq<Fd>) {
        let b0 = self.mime_type.ser_bytes();
        let b1 = self.fd.ser_bytes();
        let d0 = self.mime_type.ser_fds();
        let d1 = self.fd.ser_fds();
        let s2 = tail;
        let s1 = b1 + s2;
        let s0 = b0 + s1;
        let buf = self.ser_bytes() + tail;
        assert(buf =~= s0);
        assert(buf.skip(0) =~= s0);
        lemma_reverse_add(d0, d1);
        let q1 = base;
        let q0 = q1 + d1.reverse();
        assert(base + self.ser_fds().reverse() =~= q0 + d0.reverse());
        self.mime_type.lemma_roundtrip(s1, q0);
        assert(buf.skip((b0.len()) as int) == s1) by {
            lemma_skip_step(buf, (0) as int, b0, s1);
        }
        self.fd.lemma_roundtrip(s2, q1);
    }
}

impl receive {
    /// The arguments are read in the protocol's order, `mime_type`, then `fd`: the bytes
    /// and descriptors written for such arguments, one after the other,
    /// decode to exactly those arguments.
    pub proof fn lemma_layout(mime_type: String, fd: Fd, rest: Seq<u8>, queue: Seq<Fd>)
        requires
            mime_type.ser_ok(),
            mime_type.rt_ok(),
            fd.ser_ok(),
            fd.rt_ok(),
            mime_type.ser_bytes().len() + fd.ser_bytes().len() <= usize::MAX,
        ensures
            ({
                let bytes = mime_type.ser_bytes() + fd.ser_bytes();
                let fds = mime_type.ser_fds() + fd.ser_fds();
                receive::dsr_spec(bytes + rest, queue + fds.reverse()) == Decoded::Value(
                    (mime_type.deep_view(), fd.deep_view(),),
                    bytes.len(),
                    queue,
                )
            }),
    {
        let m = receive { mime_type, fd };
        m.lemma_roundtrip(rest, queue);
    }

    /// The message creates no object.
    pub proof fn lemma_creates(&self)
        ensures
            self.created_id() is None,
    {
    }
}

impl Msg<Obj> for receive {
    open spec fn opcode() -> u16 {
        1
    }

    open spec fn since_version() -> u32 {
        1
    }

    open spec fn created_id(&self) -> Option<u32> {
        None
    }

    open spec fn created_destructor(&self) -> Option<u16> {
        None
    }

    fn op() -> (r: u16) {
        1
    }

    fn since() -> u32 {
        1
    }

    fn new_id(&self) -> (r: Option<(u32, ObjMeta)>) {
        None
    }
}

impl Request<Obj> for receive {

}

/// destroy data offer
///
/// Destroy the data offer.
///
#[derive(Debug)]
pub struct destroy {}

impl Ser for destroy {
    open spec fn ser_ok(&self) -> bool {
        true
    }

    open spec fn ser_bytes(&self) -> Seq<u8> {
        Seq::empty()
    }

    open spec fn ser_fds(&self) -> Seq<Fd> {
        Seq::empty()
    }

    fn wire_len(&self) -> (n: usize) {
        0
    }

    fn checked_len(&self) -> (r: Option<usize>) {
        Some(0)
    }

    open spec fn ser_fits(&self, cap: int) -> bool {
        true
    }

    fn serialize(self, buf: &mut [u8], fds: &mut Vec<Fd>) -> (r: Result<usize, &'static str>) {
        assert(buf@ =~= write_at(old(buf)@, 0, Seq::<u8>::empty()));
        assert(fds@ =~= old(fds)@ + Seq::<Fd>::empty());
        Ok(0)
    }

    proof fn lemma_fits(&self, cap: int) {
    }
}

impl DeepView for destroy {
    type V = ();

    open spec fn deep_view(&self) -> () {
        ()
    }
}

impl Dsr for destroy {
    open spec fn dsr_spec(buf: Seq<u8>, fds: Seq<Fd>) -> Decoded<()> {
        Decoded::Value((), 0, fds)
    }

    fn try_deserialize(buf: &[u8], fds: &mut Vec<Fd>) -> (r: Option<Result<(destroy, usize), &'static str>>) {
        Some(Ok((destroy {}, 0)))
    }
}

impl Codec for destroy {
    open spec fn rt_ok(&self) -> bool {
        true
    }

    proof fn lemma_roundtrip(&self, tail: Seq<u8>, base: Seq<Fd>) {
        assert(Seq::<Fd>::empty().reverse() =~= Seq::<Fd>::empty());
        assert(base + Seq::<Fd>::empty() =~= base);
    }
}

impl destroy {
    /// The arguments are read in the protocol's order, no arguments: the bytes
    /// and descriptors written for such arguments, one after the other,
    /// decode to exactly those arguments.
    pub proof fn lemma_layout(rest: Seq<u8>, queue: Seq<Fd>)
        ensures
            ({
                let bytes = Seq::<u8>::empty();
                let fds = Seq::<Fd>::empty();
                destroy::dsr_spec(bytes + rest, queue + fds.reverse()) == Decoded::Value(
                    (),
                    bytes.len(),
                    queue,
                )
            }),
    {
        let m = destroy {};
        m.lemma_roundtrip(rest, queue);
    }

    /// The message creates no object.
    pub proof fn lemma_creates(&self)
        ensures
            self.created_id() is None,
    {
    }
}

impl Msg<Obj> for destroy {
    open spec fn opcode() -> u16 {
        2
    }

    open spec fn since_version() -> u32 {
        1
    }

    open spec fn created_id(&self) -> Option<u32> {
        None
    }

    open spec fn created_destructor(&self) -> Option<u16> {
        None
    }

    fn op() -> (r: u16) {
        2
    }

    fn since() -> u32 {
        1
    }

    fn new_id(&self) -> (r: Option<(u32, ObjMeta)>) {
        None
    }
}

impl Request<Obj> for destroy {

}

/// the offer will no longer be used
///
/// Notifies the compositor that the drag destination successfully
/// finished the drag-and-drop operation.
///
/// Upon receiving this request, the compositor will emit
/// wl_data_source.dnd_finished on the drag source client.
///
/// It is a client error to perform other requests than
/// wl_data_offer.destroy after this one. It is also an error to perform
/// this request after a NULL mime type has been set in
/// wl_data_offer.accept or no action was received through
/// wl_data_offer.action.
///
/// If wl_data_offer.finish request is received for a non drag and drop
/// operation, the invalid_finish protocol error is raised.
///
#[derive(Debug)]
pub struct finish {}

impl Ser for finish {
    open spec fn ser_ok(&self) -> bool {
        true
    }

    open spec fn ser_bytes(&self) -> Seq<u8> {
        Seq::empty()
    }

    open spec fn ser_fds(&self) -> Seq<Fd> {
        Seq::empty()
    }

    fn wire_len(&self) -> (n: usize) {
        0
    }

    fn checked_len(&self) -> (r: Option<usize>) {
        Some(0)
    }

    open spec fn ser_fits(&self, cap: int) -> bool {
        true
    }

    fn serialize(self, buf: &mut [u8], fds: &mut Vec<Fd>) -> (r: Result<usize, &'static str>) {
        assert(buf@ =~= write_at(old(buf)@, 0, Seq::<u8>::empty()));
        assert(fds@ =~= old(fds)@ + Seq::<Fd>::empty());
        Ok(0)
    }

    proof fn lemma_fits(&self, cap: int) {
    }
}

impl DeepView for finish {
    type V = ();

    open spec fn deep_view(&self) -> () {
        ()
    }
}

impl Dsr for finish {
    open spec fn dsr_spec(buf: Seq<u8>, fds: Seq<Fd>) -> Decoded<()> {
        Decoded::Value((), 0, fds)
    }

    fn try_deserialize(buf: &[u8], fds: &mut Vec<Fd>) -> (r: Option<Result<(finish, usize), &'static str>>) {
        Some(Ok((finish {}, 0)))
    }
}

impl Codec for finish {
    open spec fn rt_ok(&self) -> bool {
        true
    }

    proof fn lemma_roundtrip(&self, tail: Seq<u8>, base: Seq<Fd>) {
        assert(Seq::<Fd>::empty().reverse() =~= Seq::<Fd>::empty());
        assert(base + Seq::<Fd>::empty() =~= base);
    }
}

impl finish {
    /// The arguments are read in the protocol's order, no arguments: the bytes
    /// and descriptors written for such arguments, one after the other,
    /// decode to exactly those arguments.
    pub proof fn lemma_layout(rest: Seq<u8>, queue: Seq<Fd>)
        ensures
            ({
                let bytes = Seq::<u8>::empty();
                let fds = Seq::<Fd>::empty();
                finish::dsr_spec(bytes + rest, queue + fds.reverse()) == Decoded::Value(
                    (),
                    bytes.len(),
                    queue,
                )
            }),
    {
        let m = finish {};
        m.lemma_roundtrip(rest, queue);
    }

    /// The message creates no object.
    pub proof fn lemma_creates(&self)
        ensures
            self.created_id() is None,
    {
    }
}

impl Msg<Obj> for finish {
    open spec fn opcode() -> u16 {
        3
    }

    open spec fn since_version() -> u32 {
        1
    }

    open spec fn created_id(&self) -> Option<u32> {
        None
    }

    open spec fn created_destructor(&self) -> Option<u16> {
        None
    }

    fn op() -> (r: u16) {
        3
    }

    fn since() -> u32 {
        1
    }

    fn new_id(&self) -> (r: Option<(u32, ObjMeta)>) {
        None
    }
}

impl Request<Obj> for finish {

}

/// set the available/preferred drag-and-drop actions
///
/// Sets the actions that the destination side client supports for
/// this operation. This request may trigger the emission of
/// wl_data_source.action and wl_data_offer.action events if the compositor
/// needs to change the selected action.
///
/// This request can be called multiple times throughout the
/// drag-and-drop operation, typically in response to wl_data_device.enter
/// or wl_data_device.motion events.
///
/// This request determines the final result of the drag-and-drop
/// operation. If the end result is that no action is accepted,
/// the drag source will receive wl_data_source.cancelled.
///
/// The dnd_actions argument must contain only values expressed in the
/// wl_data_device_manager.dnd_actions enum, and the preferred_action
/// argument must only contain one of those values set, otherwise it
/// will result in a protocol error.
///
/// While managing an "ask" action, the destination drag-and-drop client
/// may perform further wl_data_offer.receive requests, and is expected
/// to perform one last wl_data_offer.set_actions request with a preferred
/// action other than "ask" (and optionally wl_data_offer.accept) before
/// requesting wl_data_offer.finish, in order to convey the action selected
/// by the user. If the preferred action is not in the
/// wl_data_offer.source_actions mask, an error will be raised.
///
/// If the "ask" action is dismissed (e.g. user cancellation), the client
/// is expected to perform wl_data_offer.destroy right away.
///
/// This request can only be made on drag-and-drop offers, a protocol error
/// will be raised otherwise.
///
#[derive(Debug)]
pub struct set_actions {
    // actions supported by the destination client
    pub dnd_actions: crate::wl_data_device_manager::dnd_action,
    // action preferred by the destination client
    pub preferred_action: crate::wl_data_device_manager::dnd_action,
}

impl Ser for set_actions {
    open spec fn ser_ok(&self) -> bool {
        &&& self.dnd_actions.ser_ok()
        &&& self.preferred_action.ser_ok()
        &&& self.ser_bytes().len() <= usize::MAX
    }

    open spec fn ser_bytes(&self) -> Seq<u8> {
        self.dnd_actions.ser_bytes() + self.preferred_action.ser_bytes()
    }

    open spec fn ser_fds(&self) -> Seq<Fd> {
        self.dnd_actions.ser_fds() + self.preferred_action.ser_fds()
    }

    fn wire_len(&self) -> (n: usize) {
        self.dnd_actions.wire_len() + self.preferred_action.wire_len()
    }

    fn checked_len(&self) -> (r: Option<usize>) {
        let n0 = match self.dnd_actions.checked_len() {
            Some(m) => m,
            None => return None,
        };
        let n1 = match self.preferred_action.checked_len() {
            Some(m) => match n0.checked_add(m) {
                Some(t) => t,
                None => return None,
            },
            None => return None,
        };
        Some(n1)
    }

    open spec fn ser_fits(&self, cap: int) -> bool {
        &&& 0 <= cap && self.dnd_actions.ser_fits(cap - (0))
        &&& self.dnd_actions.ser_bytes().len() <= cap && self.preferred_action.ser_fits(cap - (self.dnd_actions.ser_bytes().len()))
    }

    fn serialize(self, buf: &mut [u8], fds: &mut Vec<Fd>) -> (r: Result<usize, &'static str>) {
        let ghost me = self;
        let ghost b0 = buf@;
        let mut n: usize = 0;
        n = n + ser_at(self.dnd_actions, buf, n, fds);
        assert(fds@ =~= old(fds)@ + me.dnd_actions.ser_fds());
        n = n + ser_at(self.preferred_action, buf, n, fds);
        proof {
            lemma_write_then(b0, 0, me.dnd_actions.ser_bytes(), me.preferred_action.ser_bytes());
        }
        assert(fds@ =~= old(fds)@ + me.ser_fds());
        Ok(n)
    }

    proof fn lemma_fits(&self, cap: int) {
        self.dnd_actions.lemma_fits(cap - (0));
        self.preferred_action.lemma_fits(cap - (self.dnd_actions.ser_bytes().len()));
    }
}

impl DeepView for set_actions {
    type V = (<crate::wl_data_device_manager::dnd_action as DeepView>::V, <crate::wl_data_device_manager::dnd_action as DeepView>::V,);

    open spec fn deep_view(&self) -> (<crate::wl_data_device_manager::dnd_action as DeepView>::V, <crate::wl_data_device_manager::dnd_action as DeepView>::V,) {
        (self.dnd_actions.deep_view(), self.preferred_action.deep_view(),)
    }
}

impl Dsr for set_actions {
    open spec fn dsr_spec(buf: Seq<u8>, fds: Seq<Fd>) -> Decoded<(<crate::wl_data_device_manager::dnd_action as DeepView>::V, <crate::wl_data_device_manager::dnd_action as DeepView>::V,)> {
        match <crate::wl_data_device_manager::dnd_action>::dsr_spec(buf, fds) {
            Decoded::Value(dnd_actions, n0, q0) => {
                match <crate::wl_data_device_manager::dnd_action>::dsr_spec(buf.skip(n0 as int), q0) {
                    Decoded::Value(preferred_action, m1, q1) => {
                        let n1 = n0 + m1;
                        Decoded::Value((dnd_actions, preferred_action,), n1, q1)
                    },
                    d => d.fail(),
                }
            },
            d => d.fail(),
        }
    }

    fn try_deserialize(buf: &[u8], fds: &mut Vec<Fd>) -> (r: Option<Result<(set_actions, usize), &'static str>>) {
        let mut n: usize = 0;
        let rest = &buf[n..buf.len()];
        assert(rest@ =~= buf@.skip(n as int));
        assert(n == 0 ==> rest@ =~= buf@);
        let (dnd_actions, m) = match <crate::wl_data_device_manager::dnd_action>::try_deserialize(rest, fds) {
            Some(Ok(p)) => p,
            Some(Err(e)) => return Some(Err(e)),
            None => return None,
        };
        n = n + m;
        let rest = &buf[n..buf.len()];
        assert(rest@ =~= buf@.skip(n as int));
        assert(n == 0 ==> rest@ =~= buf@);
        let (preferred_action, m) = match <crate::wl_data_device_manager::dnd_action>::try_deserialize(rest, fds) {
            Some(Ok(p)) => p,
            Some(Err(e)) => return Some(Err(e)),
            None => return None,
        };
        n = n + m;
        Some(Ok((set_actions { dnd_actions, preferred_action }, n)))
    }
}

impl Codec for set_actions {
    open spec fn rt_ok(&self) -> bool {
        &&& self.dnd_actions.rt_ok()
        &&& self.preferred_action.rt_ok()
    }

    proof fn lemma_roundtrip(&self, tail: Seq<u8>, base: Seq<Fd>) {
        let b0 = self.dnd_actions.ser_bytes();
        let b1 = self.preferred_action.ser_bytes();
        let d0 = self.dnd_actions.ser_fds();
        let d1 = self.preferred_action.ser_fds();
        let s2 = tail;
        let s1 = b1 + s2;
        let s0 = b0 + s1;
        let buf = self.ser_bytes() + tail;
        assert(buf =~= s0);
        assert(buf.skip(0) =~= s0);
        assert(self.ser_fds() =~= Seq::<Fd>::empty());
        assert(base + self.ser_fds().reverse() =~= base);
        assert(d0 =~= Seq::<Fd>::empty());
        assert(base + d0.reverse() =~= base);
        self.dnd_actions.lemma_roundtrip(s1, base);
        assert(buf.skip((b0.len()) as int) == s1) by {
            lemma_skip_step(buf, (0) as int, b0, s1);
        }
        assert(d1 =~= Seq::<Fd>::empty());
        assert(base + d1.reverse() =~= base);
        self.preferred_action.lemma_roundtrip(s2, base);
    }
}

impl set_actions {
    /// The arguments are read in the protocol's order, `dnd_actions`, then `preferred_action`: the bytes
    /// and descriptors written for such arguments, one after the other,
    /// decode to exactly those arguments.
    pub proof fn lemma_layout(dnd_actions: crate::wl_data_device_manager::dnd_action, preferred_action: crate::wl_data_device_manager::dnd_action, rest: Seq<u8>, queue: Seq<Fd>)
        requires
            dnd_actions.ser_ok(),
            dnd_actions.rt_ok(),
            preferred_action.ser_ok(),
            preferred_action.rt_ok(),
            dnd_actions.ser_bytes().len() + preferred_action.ser_bytes().len() <= usize::MAX,
        ensures
            ({
                let bytes = dnd_actions.ser_bytes() + preferred_action.ser_bytes();
                let fds = dnd_actions.ser_fds() + preferred_action.ser_fds();
                set_actions::dsr_spec(bytes + rest, queue + fds.reverse()) == Decoded::Value(
                    (dnd_actions.deep_view(), preferred_action.deep_view(),),
                    bytes.len(),
                    queue,
                )
            }),
    {
        let m = set_actions { dnd_actions, preferred_action };
        m.lemma_roundtrip(rest, queue);
    }

    /// The message creates no object.
    pub proof fn lemma_creates(&self)
        ensures
            self.created_id() is None,
    {
    }
}

impl Msg<Obj> for set_actions {
    open spec fn opcode() -> u16 {
        4
    }

    open spec fn since_version() -> u32 {
        1
    }

    open spec fn created_id(&self) -> Option<u32> {
        None
    }

    open spec fn created_destructor(&self) -> Option<u16> {
        None
    }

    fn op() -> (r: u16) {
        4
    }

    fn since() -> u32 {
        1
    }

    fn new_id(&self) -> (r: Option<(u32, ObjMeta)>) {
        None
    }
}

impl Request<Obj> for set_actions {

}

/// The opcode of each request: its index in the protocol's list of the
/// interface's requests, so that no two requests share one.
pub proof fn lemma_opcodes()
    ensures
        <accept as Msg<Obj>>::opcode() == 0,
        <receive as Msg<Obj>>::opcode() == 1,
        <destroy as Msg<Obj>>::opcode() == 2,
        <finish as Msg<Obj>>::opcode() == 3,
        <set_actions as Msg<Obj>>::opcode() == 4,
        <accept as Msg<Obj>>::opcode() != <receive as Msg<Obj>>::opcode(),
        <accept as Msg<Obj>>::opcode() != <destroy as Msg<Obj>>::opcode(),
        <accept as Msg<Obj>>::opcode() != <finish as Msg<Obj>>::opcode(),
        <accept as Msg<Obj>>::opcode() != <set_actions as Msg<Obj>>::opcode(),
        <receive as Msg<Obj>>::opcode() != <destroy as Msg<Obj>>::opcode(),
        <receive as Msg<Obj>>::opcode() != <finish as Msg<Obj>>::opcode(),
        <receive as Msg<Obj>>::opcode() != <set_actions as Msg<Obj>>::opcode(),
        <destroy as Msg<Obj>>::opcode() != <finish as Msg<Obj>>::opcode(),
        <destroy as Msg<Obj>>::opcode() != <set_actions as Msg<Obj>>::opcode(),
        <finish as Msg<Obj>>::opcode() != <set_actions as Msg<Obj>>::opcode(),
        <Obj as Object>::destructor_op() == Some(<destroy as Msg<Obj>>::opcode()),
{
}

} // verus!
