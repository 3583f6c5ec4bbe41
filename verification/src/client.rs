use vstd::prelude::*;
use vstd::string::StringExecFns;
use std::collections::HashMap;
use crate::objects::{type_id_of, new_id, object, ObjMeta, Object, Msg, Request, Event};
use crate::wire::{u32_wire, u32_of_wire, lemma_u32_wire, ser_at, lemma_write_then, lemma_write_whole, Codec, Decoded, Dsr, Fd, Ser};
use crate::wl_display;

verus! {

broadcast use vstd::std_specs::hash::group_hash_axioms;

/// Size of the send and receive buffers of a new connection.
pub const BUF_SIZE: usize = 1024;

/// The protocol state of a client connection: the outgoing and incoming
/// message buffers with their file descriptors, and the object ids in use.
/// The socket itself is owned by the caller, which moves the bytes.
pub struct Client {
    /// Outgoing message; `send` writes it at the start.
    pub txbuf: Vec<u8>,
    /// Descriptors queued with the outgoing message.
    pub txfds: Vec<Fd>,
    /// Bytes received and not yet all read.
    pub rxbuf: Vec<u8>,
    /// Offset of the next unread message in `rxbuf`.
    pub rxbufi: usize,
    /// Received descriptors; the next one to hand out is the last.
    pub rxfds: Vec<Fd>,
    /// The next id never handed out by `new_id`.
    pub maxid: u32,
    /// The known objects by id.
    pub objs: HashMap<u32, ObjMeta>,
    /// Ids whose deletion the server confirmed, free for reuse; the last is reused first.
    pub deleted_ids: Vec<u32>,
}

/// A received message: its object id, its opcode and where its arguments lie in the receive buffer.
#[derive(Debug)]
pub struct Recv {
    pub id: u32,
    pub op: u16,
    pub start: usize,
    pub end: usize,
}

/// What came of offering a received message to the handlers.
pub enum RecvState {
    /// Nothing was received.
    Nothing,
    /// A message that no handler has taken yet.
    Pending(Recv),
    /// A handler took the message, with its outcome.
    Done(Result<(), &'static str>),
}

/// `after` is `before` with the object that the event `x` creates, if any,
/// recorded as alive with its destructor; no other entry changes.
pub open spec fn records_created<T, M: Msg<T>>(before: Map<u32, ObjMeta>, after: Map<u32, ObjMeta>, x: M) -> bool {
    match x.created_id() {
        Some(id) => after.dom() == before.dom().insert(id) && after[id].alive
            && after[id].destructor == x.created_destructor() && (forall|k: u32|
            k != id && before.contains_key(k) ==> after[k] == before[k]),
        None => after == before,
    }
}

/// The length of the request `msg` on `obj`: the object, the header word and the arguments.
pub open spec fn request_len<T: Ser, M: Ser>(obj: object<T>, msg: M) -> nat {
    obj.ser_bytes().len() + 4 + msg.ser_bytes().len()
}

/// The header word of a message of `size` bytes with opcode `op`.
pub open spec fn header_word(size: int, op: u16) -> u32 {
    ((size as u32) << 16u32) | (op as u32)
}

/// The bytes of a request: the object, the header word, the arguments.
pub open spec fn request_bytes(obj: Seq<u8>, op: u16, args: Seq<u8>) -> Seq<u8> {
    obj + u32_wire(header_word((obj.len() + 4 + args.len()) as int, op)) + args
}

/// Object id in a message header at the front of `b`.
pub open spec fn frame_id(b: Seq<u8>) -> u32 {
    u32_of_wire(b[0], b[1], b[2], b[3])
}

/// Size field of the header word at the front of `b`.
pub open spec fn frame_size(b: Seq<u8>) -> u32 {
    u32_of_wire(b[4], b[5], b[6], b[7]) >> 16u32
}

/// Opcode field of the header word at the front of `b`.
pub open spec fn frame_op(b: Seq<u8>) -> u16 {
    (u32_of_wire(b[4], b[5], b[6], b[7]) & 0xffffu32) as u16
}

/// Reading the header of a message gives back the object id, the opcode and
/// the size that the message was written with.
pub proof fn lemma_frame_roundtrip(id: u32, op: u16, args: Seq<u8>, tail: Seq<u8>)
    requires
        8 + args.len() <= 0xffff,
    ensures
        ({
            let b = request_bytes(u32_wire(id), op, args) + tail;
            &&& frame_id(b) == id
            &&& frame_op(b) == op
            &&& frame_size(b) == 8 + args.len()
            &&& b.subrange(8, (8 + args.len()) as int) == args
        }),
{
    let size = 8 + args.len();
    let w = header_word(size as int, op);
    lemma_u32_wire(id);
    lemma_u32_wire(w);
    let b = request_bytes(u32_wire(id), op, args) + tail;
    assert(b.subrange(8, (8 + args.len()) as int) =~= args);
    let s = size as u32;
    assert(s == size);
    assert((((s << 16u32) | (op as u32)) >> 16u32) == s && (((s << 16u32) | (op as u32)) & 0xffffu32) as u16 == op) by (bit_vector)
        requires
            s <= 0xffff,
    ;
}

/// A request written for an object reads back whole: its header gives the
/// object's id, the opcode and the size, and its arguments decode to the
/// message that was written, taking the descriptors it queued.
pub proof fn lemma_request_roundtrip<T: Object, M: Msg<T>>(
    obj: object<T>,
    msg: M,
    tail: Seq<u8>,
    base: Seq<Fd>,
)
    requires
        msg.ser_ok(),
        msg.rt_ok(),
        8 + msg.ser_bytes().len() <= 0xffff,
    ensures
        ({
            let b = request_bytes(obj.ser_bytes(), M::opcode(), msg.ser_bytes()) + tail;
            let size = frame_size(b);
            &&& frame_id(b) == obj.0
            &&& frame_op(b) == M::opcode()
            &&& size == 8 + msg.ser_bytes().len()
            &&& M::dsr_spec(b.subrange(8, size as int), base + msg.ser_fds().reverse()) matches Decoded::Value(
                v,
                n,
                left,
            ) && v == msg.deep_view() && n == msg.ser_bytes().len() && left == base
        }),
{
    obj.1.lemma_unit(Seq::empty(), base);
    assert(obj.ser_bytes() =~= u32_wire(obj.0));
    lemma_frame_roundtrip(obj.0, M::opcode(), msg.ser_bytes(), tail);
    let b = request_bytes(obj.ser_bytes(), M::opcode(), msg.ser_bytes()) + tail;
    msg.lemma_roundtrip(Seq::empty(), base);
    assert(msg.ser_bytes() + Seq::<u8>::empty() =~= msg.ser_bytes());
}

/// The socket to connect to: `socket` when given, else `display` in
/// `runtime_dir`, else `wayland-0` there.
pub fn socket_path(runtime_dir: &str, socket: Option<String>, display: Option<String>) -> (r: String)
    ensures
        r@ == match (socket, display) {
            (Some(s), _) => s@,
            (None, Some(d)) => runtime_dir@ + "/"@ + d@,
            (None, None) => runtime_dir@ + "/"@ + "wayland-0"@,
        },
{
    match (socket, display) {
        (Some(s), _) => s,
        (None, Some(d)) => {
            let mut p = String::from_str(runtime_dir);
            p.append("/");
            p.append(d.as_str());
            p
        },
        (None, None) => {
            let mut p = String::from_str(runtime_dir);
            p.append("/");
            p.append("wayland-0");
            p
        },
    }
}

impl Client {
    /// A connection's state at its start: empty buffers of `BUF_SIZE` bytes,
    /// and only the display object, with id 1.
    pub fn new() -> (r: (Client, object<wl_display::wl_display>))
        ensures
            r.0.txbuf@.len() == BUF_SIZE,
            r.0.txfds@.len() == 0,
            r.0.rxbuf@.len() == BUF_SIZE,
            r.0.rxbufi == BUF_SIZE,
            r.0.rxfds@.len() == 0,
            r.0.maxid == 2,
            r.0.deleted_ids@.len() == 0,
            r.0.objs@.dom() =~= set![1u32],
            r.0.objs@[1].alive,
            r.0.objs@[1].destructor is None,
            r.1.0 == 1,
    {
        let mut c = Client {
            txbuf: vec![0u8; BUF_SIZE],
            txfds: Vec::new(),
            rxbuf: vec![0u8; BUF_SIZE],
            rxbufi: BUF_SIZE,
            rxfds: Vec::new(),
            maxid: 2,
            objs: HashMap::new(),
            deleted_ids: Vec::new(),
        };
        let display = object(1u32, wl_display::wl_display);
        let display_meta = ObjMeta {
            alive: true,
            destructor: None,
            type_id: type_id_of::<wl_display::wl_display>(),
        };
        c.objs.insert(display.0, display_meta);
        (c, display)
    }

    /// The server confirmed that `id` is deleted: it becomes free for reuse.
    pub fn delete_id(&mut self, id: u32)
        ensures
            final(self).deleted_ids@ == old(self).deleted_ids@.push(id),
            final(self).objs@ == old(self).objs@,
            final(self).maxid == old(self).maxid,
    {
        self.deleted_ids.push(id);
    }

    /// A fresh id for a new object of interface `T`: the id freed last, or
    /// else the next id never handed out. The object is recorded as alive.
    pub fn new_id<T: Object>(&mut self) -> (r: new_id<T>)
        requires
            old(self).deleted_ids@.len() > 0 || old(self).maxid < u32::MAX,
        ensures
            old(self).deleted_ids@.len() > 0 ==> {
                &&& r.0 == old(self).deleted_ids@.last()
                &&& final(self).deleted_ids@ == old(self).deleted_ids@.drop_last()
                &&& final(self).maxid == old(self).maxid
            },
            old(self).deleted_ids@.len() == 0 ==> {
                &&& r.0 == old(self).maxid
                &&& final(self).deleted_ids@ == old(self).deleted_ids@
                &&& final(self).maxid == old(self).maxid + 1
            },
            final(self).objs@.dom() == old(self).objs@.dom().insert(r.0),
            final(self).objs@[r.0].alive,
            final(self).objs@[r.0].destructor == T::destructor_op(),
            forall|k: u32| k != r.0 && old(self).objs@.contains_key(k) ==> final(self).objs@[k]
                == old(self).objs@[k],
            final(self).txbuf@ == old(self).txbuf@,
            final(self).txfds@ == old(self).txfds@,
            final(self).rxbuf@ == old(self).rxbuf@,
            final(self).rxbufi == old(self).rxbufi,
            final(self).rxfds@ == old(self).rxfds@,
    {
        let id;
        match self.deleted_ids.pop() {
            Some(delid) => {
                id = delid;
            },
            None => {
                id = self.maxid;
                self.maxid = self.maxid + 1;
            },
        }
        self.objs.insert(
            id,
            ObjMeta { alive: true, destructor: T::destructor(), type_id: type_id_of::<T>() },
        );
        new_id(id, T::new_obj())
    }

    /// Writes the request `msg` on object `obj` at the start of `txbuf`, with
    /// its header, and queues its descriptors; gives the message's length.
    /// The caller then sends `txbuf[..n]` and the queued descriptors.
    pub fn send<T: Ser, M: Request<T>>(&mut self, obj: object<T>, msg: M) -> (n: usize)
        requires
            obj.ser_ok(),
            msg.ser_ok(),
            request_len(obj, msg) <= old(self).txbuf@.len(),
            request_len(obj, msg) <= 0xffff,
        ensures
            n == request_len(obj, msg),
            final(self).txbuf@ == request_bytes(obj.ser_bytes(), M::opcode(), msg.ser_bytes())
                + old(self).txbuf@.skip(n as int),
            final(self).txfds@ == old(self).txfds@ + obj.ser_fds() + msg.ser_fds(),
            final(self).rxbuf@ == old(self).rxbuf@,
            final(self).rxbufi == old(self).rxbufi,
            final(self).rxfds@ == old(self).rxfds@,
            final(self).objs@ == old(self).objs@,
            final(self).maxid == old(self).maxid,
            final(self).deleted_ids@ == old(self).deleted_ids@,
    {
        let ghost ob = obj.ser_bytes();
        let ghost mb = msg.ser_bytes();
        let ghost of = obj.ser_fds();
        let ghost mf = msg.ser_fds();
        let ghost old_tx = self.txbuf@;
        let ghost cap = self.txbuf@.len() as int;
        proof {
            obj.lemma_fits(cap);
            msg.lemma_fits(cap - ob.len() - 4);
        }
        let op = M::op();
        let buf = self.txbuf.as_mut_slice();
        let mut n = ser_at(obj, buf, 0, &mut self.txfds);
        let szi = n;
        n = n + ser_at(0u32, buf, n, &mut self.txfds);
        proof {
            lemma_write_then(old_tx, 0, ob, u32_wire(0));
        }
        n = n + ser_at(msg, buf, n, &mut self.txfds);
        proof {
            lemma_write_then(old_tx, 0, ob + u32_wire(0), mb);
            lemma_write_whole(old_tx, ob + u32_wire(0) + mb);
        }
        let szop = ((n as u32) << 16u32) | (op as u32);
        let ghost before = buf@;
        let _ = ser_at(szop, buf, szi, &mut self.txfds);
        assert(szop == header_word(n as int, op));
        assert(buf@ =~= request_bytes(ob, op, mb) + old_tx.skip(n as int));
        assert(self.txfds@ =~= old(self).txfds@ + of + mf);
        n
    }

    /// Creates an object of interface `N` with the request that `f` builds
    /// from its new id, sent on `obj`: a fresh id as `new_id` gives, then
    /// the request as `send` writes it.
    pub fn construct<T: Ser, N: Object, M: Request<T>, F: FnOnce(new_id<N>) -> M>(
        &mut self,
        obj: object<T>,
        f: F,
    ) -> (r: object<N>)
        requires
            old(self).deleted_ids@.len() > 0 || old(self).maxid < u32::MAX,
            obj.ser_ok(),
            forall|n: new_id<N>| call_requires(f, (n,)),
            forall|n: new_id<N>, m: M| call_ensures(f, (n,), m) ==> {
                &&& m.ser_ok()
                &&& request_len(obj, m) <= old(self).txbuf@.len()
                &&& request_len(obj, m) <= 0xffff
            },
        ensures
            ({
                let id = if old(self).deleted_ids@.len() > 0 {
                    old(self).deleted_ids@.last()
                } else {
                    old(self).maxid
                };
                &&& r.0 == id
                &&& old(self).deleted_ids@.len() > 0 ==> final(self).deleted_ids@ == old(
                    self,
                ).deleted_ids@.drop_last() && final(self).maxid == old(self).maxid
                &&& old(self).deleted_ids@.len() == 0 ==> final(self).deleted_ids@ == old(
                    self,
                ).deleted_ids@ && final(self).maxid == old(self).maxid + 1
                &&& final(self).objs@.dom() == old(self).objs@.dom().insert(id)
                &&& final(self).objs@[id].alive
                &&& final(self).objs@[id].destructor == N::destructor_op()
                &&& forall|k: u32| k != id && old(self).objs@.contains_key(k) ==> final(self).objs@[k]
                    == old(self).objs@[k]
                &&& exists|n: new_id<N>, m: M|
                    {
                        &&& n.0 == id
                        &&& call_ensures(f, (n,), m)
                        &&& final(self).txbuf@ == request_bytes(
                            obj.ser_bytes(),
                            M::opcode(),
                            m.ser_bytes(),
                        ) + old(self).txbuf@.skip(request_len(obj, m) as int)
                        &&& final(self).txfds@ == old(self).txfds@ + obj.ser_fds() + m.ser_fds()
                    }
            }),
            final(self).rxbuf@ == old(self).rxbuf@,
            final(self).rxbufi == old(self).rxbufi,
            final(self).rxfds@ == old(self).rxfds@,
    {
        let nid = self.new_id::<N>();
        let id = object(nid.0, N::new_obj());
        let ghost n = nid;
        let msg = f(nid);
        let ghost m = msg;
        assert(call_ensures(f, (n,), m));
        let _ = self.send(obj, msg);
        id
    }

    /// Whether every received byte has been read, so that the next bytes must come from the socket.
    pub fn rx_needs_fill(&self) -> (r: bool)
        ensures
            r == (self.rxbufi >= self.rxbuf@.len()),
    {
        self.rxbufi >= self.rxbuf.len()
    }

    /// After a read from the socket brought the bytes received to `filled` in
    /// a buffer of `len` bytes: `None` when the read left room, so that all
    /// that was waiting has been taken; otherwise the length, twice the
    /// present one, to grow the buffer to before reading on.
    pub fn rx_next_len(filled: usize, len: usize) -> (r: Option<usize>)
        requires
            filled <= len,
            len <= usize::MAX / 2,
        ensures
            filled < len ==> r is None,
            filled == len ==> r == Some((2 * len) as usize),
    {
        if filled < len {
            None
        } else {
            Some(len + len)
        }
    }

    /// Takes the bytes and descriptors just read from the socket, the
    /// descriptors in the order they arrived. Descriptors not yet handed out
    /// are handed out after the new ones' predecessors: the queue stays first in, first out.
    pub fn rx_fill(&mut self, data: Vec<u8>, fds: Vec<Fd>)
        ensures
            final(self).rxbuf@ == data@,
            final(self).rxbufi == 0,
            final(self).rxfds@ == fds@.reverse() + old(self).rxfds@,
            final(self).txbuf@ == old(self).txbuf@,
            final(self).txfds@ == old(self).txfds@,
            final(self).objs@ == old(self).objs@,
            final(self).maxid == old(self).maxid,
            final(self).deleted_ids@ == old(self).deleted_ids@,
    {
        let mut fds = fds;
        let mut rev: Vec<Fd> = Vec::new();
        let ghost orig = fds@;
        while fds.len() > 0
            invariant
                rev@ + fds@.reverse() == orig.reverse(),
            decreases fds@.len(),
        {
            let ghost before = fds@;
            let fd = fds.pop().unwrap();
            proof {
                assert(before =~= fds@.push(fd));
                assert(before.reverse() =~= seq![fd] + fds@.reverse());
            }
            rev.push(fd);
            assert(rev@ + fds@.reverse() =~= orig.reverse());
        }
        assert(fds@.reverse() =~= Seq::<Fd>::empty());
        rev.append(&mut self.rxfds);
        self.rxfds = rev;
        self.rxbuf = data;
        self.rxbufi = 0;
    }

    /// The message at the read position has a size that fits its header and the bytes received.
    pub open spec fn frame_ok(&self) -> bool {
        let rest = self.rxbuf@.skip(self.rxbufi as int);
        rest.len() >= 8 ==> 8 <= frame_size(rest) <= rest.len()
    }

    /// Whether `recv_header` can read the next message.
    pub fn check_frame(&self) -> (r: bool)
        requires
            self.rxbufi <= self.rxbuf@.len(),
        ensures
            r == self.frame_ok(),
    {
        let rest = &self.rxbuf.as_slice()[self.rxbufi..self.rxbuf.len()];
        assert(rest@ =~= self.rxbuf@.skip(self.rxbufi as int));
        if rest.len() < 8 {
            return true;
        }
        let w = (rest[4] as u32) | ((rest[5] as u32) << 8u32) | ((rest[6] as u32) << 16u32) | ((
        rest[7] as u32) << 24u32);
        let sz = (w >> 16u32) as usize;
        8 <= sz && sz <= rest.len()
    }

    /// Reads the header of the next received message and moves past it.
    /// `None` when nothing was received.
    pub fn recv_header(&mut self) -> (r: Result<Option<Recv>, &'static str>)
        requires
            old(self).rxbuf@.len() > 0 ==> old(self).rxbufi < old(self).rxbuf@.len(),
            old(self).frame_ok(),
        ensures
            ({
                let rest = old(self).rxbuf@.skip(old(self).rxbufi as int);
                &&& old(self).rxbuf@.len() == 0 ==> (r matches Ok(None) && final(self).rxbufi
                    == old(self).rxbufi)
                &&& old(self).rxbuf@.len() > 0 && rest.len() < 8 ==> (r matches Err(e) && e
                    == "dsr:u32: unexpected end of buffer" && final(self).rxbufi == old(self).rxbufi)
                &&& old(self).rxbuf@.len() > 0 && rest.len() >= 8 ==> (r matches Ok(Some(m)) && {
                    &&& m.id == frame_id(rest)
                    &&& m.op == frame_op(rest)
                    &&& m.start == old(self).rxbufi + 8
                    &&& m.end == old(self).rxbufi + frame_size(rest)
                    &&& final(self).rxbufi == m.end
                    &&& m.end <= old(self).rxbuf@.len()
                })
            }),
            final(self).rxbuf@ == old(self).rxbuf@,
            final(self).rxfds@ == old(self).rxfds@,
            final(self).txbuf@ == old(self).txbuf@,
            final(self).txfds@ == old(self).txfds@,
            final(self).objs@ == old(self).objs@,
            final(self).maxid == old(self).maxid,
            final(self).deleted_ids@ == old(self).deleted_ids@,
    {
        if self.rxbuf.len() == 0 {
            return Ok(None);
        }
        let start = self.rxbufi;
        let rest = &self.rxbuf.as_slice()[start..self.rxbuf.len()];
        assert(rest@ =~= self.rxbuf@.skip(start as int));
        let (id, n) = match u32::deserialize(rest, &mut self.rxfds) {
            Ok(p) => p,
            Err(e) => return Err(e),
        };
        let rest2 = &rest[n..rest.len()];
        assert(rest2@ =~= rest@.skip(4));
        let (szop, m) = match u32::deserialize(rest2, &mut self.rxfds) {
            Ok(p) => p,
            Err(e) => return Err(e),
        };
        let sz = (szop >> 16u32) as usize;
        let op = (szop & 0xffffu32) as u16;
        self.rxbufi = start + sz;
        Ok(Some(Recv { id, op, start: start + 8, end: start + sz }))
    }

    /// Whether `decode` takes the message `recv` for the event `M` of `obj`:
    /// false only when it is that event and its arguments hold a string
    /// whose length field is zero, which decoding does not take.
    pub fn decodable<T, M: Event<T>>(&self, obj: &object<T>, recv: &Recv) -> (r: bool)
        requires
            recv.start <= recv.end <= self.rxbuf@.len(),
        ensures
            r == (recv.id != obj.0 || recv.op != M::opcode() || !(M::dsr_spec(
                self.rxbuf@.subrange(recv.start as int, recv.end as int),
                self.rxfds@,
            ) is Undefined)),
    {
        if recv.id != obj.0 || recv.op != M::op() {
            return true;
        }
        let body = &self.rxbuf.as_slice()[recv.start..recv.end];
        let mut fds: Vec<Fd> = Vec::new();
        let mut i: usize = 0;
        while i < self.rxfds.len()
            invariant
                i <= self.rxfds@.len(),
                fds@ == self.rxfds@.take(i as int),
            decreases self.rxfds@.len() - i,
        {
            fds.push(Fd(self.rxfds[i].0));
            i = i + 1;
            assert(fds@ =~= self.rxfds@.take(i as int));
        }
        assert(fds@ =~= self.rxfds@);
        M::try_deserialize(body, &mut fds).is_some()
    }

    /// Decodes the message `recv` as the event `M` of `obj`, if it is one: the
    /// id and opcode match. An object the event creates is recorded.
    pub fn decode<T, M: Event<T>>(&mut self, obj: &object<T>, recv: &Recv) -> (r: Option<Result<M, &'static str>>)
        requires
            recv.start <= recv.end <= old(self).rxbuf@.len(),
            recv.id == obj.0 && recv.op == M::opcode() ==> !(M::dsr_spec(
                old(self).rxbuf@.subrange(recv.start as int, recv.end as int),
                old(self).rxfds@,
            ) is Undefined),
        ensures
            (recv.id != obj.0 || recv.op != M::opcode()) ==> (r is None && final(self).rxfds@
                == old(self).rxfds@ && final(self).objs@ == old(self).objs@),
            (recv.id == obj.0 && recv.op == M::opcode()) ==> r is Some && match M::dsr_spec(
                old(self).rxbuf@.subrange(recv.start as int, recv.end as int),
                old(self).rxfds@,
            ) {
                Decoded::Value(v, _, left) => (r matches Some(Ok(x)) && x.deep_view() == v
                    && final(self).rxfds@ == left && records_created(
                    old(self).objs@,
                    final(self).objs@,
                    x,
                )),
                Decoded::Failure(e, left) => (r matches Some(Err(f)) && f == e && final(self).rxfds@
                    == left && final(self).objs@ == old(self).objs@),
                Decoded::Undefined => true,
            },
            final(self).rxbuf@ == old(self).rxbuf@,
            final(self).rxbufi == old(self).rxbufi,
            final(self).txbuf@ == old(self).txbuf@,
            final(self).txfds@ == old(self).txfds@,
            final(self).maxid == old(self).maxid,
            final(self).deleted_ids@ == old(self).deleted_ids@,
    {
        if recv.id != obj.0 || recv.op != M::op() {
            return None;
        }
        let body = &self.rxbuf.as_slice()[recv.start..recv.end];
        match M::deserialize(body, &mut self.rxfds) {
            Ok((msg, _)) => {
                match msg.new_id() {
                    Some((id, meta)) => {
                        self.objs.insert(id, meta);
                    },
                    None => {},
                }
                Some(Ok(msg))
            },
            Err(e) => Some(Err(e)),
        }
    }
}

impl RecvState {
    /// Whether the message is still waiting for a handler, so that the next
    /// handler is offered it.
    pub fn is_pending(&self) -> (r: bool)
        ensures
            r == (*self is Pending),
    {
        match self {
            RecvState::Pending(_) => true,
            _ => false,
        }
    }

    /// Offers the message to a handler of the event `M` of `obj`: when the
    /// message is that event it is decoded and `cb` runs on it, and the
    /// message is taken; otherwise the state is passed on as it was.
    pub fn on<T, M: Event<T>, CB: FnOnce(M)>(self, client: &mut Client, obj: object<T>, cb: CB) -> (r: RecvState)
        requires
            forall|m: M| call_requires(cb, (m,)),
            self matches RecvState::Pending(recv) ==> recv.start <= recv.end <= old(client).rxbuf@.len()
                && (recv.id == obj.0 && recv.op == M::opcode() ==> !(M::dsr_spec(
                old(client).rxbuf@.subrange(recv.start as int, recv.end as int),
                old(client).rxfds@,
            ) is Undefined)),
        ensures
            match self {
                RecvState::Pending(recv) => if recv.id != obj.0 || recv.op != M::opcode() {
                    r == RecvState::Pending(recv) && final(client).rxfds@ == old(client).rxfds@
                        && final(client).objs@ == old(client).objs@
                } else {
                    match M::dsr_spec(
                        old(client).rxbuf@.subrange(recv.start as int, recv.end as int),
                        old(client).rxfds@,
                    ) {
                        Decoded::Value(v, _, left) => r == RecvState::Done(Ok(()))
                            && final(client).rxfds@ == left && exists|x: M| #[trigger] x.deep_view() == v
                            && records_created(old(client).objs@, final(client).objs@, x)
                            && call_ensures(cb, (x,), ()),
                        Decoded::Failure(e, left) => r == RecvState::Done(Err(e))
                            && final(client).rxfds@ == left && final(client).objs@ == old(
                            client,
                        ).objs@,
                        Decoded::Undefined => true,
                    }
                },
                _ => r == self && final(client).rxfds@ == old(client).rxfds@ && final(client).objs@
                    == old(client).objs@,
            },
            final(client).rxbuf@ == old(client).rxbuf@,
            final(client).rxbufi == old(client).rxbufi,
            final(client).txbuf@ == old(client).txbuf@,
            final(client).txfds@ == old(client).txfds@,
            final(client).maxid == old(client).maxid,
            final(client).deleted_ids@ == old(client).deleted_ids@,
    {
        match self {
            RecvState::Pending(recv) => match client.decode::<T, M>(&obj, &recv) {
                None => RecvState::Pending(recv),
                Some(Err(err)) => RecvState::Done(Err(err)),
                Some(Ok(msg)) => {
                    cb(msg);
                    RecvState::Done(Ok(()))
                },
            },
            other => other,
        }
    }
}

} // verus!
