use vstd::prelude::*;
use vstd::string::StringExecFns;
use vstd::utf8::{decode_utf8, encode_utf8, encode_utf8_decode_utf8, encode_utf8_valid_utf8, valid_utf8};

verus! {

/// A file descriptor carried next to the byte stream of a message.
#[derive(Debug)]
pub struct Fd(pub i32);

/// Outcome of decoding a value from the front of a byte buffer, with the file
/// descriptors left in the queue afterwards.
pub enum Decoded<T> {
    /// The value, the number of bytes it took and the remaining descriptors.
    Value(T, nat, Seq<Fd>),
    /// The decoder reported this error; the descriptors left after it.
    Failure(&'static str, Seq<Fd>),
    /// Decoding is not defined on this input: it holds a string whose length
    /// field is zero, on which the length of its text would be negative.
    Undefined,
}

/// Bytes of a 32-bit word as written on the wire: little-endian, on every
/// host, so that the encoding is the same whatever machine runs it.
pub open spec fn u32_wire(v: u32) -> Seq<u8> {
    seq![(v & 0xff) as u8, ((v >> 8) & 0xff) as u8, ((v >> 16) & 0xff) as u8, ((v >> 24) & 0xff) as u8]
}

/// The 32-bit word that four wire bytes stand for.
pub open spec fn u32_of_wire(b0: u8, b1: u8, b2: u8, b3: u8) -> u32 {
    (b0 as u32) | ((b1 as u32) << 8u32) | ((b2 as u32) << 16u32) | ((b3 as u32) << 24u32)
}

/// `b` with `s` written over it from `pos`, cut at the end of `b`.
pub open spec fn write_at(b: Seq<u8>, pos: int, s: Seq<u8>) -> Seq<u8> {
    Seq::new(b.len(), |i: int| if pos <= i && i < pos + s.len() { s[i - pos] } else { b[i] })
}

/// Writing `a` and then `c` right after it writes `a + c`.
pub proof fn lemma_write_then(b: Seq<u8>, pos: int, a: Seq<u8>, c: Seq<u8>)
    ensures
        write_at(write_at(b, pos, a), pos + a.len(), c) == write_at(b, pos, a + c),
{
    assert(write_at(write_at(b, pos, a), pos + a.len(), c) =~= write_at(b, pos, a + c));
}

/// A write that fits replaces the front of the buffer.
pub proof fn lemma_write_whole(b: Seq<u8>, s: Seq<u8>)
    requires
        s.len() <= b.len(),
    ensures
        write_at(b, 0, s) == s + b.skip(s.len() as int),
{
    assert(write_at(b, 0, s) =~= s + b.skip(s.len() as int));
}

/// Number of zero bytes that bring a length of `n` bytes up to a multiple of four.
pub open spec fn pad4(n: int) -> int {
    if n % 4 == 0 {
        0
    } else {
        4 - n % 4
    }
}

/// `n` zero bytes.
pub open spec fn zeros(n: int) -> Seq<u8> {
    Seq::new(n as nat, |i: int| 0u8)
}

/// Wire form of a string whose UTF-8 bytes are `b`: the length counting the
/// terminating NUL, the bytes, the NUL, and zero padding to a 4-byte boundary.
pub open spec fn string_wire(b: Seq<u8>) -> Seq<u8> {
    u32_wire((b.len() + 1) as u32) + b + seq![0u8] + zeros(pad4((b.len() + 1) as int))
}

/// Wire form of a byte array: its length, the bytes, and zero padding to a 4-byte boundary.
pub open spec fn array_wire(b: Seq<u8>) -> Seq<u8> {
    u32_wire(b.len() as u32) + b + zeros(pad4(b.len() as int))
}

pub trait Ser: Sized {
    /// The value can be written at all (its lengths fit the wire's counters).
    spec fn ser_ok(&self) -> bool;

    /// The bytes that the value takes on the wire.
    spec fn ser_bytes(&self) -> Seq<u8>;

    /// The descriptors that the value sends, in the order they are queued.
    spec fn ser_fds(&self) -> Seq<Fd>;

    /// Number of bytes that `serialize` writes.
    fn wire_len(&self) -> (n: usize)
        requires
            self.ser_ok(),
        ensures
            n == self.ser_bytes().len(),
    ;

    /// `wire_len`, or `None` when the value cannot be written: a string or an
    /// array too long for its length field, or a length past `usize`.
    fn checked_len(&self) -> (r: Option<usize>)
        ensures
            r is Some <==> self.ser_ok(),
            r matches Some(n) ==> n == self.ser_bytes().len(),
    ;

    /// `serialize` runs to its end on a buffer of `cap` bytes: the slices it
    /// takes for the parts after the first start inside the buffer.
    spec fn ser_fits(&self, cap: int) -> bool;

    /// Writes the value at the start of `buf`, cut at the end of `buf`, and
    /// queues its descriptors; gives the full length of the value.
    fn serialize(self, buf: &mut [u8], fds: &mut Vec<Fd>) -> (r: Result<usize, &'static str>)
        requires
            self.ser_ok(),
            self.ser_fits(old(buf)@.len() as int),
        ensures
            r matches Ok(n) && n == self.ser_bytes().len(),
            final(buf)@ == write_at(old(buf)@, 0, self.ser_bytes()),
            final(fds)@ == old(fds)@ + self.ser_fds(),
    ;

    /// A buffer that holds the whole value is one that `serialize` runs on.
    proof fn lemma_fits(&self, cap: int)
        requires
            self.ser_ok(),
            self.ser_bytes().len() <= cap,
        ensures
            self.ser_fits(cap),
    ;
}

/// Values read from the wire; a decoded value is given by its deep view,
/// the contents that the wire carries.
pub trait Dsr: Sized + DeepView {
    /// What decoding gives on these bytes and this descriptor queue.
    spec fn dsr_spec(buf: Seq<u8>, fds: Seq<Fd>) -> Decoded<<Self as DeepView>::V>;

    /// Reads a value from the front of `buf`, taking descriptors from the end of `fds`.
    fn deserialize(buf: &[u8], fds: &mut Vec<Fd>) -> (r: Result<(Self, usize), &'static str>)
        requires
            !(Self::dsr_spec(buf@, old(fds)@) is Undefined),
        ensures
            match Self::dsr_spec(buf@, old(fds)@) {
                Decoded::Value(v, n, left) => r matches Ok((x, m)) && x.deep_view() == v && m == n
                    && final(fds)@ == left,
                Decoded::Failure(e, left) => r matches Err(f) && f == e && final(fds)@ == left,
                Decoded::Undefined => true,
            },
            r matches Ok((_, n)) ==> n <= buf@.len(),
    {
        Self::try_deserialize(buf, fds).unwrap()
    }

    /// Reads as `deserialize` does, and gives `None` on the inputs that
    /// `deserialize` does not take: a string whose length field is zero.
    fn try_deserialize(buf: &[u8], fds: &mut Vec<Fd>) -> (r: Option<Result<(Self, usize), &'static str>>)
        ensures
            match Self::dsr_spec(buf@, old(fds)@) {
                Decoded::Value(v, n, left) => r matches Some(Ok((x, m))) && x.deep_view() == v && m == n
                    && final(fds)@ == left,
                Decoded::Failure(e, left) => r matches Some(Err(f)) && f == e && final(fds)@ == left,
                Decoded::Undefined => r is None,
            },
            r matches Some(Ok((_, n))) ==> n <= buf@.len(),
    ;
}

impl<T> Decoded<T> {
    /// The same failure, for a decoder of another type.
    pub open spec fn fail<R>(self) -> Decoded<R> {
        match self {
            Decoded::Failure(e, left) => Decoded::Failure(e, left),
            _ => Decoded::Undefined,
        }
    }
}

/// Values that read back as written.
pub trait Codec: Ser + Dsr {
    /// The value is outside the inputs on which reading back is known to differ.
    spec fn rt_ok(&self) -> bool;

    /// Reading the bytes and descriptors that a value was written as gives the
    /// value back, takes exactly its bytes, and leaves the rest of the queue.
    proof fn lemma_roundtrip(&self, tail: Seq<u8>, base: Seq<Fd>)
        requires
            self.ser_ok(),
            self.rt_ok(),
        ensures
            Self::dsr_spec(self.ser_bytes() + tail, base + self.ser_fds().reverse()) matches Decoded::Value(
                v,
                n,
                left,
            ) && v == self.deep_view() && n == self.ser_bytes().len() && left == base,
    ;
}

/// An enumeration of the protocol, carried as a 32-bit word.
pub trait WireEnum: Sized {
    /// The word that stands for the entry.
    spec fn to_wire(self) -> u32;

    /// The entry that a word stands for, if any.
    spec fn of_wire(v: u32) -> Option<Self>;

    /// Each entry reads back from its word, and a word that names an entry is that entry's word.
    proof fn lemma_wire_enum(self, v: u32)
        ensures
            Self::of_wire(self.to_wire()) == Some(self),
            Self::of_wire(v) matches Some(e) ==> e.to_wire() == v,
    ;
}

/// Names of the entries of `each` whose bits are all set in `flags`, in order.
pub open spec fn set_flag_names(flags: u32, each: Seq<(&'static str, u32)>) -> Seq<&'static str>
    decreases each.len(),
{
    if each.len() == 0 {
        Seq::empty()
    } else {
        let init = set_flag_names(flags, each.drop_last());
        if each.last().1 & flags == each.last().1 {
            init.push(each.last().0)
        } else {
            init
        }
    }
}

/// How a set of flags is named: the names of its set entries, or `EMPTY` when there is none.
pub open spec fn flag_names(flags: u32, each: Seq<(&'static str, u32)>) -> Seq<&'static str> {
    let set = set_flag_names(flags, each);
    if set.len() == 0 {
        seq!["EMPTY"]
    } else {
        set
    }
}

/// Names written one after the other, each after the first preceded by `|`.
pub open spec fn join_names(names: Seq<&'static str>) -> Seq<char>
    decreases names.len(),
{
    if names.len() == 0 {
        Seq::empty()
    } else if names.len() == 1 {
        names[0]@
    } else {
        join_names(names.drop_last()) + "|"@ + names.last()@
    }
}

/// The text of `join_names`.
pub fn join_text(names: &Vec<&'static str>) -> (r: String)
    ensures
        r@ == join_names(names@),
{
    let mut r = String::new();
    let mut i: usize = 0;
    while i < names.len()
        invariant
            i <= names@.len(),
            r@ == join_names(names@.take(i as int)),
        decreases names@.len() - i,
    {
        let ghost before = r@;
        if i > 0 {
            r.append("|");
        }
        r.append(names[i]);
        proof {
            assert(names@.take(i + 1).drop_last() =~= names@.take(i as int));
            if i == 0 {
                assert(r@ =~= names@[0]@);
            }
        }
        i = i + 1;
    }
    assert(names@.take(i as int) =~= names@);
    r
}

/// The names that `flag_names` gives.
pub fn names_of(flags: u32, each: &[(&'static str, u32)]) -> (r: Vec<&'static str>)
    ensures
        r@ == flag_names(flags, each@),
{
    let mut r: Vec<&'static str> = Vec::new();
    let mut i: usize = 0;
    while i < each.len()
        invariant
            i <= each@.len(),
            r@ == set_flag_names(flags, each@.take(i as int)),
        decreases each@.len() - i,
    {
        let (name, val) = each[i];
        assert(each@.take(i + 1).drop_last() =~= each@.take(i as int));
        if val & flags == val {
            r.push(name);
        }
        i = i + 1;
    }
    assert(each@.take(i as int) =~= each@);
    if r.len() == 0 {
        r.push("EMPTY");
        assert(r@ =~= seq!["EMPTY"]);
    }
    r
}

/// Reversing a concatenation reverses the order of the parts.
pub proof fn lemma_reverse_add(a: Seq<Fd>, b: Seq<Fd>)
    ensures
        (a + b).reverse() == b.reverse() + a.reverse(),
{
    assert((a + b).reverse() =~= b.reverse() + a.reverse());
}

/// Writes `v` into `buf` from `pos`, cut at the end of `buf`, as `serialize`
/// does on the rest of `buf`.
pub fn ser_at<T: Ser>(v: T, buf: &mut [u8], pos: usize, fds: &mut Vec<Fd>) -> (n: usize)
    requires
        v.ser_ok(),
        pos <= old(buf)@.len(),
        v.ser_fits(old(buf)@.len() - pos),
    ensures
        n == v.ser_bytes().len(),
        final(buf)@ == write_at(old(buf)@, pos as int, v.ser_bytes()),
        final(fds)@ == old(fds)@ + v.ser_fds(),
{
    let ghost bytes = v.ser_bytes();
    let (head, tail) = buf.split_at_mut(pos);
    let r = v.serialize(tail, fds);
    assert(buf@ =~= write_at(old(buf)@, pos as int, bytes));
    match r {
        Ok(n) => n,
        Err(_) => 0,
    }
}

/// Copies `src` into `buf` from `pos`, cut at the end of `buf`.
fn put_bytes(buf: &mut [u8], pos: usize, src: &[u8])
    requires
        pos <= old(buf)@.len(),
    ensures
        final(buf)@ == write_at(old(buf)@, pos as int, src@),
{
    let blen = buf.len();
    let mut j: usize = 0;
    while j < src.len() && j < blen - pos
        invariant
            blen == buf@.len(),
            pos <= blen,
            j <= src@.len(),
            j <= blen - pos,
            buf@.len() == old(buf)@.len(),
            buf@ =~= write_at(old(buf)@, pos as int, src@.take(j as int)),
        decreases src@.len() - j,
    {
        buf[pos + j] = src[j];
        j = j + 1;
        assert(buf@ =~= write_at(old(buf)@, pos as int, src@.take(j as int)));
    }
    assert(buf@ =~= write_at(old(buf)@, pos as int, src@));
}

/// Writes `count` zero bytes into `buf` from `pos`, cut at the end of `buf`.
fn put_zeros(buf: &mut [u8], pos: usize, count: usize)
    requires
        pos <= old(buf)@.len(),
    ensures
        final(buf)@ == write_at(old(buf)@, pos as int, zeros(count as int)),
{
    let blen = buf.len();
    let mut j: usize = 0;
    while j < count && j < blen - pos
        invariant
            blen == buf@.len(),
            pos <= blen,
            j <= count,
            j <= blen - pos,
            buf@.len() == old(buf)@.len(),
            buf@ =~= write_at(old(buf)@, pos as int, zeros(j as int)),
        decreases count - j,
    {
        buf[pos + j] = 0;
        j = j + 1;
        assert(buf@ =~= write_at(old(buf)@, pos as int, zeros(j as int)));
    }
    assert(buf@ =~= write_at(old(buf)@, pos as int, zeros(count as int)));
}

/// Copies the bytes `buf[from..from + len]` into a new vector.
fn copy_range(buf: &[u8], from: usize, len: usize) -> (v: Vec<u8>)
    requires
        from + len <= buf@.len(),
    ensures
        v@ == buf@.subrange(from as int, from + len),
{
    let blen = buf.len();
    let mut v: Vec<u8> = Vec::new();
    let mut j: usize = 0;
    while j < len
        invariant
            blen == buf@.len(),
            j <= len,
            from + len <= buf@.len(),
            v@ =~= buf@.subrange(from as int, from + j),
        decreases len - j,
    {
        v.push(buf[from + j]);
        j = j + 1;
    }
    v
}

/// `std::str::from_utf8`: it accepts exactly the valid UTF-8 byte strings,
/// and the text it gives back is the one those bytes encode.
#[verifier::external_body]
fn utf8_str(bytes: &[u8]) -> (r: Option<&str>)
    ensures
        r is Some <==> valid_utf8(bytes@),
        r matches Some(s) ==> s@ == decode_utf8(bytes@),
{
    std::str::from_utf8(bytes).ok()
}

impl Ser for u32 {
    open spec fn ser_ok(&self) -> bool {
        true
    }

    open spec fn ser_bytes(&self) -> Seq<u8> {
        u32_wire(*self)
    }

    open spec fn ser_fds(&self) -> Seq<Fd> {
        Seq::empty()
    }

    fn wire_len(&self) -> (n: usize) {
        4
    }

    fn checked_len(&self) -> (r: Option<usize>) {
        Some(4)
    }

    open spec fn ser_fits(&self, cap: int) -> bool {
        true
    }

    fn serialize(self, buf: &mut [u8], fds: &mut Vec<Fd>) -> (r: Result<usize, &'static str>) {
        let bs: [u8; 4] = [
            (self & 0xff) as u8,
            ((self >> 8) & 0xff) as u8,
            ((self >> 16) & 0xff) as u8,
            ((self >> 24) & 0xff) as u8,
        ];
        assert(bs@ =~= u32_wire(self));
        put_bytes(buf, 0, &bs);
        assert(fds@ =~= old(fds)@ + Seq::<Fd>::empty());
        Ok(4)
    }

    proof fn lemma_fits(&self, cap: int) {
    }
}

impl Dsr for u32 {
    open spec fn dsr_spec(buf: Seq<u8>, fds: Seq<Fd>) -> Decoded<u32> {
        if buf.len() < 4 {
            Decoded::Failure("dsr:u32: unexpected end of buffer", fds)
        } else {
            Decoded::Value(u32_of_wire(buf[0], buf[1], buf[2], buf[3]), 4, fds)
        }
    }

    fn try_deserialize(buf: &[u8], fds: &mut Vec<Fd>) -> (r: Option<Result<(u32, usize), &'static str>>) {
        if buf.len() < 4 {
            return Some(Err("dsr:u32: unexpected end of buffer"));
        }
        let v = (buf[0] as u32) | ((buf[1] as u32) << 8u32) | ((buf[2] as u32) << 16u32) | ((
        buf[3] as u32) << 24u32);
        Some(Ok((v, 4)))
    }
}

/// Past a part that starts at `at`, the rest starts at `at` plus its length.
pub proof fn lemma_skip_step(buf: Seq<u8>, at: int, part: Seq<u8>, rest: Seq<u8>)
    requires
        0 <= at <= buf.len(),
        buf.skip(at) == part + rest,
    ensures
        buf.skip(at + part.len()) == rest,
{
    let whole = buf.skip(at);
    assert(whole.len() == part.len() + rest.len());
    assert forall|j: int| 0 <= j < rest.len() implies buf.skip(at + part.len())[j] == rest[j] by {
        assert(whole[part.len() + j] == (part + rest)[part.len() + j]);
    }
    assert(buf.skip(at + part.len()) =~= rest);
}

/// A word reads back from its four wire bytes.
pub proof fn lemma_u32_wire(v: u32)
    ensures
        u32_of_wire(u32_wire(v)[0], u32_wire(v)[1], u32_wire(v)[2], u32_wire(v)[3]) == v,
{
    let b0 = (v & 0xff) as u8;
    let b1 = ((v >> 8) & 0xff) as u8;
    let b2 = ((v >> 16) & 0xff) as u8;
    let b3 = ((v >> 24) & 0xff) as u8;
    assert((b0 as u32) | ((b1 as u32) << 8u32) | ((b2 as u32) << 16u32) | ((b3 as u32) << 24u32)
        == v) by (bit_vector)
        requires
            b0 == (v & 0xff) as u8,
            b1 == ((v >> 8) & 0xff) as u8,
            b2 == ((v >> 16) & 0xff) as u8,
            b3 == ((v >> 24) & 0xff) as u8,
    ;
}

impl Codec for u32 {
    open spec fn rt_ok(&self) -> bool {
        true
    }

    proof fn lemma_roundtrip(&self, tail: Seq<u8>, base: Seq<Fd>) {
        lemma_u32_wire(*self);
        assert(Seq::<Fd>::empty().reverse() =~= Seq::<Fd>::empty());
        assert(base + Seq::<Fd>::empty() =~= base);
    }
}

impl Ser for i32 {
    open spec fn ser_ok(&self) -> bool {
        true
    }

    open spec fn ser_bytes(&self) -> Seq<u8> {
        u32_wire(*self as u32)
    }

    open spec fn ser_fds(&self) -> Seq<Fd> {
        Seq::empty()
    }

    fn wire_len(&self) -> (n: usize) {
        4
    }

    fn checked_len(&self) -> (r: Option<usize>) {
        Some(4)
    }

    open spec fn ser_fits(&self, cap: int) -> bool {
        true
    }

    fn serialize(self, buf: &mut [u8], fds: &mut Vec<Fd>) -> (r: Result<usize, &'static str>) {
        (self as u32).serialize(buf, fds)
    }

    proof fn lemma_fits(&self, cap: int) {
    }
}

impl Dsr for i32 {
    open spec fn dsr_spec(buf: Seq<u8>, fds: Seq<Fd>) -> Decoded<i32> {
        if buf.len() < 4 {
            Decoded::Failure("dsr:i32: unexpected end of buffer", fds)
        } else {
            Decoded::Value(u32_of_wire(buf[0], buf[1], buf[2], buf[3]) as i32, 4, fds)
        }
    }

    fn try_deserialize(buf: &[u8], fds: &mut Vec<Fd>) -> (r: Option<Result<(i32, usize), &'static str>>) {
        if buf.len() < 4 {
            return Some(Err("dsr:i32: unexpected end of buffer"));
        }
        let v = (buf[0] as u32) | ((buf[1] as u32) << 8u32) | ((buf[2] as u32) << 16u32) | ((
        buf[3] as u32) << 24u32);
        Some(Ok((v as i32, 4)))
    }
}

impl Codec for i32 {
    open spec fn rt_ok(&self) -> bool {
        true
    }

    proof fn lemma_roundtrip(&self, tail: Seq<u8>, base: Seq<Fd>) {
        let x = *self;
        lemma_u32_wire(x as u32);
        assert((x as u32) as i32 == x) by (bit_vector);
        assert(Seq::<Fd>::empty().reverse() =~= Seq::<Fd>::empty());
        assert(base + Seq::<Fd>::empty() =~= base);
    }
}

/// A signed 24.8 fixed-point number, carried as its 32 raw bits.
#[derive(Debug, Clone, Copy)]
pub struct fixed(pub u32);

impl DeepView for fixed {
    type V = u32;

    open spec fn deep_view(&self) -> u32 {
        self.0
    }
}

impl Ser for fixed {
    open spec fn ser_ok(&self) -> bool {
        true
    }

    open spec fn ser_bytes(&self) -> Seq<u8> {
        u32_wire(self.0)
    }

    open spec fn ser_fds(&self) -> Seq<Fd> {
        Seq::empty()
    }

    fn wire_len(&self) -> (n: usize) {
        4
    }

    fn checked_len(&self) -> (r: Option<usize>) {
        Some(4)
    }

    open spec fn ser_fits(&self, cap: int) -> bool {
        true
    }

    fn serialize(self, buf: &mut [u8], fds: &mut Vec<Fd>) -> (r: Result<usize, &'static str>) {
        self.0.serialize(buf, fds)
    }

    proof fn lemma_fits(&self, cap: int) {
    }
}

impl Dsr for fixed {
    open spec fn dsr_spec(buf: Seq<u8>, fds: Seq<Fd>) -> Decoded<u32> {
        match u32::dsr_spec(buf, fds) {
            Decoded::Value(n, len, left) => Decoded::Value(n, len, left),
            Decoded::Failure(e, left) => Decoded::Failure(e, left),
            Decoded::Undefined => Decoded::Undefined,
        }
    }

    fn try_deserialize(buf: &[u8], fds: &mut Vec<Fd>) -> (r: Option<Result<(fixed, usize), &'static str>>) {
        match u32::try_deserialize(buf, fds) {
            Some(Ok((n, len))) => Some(Ok((fixed(n), len))),
            Some(Err(e)) => Some(Err(e)),
            None => None,
        }
    }
}

impl Codec for fixed {
    open spec fn rt_ok(&self) -> bool {
        true
    }

    proof fn lemma_roundtrip(&self, tail: Seq<u8>, base: Seq<Fd>) {
        self.0.lemma_roundtrip(tail, base);
    }
}

impl DeepView for Fd {
    type V = i32;

    open spec fn deep_view(&self) -> i32 {
        self.0
    }
}

impl Ser for Fd {
    open spec fn ser_ok(&self) -> bool {
        true
    }

    open spec fn ser_bytes(&self) -> Seq<u8> {
        Seq::empty()
    }

    open spec fn ser_fds(&self) -> Seq<Fd> {
        seq![*self]
    }

    fn wire_len(&self) -> (n: usize) {
        0
    }

    fn checked_len(&self) -> (r: Option<usize>) {
        Some(0)
    }

    open spec fn ser_fits(&self, cap: int) -> bool {
        true
    }

    fn serialize(self, buf: &mut [u8], fds: &mut Vec<Fd>) -> (r: Result<usize, &'static str>) {
        let ghost me = self;
        fds.push(self);
        assert(fds@ =~= old(fds)@ + seq![me]);
        assert(buf@ =~= write_at(old(buf)@, 0, Seq::<u8>::empty()));
        Ok(0)
    }

    proof fn lemma_fits(&self, cap: int) {
    }
}

impl Dsr for Fd {
    open spec fn dsr_spec(buf: Seq<u8>, fds: Seq<Fd>) -> Decoded<i32> {
        if fds.len() == 0 {
            Decoded::Failure("unexpected end of fds", fds)
        } else {
            Decoded::Value(fds.last().0, 0, fds.drop_last())
        }
    }

    fn try_deserialize(buf: &[u8], fds: &mut Vec<Fd>) -> (r: Option<Result<(Fd, usize), &'static str>>) {
        match fds.pop() {
            Some(fd) => Some(Ok((fd, 0))),
            None => Some(Err("unexpected end of fds")),
        }
    }
}

impl Codec for Fd {
    open spec fn rt_ok(&self) -> bool {
        true
    }

    proof fn lemma_roundtrip(&self, tail: Seq<u8>, base: Seq<Fd>) {
        assert(seq![*self].reverse() =~= seq![*self]);
        assert((base + seq![*self]).drop_last() =~= base);
    }
}

impl Ser for String {
    open spec fn ser_ok(&self) -> bool {
        encode_utf8(self@).len() < u32::MAX && string_wire(encode_utf8(self@)).len() <= usize::MAX
    }

    open spec fn ser_bytes(&self) -> Seq<u8> {
        string_wire(encode_utf8(self@))
    }

    open spec fn ser_fds(&self) -> Seq<Fd> {
        Seq::empty()
    }

    fn wire_len(&self) -> (n: usize) {
        let len = self.as_str().as_bytes().len();
        let i = 4 + len + 1;
        if i % 4 != 0 {
            i + (4 - i % 4)
        } else {
            i
        }
    }

    fn checked_len(&self) -> (r: Option<usize>) {
        let len = self.as_str().as_bytes().len();
        if len as u64 >= 0xffff_ffffu64 || len > usize::MAX - 5 {
            return None;
        }
        let i = len + 5;
        let mut pad: usize = 0;
        if i % 4 != 0 {
            pad = 4 - i % 4;
        }
        assert(pad == pad4((len + 1) as int));
        if i > usize::MAX - pad {
            None
        } else {
            Some(i + pad)
        }
    }

    open spec fn ser_fits(&self, cap: int) -> bool {
        {
            let n = encode_utf8(self@).len();
            &&& cap >= 4 + n
            &&& (5 + n) % 4 != 0 ==> cap >= 5 + n
        }
    }

    fn serialize(self, buf: &mut [u8], fds: &mut Vec<Fd>) -> (r: Result<usize, &'static str>) {
        let bytes = self.as_str().as_bytes();
        let len = bytes.len();
        let ghost b = bytes@;
        let ghost b0 = buf@;
        let i = 4 + len + 1;
        let mut pad: usize = 0;
        if i % 4 != 0 {
            pad = 4 - i % 4;
        }
        assert(pad == pad4((b.len() + 1) as int));
        let _ = ser_at((len + 1) as u32, buf, 0, fds);
        put_bytes(buf, 4, bytes);
        proof {
            lemma_write_then(b0, 0, u32_wire((len + 1) as u32), b);
        }
        let nul: [u8; 1] = [0u8];
        assert(nul@ =~= seq![0u8]);
        put_bytes(buf, 4 + len, &nul);
        proof {
            lemma_write_then(b0, 0, u32_wire((len + 1) as u32) + b, seq![0u8]);
        }
        if pad > 0 {
            put_zeros(buf, i, pad);
            proof {
                lemma_write_then(b0, 0, u32_wire((len + 1) as u32) + b + seq![0u8], zeros(pad as int));
            }
        } else {
            assert(u32_wire((len + 1) as u32) + b + seq![0u8] =~= u32_wire((len + 1) as u32) + b
                + seq![0u8] + zeros(0));
        }
        assert(fds@ =~= old(fds)@ + Seq::<Fd>::empty());
        Ok(i + pad)
    }

    proof fn lemma_fits(&self, cap: int) {
    }
}

impl Dsr for String {
    open spec fn dsr_spec(buf: Seq<u8>, fds: Seq<Fd>) -> Decoded<Seq<char>> {
        match u32::dsr_spec(buf, fds) {
            Decoded::Value(n, len, left) => {
                let rest = buf.skip(4);
                if rest.len() < n {
                    Decoded::Failure("dsr:str: unexpected end of buffer", left)
                } else if n == 0 {
                    Decoded::Undefined
                } else {
                    let text = rest.take(n - 1);
                    if !valid_utf8(text) {
                        Decoded::Failure("invalid string", left)
                    } else {
                        let i = 4 + n - 1;
                        if i % 4 != 0 && buf.len() - i < 4 - i % 4 {
                            Decoded::Failure("dsr:str: unexpected end of buffer", left)
                        } else {
                            Decoded::Value(decode_utf8(text), (i + pad4(i)) as nat, left)
                        }
                    }
                }
            },
            Decoded::Failure(e, left) => Decoded::Failure(e, left),
            Decoded::Undefined => Decoded::Undefined,
        }
    }

    fn try_deserialize(buf: &[u8], fds: &mut Vec<Fd>) -> (r: Option<Result<(String, usize), &'static str>>) {
        let (n, i) = match u32::try_deserialize(buf, fds) {
            Some(Ok(p)) => p,
            Some(Err(e)) => return Some(Err(e)),
            None => return None,
        };
        let n = n as usize;
        if buf.len() - i < n {
            return Some(Err("dsr:str: unexpected end of buffer"));
        }
        if n == 0 {
            return None;
        }
        let text = &buf[i..i + (n - 1)];
        assert(text@ =~= buf@.skip(4).take(n - 1));
        let s = match utf8_str(text) {
            Some(s) => s,
            None => return Some(Err("invalid string")),
        };
        let mut i = i + (n - 1);
        if i % 4 != 0 {
            let pad = 4 - i % 4;
            if buf.len() - i < pad {
                return Some(Err("dsr:str: unexpected end of buffer"));
            }
            i = i + pad;
        }
        let owned = s.to_owned();
        Some(Ok((owned, i)))
    }
}

impl Codec for String {
    open spec fn rt_ok(&self) -> bool {
        encode_utf8(self@).len() % 4 != 0
    }

    proof fn lemma_roundtrip(&self, tail: Seq<u8>, base: Seq<Fd>) {
        let b = encode_utf8(self@);
        let w = string_wire(b);
        let buf = w + tail;
        let n = (b.len() + 1) as u32;
        lemma_u32_wire(n);
        assert(buf.skip(4).take(n - 1) =~= b);
        encode_utf8_valid_utf8(self@);
        encode_utf8_decode_utf8(self@);
        assert(exists|s: String| s@ == decode_utf8(b)) by {
            assert(self@ == decode_utf8(b));
        }
        assert(Seq::<Fd>::empty().reverse() =~= Seq::<Fd>::empty());
        assert(base + Seq::<Fd>::empty() =~= base);
    }
}

impl Ser for Vec<u8> {
    open spec fn ser_ok(&self) -> bool {
        self@.len() <= u32::MAX && array_wire(self@).len() <= usize::MAX
    }

    open spec fn ser_bytes(&self) -> Seq<u8> {
        array_wire(self@)
    }

    open spec fn ser_fds(&self) -> Seq<Fd> {
        Seq::empty()
    }

    fn wire_len(&self) -> (n: usize) {
        let i = 4 + self.len();
        if i % 4 != 0 {
            i + (4 - i % 4)
        } else {
            i
        }
    }

    fn checked_len(&self) -> (r: Option<usize>) {
        let len = self.len();
        if len as u64 > 0xffff_ffffu64 || len > usize::MAX - 4 {
            return None;
        }
        let i = len + 4;
        let mut pad: usize = 0;
        if i % 4 != 0 {
            pad = 4 - i % 4;
        }
        assert(pad == pad4(len as int));
        if i > usize::MAX - pad {
            None
        } else {
            Some(i + pad)
        }
    }

    open spec fn ser_fits(&self, cap: int) -> bool {
        {
            &&& cap >= 4
            &&& (4 + self@.len()) % 4 != 0 ==> cap >= 4 + self@.len()
        }
    }

    fn serialize(self, buf: &mut [u8], fds: &mut Vec<Fd>) -> (r: Result<usize, &'static str>) {
        let len = self.len();
        let ghost b = self@;
        let ghost b0 = buf@;
        let i = 4 + len;
        let mut pad: usize = 0;
        if i % 4 != 0 {
            pad = 4 - i % 4;
        }
        assert(pad == pad4(b.len() as int));
        let _ = ser_at(len as u32, buf, 0, fds);
        put_bytes(buf, 4, self.as_slice());
        proof {
            lemma_write_then(b0, 0, u32_wire(len as u32), b);
        }
        if pad > 0 {
            put_zeros(buf, i, pad);
            proof {
                lemma_write_then(b0, 0, u32_wire(len as u32) + b, zeros(pad as int));
            }
        } else {
            assert(u32_wire(len as u32) + b =~= u32_wire(len as u32) + b + zeros(0));
        }
        assert(fds@ =~= old(fds)@ + Seq::<Fd>::empty());
        Ok(i + pad)
    }

    proof fn lemma_fits(&self, cap: int) {
    }
}

impl Dsr for Vec<u8> {
    open spec fn dsr_spec(buf: Seq<u8>, fds: Seq<Fd>) -> Decoded<Seq<u8>> {
        match u32::dsr_spec(buf, fds) {
            Decoded::Value(n, len, left) => {
                let rest = buf.skip(4);
                if rest.len() < n {
                    Decoded::Failure("dsr:array: unexpected end of buffer", left)
                } else {
                    let i = 4 + n;
                    if i % 4 != 0 && buf.len() - i < 4 - i % 4 {
                        Decoded::Failure("dsr:array: unexpected end of buffer", left)
                    } else {
                        Decoded::Value(rest.take(n as int), (i + pad4(i)) as nat, left)
                    }
                }
            },
            Decoded::Failure(e, left) => Decoded::Failure(e, left),
            Decoded::Undefined => Decoded::Undefined,
        }
    }

    fn try_deserialize(buf: &[u8], fds: &mut Vec<Fd>) -> (r: Option<Result<(Vec<u8>, usize), &'static str>>) {
        let (n, i) = match u32::try_deserialize(buf, fds) {
            Some(Ok(p)) => p,
            Some(Err(e)) => return Some(Err(e)),
            None => return None,
        };
        let n = n as usize;
        if buf.len() - i < n {
            return Some(Err("dsr:array: unexpected end of buffer"));
        }
        let v = copy_range(buf, i, n);
        assert(v@ =~= buf@.skip(4).take(n as int));
        let mut i = i + n;
        if i % 4 != 0 {
            let pad = 4 - i % 4;
            if buf.len() - i < pad {
                return Some(Err("dsr:array: unexpected end of buffer"));
            }
            i = i + pad;
        }
        assert(v.deep_view() =~= v@);
        Some(Ok((v, i)))
    }
}

impl Codec for Vec<u8> {
    open spec fn rt_ok(&self) -> bool {
        true
    }

    proof fn lemma_roundtrip(&self, tail: Seq<u8>, base: Seq<Fd>) {
        let w = array_wire(self@);
        let buf = w + tail;
        lemma_u32_wire(self@.len() as u32);
        assert(buf.skip(4).take(self@.len() as int) =~= self@);
        assert(self.deep_view() =~= self@);
        assert(Seq::<Fd>::empty().reverse() =~= Seq::<Fd>::empty());
        assert(base + Seq::<Fd>::empty() =~= base);
    }
}

} // verus!
