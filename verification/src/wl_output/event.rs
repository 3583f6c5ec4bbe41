use vstd::prelude::*;
use crate::objects::{type_id_of, new_id, object, Dyn, ObjMeta, Object, Msg, Event};
use crate::wire::{ser_at, write_at, lemma_write_then, lemma_reverse_add, lemma_skip_step, fixed, Codec, Decoded, Dsr, Fd, Ser};
use super::Obj;

verus! {

/// properties of the output
///
/// The geometry event describes geometric properties of the output.
/// The event is sent when binding to the output object and whenever
/// any of the properties change.
///
/// The physical size can be set to zero if it doesn't make sense for this
/// output (e.g. for projectors or virtual outputs).
///
/// The geometry event will be followed by a done event (starting from
/// version 2).
///
/// Note: wl_output only advertises partial information about the output
/// position and identification. Some compositors, for instance those not
/// implementing a desktop-style output layout or those exposing virtual
/// outputs, might fake this information. Instead of using x and y, clients
/// should use xdg_output.logical_position. Instead of using make and model,
/// clients should use name and description.
///
#[derive(Debug)]
pub struct geometry {
    // x position within the global compositor space
    pub x: i32,
    // y position within the global compositor space
    pub y: i32,
    // width in millimeters of the output
    pub physical_width: i32,
    // height in millimeters of the output
    pub physical_height: i32,
    // subpixel orientation of the output
    pub subpixel: super::subpixel,
    // textual description of the manufacturer
    pub make: String,
    // textual description of the model
    pub model: String,
    // transform that maps framebuffer to output
    pub transform: super::transform,
}

impl Ser for geometry {
    open spec fn ser_ok(&self) -> bool {
        &&& self.x.ser_ok()
        &&& self.y.ser_ok()
        &&& self.physical_width.ser_ok()
        &&& self.physical_height.ser_ok()
        &&& self.subpixel.ser_ok()
        &&& self.make.ser_ok()
        &&& self.model.ser_ok()
        &&& self.transform.ser_ok()
        &&& self.ser_bytes().len() <= usize::MAX
    }

    open spec fn ser_bytes(&self) -> Seq<u8> {
        self.x.ser_bytes() + self.y.ser_bytes() + self.physical_width.ser_bytes() + self.physical_height.ser_bytes() + self.subpixel.ser_bytes() + self.make.ser_bytes() + self.model.ser_bytes() + self.transform.ser_bytes()
    }

    open spec fn ser_fds(&self) -> Seq<Fd> {
        self.x.ser_fds() + self.y.ser_fds() + self.physical_width.ser_fds() + self.physical_height.ser_fds() + self.subpixel.ser_fds() + self.make.ser_fds() + self.model.ser_fds() + self.transform.ser_fds()
    }

    fn wire_len(&self) -> (n: usize) {
        self.x.wire_len() + self.y.wire_len() + self.physical_width.wire_len() + self.physical_height.wire_len() + self.subpixel.wire_len() + self.make.wire_len() + self.model.wire_len() + self.transform.wire_len()
    }

    fn checked_len(&self) -> (r: Option<usize>) {
        let n0 = match self.x.checked_len() {
            Some(m) => m,
            None => return None,
        };
        let n1 = match self.y.checked_len() {
            Some(m) => match n0.checked_add(m) {
                Some(t) => t,
                None => return None,
            },
            None => return None,
        };
        let n2 = match self.physical_width.checked_len() {
            Some(m) => match n1.checked_add(m) {
                Some(t) => t,
                None => return None,
            },
            None => return None,
        };
        let n3 = match self.physical_height.checked_len() {
            Some(m) => match n2.checked_add(m) {
                Some(t) => t,
                None => return None,
            },
            None => return None,
        };
        let n4 = match self.subpixel.checked_len() {
            Some(m) => match n3.checked_add(m) {
                Some(t) => t,
                None => return None,
            },
            None => return None,
        };
        let n5 = match self.make.checked_len() {
            Some(m) => match n4.checked_add(m) {
                Some(t) => t,
                None => return None,
            },
            None => return None,
        };
        let n6 = match self.model.checked_len() {
            Some(m) => match n5.checked_add(m) {
                Some(t) => t,
                None => return None,
            },
            None => return None,
        };
        let n7 = match self.transform.checked_len() {
            Some(m) => match n6.checked_add(m) {
                Some(t) => t,
                None => return None,
            },
            None => return None,
        };
        Some(n7)
    }

    open spec fn ser_fits(&self, cap: int) -> bool {
        &&& 0 <= cap && self.x.ser_fits(cap - (0))
        &&& self.x.ser_bytes().len() <= cap && self.y.ser_fits(cap - (self.x.ser_bytes().len()))
        &&& self.x.ser_bytes().len() + self.y.ser_bytes().len() <= cap && self.physical_width.ser_fits(cap - (self.x.ser_bytes().len() + self.y.ser_bytes().len()))
        &&& self.x.ser_bytes().len() + self.y.ser_bytes().len() + self.physical_width.ser_bytes().len() <= cap && self.physical_height.ser_fits(cap - (self.x.ser_bytes().len() + self.y.ser_bytes().len() + self.physical_width.ser_bytes().len()))
        &&& self.x.ser_bytes().len() + self.y.ser_bytes().len() + self.physical_width.ser_bytes().len() + self.physical_height.ser_bytes().len() <= cap && self.subpixel.ser_fits(cap - (self.x.ser_bytes().len() + self.y.ser_bytes().len() + self.physical_width.ser_bytes().len() + self.physical_height.ser_bytes().len()))
        &&& self.x.ser_bytes().len() + self.y.ser_bytes().len() + self.physical_width.ser_bytes().len() + self.physical_height.ser_bytes().len() + self.subpixel.ser_bytes().len() <= cap && self.make.ser_fits(cap - (self.x.ser_bytes().len() + self.y.ser_bytes().len() + self.physical_width.ser_bytes().len() + self.physical_height.ser_bytes().len() + self.subpixel.ser_bytes().len()))
        &&& self.x.ser_bytes().len() + self.y.ser_bytes().len() + self.physical_width.ser_bytes().len() + self.physical_height.ser_bytes().len() + self.subpixel.ser_bytes().len() + self.make.ser_bytes().len() <= cap && self.model.ser_fits(cap - (self.x.ser_bytes().len() + self.y.ser_bytes().len() + self.physical_width.ser_bytes().len() + self.physical_height.ser_bytes().len() + self.subpixel.ser_bytes().len() + self.make.ser_bytes().len()))
        &&& self.x.ser_bytes().len() + self.y.ser_bytes().len() + self.physical_width.ser_bytes().len() + self.physical_height.ser_bytes().len() + self.subpixel.ser_bytes().len() + self.make.ser_bytes().len() + self.model.ser_bytes().len() <= cap && self.transform.ser_fits(cap - (self.x.ser_bytes().len() + self.y.ser_bytes().len() + self.physical_width.ser_bytes().len() + self.physical_height.ser_bytes().len() + self.subpixel.ser_bytes().len() + self.make.ser_bytes().len() + self.model.ser_bytes().len()))
    }

    #[verifier::rlimit(100)]
    fn serialize(self, buf: &mut [u8], fds: &mut Vec<Fd>) -> (r: Result<usize, &'static str>) {
        let ghost me = self;
        let ghost b0 = buf@;
        let mut n: usize = 0;
        n = n + ser_at(self.x, buf, n, fds);
        assert(fds@ =~= old(fds)@ + me.x.ser_fds());
        n = n + ser_at(self.y, buf, n, fds);
        proof {
            lemma_write_then(b0, 0, me.x.ser_bytes(), me.y.ser_bytes());
        }
        assert(fds@ =~= old(fds)@ + me.x.ser_fds() + me.y.ser_fds());
        n = n + ser_at(self.physical_width, buf, n, fds);
        proof {
            lemma_write_then(b0, 0, me.x.ser_bytes() + me.y.ser_bytes(), me.physical_width.ser_bytes());
        }
        assert(fds@ =~= old(fds)@ + me.x.ser_fds() + me.y.ser_fds() + me.physical_width.ser_fds());
        n = n + ser_at(self.physical_height, buf, n, fds);
        proof {
            lemma_write_then(b0, 0, me.x.ser_bytes() + me.y.ser_bytes() + me.physical_width.ser_bytes(), me.physical_height.ser_bytes());
        }
        assert(fds@ =~= old(fds)@ + me.x.ser_fds() + me.y.ser_fds() + me.physical_width.ser_fds() + me.physical_height.ser_fds());
        n = n + ser_at(self.subpixel, buf, n, fds);
        proof {
            lemma_write_then(b0, 0, me.x.ser_bytes() + me.y.ser_bytes() + me.physical_width.ser_bytes() + me.physical_height.ser_bytes(), me.subpixel.ser_bytes());
        }
        assert(fds@ =~= old(fds)@ + me.x.ser_fds() + me.y.ser_fds() + me.physical_width.ser_fds() + me.physical_height.ser_fds() + me.subpixel.ser_fds());
        n = n + ser_at(self.make, buf, n, fds);
        proof {
            lemma_write_then(b0, 0, me.x.ser_bytes() + me.y.ser_bytes() + me.physical_width.ser_bytes() + me.physical_height.ser_bytes() + me.subpixel.ser_bytes(), me.make.ser_bytes());
        }
        assert(fds@ =~= old(fds)@ + me.x.ser_fds() + me.y.ser_fds() + me.physical_width.ser_fds() + me.physical_height.ser_fds() + me.subpixel.ser_fds() + me.make.ser_fds());
        n = n + ser_at(self.model, buf, n, fds);
        proof {
            lemma_write_then(b0, 0, me.x.ser_bytes() + me.y.ser_bytes() + me.physical_width.ser_bytes() + me.physical_height.ser_bytes() + me.subpixel.ser_bytes() + me.make.ser_bytes(), me.model.ser_bytes());
        }
        assert(fds@ =~= old(fds)@ + me.x.ser_fds() + me.y.ser_fds() + me.physical_width.ser_fds() + me.physical_height.ser_fds() + me.subpixel.ser_fds() + me.make.ser_fds() + me.model.ser_fds());
        n = n + ser_at(self.transform, buf, n, fds);
        proof {
            lemma_write_then(b0, 0, me.x.ser_bytes() + me.y.ser_bytes() + me.physical_width.ser_bytes() + me.physical_height.ser_bytes() + me.subpixel.ser_bytes() + me.make.ser_bytes() + me.model.ser_bytes(), me.transform.ser_bytes());
        }
        assert(fds@ =~= old(fds)@ + me.ser_fds());
        Ok(n)
    }

    proof fn lemma_fits(&self, cap: int) {
        self.x.lemma_fits(cap - (0));
        self.y.lemma_fits(cap - (self.x.ser_bytes().len()));
        self.physical_width.lemma_fits(cap - (self.x.ser_bytes().len() + self.y.ser_bytes().len()));
        self.physical_height.lemma_fits(cap - (self.x.ser_bytes().len() + self.y.ser_bytes().len() + self.physical_width.ser_bytes().len()));
        self.subpixel.lemma_fits(cap - (self.x.ser_bytes().len() + self.y.ser_bytes().len() + self.physical_width.ser_bytes().len() + self.physical_height.ser_bytes().len()));
        self.make.lemma_fits(cap - (self.x.ser_bytes().len() + self.y.ser_bytes().len() + self.physical_width.ser_bytes().len() + self.physical_height.ser_bytes().len() + self.subpixel.ser_bytes().len()));
        self.model.lemma_fits(cap - (self.x.ser_bytes().len() + self.y.ser_bytes().len() + self.physical_width.ser_bytes().len() + self.physical_height.ser_bytes().len() + self.subpixel.ser_bytes().len() + self.make.ser_bytes().len()));
        self.transform.lemma_fits(cap - (self.x.ser_bytes().len() + self.y.ser_bytes().len() + self.physical_width.ser_bytes().len() + self.physical_height.ser_bytes().len() + self.subpixel.ser_bytes().len() + self.make.ser_bytes().len() + self.model.ser_bytes().len()));
    }
}

impl DeepView for geometry {
    type V = (<i32 as DeepView>::V, <i32 as DeepView>::V, <i32 as DeepView>::V, <i32 as DeepView>::V, <super::subpixel as DeepView>::V, <String as DeepView>::V, <String as DeepView>::V, <super::transform as DeepView>::V,);

    open spec fn deep_view(&self) -> (<i32 as DeepView>::V, <i32 as DeepView>::V, <i32 as DeepView>::V, <i32 as DeepView>::V, <super::subpixel as DeepView>::V, <String as DeepView>::V, <String as DeepView>::V, <super::transform as DeepView>::V,) {
        (self.x.deep_view(), self.y.deep_view(), self.physical_width.deep_view(), self.physical_height.deep_view(), self.subpixel.deep_view(), self.make.deep_view(), self.model.deep_view(), self.transform.deep_view(),)
    }
}

impl Dsr for geometry {
    open spec fn dsr_spec(buf: Seq<u8>, fds: Seq<Fd>) -> Decoded<(<i32 as DeepView>::V, <i32 as DeepView>::V, <i32 as DeepView>::V, <i32 as DeepView>::V, <super::subpixel as DeepView>::V, <String as DeepView>::V, <String as DeepView>::V, <super::transform as DeepView>::V,)> {
        match <i32>::dsr_spec(buf, fds) {
            Decoded::Value(x, n0, q0) => {
                match <i32>::dsr_spec(buf.skip(n0 as int), q0) {
                    Decoded::Value(y, m1, q1) => {
                        let n1 = n0 + m1;
                        match <i32>::dsr_spec(buf.skip(n1 as int), q1) {
                            Decoded::Value(physical_width, m2, q2) => {
                                let n2 = n1 + m2;
                                match <i32>::dsr_spec(buf.skip(n2 as int), q2) {
                                    Decoded::Value(physical_height, m3, q3) => {
                                        let n3 = n2 + m3;
                                        match <super::subpixel>::dsr_spec(buf.skip(n3 as int), q3) {
                                            Decoded::Value(subpixel, m4, q4) => {
                                                let n4 = n3 + m4;
                                                match <String>::dsr_spec(buf.skip(n4 as int), q4) {
                                                    Decoded::Value(make, m5, q5) => {
                                                        let n5 = n4 + m5;
                                                        match <String>::dsr_spec(buf.skip(n5 as int), q5) {
                                                            Decoded::Value(model, m6, q6) => {
                                                                let n6 = n5 + m6;
                                                                match <super::transform>::dsr_spec(buf.skip(n6 as int), q6) {
                                                                    Decoded::Value(transform, m7, q7) => {
                                                                        let n7 = n6 + m7;
                                                                        Decoded::Value((x, y, physical_width, physical_height, subpixel, make, model, transform,), n7, q7)
                                                                    },
                                                                    d => d.fail(),
                                                                }
                                                            },
                                                            d => d.fail(),
                                                        }
                                                    },
                                                    d => d.fail(),
                                                }
                                            },
                                            d => d.fail(),
                                        }
                                    },
                                    d => d.fail(),
                                }
                            },
                            d => d.fail(),
                        }
                    },
                    d => d.fail(),
                }
            },
            d => d.fail(),
        }
    }

    #[verifier::rlimit(100)]
    fn try_deserialize(buf: &[u8], fds: &mut Vec<Fd>) -> (r: Option<Result<(geometry, usize), &'static str>>) {
        let mut n: usize = 0;
        let rest = &buf[n..buf.len()];
        assert(rest@ =~= buf@.skip(n as int));
        assert(n == 0 ==> rest@ =~= buf@);
        let (x, m) = match <i32>::try_deserialize(rest, fds) {
            Some(Ok(p)) => p,
            Some(Err(e)) => return Some(Err(e)),
            None => return None,
        };
        n = n + m;
        let rest = &buf[n..buf.len()];
        assert(rest@ =~= buf@.skip(n as int));
        assert(n == 0 ==> rest@ =~= buf@);
        let (y, m) = match <i32>::try_deserialize(rest, fds) {
            Some(Ok(p)) => p,
            Some(Err(e)) => return Some(Err(e)),
            None => return None,
        };
        n = n + m;
        let rest = &buf[n..buf.len()];
        assert(rest@ =~= buf@.skip(n as int));
        assert(n == 0 ==> rest@ =~= buf@);
        let (physical_width, m) = match <i32>::try_deserialize(rest, fds) {
            Some(Ok(p)) => p,
            Some(Err(e)) => return Some(Err(e)),
            None => return None,
        };
        n = n + m;
        let rest = &buf[n..buf.len()];
        assert(rest@ =~= buf@.skip(n as int));
        assert(n == 0 ==> rest@ =~= buf@);
        let (physical_height, m) = match <i32>::try_deserialize(rest, fds) {
            Some(Ok(p)) => p,
            Some(Err(e)) => return Some(Err(e)),
            None => return None,
        };
        n = n + m;
        let rest = &buf[n..buf.len()];
        assert(rest@ =~= buf@.skip(n as int));
        assert(n == 0 ==> rest@ =~= buf@);
        let (subpixel, m) = match <super::subpixel>::try_deserialize(rest, fds) {
            Some(Ok(p)) => p,
            Some(Err(e)) => return Some(Err(e)),
            None => return None,
        };
        n = n + m;
        let rest = &buf[n..buf.len()];
        assert(rest@ =~= buf@.skip(n as int));
        assert(n == 0 ==> rest@ =~= buf@);
        let (make, m) = match <String>::try_deserialize(rest, fds) {
            Some(Ok(p)) => p,
            Some(Err(e)) => return Some(Err(e)),
            None => return None,
        };
        n = n + m;
        let rest = &buf[n..buf.len()];
        assert(rest@ =~= buf@.skip(n as int));
        assert(n == 0 ==> rest@ =~= buf@);
        let (model, m) = match <String>::try_deserialize(rest, fds) {
            Some(Ok(p)) => p,
            Some(Err(e)) => return Some(Err(e)),
            None => return None,
        };
        n = n + m;
        let rest = &buf[n..buf.len()];
        assert(rest@ =~= buf@.skip(n as int));
        assert(n == 0 ==> rest@ =~= buf@);
        let (transform, m) = match <super::transform>::try_deserialize(rest, fds) {
            Some(Ok(p)) => p,
            Some(Err(e)) => return Some(Err(e)),
            None => return None,
        };
        n = n + m;
        Some(Ok((geometry { x, y, physical_width, physical_height, subpixel, make, model, transform }, n)))
    }
}

impl Codec for geometry {
    open spec fn rt_ok(&self) -> bool {
        &&& self.x.rt_ok()
        &&& self.y.rt_ok()
        &&& self.physical_width.rt_ok()
        &&& self.physical_height.rt_ok()
        &&& self.subpixel.rt_ok()
        &&& self.make.rt_ok()
        &&& self.model.rt_ok()
        &&& self.transform.rt_ok()
    }

    #[verifier::rlimit(100)]
    #[verifier::spinoff_prover]
    proof fn lemma_roundtrip(&self, tail: Seq<u8>, base: Seq<Fd>) {
        let b0 = self.x.ser_bytes();
        let b1 = self.y.ser_bytes();
        let b2 = self.physical_width.ser_bytes();
        let b3 = self.physical_height.ser_bytes();
        let b4 = self.subpixel.ser_bytes();
        let b5 = self.make.ser_bytes();
        let b6 = self.model.ser_bytes();
        let b7 = self.transform.ser_bytes();
        let d0 = self.x.ser_fds();
        let d1 = self.y.ser_fds();
        let d2 = self.physical_width.ser_fds();
        let d3 = self.physical_height.ser_fds();
        let d4 = self.subpixel.ser_fds();
        let d5 = self.make.ser_fds();
        let d6 = self.model.ser_fds();
        let d7 = self.transform.ser_fds();
        let s8 = tail;
        let s7 = b7 + s8;
        let s6 = b6 + s7;
        let s5 = b5 + s6;
        let s4 = b4 + s5;
        let s3 = b3 + s4;
        let s2 = b2 + s3;
        let s1 = b1 + s2;
        let s0 = b0 + s1;
        let buf = self.ser_bytes() + tail;
        assert(buf =~= s0);
        assert(buf.skip(0) =~= s0);
        assert(self.ser_fds() =~= Seq::<Fd>::empty());
        assert(base + self.ser_fds().reverse() =~= base);
        assert(d0 =~= Seq::<Fd>::empty());
        assert(base + d0.reverse() =~= base);
        self.x.lemma_roundtrip(s1, base);
        assert(buf.skip((b0.len()) as int) == s1) by {
            lemma_skip_step(buf, (0) as int, b0, s1);
        }
        assert(d1 =~= Seq::<Fd>::empty());
        assert(base + d1.reverse() =~= base);
        self.y.lemma_roundtrip(s2, base);
        assert(buf.skip((b0.len() + b1.len()) as int) == s2) by {
            lemma_skip_step(buf, (b0.len()) as int, b1, s2);
        }
        assert(d2 =~= Seq::<Fd>::empty());
        assert(base + d2.reverse() =~= base);
        self.physical_width.lemma_roundtrip(s3, base);
        assert(buf.skip((b0.len() + b1.len() + b2.len()) as int) == s3) by {
            lemma_skip_step(buf, (b0.len() + b1.len()) as int, b2, s3);
        }
        assert(d3 =~= Seq::<Fd>::empty());
        assert(base + d3.reverse() =~= base);
        self.physical_height.lemma_roundtrip(s4, base);
        assert(buf.skip((b0.len() + b1.len() + b2.len() + b3.len()) as int) == s4) by {
            lemma_skip_step(buf, (b0.len() + b1.len() + b2.len()) as int, b3, s4);
        }
        assert(d4 =~= Seq::<Fd>::empty());
        assert(base + d4.reverse() =~= base);
        self.subpixel.lemma_roundtrip(s5, base);
        assert(buf.skip((b0.len() + b1.len() + b2.len() + b3.len() + b4.len()) as int) == s5) by {
            lemma_skip_step(buf, (b0.len() + b1.len() + b2.len() + b3.len()) as int, b4, s5);
        }
        assert(d5 =~= Seq::<Fd>::empty());
        assert(base + d5.reverse() =~= base);
        self.make.lemma_roundtrip(s6, base);
        assert(buf.skip((b0.len() + b1.len() + b2.len() + b3.len() + b4.len() + b5.len()) as int) == s6) by {
            lemma_skip_step(buf, (b0.len() + b1.len() + b2.len() + b3.len() + b4.len()) as int, b5, s6);
        }
        assert(d6 =~= Seq::<Fd>::empty());
        assert(base + d6.reverse() =~= base);
        self.model.lemma_roundtrip(s7, base);
        assert(buf.skip((b0.len() + b1.len() + b2.len() + b3.len() + b4.len() + b5.len() + b6.len()) as int) == s7) by {
            lemma_skip_step(buf, (b0.len() + b1.len() + b2.len() + b3.len() + b4.len() + b5.len()) as int, b6, s7);
        }
        assert(d7 =~= Seq::<Fd>::empty());
        assert(base + d7.reverse() =~= base);
        self.transform.lemma_roundtrip(s8, base);
    }
}

impl geometry {
    /// The arguments are read in the protocol's order, `x`, then `y`, then `physical_width`, then `physical_height`, then `subpixel`, then `make`, then `model`, then `transform`: the bytes
    /// and descriptors written for such arguments, one after the other,
    /// decode to exactly those arguments.
    pub proof fn lemma_layout(x: i32, y: i32, physical_width: i32, physical_height: i32, subpixel: super::subpixel, make: String, model: String, transform: super::transform, rest: Seq<u8>, queue: Seq<Fd>)
        requires
            x.ser_ok(),
            x.rt_ok(),
            y.ser_ok(),
            y.rt_ok(),
            physical_width.ser_ok(),
            physical_width.rt_ok(),
            physical_height.ser_ok(),
            physical_height.rt_ok(),
            subpixel.ser_ok(),
            subpixel.rt_ok(),
            make.ser_ok(),
            make.rt_ok(),
            model.ser_ok(),
            model.rt_ok(),
            transform.ser_ok(),
            transform.rt_ok(),
            x.ser_bytes().len() + y.ser_bytes().len() + physical_width.ser_bytes().len() + physical_height.ser_bytes().len() + subpixel.ser_bytes().len() + make.ser_bytes().len() + model.ser_bytes().len() + transform.ser_bytes().len() <= usize::MAX,
        ensures
            ({
                let bytes = x.ser_bytes() + y.ser_bytes() + physical_width.ser_bytes() + physical_height.ser_bytes() + subpixel.ser_bytes() + make.ser_bytes() + model.ser_bytes() + transform.ser_bytes();
                let fds = x.ser_fds() + y.ser_fds() + physical_width.ser_fds() + physical_height.ser_fds() + subpixel.ser_fds() + make.ser_fds() + model.ser_fds() + transform.ser_fds();
                geometry::dsr_spec(bytes + rest, queue + fds.reverse()) == Decoded::Value(
                    (x.deep_view(), y.deep_view(), physical_width.deep_view(), physical_height.deep_view(), subpixel.deep_view(), make.deep_view(), model.deep_view(), transform.deep_view(),),
                    bytes.len(),
                    queue,
                )
            }),
    {
        let m = geometry { x, y, physical_width, physical_height, subpixel, make, model, transform };
        m.lemma_roundtrip(rest, queue);
    }

    /// The message creates no object.
    pub proof fn lemma_creates(&self)
        ensures
            self.created_id() is None,
    {
    }
}

impl Msg<Obj> for geometry {
    open spec fn opcode() -> u16 {
        0
    }

    open spec fn since_version() -> u32 {
        1
    }

    open spec fn created_id(&self) -> Option<u32> {
        None
    }

    open spec fn created_destructor(&self) -> Option<u16> {
        None
    }

    fn op() -> (r: u16) {
        0
    }

    fn since() -> u32 {
        1
    }

    fn new_id(&self) -> (r: Option<(u32, ObjMeta)>) {
        None
    }
}

impl Event<Obj> for geometry {

}

/// advertise available modes for the output
///
/// The mode event describes an available mode for the output.
///
/// The event is sent when binding to the output object and there
/// will always be one mode, the current mode.  The event is sent
/// again if an output changes mode, for the mode that is now
/// current.  In other words, the current mode is always the last
/// mode that was received with the current flag set.
///
/// Non-current modes are deprecated. A compositor can decide to only
/// advertise the current mode and never send other modes. Clients
/// should not rely on non-current modes.
///
/// The size of a mode is given in physical hardware units of
/// the output device. This is not necessarily the same as
/// the output size in the global compositor space. For instance,
/// the output may be scaled, as described in wl_output.scale,
/// or transformed, as described in wl_output.transform. Clients
/// willing to retrieve the output size in the global compositor
/// space should use xdg_output.logical_size instead.
///
/// The vertical refresh rate can be set to zero if it doesn't make
/// sense for this output (e.g. for virtual outputs).
///
/// The mode event will be followed by a done event (starting from
/// version 2).
///
/// Clients should not use the refresh rate to schedule frames. Instead,
/// they should use the wl_surface.frame event or the presentation-time
/// protocol.
///
/// Note: this information is not always meaningful for all outputs. Some
/// compositors, such as those exposing virtual outputs, might fake the
/// refresh rate or the size.
///
#[derive(Debug)]
pub struct mode {
    // bitfield of mode flags
    pub flags: super::mode,
    // width of the mode in hardware units
    pub width: i32,
    // height of the mode in hardware units
    pub height: i32,
    // vertical refresh rate in mHz
    pub refresh: i32,
}

impl Ser for mode {
    open spec fn ser_ok(&self) -> bool {
        &&& self.flags.ser_ok()
        &&& self.width.ser_ok()
        &&& self.height.ser_ok()
        &&& self.refresh.ser_ok()
        &&& self.ser_bytes().len() <= usize::MAX
    }

    open spec fn ser_bytes(&self) -> Seq<u8> {
        self.flags.ser_bytes() + self.width.ser_bytes() + self.height.ser_bytes() + self.refresh.ser_bytes()
    }

    open spec fn ser_fds(&self) -> Seq<Fd> {
        self.flags.ser_fds() + self.width.ser_fds() + self.height.ser_fds() + self.refresh.ser_fds()
    }

    fn wire_len(&self) -> (n: usize) {
        self.flags.wire_len() + self.width.wire_len() + self.height.wire_len() + self.refresh.wire_len()
    }

    fn checked_len(&self) -> (r: Option<usize>) {
        let n0 = match self.flags.checked_len() {
            Some(m) => m,
            None => return None,
        };
        let n1 = match self.width.checked_len() {
            Some(m) => match n0.checked_add(m) {
                Some(t) => t,
                None => return None,
            },
            None => return None,
        };
        let n2 = match self.height.checked_len() {
            Some(m) => match n1.checked_add(m) {
                Some(t) => t,
                None => return None,
            },
            None => return None,
        };
        let n3 = match self.refresh.checked_len() {
            Some(m) => match n2.checked_add(m) {
                Some(t) => t,
                None => return None,
            },
            None => return None,
        };
        Some(n3)
    }

    open spec fn ser_fits(&self, cap: int) -> bool {
        &&& 0 <= cap && self.flags.ser_fits(cap - (0))
        &&& self.flags.ser_bytes().len() <= cap && self.width.ser_fits(cap - (self.flags.ser_bytes().len()))
        &&& self.flags.ser_bytes().len() + self.width.ser_bytes().len() <= cap && self.height.ser_fits(cap - (self.flags.ser_bytes().len() + self.width.ser_bytes().len()))
        &&& self.flags.ser_bytes().len() + self.width.ser_bytes().len() + self.height.ser_bytes().len() <= cap && self.refresh.ser_fits(cap - (self.flags.ser_bytes().len() + self.width.ser_bytes().len() + self.height.ser_bytes().len()))
    }

    fn serialize(self, buf: &mut [u8], fds: &mut Vec<Fd>) -> (r: Result<usize, &'static str>) {
        let ghost me = self;
        let ghost b0 = buf@;
        let mut n: usize = 0;
        n = n + ser_at(self.flags, buf, n, fds);
        assert(fds@ =~= old(fds)@ + me.flags.ser_fds());
        n = n + ser_at(self.width, buf, n, fds);
        proof {
            lemma_write_then(b0, 0, me.flags.ser_bytes(), me.width.ser_bytes());
        }
        assert(fds@ =~= old(fds)@ + me.flags.ser_fds() + me.width.ser_fds());
        n = n + ser_at(self.height, buf, n, fds);
        proof {
            lemma_write_then(b0, 0, me.flags.ser_bytes() + me.width.ser_bytes(), me.height.ser_bytes());
        }
        assert(fds@ =~= old(fds)@ + me.flags.ser_fds() + me.width.ser_fds() + me.height.ser_fds());
        n = n + ser_at(self.refresh, buf, n, fds);
        proof {
            lemma_write_then(b0, 0, me.flags.ser_bytes() + me.width.ser_bytes() + me.height.ser_bytes(), me.refresh.ser_bytes());
        }
        assert(fds@ =~= old(fds)@ + me.ser_fds());
        Ok(n)
    }

    proof fn lemma_fits(&self, cap: int) {
        self.flags.lemma_fits(cap - (0));
        self.width.lemma_fits(cap - (self.flags.ser_bytes().len()));
        self.height.lemma_fits(cap - (self.flags.ser_bytes().len() + self.width.ser_bytes().len()));
        self.refresh.lemma_fits(cap - (self.flags.ser_bytes().len() + self.width.ser_bytes().len() + self.height.ser_bytes().len()));
    }
}

impl DeepView for mode {
    type V = (<super::mode as DeepView>::V, <i32 as DeepView>::V, <i32 as DeepView>::V, <i32 as DeepView>::V,);

    open spec fn deep_view(&self) -> (<super::mode as DeepView>::V, <i32 as DeepView>::V, <i32 as DeepView>::V, <i32 as DeepView>::V,) {
        (self.flags.deep_view(), self.width.deep_view(), self.height.deep_view(), self.refresh.deep_view(),)
    }
}

impl Dsr for mode {
    open spec fn dsr_spec(buf: Seq<u8>, fds: Seq<Fd>) -> Decoded<(<super::mode as DeepView>::V, <i32 as DeepView>::V, <i32 as DeepView>::V, <i32 as DeepView>::V,)> {
        match <super::mode>::dsr_spec(buf, fds) {
            Decoded::Value(flags, n0, q0) => {
                match <i32>::dsr_spec(buf.skip(n0 as int), q0) {
                    Decoded::Value(width, m1, q1) => {
                        let n1 = n0 + m1;
                        match <i32>::dsr_spec(buf.skip(n1 as int), q1) {
                            Decoded::Value(height, m2, q2) => {
                                let n2 = n1 + m2;
                                match <i32>::dsr_spec(buf.skip(n2 as int), q2) {
                                    Decoded::Value(refresh, m3, q3) => {
                                        let n3 = n2 + m3;
                                        Decoded::Value((flags, width, height, refresh,), n3, q3)
                                    },
                                    d => d.fail(),
                                }
                            },
                            d => d.fail(),
                        }
                    },
                    d => d.fail(),
                }
            },
            d => d.fail(),
        }
    }

    fn try_deserialize(buf: &[u8], fds: &mut Vec<Fd>) -> (r: Option<Result<(mode, usize), &'static str>>) {
        let mut n: usize = 0;
        let rest = &buf[n..buf.len()];
        assert(rest@ =~= buf@.skip(n as int));
        assert(n == 0 ==> rest@ =~= buf@);
        let (flags, m) = match <super::mode>::try_deserialize(rest, fds) {
            Some(Ok(p)) => p,
            Some(Err(e)) => return Some(Err(e)),
            None => return None,
        };
        n = n + m;
        let rest = &buf[n..buf.len()];
        assert(rest@ =~= buf@.skip(n as int));
        assert(n == 0 ==> rest@ =~= buf@);
        let (width, m) = match <i32>::try_deserialize(rest, fds) {
            Some(Ok(p)) => p,
            Some(Err(e)) => return Some(Err(e)),
            None => return None,
        };
        n = n + m;
        let rest = &buf[n..buf.len()];
        assert(rest@ =~= buf@.skip(n as int));
        assert(n == 0 ==> rest@ =~= buf@);
        let (height, m) = match <i32>::try_deserialize(rest, fds) {
            Some(Ok(p)) => p,
            Some(Err(e)) => return Some(Err(e)),
            None => return None,
        };
        n = n + m;
        let rest = &buf[n..buf.len()];
        assert(rest@ =~= buf@.skip(n as int));
        assert(n == 0 ==> rest@ =~= buf@);
        let (refresh, m) = match <i32>::try_deserialize(rest, fds) {
            Some(Ok(p)) => p,
            Some(Err(e)) => return Some(Err(e)),
            None => return None,
        };
        n = n + m;
        Some(Ok((mode { flags, width, height, refresh }, n)))
    }
}

impl Codec for mode {
    open spec fn rt_ok(&self) -> bool {
        &&& self.flags.rt_ok()
        &&& self.width.rt_ok()
        &&& self.height.rt_ok()
        &&& self.refresh.rt_ok()
    }

    proof fn lemma_roundtrip(&self, tail: Seq<u8>, base: Seq<Fd>) {
        let b0 = self.flags.ser_bytes();
        let b1 = self.width.ser_bytes();
        let b2 = self.height.ser_bytes();
        let b3 = self.refresh.ser_bytes();
        let d0 = self.flags.ser_fds();
        let d1 = self.width.ser_fds();
        let d2 = self.height.ser_fds();
        let d3 = self.refresh.ser_fds();
        let s4 = tail;
        let s3 = b3 + s4;
        let s2 = b2 + s3;
        let s1 = b1 + s2;
        let s0 = b0 + s1;
        let buf = self.ser_bytes() + tail;
        assert(buf =~= s0);
        assert(buf.skip(0) =~= s0);
        assert(self.ser_fds() =~= Seq::<Fd>::empty());
        assert(base + self.ser_fds().reverse() =~= base);
        assert(d0 =~= Seq::<Fd>::empty());
        assert(base + d0.reverse() =~= base);
        self.flags.lemma_roundtrip(s1, base);
        assert(buf.skip((b0.len()) as int) == s1) by {
            lemma_skip_step(buf, (0) as int, b0, s1);
        }
        assert(d1 =~= Seq::<Fd>::empty());
        assert(base + d1.reverse() =~= base);
        self.width.lemma_roundtrip(s2, base);
        assert(buf.skip((b0.len() + b1.len()) as int) == s2) by {
            lemma_skip_step(buf, (b0.len()) as int, b1, s2);
        }
        assert(d2 =~= Seq::<Fd>::empty());
        assert(base + d2.reverse() =~= base);
        self.height.lemma_roundtrip(s3, base);
        assert(buf.skip((b0.len() + b1.len() + b2.len()) as int) == s3) by {
            lemma_skip_step(buf, (b0.len() + b1.len()) as int, b2, s3);
        }
        assert(d3 =~= Seq::<Fd>::empty());
        assert(base + d3.reverse() =~= base);
        self.refresh.lemma_roundtrip(s4, base);
    }
}

impl mode {
    /// The arguments are read in the protocol's order, `flags`, then `width`, then `height`, then `refresh`: the bytes
    /// and descriptors written for such arguments, one after the other,
    /// decode to exactly those arguments.
    pub proof fn lemma_layout(flags: super::mode, width: i32, height: i32, refresh: i32, rest: Seq<u8>, queue: Seq<Fd>)
        requires
            flags.ser_ok(),
            flags.rt_ok(),
            width.ser_ok(),
            width.rt_ok(),
            height.ser_ok(),
            height.rt_ok(),
            refresh.ser_ok(),
            refresh.rt_ok(),
            flags.ser_bytes().len() + width.ser_bytes().len() + height.ser_bytes().len() + refresh.ser_bytes().len() <= usize::MAX,
        ensures
            ({
                let bytes = flags.ser_bytes() + width.ser_bytes() + height.ser_bytes() + refresh.ser_bytes();
                let fds = flags.ser_fds() + width.ser_fds() + height.ser_fds() + refresh.ser_fds();
                mode::dsr_spec(bytes + rest, queue + fds.reverse()) == Decoded::Value(
                    (flags.deep_view(), width.deep_view(), height.deep_view(), refresh.deep_view(),),
                    bytes.len(),
                    queue,
                )
            }),
    {
        let m = mode { flags, width, height, refresh };
        m.lemma_roundtrip(rest, queue);
    }

    /// The message creates no object.
    pub proof fn lemma_creates(&self)
        ensures
            self.created_id() is None,
    {
    }
}

impl Msg<Obj> for mode {
    open spec fn opcode() -> u16 {
        1
    }

    open spec fn since_version() -> u32 {
        1
    }

    open spec fn created_id(&self) -> Option<u32> {
        None
    }

    open spec fn created_destructor(&self) -> Option<u16> {
        None
    }

    fn op() -> (r: u16) {
        1
    }

    fn since() -> u32 {
        1
    }

    fn new_id(&self) -> (r: Option<(u32, ObjMeta)>) {
        None
    }
}

impl Event<Obj> for mode {

}

/// sent all information about output
///
/// This event is sent after all other properties have been
/// sent after binding to the output object and after any
/// other property changes done after that. This allows
/// changes to the output properties to be seen as
/// atomic, even if they happen via multiple events.
///
#[derive(Debug)]
pub struct done {}

impl Ser for done {
    open spec fn ser_ok(&self) -> bool {
        true
    }

    open spec fn ser_bytes(&self) -> Seq<u8> {
        Seq::empty()
    }

    open spec fn ser_fds(&self) -> Seq<Fd> {
        Seq::empty()
    }

    fn wire_len(&self) -> (n: usize) {
        0
    }

    fn checked_len(&self) -> (r: Option<usize>) {
        Some(0)
    }

    open spec fn ser_fits(&self, cap: int) -> bool {
        true
    }

    fn serialize(self, buf: &mut [u8], fds: &mut Vec<Fd>) -> (r: Result<usize, &'static str>) {
        assert(buf@ =~= write_at(old(buf)@, 0, Seq::<u8>::empty()));
        assert(fds@ =~= old(fds)@ + Seq::<Fd>::empty());
        Ok(0)
    }

    proof fn lemma_fits(&self, cap: int) {
    }
}

impl DeepView for done {
    type V = ();

    open spec fn deep_view(&self) -> () {
        ()
    }
}

impl Dsr for done {
    open spec fn dsr_spec(buf: Seq<u8>, fds: Seq<Fd>) -> Decoded<()> {
        Decoded::Value((), 0, fds)
    }

    fn try_deserialize(buf: &[u8], fds: &mut Vec<Fd>) -> (r: Option<Result<(done, usize), &'static str>>) {
        Some(Ok((done {}, 0)))
    }
}

impl Codec for done {
    open spec fn rt_ok(&self) -> bool {
        true
    }

    proof fn lemma_roundtrip(&self, tail: Seq<u8>, base: Seq<Fd>) {
        assert(Seq::<Fd>::empty().reverse() =~= Seq::<Fd>::empty());
        assert(base + Seq::<Fd>::empty() =~= base);
    }
}

impl done {
    /// The arguments are read in the protocol's order, no arguments: the bytes
    /// and descriptors written for such arguments, one after the other,
    /// decode to exactly those arguments.
    pub proof fn lemma_layout(rest: Seq<u8>, queue: Seq<Fd>)
        ensures
            ({
                let bytes = Seq::<u8>::empty();
                let fds = Seq::<Fd>::empty();
                done::dsr_spec(bytes + rest, queue + fds.reverse()) == Decoded::Value(
                    (),
                    bytes.len(),
                    queue,
                )
            }),
    {
        let m = done {};
        m.lemma_roundtrip(rest, queue);
    }

    /// The message creates no object.
    pub proof fn lemma_creates(&self)
        ensures
            self.created_id() is None,
    {
    }
}

impl Msg<Obj> for done {
    open spec fn opcode() -> u16 {
        2
    }

    open spec fn since_version() -> u32 {
        1
    }

    open spec fn created_id(&self) -> Option<u32> {
        None
    }

    open spec fn created_destructor(&self) -> Option<u16> {
        None
    }

    fn op() -> (r: u16) {
        2
    }

    fn since() -> u32 {
        1
    }

    fn new_id(&self) -> (r: Option<(u32, ObjMeta)>) {
        None
    }
}

impl Event<Obj> for done {

}

/// output scaling properties
///
/// This event contains scaling geometry information
/// that is not in the geometry event. It may be sent after
/// binding the output object or if the output scale changes
/// later. If it is not sent, the client should assume a
/// scale of 1.
///
/// A scale larger than 1 means that the compositor will
/// automatically scale surface buffers by this amount
/// when rendering. This is used for very high resolution
/// displays where applications rendering at the native
/// resolution would be too small to be legible.
///
/// It is intended that scaling aware clients track the
/// current output of a surface, and if it is on a scaled
/// output it should use wl_surface.set_buffer_scale with
/// the scale of the output. That way the compositor can
/// avoid scaling the surface, and the client can supply
/// a higher detail image.
///
/// The scale event will be followed by a done event.
///
#[derive(Debug)]
pub struct scale {
    // scaling factor of output
    pub factor: i32,
}

impl Ser for scale {
    open spec fn ser_ok(&self) -> bool {
        &&& self.factor.ser_ok()
        &&& self.ser_bytes().len() <= usize::MAX
    }

    open spec fn ser_bytes(&self) -> Seq<u8> {
        self.factor.ser_bytes()
    }

    open spec fn ser_fds(&self) -> Seq<Fd> {
        self.factor.ser_fds()
    }

    fn wire_len(&self) -> (n: usize) {
        self.factor.wire_len()
    }

    fn checked_len(&self) -> (r: Option<usize>) {
        let n0 = match self.factor.checked_len() {
            Some(m) => m,
            None => return None,
        };
        Some(n0)
    }

    open spec fn ser_fits(&self, cap: int) -> bool {
        &&& 0 <= cap && self.factor.ser_fits(cap - (0))
    }

    fn serialize(self, buf: &mut [u8], fds: &mut Vec<Fd>) -> (r: Result<usize, &'static str>) {
        let ghost me = self;
        let ghost b0 = buf@;
        let mut n: usize = 0;
        n = n + ser_at(self.factor, buf, n, fds);
        assert(fds@ =~= old(fds)@ + me.ser_fds());
        Ok(n)
    }

    proof fn lemma_fits(&self, cap: int) {
        self.factor.lemma_fits(cap - (0));
    }
}

impl DeepView for scale {
    type V = (<i32 as DeepView>::V,);

    open spec fn deep_view(&self) -> (<i32 as DeepView>::V,) {
        (self.factor.deep_view(),)
    }
}

impl Dsr for scale {
    open spec fn dsr_spec(buf: Seq<u8>, fds: Seq<Fd>) -> Decoded<(<i32 as DeepView>::V,)> {
        match <i32>::dsr_spec(buf, fds) {
            Decoded::Value(factor, n0, q0) => Decoded::Value((factor,), n0, q0),
            d => d.fail(),
        }
    }

    fn try_deserialize(buf: &[u8], fds: &mut Vec<Fd>) -> (r: Option<Result<(scale, usize), &'static str>>) {
        let mut n: usize = 0;
        let rest = &buf[n..buf.len()];
        assert(rest@ =~= buf@.skip(n as int));
        assert(n == 0 ==> rest@ =~= buf@);
        let (factor, m) = match <i32>::try_deserialize(rest, fds) {
            Some(Ok(p)) => p,
            Some(Err(e)) => return Some(Err(e)),
            None => return None,
        };
        n = n + m;
        Some(Ok((scale { factor }, n)))
    }
}

impl Codec for scale {
    open spec fn rt_ok(&self) -> bool {
        &&& self.factor.rt_ok()
    }

    proof fn lemma_roundtrip(&self, tail: Seq<u8>, base: Seq<Fd>) {
        let b0 = self.factor.ser_bytes();
        let d0 = self.factor.ser_fds();
        let s1 = tail;
        let s0 = b0 + s1;
        let buf = self.ser_bytes() + tail;
        assert(buf =~= s0);
        assert(buf.skip(0) =~= s0);
        assert(self.ser_fds() =~= Seq::<Fd>::empty());
        assert(base + self.ser_fds().reverse() =~= base);
        assert(d0 =~= Seq::<Fd>::empty());
        assert(base + d0.reverse() =~= base);
        self.factor.lemma_roundtrip(s1, base);
    }
}

impl scale {
    /// The arguments are read in the protocol's order, `factor`: the bytes
    /// and descriptors written for such arguments, one after the other,
    /// decode to exactly those arguments.
    pub proof fn lemma_layout(factor: i32, rest: Seq<u8>, queue: Seq<Fd>)
        requires
            factor.ser_ok(),
            factor.rt_ok(),
            factor.ser_bytes().len() <= usize::MAX,
        ensures
            ({
                let bytes = factor.ser_bytes();
                let fds = factor.ser_fds();
                scale::dsr_spec(bytes + rest, queue + fds.reverse()) == Decoded::Value(
                    (factor.deep_view(),),
                    bytes.len(),
                    queue,
                )
            }),
    {
        let m = scale { factor };
        m.lemma_roundtrip(rest, queue);
    }

    /// The message creates no object.
    pub proof fn lemma_creates(&self)
        ensures
            self.created_id() is None,
    {
    }
}

impl Msg<Obj> for scale {
    open spec fn opcode() -> u16 {
        3
    }

    open spec fn since_version() -> u32 {
        1
    }

    open spec fn created_id(&self) -> Option<u32> {
        None
    }

    open spec fn created_destructor(&self) -> Option<u16> {
        None
    }

    fn op() -> (r: u16) {
        3
    }

    fn since() -> u32 {
        1
    }

    fn new_id(&self) -> (r: Option<(u32, ObjMeta)>) {
        None
    }
}

impl Event<Obj> for scale {

}

/// name of this output
///
/// Many compositors will assign user-friendly names to their outputs, show
/// them to the user, allow the user to refer to an output, etc. The client
/// may wish to know this name as well to offer the user similar behaviors.
///
/// The name is a UTF-8 string with no convention defined for its contents.
/// Each name is unique among all wl_output globals. The name is only
/// guaranteed to be unique for the compositor instance.
///
/// The same output name is used for all clients for a given wl_output
/// global. Thus, the name can be shared across processes to refer to a
/// specific wl_output global.
///
/// The name is not guaranteed to be persistent across sessions, thus cannot
/// be used to reliably identify an output in e.g. configuration files.
///
/// Examples of names include 'HDMI-A-1', 'WL-1', 'X11-1', etc. However, do
/// not assume that the name is a reflection of an underlying DRM connector,
/// X11 connection, etc.
///
/// The name event is sent after binding the output object. This event is
/// only sent once per output object, and the name does not change over the
/// lifetime of the wl_output global.
///
/// Compositors may re-use the same output name if the wl_output global is
/// destroyed and re-created later. Compositors should avoid re-using the
/// same name if possible.
///
/// The name event will be followed by a done event.
///
#[derive(Debug)]
pub struct name {
    // output name
    pub name: String,
}

impl Ser for name {
    open spec fn ser_ok(&self) -> bool {
        &&& self.name.ser_ok()
        &&& self.ser_bytes().len() <= usize::MAX
    }

    open spec fn ser_bytes(&self) -> Seq<u8> {
        self.name.ser_bytes()
    }

    open spec fn ser_fds(&self) -> Seq<Fd> {
        self.name.ser_fds()
    }

    fn wire_len(&self) -> (n: usize) {
        self.name.wire_len()
    }

    fn checked_len(&self) -> (r: Option<usize>) {
        let n0 = match self.name.checked_len() {
            Some(m) => m,
            None => return None,
        };
        Some(n0)
    }

    open spec fn ser_fits(&self, cap: int) -> bool {
        &&& 0 <= cap && self.name.ser_fits(cap - (0))
    }

    fn serialize(self, buf: &mut [u8], fds: &mut Vec<Fd>) -> (r: Result<usize, &'static str>) {
        let ghost me = self;
        let ghost b0 = buf@;
        let mut n: usize = 0;
        n = n + ser_at(self.name, buf, n, fds);
        assert(fds@ =~= old(fds)@ + me.ser_fds());
        Ok(n)
    }

    proof fn lemma_fits(&self, cap: int) {
        self.name.lemma_fits(cap - (0));
    }
}

impl DeepView for name {
    type V = (<String as DeepView>::V,);

    open spec fn deep_view(&self) -> (<String as DeepView>::V,) {
        (self.name.deep_view(),)
    }
}

impl Dsr for name {
    open spec fn dsr_spec(buf: Seq<u8>, fds: Seq<Fd>) -> Decoded<(<String as DeepView>::V,)> {
        match <String>::dsr_spec(buf, fds) {
            Decoded::Value(name, n0, q0) => Decoded::Value((name,), n0, q0),
            d => d.fail(),
        }
    }

    fn try_deserialize(buf: &[u8], fds: &mut Vec<Fd>) -> (r: Option<Result<(name, usize), &'static str>>) {
        let mut n: usize = 0;
        let rest = &buf[n..buf.len()];
        assert(rest@ =~= buf@.skip(n as int));
        assert(n == 0 ==> rest@ =~= buf@);
        let (name, m) = match <String>::try_deserialize(rest, fds) {
            Some(Ok(p)) => p,
            Some(Err(e)) => return Some(Err(e)),
            None => return None,
        };
        n = n + m;
        Some(Ok((name { name }, n)))
    }
}

impl Codec for name {
    open spec fn rt_ok(&self) -> bool {
        &&& self.name.rt_ok()
    }

    proof fn lemma_roundtrip(&self, tail: Seq<u8>, base: Seq<Fd>) {
        let b0 = self.name.ser_bytes();
        let d0 = self.name.ser_fds();
        let s1 = tail;
        let s0 = b0 + s1;
        let buf = self.ser_bytes() + tail;
        assert(buf =~= s0);
        assert(buf.skip(0) =~= s0);
        assert(self.ser_fds() =~= Seq::<Fd>::empty());
        assert(base + self.ser_fds().reverse() =~= base);
        assert(d0 =~= Seq::<Fd>::empty());
        assert(base + d0.reverse() =~= base);
        self.name.lemma_roundtrip(s1, base);
    }
}

impl name {
    /// The arguments are read in the protocol's order, `name`: the bytes
    /// and descriptors written for such arguments, one after the other,
    /// decode to exactly those arguments.
    pub proof fn lemma_layout(name: String, rest: Seq<u8>, queue: Seq<Fd>)
        requires
            name.ser_ok(),
            name.rt_ok(),
            name.ser_bytes().len() <= usize::MAX,
        ensures
            ({
                let bytes = name.ser_bytes();
                let fds = name.ser_fds();
                name::dsr_spec(bytes + rest, queue + fds.reverse()) == Decoded::Value(
                    (name.deep_view(),),
                    bytes.len(),
                    queue,
                )
            }),
    {
        let m = name { name };
        m.lemma_roundtrip(rest, queue);
    }

    /// The message creates no object.
    pub proof fn lemma_creates(&self)
        ensures
            self.created_id() is None,
    {
    }
}

impl Msg<Obj> for name {
    open spec fn opcode() -> u16 {
        4
    }

    open spec fn since_version() -> u32 {
        1
    }

    open spec fn created_id(&self) -> Option<u32> {
        None
    }

    open spec fn created_destructor(&self) -> Option<u16> {
        None
    }

    fn op() -> (r: u16) {
        4
    }

    fn since() -> u32 {
        1
    }

    fn new_id(&self) -> (r: Option<(u32, ObjMeta)>) {
        None
    }
}

impl Event<Obj> for name {

}

/// human-readable description of this output
///
/// Many compositors can produce human-readable descriptions of their
/// outputs. The client may wish to know this description as well, e.g. for
/// output selection purposes.
///
/// The description is a UTF-8 string with no convention defined for its
/// contents. The description is not guaranteed to be unique among all
/// wl_output globals. Examples might include 'Foocorp 11" Display' or
/// 'Virtual X11 output via :1'.
///
/// The description event is sent after binding the output object and
/// whenever the description changes. The description is optional, and may
/// not be sent at all.
///
/// The description event will be followed by a done event.
///
#[derive(Debug)]
pub struct description {
    // output description
    pub description: String,
}

impl Ser for description {
    open spec fn ser_ok(&self) -> bool {
        &&& self.description.ser_ok()
        &&& self.ser_bytes().len() <= usize::MAX
    }

    open spec fn ser_bytes(&self) -> Seq<u8> {
        self.description.ser_bytes()
    }

    open spec fn ser_fds(&self) -> Seq<Fd> {
        self.description.ser_fds()
    }

    fn wire_len(&self) -> (n: usize) {
        self.description.wire_len()
    }

    fn checked_len(&self) -> (r: Option<usize>) {
        let n0 = match self.description.checked_len() {
            Some(m) => m,
            None => return None,
        };
        Some(n0)
    }

    open spec fn ser_fits(&self, cap: int) -> bool {
        &&& 0 <= cap && self.description.ser_fits(cap - (0))
    }

    fn serialize(self, buf: &mut [u8], fds: &mut Vec<Fd>) -> (r: Result<usize, &'static str>) {
        let ghost me = self;
        let ghost b0 = buf@;
        let mut n: usize = 0;
        n = n + ser_at(self.description, buf, n, fds);
        assert(fds@ =~= old(fds)@ + me.ser_fds());
        Ok(n)
    }

    proof fn lemma_fits(&self, cap: int) {
        self.description.lemma_fits(cap - (0));
    }
}

impl DeepView for description {
    type V = (<String as DeepView>::V,);

    open spec fn deep_view(&self) -> (<String as DeepView>::V,) {
        (self.description.deep_view(),)
    }
}

impl Dsr for description {
    open spec fn dsr_spec(buf: Seq<u8>, fds: Seq<Fd>) -> Decoded<(<String as DeepView>::V,)> {
        match <String>::dsr_spec(buf, fds) {
            Decoded::Value(description, n0, q0) => Decoded::Value((description,), n0, q0),
            d => d.fail(),
        }
    }

    fn try_deserialize(buf: &[u8], fds: &mut Vec<Fd>) -> (r: Option<Result<(description, usize), &'static str>>) {
        let mut n: usize = 0;
        let rest = &buf[n..buf.len()];
        assert(rest@ =~= buf@.skip(n as int));
        assert(n == 0 ==> rest@ =~= buf@);
        let (description, m) = match <String>::try_deserialize(rest, fds) {
            Some(Ok(p)) => p,
            Some(Err(e)) => return Some(Err(e)),
            None => return None,
        };
        n = n + m;
        Some(Ok((description { description }, n)))
    }
}

impl Codec for description {
    open spec fn rt_ok(&self) -> bool {
        &&& self.description.rt_ok()
    }

    proof fn lemma_roundtrip(&self, tail: Seq<u8>, base: Seq<Fd>) {
        let b0 = self.description.ser_bytes();
        let d0 = self.description.ser_fds();
        let s1 = tail;
        let s0 = b0 + s1;
        let buf = self.ser_bytes() + tail;
        assert(buf =~= s0);
        assert(buf.skip(0) =~= s0);
        assert(self.ser_fds() =~= Seq::<Fd>::empty());
        assert(base + self.ser_fds().reverse() =~= base);
        assert(d0 =~= Seq::<Fd>::empty());
        assert(base + d0.reverse() =~= base);
        self.description.lemma_roundtrip(s1, base);
    }
}

impl description {
    /// The arguments are read in the protocol's order, `description`: the bytes
    /// and descriptors written for such arguments, one after the other,
    /// decode to exactly those arguments.
    pub proof fn lemma_layout(description: String, rest: Seq<u8>, queue: Seq<Fd>)
        requires
            description.ser_ok(),
            description.rt_ok(),
            description.ser_bytes().len() <= usize::MAX,
        ensures
            ({
                let bytes = description.ser_bytes();
                let fds = description.ser_fds();
                description::dsr_spec(bytes + rest, queue + fds.reverse()) == Decoded::Value(
                    (description.deep_view(),),
                    bytes.len(),
                    queue,
                )
            }),
    {
        let m = description { description };
        m.lemma_roundtrip(rest, queue);
    }

    /// The message creates no object.
    pub proof fn lemma_creates(&self)
        ensures
            self.created_id() is None,
    {
    }
}

impl Msg<Obj> for description {
    open spec fn opcode() -> u16 {
        5
    }

    open spec fn since_version() -> u32 {
        1
    }

    open spec fn created_id(&self) -> Option<u32> {
        None
    }

    open spec fn created_destructor(&self) -> Option<u16> {
        None
    }

    fn op() -> (r: u16) {
        5
    }

    fn since() -> u32 {
        1
    }

    fn new_id(&self) -> (r: Option<(u32, ObjMeta)>) {
        None
    }
}

impl Event<Obj> for description {

}

/// The opcode of each event: its index in the protocol's list of the
/// interface's events, so that no two events share one.
pub proof fn lemma_opcodes()
    ensures
        <geometry as Msg<Obj>>::opcode() == 0,
        <mode as Msg<Obj>>::opcode() == 1,
        <done as Msg<Obj>>::opcode() == 2,
        <scale as Msg<Obj>>::opcode() == 3,
        <name as Msg<Obj>>::opcode() == 4,
        <description as Msg<Obj>>::opcode() == 5,
        <geometry as Msg<Obj>>::opcode() != <mode as Msg<Obj>>::opcode(),
        <geometry as Msg<Obj>>::opcode() != <done as Msg<Obj>>::opcode(),
        <geometry as Msg<Obj>>::opcode() != <scale as Msg<Obj>>::opcode(),
        <geometry as Msg<Obj>>::opcode() != <name as Msg<Obj>>::opcode(),
        <geometry as Msg<Obj>>::opcode() != <description as Msg<Obj>>::opcode(),
        <mode as Msg<Obj>>::opcode() != <done as Msg<Obj>>::opcode(),
        <mode as Msg<Obj>>::opcode() != <scale as Msg<Obj>>::opcode(),
        <mode as Msg<Obj>>::opcode() != <name as Msg<Obj>>::opcode(),
        <mode as Msg<Obj>>::opcode() != <description as Msg<Obj>>::opcode(),
        <done as Msg<Obj>>::opcode() != <scale as Msg<Obj>>::opcode(),
        <done as Msg<Obj>>::opcode() != <name as Msg<Obj>>::opcode(),
        <done as Msg<Obj>>::opcode() != <description as Msg<Obj>>::opcode(),
        <scale as Msg<Obj>>::opcode() != <name as Msg<Obj>>::opcode(),
        <scale as Msg<Obj>>::opcode() != <description as Msg<Obj>>::opcode(),
        <name as Msg<Obj>>::opcode() != <description as Msg<Obj>>::opcode(),
{
}

} // verus!
