use vstd::prelude::*;
use crate::objects::{type_id_of, new_id, object, Dyn, ObjMeta, Object, Msg, Request};
use crate::wire::{ser_at, write_at, lemma_write_then, lemma_reverse_add, lemma_skip_step, fixed, Codec, Decoded, Dsr, Fd, Ser};
use super::Obj;

verus! {

} // verus!
