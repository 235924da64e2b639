//! The encode/decode capability a caller supplies for its payload types,
//! and the typed command surface built on it. Any type usable for storage
//! need only satisfy this one interface; the store itself carries opaque
//! bytes. A decode failure on a direct read propagates to the caller — in
//! the subscription bridge, by contrast, it is logged and skipped.
use vstd::prelude::*;

use crate::store::{spec_get, spec_set, KvError, KvStore};

verus! {

/// A payload type that can cross the store as opaque bytes. Decoding
/// answers a value only for that value's own encoding, and answers one for
/// every encoding, so a round trip through the store gives back a value
/// whose encoding is exactly what was stored.
pub trait Codec: Sized {
    /// The bytes this value encodes to.
    spec fn spec_encoding(&self) -> Seq<u8>;

    /// Encodes the value.
    fn encode(&self) -> (r: Vec<u8>)
        ensures
            r@ == self.spec_encoding(),
    ;

    /// Decodes bytes back to a value: only an encoding decodes, and any
    /// encoding does.
    fn decode(bytes: &Vec<u8>) -> (r: Option<Self>)
        ensures
            r matches Some(v) ==> v.spec_encoding() == bytes@,
            (exists|v: Self| #[trigger] v.spec_encoding() == bytes@) ==> r is Some,
    ;
}

/// The raw payload codec: the bytes stand for themselves.
impl Codec for Vec<u8> {
    open spec fn spec_encoding(&self) -> Seq<u8> {
        self@
    }

    fn encode(&self) -> (r: Vec<u8>) {
        copy_bytes(self)
    }

    fn decode(bytes: &Vec<u8>) -> (r: Option<Vec<u8>>) {
        Some(copy_bytes(bytes))
    }
}

/// A fresh vector holding the same bytes.
fn copy_bytes(a: &Vec<u8>) -> (r: Vec<u8>)
    ensures
        r@ == a@,
{
    let mut r: Vec<u8> = Vec::new();
    let mut i: usize = 0;
    while i < a.len()
        invariant
            0 <= i <= a@.len(),
            r@ == a@.take(i as int),
        decreases a@.len() - i,
    {
        r.push(a[i]);
        proof {
            assert(r@ =~= a@.take(i as int + 1));
        }
        i = i + 1;
    }
    proof {
        assert(a@.take(a@.len() as int) =~= a@);
    }
    r
}

/// A typed read that found no usable value: the key is absent or stale,
/// or its payload did not decode to the requested type.
#[derive(Debug, PartialEq, Eq, Structural)]
pub enum TypedGetError {
    NotFound,
    Decode,
}

/// Typed read: decodes the payload under a live key. `NotFound` exactly
/// for an absent or stale key; a payload no value of the type encodes to
/// propagates as `Decode`, and a payload some value encodes to is owed a
/// successful read.
pub fn get_typed<T: Codec>(store: &KvStore, k: &String, now: u64) -> (r: Result<T, TypedGetError>)
    requires
        store.wf(),
    ensures
        r matches Ok(v) ==> spec_get(store.contents(), k@, now) == Some(v.spec_encoding()),
        r == Err::<T, TypedGetError>(TypedGetError::NotFound) <==> !store.spec_live(k@, now),
        store.spec_live(k@, now) && (exists|v: T| #[trigger] v.spec_encoding()
            == store.contents()[k@].value) ==> r is Ok,
        r == Err::<T, TypedGetError>(TypedGetError::Decode) ==> store.spec_live(k@, now) && !(
        exists|v: T| #[trigger] v.spec_encoding() == store.contents()[k@].value),
{
    match store.get(k, now) {
        Ok(bytes) => match T::decode(bytes) {
            Some(v) => Ok(v),
            None => Err(TypedGetError::Decode),
        },
        Err(KvError::NotFound) => Err(TypedGetError::NotFound),
    }
}

/// Typed upsert: stores the value's encoding under the key.
pub fn set_typed<T: Codec>(store: &mut KvStore, k: String, v: &T, ttl: Option<u64>, now: u64)
    requires
        old(store).wf(),
        ttl matches Some(t) ==> now + t <= u64::MAX,
    ensures
        final(store).wf(),
        final(store).contents() == spec_set(old(store).contents(), k@, v.spec_encoding(), ttl, now),
{
    let bytes = v.encode();
    store.set(k, bytes, ttl, now);
}

} // verus!
