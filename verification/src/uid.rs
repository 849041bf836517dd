//! The opaque key that stands for an external tag token.
//!
//! A token is never stored directly: it is hashed once into a stable
//! hexadecimal key, used only for lookups and never reversed.

use vstd::prelude::*;
use vstd::std_specs::hash::DefaultHasherAdditionalSpecFns;
use vstd::string::StringSliceAdditionalSpecFns;
use std::collections::hash_map::DefaultHasher;
use std::hash::Hasher;
use crate::text;

verus! {

/// The unique identifier associated with a tag.
///
/// Holds the hexadecimal rendering of a one-way hash of the external token.
pub struct TagId {
    key: String,
}

impl View for TagId {
    type V = Seq<char>;

    closed spec fn view(&self) -> Seq<char> {
        self.key@
    }
}

/// The byte stream that hashing a token feeds to the hasher: the token's
/// UTF-8 bytes, then a `0xff` terminator, as `str`'s `Hash` impl writes them.
pub open spec fn tag_hash_input(name: &str) -> Seq<Seq<u8>> {
    seq![name.spec_bytes(), seq![0xffu8]]
}

/// The key derived for a token: the hexadecimal rendering of its hash.
pub open spec fn tag_key(name: &str) -> Seq<char> {
    text::hex_rep(DefaultHasher::spec_finish(tag_hash_input(name)) as nat)
}

impl TagId {
    /// Derive the opaque key for an external token.  Deterministic: the same
    /// token always yields the same key.
    pub fn new(name: &str) -> (r: Result<TagId, ()>)
        ensures
            r matches Ok(t) && t@ == tag_key(name),
    {
        let mut hasher = DefaultHasher::new();
        hasher.write(name.as_bytes());
        let mut terminator: Vec<u8> = Vec::new();
        terminator.push(0xffu8);
        proof {
            assert(terminator@ =~= seq![0xffu8]);
        }
        hasher.write(terminator.as_slice());
        proof {
            assert(hasher@ =~= tag_hash_input(name));
        }
        let digest = hasher.finish();
        Ok(TagId { key: text::hex_string(digest) })
    }

    /// The stored key, as a string slice.
    pub fn as_ref(&self) -> (r: &str)
        ensures
            r@ == self@,
    {
        self.key.as_str()
    }
}

} // verus!
