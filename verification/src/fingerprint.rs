//! A hash of a record, by which unequal records are told apart quickly.

use crate::item::{ItemView, TodoItem};
use std::collections::hash_map::DefaultHasher;
use std::hash::Hasher;
use vstd::bytes::{spec_u16_to_le_bytes, u16_to_le_bytes};
use vstd::prelude::*;
use vstd::std_specs::hash::DefaultHasherAdditionalSpecFns;
use vstd::utf8::encode_utf8;

verus! {

/// What is fed to the hasher for a record: the bytes of its name, the bytes
/// of its content, and its priority as two bytes, low byte first.
pub open spec fn hash_input(item: ItemView) -> Seq<Seq<u8>> {
    seq![
        encode_utf8(item.name),
        encode_utf8(item.content),
        spec_u16_to_le_bytes(item.priority as u16),
    ]
}

/// The hash of a record: what the standard hasher makes of its input.
pub open spec fn hash_of(item: ItemView) -> u64 {
    DefaultHasher::spec_finish(hash_input(item))
}

/// Hashes a record. Records that are equal in all three fields have the same
/// hash; records with different hashes differ in some field.
pub fn calculate_hash(item: &TodoItem) -> (hash: u64)
    ensures
        hash == hash_of(item@),
{
    let mut hasher = DefaultHasher::new();
    hasher.write(item.name().as_bytes());
    hasher.write(item.content().as_bytes());
    let priority = u16_to_le_bytes(item.priority() as u16);
    hasher.write(priority.as_slice());
    assert(hasher@ =~= hash_input(item@));
    hasher.finish()
}

} // verus!
