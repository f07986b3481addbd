//! The build ID: a hash of the running program's bytes, which tells whether
//! the bot was updated since it last ran. The caller reads the program file.
use vstd::prelude::*;

verus! {

#[verifier::external_type_specification]
#[verifier::external_body]
pub struct ExAHasher(ahash::AHasher);

/// `ahash::RandomState::with_seeds(0, 0, 0, 0).build_hasher()`.
#[verifier::external_body]
fn seeded_hasher() -> ahash::AHasher {
    std::hash::BuildHasher::build_hasher(&ahash::RandomState::with_seeds(0, 0, 0, 0))
}

/// `Hasher::write` of `bytes` into the hasher. Nothing is claimed of the
/// hasher's state.
#[verifier::external_body]
fn hasher_write(hasher: &mut ahash::AHasher, bytes: &[u8]) {
    std::hash::Hasher::write(hasher, bytes)
}

/// `Hasher::finish`. Nothing is claimed of the value: `ahash` documents that
/// its output may differ between machines and versions.
#[verifier::external_body]
fn hasher_finish(hasher: &ahash::AHasher) -> u64 {
    std::hash::Hasher::finish(hasher)
}

/// The build ID of a program whose bytes were read as `chunks`: each chunk
/// goes to a hasher of fixed seeds in the order read, then the hash is taken.
pub fn build_id_of(chunks: &Vec<Vec<u8>>) -> u64 {
    let mut hasher = seeded_hasher();
    let mut i: usize = 0;
    while i < chunks.len()
        invariant i <= chunks@.len(),
        decreases chunks.len() - i,
    {
        hasher_write(&mut hasher, chunks[i].as_slice());
        i = i + 1;
    }
    hasher_finish(&hasher)
}

} // verus!
