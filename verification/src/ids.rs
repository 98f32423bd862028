//! 128-bit identifiers of tables, partitions and partition types.

use vstd::prelude::*;

verus! {

/// The identifier that stands for "none": all bits zero.
pub const NIL: u128 = 0;

/// The type of a partition that holds Linux filesystem data,
/// `0fc63daf-8483-4772-8e79-3d69d8477de4`.
pub const LINUX_FILESYSTEM_DATA: u128 = 0x0FC63DAF_8483_4772_8E79_3D69D8477DE4;

/// The type of an entry that is not in use.
pub const UNUSED: u128 = 0;

/// The bits of an identifier that hold its version and its variant.
pub const VERSION_AND_VARIANT: u128 = 0x00000000_0000_F000_C000_000000000000;

/// Those bits in a random identifier: version 4, variant `10`.
pub const RANDOM: u128 = 0x00000000_0000_4000_8000_000000000000;

/// `id` is marked as a random (version 4) identifier.
pub open spec fn is_random(id: u128) -> bool {
    id & VERSION_AND_VARIANT == RANDOM
}

/// A random identifier is never nil.
pub proof fn lemma_random_is_not_nil(id: u128)
    requires
        is_random(id),
    ensures
        id != NIL,
{
    assert(id & 0x00000000_0000_F000_C000_000000000000 == 0x00000000_0000_4000_8000_000000000000
        ==> id != 0) by (bit_vector);
}

/// Calls `uuid::Uuid::new_v4` and gives the identifier as a number, most
/// significant byte first (`Uuid::as_u128`). The value is random; what is
/// claimed is only that `new_v4` sets the version to 4 and the variant to
/// `10`, which its source does by masking.
#[verifier::external_body]
fn fresh() -> (id: u128)
    ensures
        is_random(id),
{
    uuid::Uuid::new_v4().as_u128()
}

/// `given`, or a fresh random identifier where none is given.
pub fn or_fresh(given: Option<u128>) -> (id: u128)
    ensures
        given matches Some(g) ==> id == g,
        given is None ==> is_random(id),
{
    match given {
        Some(g) => g,
        None => fresh(),
    }
}

} // verus!
