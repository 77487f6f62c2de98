use vstd::prelude::*;

verus! {

/// The version-5 UUID of a namespace and a name, as an unsigned 128-bit
/// value. Version-5 UUIDs are SHA-1 hashes, so the result is a function
/// of the two byte sequences alone.
pub uninterp spec fn uuid_v5_of(namespace: Seq<u8>, name: Seq<u8>) -> u128;

/// Relies on uuid::Uuid::new_v5: a version-5 UUID is built from the SHA-1
/// hash of the namespace bytes followed by the name bytes, deterministically.
#[verifier::external_body]
fn uuid_v5(namespace: &[u8; 16], name: &Vec<u8>) -> (r: u128)
    ensures
        r == uuid_v5_of(namespace@, name@),
{
    uuid::Uuid::new_v5(&uuid::Uuid::from_bytes(*namespace), name.as_slice()).as_u128()
}

/// The fixed namespace under which every file identity is derived.
pub open spec fn identity_namespace() -> Seq<u8> {
    seq![
        0x2du8, 0x8au8, 0xefu8, 0x7bu8, 0x51u8, 0x3au8, 0x4bu8, 0x92u8,
        0x9cu8, 0x6eu8, 0x1fu8, 0x44u8, 0x8du8, 0x22u8, 0x71u8, 0x05u8,
    ]
}

/// The identity of the file at a canonical path: the version-5 UUID of the
/// fixed namespace and the path's raw bytes.
pub open spec fn identity_of(path: Seq<u8>) -> u128 {
    uuid_v5_of(identity_namespace(), path)
}

/// Derives the identity of the file at `path`.
pub fn derive_identity(path: &Vec<u8>) -> (r: u128)
    ensures
        r == identity_of(path@),
{
    let namespace: [u8; 16] = [
        0x2d, 0x8a, 0xef, 0x7b, 0x51, 0x3a, 0x4b, 0x92,
        0x9c, 0x6e, 0x1f, 0x44, 0x8d, 0x22, 0x71, 0x05,
    ];
    proof {
        assert(namespace@ =~= identity_namespace());
    }
    uuid_v5(&namespace, path)
}

/// Identity derivation is a pure function of the canonical path: deriving
/// twice from equal paths yields the same identity.
pub proof fn lemma_identity_deterministic(path1: Seq<u8>, path2: Seq<u8>)
    requires
        path1 =~= path2,
    ensures
        identity_of(path1) == identity_of(path2),
{
}

} // verus!
