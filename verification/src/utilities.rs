use vstd::prelude::*;

verus! {

use vstd::utf8::{valid_utf8, decode_utf8};
use vstd::slice::{slice_subrange, slice_to_vec};
use crate::addr::{IpAddress, address_text};
use crate::identity::{identity_of, derive_identity};
use crate::models::{FileInfo, FileInfoModel, ResolvedFile};
use crate::text::string_from_utf8;

/// The index past the last path separator in `path`, or zero when the
/// path holds no separator.
pub open spec fn basename_start(path: Seq<u8>) -> int
    decreases path.len(),
{
    if path.len() == 0 {
        0
    } else if path[path.len() - 1] == 47u8 {
        path.len() as int
    } else {
        basename_start(path.drop_last())
    }
}

pub proof fn lemma_basename_start_bounds(path: Seq<u8>)
    ensures
        0 <= basename_start(path) <= path.len(),
    decreases path.len(),
{
    if path.len() > 0 && path[path.len() - 1] != 47u8 {
        lemma_basename_start_bounds(path.drop_last());
    }
}

/// The bytes of the final path component.
pub open spec fn file_name_bytes(path: Seq<u8>) -> Seq<u8> {
    path.subrange(basename_start(path), path.len() as int)
}

/// Whether a canonical path has a display name: a non-empty final
/// component that is valid UTF-8.
pub open spec fn valid_display_name(path: Seq<u8>) -> bool {
    file_name_bytes(path).len() > 0 && valid_utf8(file_name_bytes(path))
}

/// The catalog entry a canonical path and its size give rise to.
pub open spec fn file_info_of(path: Seq<u8>, size: u64) -> FileInfoModel {
    FileInfoModel {
        uuid: identity_of(path),
        file_name: decode_utf8(file_name_bytes(path)),
        file_size: size,
        file_path: path,
    }
}

/// A file name that is not representable as text, at the given position
/// of the input list.
#[derive(Clone, Copy, Debug, PartialEq, Eq)]
pub struct EncodingError {
    pub index: usize,
}

/// Finds the index past the last path separator in `path`.
fn find_basename_start(path: &Vec<u8>) -> (r: usize)
    ensures
        r == basename_start(path@),
{
    let mut i: usize = path.len();
    proof {
        assert(path@.take(i as int) =~= path@);
    }
    while i > 0
        invariant
            i <= path@.len(),
            basename_start(path@) == basename_start(path@.take(i as int)),
        decreases i,
    {
        if path[i - 1] == 47u8 {
            proof {
                assert(path@.take(i as int)[i - 1] == 47u8);
            }
            return i;
        }
        proof {
            assert(path@.take(i as int).drop_last() =~= path@.take(i as int - 1));
            assert(path@.take(i as int)[i - 1] != 47u8);
        }
        i = i - 1;
    }
    0
}

/// Extracts the display name of a canonical path: the final component,
/// decoded as UTF-8 text; nothing when the component is empty or is not
/// valid UTF-8.
pub fn extract_file_name(path: &Vec<u8>) -> (r: Option<String>)
    ensures
        r is Some <==> valid_display_name(path@),
        r is Some ==> r.unwrap()@ == decode_utf8(file_name_bytes(path@)),
{
    let start = find_basename_start(path);
    proof {
        lemma_basename_start_bounds(path@);
    }
    if start == path.len() {
        proof {
            assert(file_name_bytes(path@).len() == 0);
        }
        return None;
    }
    let name_slice = slice_subrange(path.as_slice(), start, path.len());
    let name_bytes = slice_to_vec(name_slice);
    proof {
        assert(name_bytes@ =~= file_name_bytes(path@));
    }
    string_from_utf8(name_bytes)
}

/// Builds the catalog: for each canonical path, in input order, the derived
/// identity, the display name, the cached size, and the path itself. Fails
/// on the first path whose final component is empty or not valid UTF-8.
pub fn generate_metadata(inputs: &Vec<ResolvedFile>) -> (r: Result<Vec<FileInfo>, EncodingError>)
    ensures
        r is Ok <==> (forall|i: int| 0 <= i < inputs@.len() ==> valid_display_name(inputs@[i].path@)),
        r is Ok ==> {
            &&& r.unwrap()@.len() == inputs@.len()
            &&& forall|i: int| 0 <= i < inputs@.len()
                ==> r.unwrap()@[i]@ == file_info_of(inputs@[i].path@, inputs@[i].size)
        },
        r is Err ==> {
            &&& 0 <= r.unwrap_err().index < inputs@.len()
            &&& !valid_display_name(inputs@[r.unwrap_err().index as int].path@)
            &&& forall|j: int| 0 <= j < r.unwrap_err().index
                ==> valid_display_name(inputs@[j].path@)
        },
{
    let mut out: Vec<FileInfo> = Vec::new();
    let mut i: usize = 0;
    while i < inputs.len()
        invariant
            i <= inputs@.len(),
            out@.len() == i,
            forall|j: int| 0 <= j < i ==> valid_display_name(inputs@[j].path@),
            forall|j: int| 0 <= j < i
                ==> out@[j]@ == file_info_of(inputs@[j].path@, inputs@[j].size),
        decreases inputs@.len() - i,
    {
        let entry = &inputs[i];
        let uuid = derive_identity(&entry.path);
        let file_name = match extract_file_name(&entry.path) {
            Some(name) => name,
            None => {
                return Err(EncodingError { index: i });
            }
        };
        let file_path = slice_to_vec(entry.path.as_slice());
        proof {
            assert(file_path@ =~= entry.path@);
        }
        out.push(FileInfo { uuid, file_name, file_size: entry.size, file_path });
        i = i + 1;
    }
    Ok(out)
}

/// Certificate provisioning failed: the key pair could not be generated or
/// the certificate could not be built.
#[derive(Clone, Copy, Debug, PartialEq, Eq)]
pub struct CertError;

/// Relies on rcgen: KeyPair::generate makes a fresh ECDSA P-256 key pair;
/// CertificateParams::new turns each name that parses as an IP address into
/// an IP-form subject alternative name; DistinguishedName::push records the
/// common name; self_signed signs the certificate with that key pair alone,
/// with no issuer chain; Certificate::pem and KeyPair::serialize_pem render
/// the two PEM texts, which are never empty.
#[verifier::external_body]
fn rcgen_self_signed(name: &String) -> (r: Option<(String, String)>)
    ensures
        r is Some ==> r.unwrap().0@.len() > 0 && r.unwrap().1@.len() > 0,
{
    let key_pair = rcgen::KeyPair::generate().ok()?;
    let mut params = rcgen::CertificateParams::new(vec![name.clone()]).ok()?;
    params.distinguished_name = rcgen::DistinguishedName::new();
    params.distinguished_name.push(rcgen::DnType::CommonName, name.as_str());
    let cert = params.self_signed(&key_pair).ok()?;
    Some((cert.pem(), key_pair.serialize_pem()))
}

/// Provisions a fresh self-signed certificate bound to `ip`: the common
/// name and the subject alternative name handed to the certificate builder
/// are exactly the address's text. Returns the certificate PEM and the
/// private-key PEM.
pub fn generate_cert(ip: &IpAddress) -> (r: Result<(String, String), CertError>)
    ensures
        r is Ok ==> r.unwrap().0@.len() > 0 && r.unwrap().1@.len() > 0,
{
    let name = address_text(ip);
    match rcgen_self_signed(&name) {
        Some(pems) => Ok(pems),
        None => Err(CertError),
    }
}

} // verus!
