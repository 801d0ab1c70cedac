//! The names under which objects are stored and the addresses from which
//! they are fetched.

use crate::bytes::append;
use crate::decimal::{decimal_text, to_decimal};
use vstd::prelude::*;

verus! {

/// The name of the part with index `index`: the file name, a hyphen and the
/// index in decimal.
pub open spec fn part_name_of(file_name: Seq<u8>, index: nat) -> Seq<u8> {
    file_name + seq![0x2du8] + decimal_text(index)
}

/// The name of the manifest: the file name followed by `-meta`.
pub open spec fn manifest_name_of(file_name: Seq<u8>) -> Seq<u8> {
    file_name + seq![0x2du8, 0x6du8, 0x65u8, 0x74u8, 0x61u8]
}

/// The address of the object `id`: the service's address, a slash and the
/// identifier.
pub open spec fn object_url_of(endpoint: Seq<u8>, id: Seq<u8>) -> Seq<u8> {
    endpoint + seq![0x2fu8] + id
}

/// The name under which the part with index `index` is stored.
pub fn part_name(file_name: &[u8], index: u64) -> (r: Vec<u8>)
    ensures
        r@ == part_name_of(file_name@, index as nat),
{
    let mut name: Vec<u8> = Vec::new();
    append(&mut name, file_name);
    name.push(0x2d);
    let digits: Vec<u8> = to_decimal(index);
    append(&mut name, digits.as_slice());
    assert(name@ =~= part_name_of(file_name@, index as nat));
    name
}

/// The name under which the manifest is stored.
pub fn manifest_name(file_name: &[u8]) -> (r: Vec<u8>)
    ensures
        r@ == manifest_name_of(file_name@),
{
    let mut name: Vec<u8> = Vec::new();
    append(&mut name, file_name);
    name.push(0x2d);
    name.push(0x6d);
    name.push(0x65);
    name.push(0x74);
    name.push(0x61);
    assert(name@ =~= manifest_name_of(file_name@));
    name
}

/// The address from which the object `id` is fetched.
pub fn object_url(endpoint: &[u8], id: &[u8]) -> (r: Vec<u8>)
    ensures
        r@ == object_url_of(endpoint@, id@),
{
    let mut url: Vec<u8> = Vec::new();
    append(&mut url, endpoint);
    url.push(0x2f);
    append(&mut url, id);
    assert(url@ =~= object_url_of(endpoint@, id@));
    url
}

} // verus!
