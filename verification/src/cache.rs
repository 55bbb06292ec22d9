//! Cache keys under which documents and asset files are kept, and how a
//! cache reply is read.

use vstd::prelude::*;

use crate::errors::AppError;
use crate::text::{
    decimal, decimal_string, is_digit, lemma_decimal_digits, lemma_decimal_injective,
    lemma_split_at_first, lemma_split_at_last,
};

verus! {

/// The key of the rendered asset map of `address` at `version`: `main::{address}:{version}`.
pub open spec fn main_key(address: Seq<char>, version: u64) -> Seq<char> {
    "main::"@ + address + ":"@ + decimal(version as nat)
}

/// The key of file `file` of `address` at `version`: `asset::{address}:{version}:{file}`.
pub open spec fn asset_key(address: Seq<char>, version: u64, file: Seq<char>) -> Seq<char> {
    "asset::"@ + address + ":"@ + decimal(version as nat) + ":"@ + file
}

/// The cache key of the rendered asset map of `address` at `version`.
pub fn main_cache_key(address: &str, version: u64) -> (key: String)
    ensures
        key@ == main_key(address@, version),
{
    let mut key = String::from_str("main::");
    key.append(address);
    key.append(":");
    let v = decimal_string(version);
    key.append(v.as_str());
    key
}

/// The cache key of file `asset_file` of `address` at `version`.
pub fn asset_cache_key(address: &str, version: u64, asset_file: &str) -> (key: String)
    ensures
        key@ == asset_key(address@, version, asset_file@),
{
    let mut key = String::from_str("asset::");
    key.append(address);
    key.append(":");
    let v = decimal_string(version);
    key.append(v.as_str());
    key.append(":");
    key.append(asset_file);
    key
}

/// Reads the cache's reply for a rendered asset map: the cached text, or a
/// cache miss where the cache held nothing readable under the key.
pub fn main_with_assetmap(reply: Option<String>) -> (res: Result<String, AppError>)
    ensures
        match reply {
            Some(text) => res == Ok::<String, AppError>(text),
            None => res == Err::<String, AppError>(AppError::CacheMiss),
        },
{
    match reply {
        Some(text) => Ok(text),
        None => Err(AppError::CacheMiss),
    }
}

/// Reads the cache's reply for an asset file: the cached bytes, or a cache
/// miss where the cache held nothing, or an empty value, under the key.
pub fn asset(reply: Option<Vec<u8>>) -> (res: Result<Vec<u8>, AppError>)
    ensures
        match reply {
            Some(bytes) if bytes@.len() > 0 => res == Ok::<Vec<u8>, AppError>(bytes),
            _ => res == Err::<Vec<u8>, AppError>(AppError::CacheMiss),
        },
{
    match reply {
        Some(bytes) => {
            if bytes.len() == 0 {
                Err(AppError::CacheMiss)
            } else {
                Ok(bytes)
            }
        },
        None => Err(AppError::CacheMiss),
    }
}


proof fn lemma_decimal_has_no_colon(n: nat)
    ensures
        !decimal(n).contains(':'),
{
    lemma_decimal_digits(n);
    if decimal(n).contains(':') {
        let i = choose|i: int| 0 <= i < decimal(n).len() && decimal(n)[i] == ':';
        assert(is_digit(decimal(n)[i]));
    }
}

/// Distinct (address, version) pairs have distinct asset map keys: the key
/// names exactly one rendered asset map.
pub proof fn lemma_main_key_injective(address1: Seq<char>, version1: u64, address2: Seq<char>, version2: u64)
    requires
        main_key(address1, version1) == main_key(address2, version2),
    ensures
        address1 == address2,
        version1 == version2,
{
    reveal_strlit(":");
    reveal_strlit("main::");
    let d1 = decimal(version1 as nat);
    let d2 = decimal(version2 as nat);
    lemma_decimal_has_no_colon(version1 as nat);
    lemma_decimal_has_no_colon(version2 as nat);
    assert(main_key(address1, version1) =~= ("main::"@ + address1) + seq![':'] + d1);
    assert(main_key(address2, version2) =~= ("main::"@ + address2) + seq![':'] + d2);
    lemma_split_at_last("main::"@ + address1, d1, "main::"@ + address2, d2, ':');
    assert(address1 =~= ("main::"@ + address1).skip(6));
    assert(address2 =~= ("main::"@ + address2).skip(6));
    lemma_decimal_injective(version1 as nat, version2 as nat);
}

/// For addresses without a colon, distinct (address, version, file) triples
/// have distinct asset file keys.
pub proof fn lemma_asset_key_injective(
    address1: Seq<char>,
    version1: u64,
    file1: Seq<char>,
    address2: Seq<char>,
    version2: u64,
    file2: Seq<char>,
)
    requires
        asset_key(address1, version1, file1) == asset_key(address2, version2, file2),
        !address1.contains(':'),
        !address2.contains(':'),
    ensures
        address1 == address2,
        version1 == version2,
        file1 == file2,
{
    reveal_strlit(":");
    reveal_strlit("asset::");
    let d1 = decimal(version1 as nat);
    let d2 = decimal(version2 as nat);
    lemma_decimal_has_no_colon(version1 as nat);
    lemma_decimal_has_no_colon(version2 as nat);
    let rest1 = address1 + seq![':'] + (d1 + seq![':'] + file1);
    let rest2 = address2 + seq![':'] + (d2 + seq![':'] + file2);
    assert(rest1 =~= asset_key(address1, version1, file1).skip(7));
    assert(rest2 =~= asset_key(address2, version2, file2).skip(7));
    lemma_split_at_first(address1, d1 + seq![':'] + file1, address2, d2 + seq![':'] + file2, ':');
    lemma_split_at_first(d1, file1, d2, file2, ':');
    lemma_decimal_injective(version1 as nat, version2 as nat);
}

/// An asset map key is never an asset file key.
pub proof fn lemma_keys_disjoint(
    address1: Seq<char>,
    version1: u64,
    address2: Seq<char>,
    version2: u64,
    file: Seq<char>,
)
    ensures
        main_key(address1, version1) != asset_key(address2, version2, file),
{
    reveal_strlit("main::");
    reveal_strlit("asset::");
    assert(main_key(address1, version1)[0] == 'm');
    assert(asset_key(address2, version2, file)[0] == 'a');
}

} // verus!
