//! How a request is answered: from the cache where it holds the answer,
//! else by asking the asset service.

use vstd::prelude::*;

use crate::assets::{
    asset_file_request, definition_request, is_asset_file_request, is_definition_request,
    AssetRequest,
};
use crate::config::Config;
use crate::errors::AppError;

verus! {

/// The next step in answering a request: serve a cached answer, or fetch
/// from the asset service.
pub enum Lookup<T> {
    Serve(T),
    Fetch(AssetRequest),
}

/// The step after looking up the rendered asset map of `address` at
/// `version` in the cache: serve it where the cache held it, else fetch the
/// asset definition archive.
pub fn assetmap_lookup(config: &Config, address: &str, version: u64, cached: Result<String, AppError>) -> (step: Lookup<String>)
    ensures
        match cached {
            Ok(text) => step == Lookup::<String>::Serve(text),
            Err(_) => step matches Lookup::Fetch(request) && is_definition_request(request, *config, address@, version),
        },
{
    match cached {
        Ok(text) => Lookup::Serve(text),
        Err(_) => Lookup::Fetch(definition_request(config, address, version)),
    }
}

/// The step after looking up file `file` of `address` at `version` in the
/// cache: serve it where the cache held it, else fetch the asset archive.
pub fn asset_lookup(
    config: &Config,
    address: &str,
    version: u64,
    file: &str,
    cached: Result<Vec<u8>, AppError>,
) -> (step: Lookup<Vec<u8>>)
    ensures
        match cached {
            Ok(bytes) => step == Lookup::<Vec<u8>>::Serve(bytes),
            Err(_) => step matches Lookup::Fetch(request) && is_asset_file_request(request, *config, address@, version, file@),
        },
{
    match cached {
        Ok(bytes) => Lookup::Serve(bytes),
        Err(_) => Lookup::Fetch(asset_file_request(config, address, version, file)),
    }
}

} // verus!
