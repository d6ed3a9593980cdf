//! The asset server, as far as a loader deals with it.
//!
//! A loader asks the server for two things: to start loading an asset, and
//! what has become of a load. Both answers depend on what is on disk and on
//! how far the server's own tasks have come, so nothing is claimed of
//! them; the loader is verified for every answer.

use vstd::prelude::*;
use bevy::asset::{AssetServer, HandleUntyped};
use crate::state::LoadState;

verus! {

/// Bevy's untyped asset handle. A loader stores and returns handles and
/// never looks inside one.
#[verifier::external_type_specification]
#[verifier::external_body]
pub struct ExHandleUntyped(bevy::asset::HandleUntyped);

/// Bevy's asset server.
#[verifier::external_type_specification]
#[verifier::external_body]
pub struct ExAssetServer(bevy::asset::AssetServer);

/// Calls `AssetServer::load_untyped` for the asset at `path` and returns
/// the handle it gives. Nothing is claimed of the handle.
#[verifier::external_body]
pub(crate) fn start_load(server: &AssetServer, path: &str) -> (handle: HandleUntyped) {
    server.load_untyped(path)
}

/// Calls `AssetServer::get_load_state` for `handle` and returns the state
/// it reports, variant for variant. Nothing is claimed of the state.
#[verifier::external_body]
pub(crate) fn load_state(server: &AssetServer, handle: &HandleUntyped) -> (state: LoadState) {
    match server.get_load_state(handle) {
        bevy::asset::LoadState::NotLoaded => LoadState::NotLoaded,
        bevy::asset::LoadState::Loading => LoadState::Loading,
        bevy::asset::LoadState::Loaded => LoadState::Loaded,
        bevy::asset::LoadState::Failed => LoadState::Failed,
        bevy::asset::LoadState::Unloaded => LoadState::Unloaded,
    }
}

} // verus!
