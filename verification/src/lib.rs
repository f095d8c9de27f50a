//! A miniature container runner library: it models the registry pull
//! protocol (bearer-token handshake, manifest decoding, ordered layer
//! extraction) and the jail bootstrap that must precede it, as verified
//! functions over plain values. All network and filesystem effects are
//! performed by a thin driver outside this crate.

use vstd::prelude::*;

mod challenge;
mod client;
mod extract;
mod image;
mod jail;
mod json;
mod runner;
mod text;

pub use challenge::{parse_challenge, spec_parse_challenge, AuthChallenge};
pub use client::{
    blob_request, blob_url, lemma_bad_challenge_fatal, lemma_challenge_starts_handshake,
    lemma_fetch_bounds, lemma_replay_401_fatal, lemma_single_handshake,
    lemma_token_triggers_replay, manifest_fetch_bound, manifest_step, manifest_url, spec_accept,
    spec_blob_url, spec_deliver_or_fail, spec_fail, spec_manifest_url, spec_run_manifest_fetches,
    spec_run_token_fetches, spec_step, spec_token_model, spec_token_url, start_pull,
    token_fetch_bound, token_url, Action, ActionModel, ApiClient, Event, EventModel, Manifest,
    Phase, PhaseModel,
};
pub use extract::{
    bytes_eq, check_entries, clone_bytes, decode_layer, entries_model, entry_is_safe, entry_kind,
    fs_map, gunzip_of, lemma_apply_lookup, lemma_apply_push, lemma_first_unsafe,
    lemma_layer_order, pairs_model, path_is_safe, spec_all_safe, spec_apply, spec_component_end,
    spec_component_start, spec_entry_safe, spec_first_unsafe, spec_has_dotdot, spec_kind_of,
    spec_last_entry, spec_node_of, spec_path_safe, tar_entries_of, EntryKind, EntryModel, FsState,
    LayerEntry, Node, NodeModel,
};
pub use image::{lemma_parse_image_first_colon, parse_image, spec_parse_image, Image};
pub use jail::{jail_relative, spec_jail_relative};
pub use json::{
    decode_manifest, decode_token, spec_decode_manifest, spec_decode_token, strings_model,
};
pub use runner::exit_code;
pub use runner::EXIT_SENTINEL;

verus! {

/// The error taxonomy of the whole run. `Network` is a transport failure,
/// `Protocol` an unexpected status, malformed header or undecodable body,
/// `Filesystem` a failed copy, directory creation or root change, and
/// `ChildProcess` a target command that could not be spawned.
#[derive(Clone, Copy, Debug, PartialEq, Eq, Structural)]
pub enum RunError {
    Network,
    Protocol,
    Filesystem,
    ChildProcess,
}

} // verus!
