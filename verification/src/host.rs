//! The host's side of the ABI as this platform has it, and the decisions of
//! the protocol by which a guest fetches its plugin configuration.
//!
//! The calls into the host are imports of the WebAssembly module; they exist
//! only on `wasm32`. On any other target the host does nothing: results and
//! reasons are dropped, no shutdown is ever requested and there is no
//! configuration.

use crate::text::{decimal_text, push_decimal};
use vstd::prelude::*;

verus! {

/// Hands the traces produced by the guest to the host (dropped on this platform).
pub fn set_result_traces(data: &[u8]) {
}

/// Hands the reason of a failed call to the host (dropped on this platform).
pub fn set_status_reason(reason: &str) {
}

/// Whether the host asked the guest to stop; never on this platform.
pub fn get_shutdown_requested() -> (b: bool)
    ensures
        !b,
{
    false
}

/// The plugin configuration as JSON bytes; this platform has none.
pub fn get_plugin_config_json() -> (r: Result<Vec<u8>, String>)
    ensures
        r matches Err(e) && e@ == "get_plugin_config_json is only available on wasm32"@,
{
    Err(String::from_str("get_plugin_config_json is only available on wasm32"))
}

/// Size of the first buffer offered to the host for the plugin configuration.
pub const PLUGIN_CONFIG_INITIAL_LIMIT: usize = 256;

/// What to do after the host answered a request for the plugin configuration.
pub enum ConfigFetch {
    /// The configuration has been read, or the host failed.
    Done(Result<Vec<u8>, String>),
    /// The configuration is larger than the buffer: ask again with this many bytes.
    Retry(usize),
}

/// The decision taken when the host, offered `buf` (of `buf.len()` bytes),
/// reports that the configuration has `actual_size` bytes.
pub open spec fn config_fetch_spec(buf: Seq<u8>, actual_size: i32) -> Result<
    Result<Seq<u8>, Seq<char>>,
    int,
> {
    if actual_size < 0 {
        Ok(
            Err(
                "otelwasm_get_plugin_config returned a negative size: "@ + decimal_text(
                    actual_size as int,
                ),
            ),
        )
    } else if actual_size == 0 {
        Ok(Ok(Seq::empty()))
    } else if actual_size <= buf.len() {
        Ok(Ok(buf.take(actual_size as int)))
    } else {
        Err(actual_size as int)
    }
}

/// Decides the next step of the configuration fetch: a negative size is an
/// error, zero is an empty configuration, a size that fits keeps that many
/// bytes of `buf`, a larger size asks for a buffer of that size.
pub fn next_config_fetch(buf: Vec<u8>, actual_size: i32) -> (step: ConfigFetch)
    ensures
        match config_fetch_spec(buf@, actual_size) {
            Ok(Ok(bytes)) => step matches ConfigFetch::Done(Ok(v)) && v@ == bytes,
            Ok(Err(msg)) => step matches ConfigFetch::Done(Err(e)) && e@ == msg,
            Err(limit) => step matches ConfigFetch::Retry(n) && n == limit,
        },
{
    if actual_size < 0 {
        let mut msg = String::from_str("otelwasm_get_plugin_config returned a negative size: ");
        push_decimal(&mut msg, actual_size as i64);
        return ConfigFetch::Done(Err(msg));
    }
    let size = actual_size as usize;
    if size == 0 {
        return ConfigFetch::Done(Ok(Vec::new()));
    }
    if size <= buf.len() {
        let mut buf = buf;
        buf.truncate(size);
        return ConfigFetch::Done(Ok(buf));
    }
    ConfigFetch::Retry(size)
}

/// A retry always asks for a strictly larger buffer than the one just offered,
/// so the fetch cannot ask twice for the same size; and whenever the host
/// reports more bytes than were offered, the fetch asks again with exactly
/// that many, whatever the size.
pub proof fn lemma_config_fetch_retry_grows(buf: Seq<u8>, actual_size: i32)
    ensures
        config_fetch_spec(buf, actual_size) matches Err(limit) ==> limit > buf.len(),
        actual_size > buf.len() ==> config_fetch_spec(buf, actual_size) == Err::<
            Result<Seq<u8>, Seq<char>>,
            int,
        >(actual_size as int),
{
}

/// A host holding `config` ends the fetch with the whole configuration within
/// two rounds: offered a buffer `first`, it writes what fits and reports the
/// full size; if that did not fit, the fetch asks again with a buffer of
/// exactly that size, into which the host writes the whole configuration.
pub proof fn lemma_config_fetch_delivers_whole(config: Seq<u8>, first: Seq<u8>, second: Seq<u8>)
    requires
        config.len() <= i32::MAX,
        config.len() <= first.len() ==> first.take(config.len() as int) == config,
        second == config,
    ensures
        config.len() <= first.len() ==> config_fetch_spec(first, config.len() as i32) == Ok::<
            Result<Seq<u8>, Seq<char>>,
            int,
        >(Ok(config)),
        config.len() > first.len() ==> config_fetch_spec(first, config.len() as i32) == Err::<
            Result<Seq<u8>, Seq<char>>,
            int,
        >(config.len() as int) && config_fetch_spec(second, config.len() as i32) == Ok::<
            Result<Seq<u8>, Seq<char>>,
            int,
        >(Ok(config)),
{
    if config.len() == 0 {
        assert(config =~= Seq::<u8>::empty());
    }
    assert(second.take(config.len() as int) =~= config);
}

} // verus!
