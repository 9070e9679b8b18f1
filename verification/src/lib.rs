//! Renders nested tracing spans and their events into flat text lines for
//! Android's logcat.
//!
//! Logcat caps a tag at 23 bytes and truncates a message after 4000 bytes.
//! The tag given to [`layer`] is therefore capped once, and an event that
//! renders to more than 4000 bytes is handed on as several lines, so that
//! nothing is lost to logcat's own truncation.
//!
//! This crate holds the rendering and the buffering; it performs no I/O. What
//! it hands back is the list of lines to log, each no longer than logcat takes.
use vstd::prelude::*;
use vstd::string::*;

pub mod android;
pub mod bytes;
pub mod chunks;
pub mod decimal;
pub mod error;
pub mod field;
pub mod layer;

verus! {

/// Constructs a [`layer::Layer`] that logs under `tag`, capped to the 23
/// bytes that logcat takes.
///
/// Fails exactly when the capped tag holds a zero byte.
pub fn layer(tag: &str) -> (made: Result<layer::Layer, error::Error>)
    ensures
        made is Ok <==> bytes::null_free(android::capped(tag.spec_bytes())),
        match made {
            Ok(layer) => layer.tag()@ == android::capped(tag.spec_bytes()),
            Err(error::Error::TagConstruction(p)) => bytes::first_nul_at(
                android::capped(tag.spec_bytes()),
                p as int,
            ),
            Err(_) => false,
        },
{
    layer::Layer::new(tag)
}

} // verus!
