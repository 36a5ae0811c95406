/// Reading the one field this system needs out of the chat API's envelope.
pub mod envelope;
/// Credential resolution, request construction, response handling and the
/// orchestration of one generation call.
pub mod gen;
/// Image data URIs: MIME labels and the base64 payload codec.
pub mod images;
/// A tolerant JSON recogniser: character classes, string escaping, and a
/// recursive-descent validator.
pub mod json;
/// The offline provider: fixed outlines per recognised topic.
pub mod mock;
/// The proof-outline document, its canonical JSON text, and the round-trip
/// law between writer and reader.
pub mod outline;
/// Verified string helpers and the few conversions taken on trust.
pub mod strutil;

use vstd::prelude::*;

verus! {

/// The greeting the GUI shows when it first reaches this layer.
pub fn greet(name: &str) -> (r: String)
    ensures
        r@ == "Hello, "@ + name@ + "! You've been greeted from Rust!"@,
{
    let mut out = String::from_str("Hello, ");
    out.append(name);
    out.append("! You've been greeted from Rust!");
    out
}

} // verus!
