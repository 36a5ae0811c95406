use vstd::prelude::*;
use crate::strutil::{spec_ends_with, str_has_suffix};
use base64::Engine as _;

verus! {

// ---------------------------------------------------------------------------
// Image data URIs: the MIME label is read off the file extension; the raw
// bytes run through the standard base64 alphabet of the outside codec.
// ---------------------------------------------------------------------------
/// What the standard base64 engine encodes a byte sequence to: a function
/// of the bytes alone.
pub uninterp spec fn base64_encoding_of(b: Seq<u8>) -> Seq<char>;

/// What the standard base64 engine decodes a text to, if it decodes at all:
/// a function of the text alone.
pub uninterp spec fn base64_decoding_of(s: Seq<char>) -> Option<Seq<u8>>;

/// Relies on `base64::engine::general_purpose::STANDARD.encode`: the result
/// depends on the input bytes alone and holds four characters for every
/// three bytes begun, padding included.
#[verifier::external_body]
fn base64_encode(b: &Vec<u8>) -> (r: String)
    requires
        b@.len() * 4 + 8 <= usize::MAX,
    ensures
        r@ == base64_encoding_of(b@),
        r@.len() == 4 * ((b@.len() + 2) / 3),
{
    base64::engine::general_purpose::STANDARD.encode(b)
}

/// Relies on `base64::engine::general_purpose::STANDARD.decode`: it yields
/// bytes exactly for the texts the standard engine accepts, as a function
/// of the text alone, and an error description otherwise.
#[verifier::external_body]
fn base64_decode(s: &str) -> (r: Result<Vec<u8>, String>)
    ensures
        r matches Ok(b) ==> base64_decoding_of(s@) == Some(b@),
        r is Ok <==> base64_decoding_of(s@) is Some,
{
    match base64::engine::general_purpose::STANDARD.decode(s.as_bytes()) {
        Ok(b) => Ok(b),
        Err(e) => Err(e.to_string()),
    }
}

/// The MIME label for an image path, read off its extension; PNG is the
/// default for anything unrecognised.
pub open spec fn spec_mime(path: Seq<char>) -> Seq<char> {
    if spec_ends_with(path, ".png"@) {
        "image/png"@
    } else if spec_ends_with(path, ".jpg"@) || spec_ends_with(path, ".jpeg"@) {
        "image/jpeg"@
    } else if spec_ends_with(path, ".gif"@) {
        "image/gif"@
    } else if spec_ends_with(path, ".svg"@) {
        "image/svg+xml"@
    } else {
        "image/png"@
    }
}

pub fn mime_for_path(path: &str) -> (r: &'static str)
    ensures
        r@ == spec_mime(path@),
{
    if str_has_suffix(path, ".png") {
        "image/png"
    } else if str_has_suffix(path, ".jpg") || str_has_suffix(path, ".jpeg") {
        "image/jpeg"
    } else if str_has_suffix(path, ".gif") {
        "image/gif"
    } else if str_has_suffix(path, ".svg") {
        "image/svg+xml"
    } else {
        "image/png"
    }
}

/// The data URI for an image file's bytes, labelled by its path's extension.
pub fn data_uri_for_image(path: &str, bytes: &Vec<u8>) -> (r: String)
    requires
        bytes@.len() * 4 + 8 <= usize::MAX,
    ensures
        r@ == "data:"@ + spec_mime(path@) + ";base64,"@ + base64_encoding_of(bytes@),
{
    let mime = mime_for_path(path);
    let encoded = base64_encode(bytes);
    let mut out = String::from_str("data:");
    out.append(mime);
    out.append(";base64,");
    out.append(encoded.as_str());
    out
}

/// Position of the first comma, if any.
pub open spec fn sp_find_comma(s: Seq<char>, i: int) -> Option<int>
    decreases s.len() - i,
{
    if i < 0 || i >= s.len() {
        None
    } else if s[i] == ',' {
        Some(i)
    } else {
        sp_find_comma(s, i + 1)
    }
}

fn find_comma(s: &str) -> (r: Option<usize>)
    ensures
        match r {
            Some(i) => sp_find_comma(s@, 0) == Some(i as int) && i < s@.len(),
            None => sp_find_comma(s@, 0) is None,
        },
{
    let n = s.unicode_len();
    let mut i: usize = 0;
    while i < n
        invariant
            n == s@.len(),
            i <= n,
            forall|j: int| 0 <= j < i ==> s@[j] != ',',
        decreases n - i,
    {
        if s.get_char(i) == ',' {
            proof {
                lemma_find_comma_at(s@, 0, i as int);
            }
            return Some(i);
        }
        i = i + 1;
    }
    proof {
        lemma_find_comma_none(s@, 0);
    }
    None
}

proof fn lemma_find_comma_at(s: Seq<char>, i: int, k: int)
    requires
        0 <= i <= k < s.len(),
        s[k] == ',',
        forall|j: int| i <= j < k ==> s[j] != ',',
    ensures
        sp_find_comma(s, i) == Some(k),
    decreases k - i,
{
    if i < k {
        lemma_find_comma_at(s, i + 1, k);
    }
}

proof fn lemma_find_comma_none(s: Seq<char>, i: int)
    requires
        0 <= i,
        forall|j: int| i <= j < s.len() ==> s[j] != ',',
    ensures
        sp_find_comma(s, i) is None,
    decreases s.len() - i,
{
    if i < s.len() {
        lemma_find_comma_none(s, i + 1);
    }
}

/// The base64 payload of image data: everything after the first comma where
/// a `data:...;base64,` header stands, the whole text where none does.
pub open spec fn spec_b64_payload(data: Seq<char>) -> Seq<char> {
    match sp_find_comma(data, 0) {
        Some(i) => data.subrange(i + 1, data.len() as int),
        None => data,
    }
}

/// Strips an optional data-URI header and decodes the remaining base64
/// payload to raw image bytes.
pub fn image_bytes_from_data(data: &str) -> (r: Result<Vec<u8>, String>)
    ensures
        r matches Ok(v) ==> base64_decoding_of(spec_b64_payload(data@)) == Some(v@),
        r is Ok <==> base64_decoding_of(spec_b64_payload(data@)) is Some,
        r matches Err(e) ==> e@.len() >= "Failed to decode base64: "@.len() && e@.subrange(
            0,
            "Failed to decode base64: "@.len() as int,
        ) == "Failed to decode base64: "@,
{
    let n = data.unicode_len();
    let payload: &str = match find_comma(data) {
        Some(i) => data.substring_char(i + 1, n),
        None => data,
    };
    assert(payload@ == spec_b64_payload(data@));
    match base64_decode(payload) {
        Ok(v) => Ok(v),
        Err(e) => {
            let mut out = String::from_str("Failed to decode base64: ");
            let ghost p = out@;
            out.append(e.as_str());
            assert(out@.subrange(0, p.len() as int) =~= p);
            Err(out)
        },
    }
}

} // verus!
