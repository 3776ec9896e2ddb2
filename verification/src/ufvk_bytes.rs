//! Unified full viewing keys as bytes. There is no canonical byte form of a key,
//! so the bytes are the UTF-8 encoding of the key's text on the main network.
use vstd::prelude::*;
use vstd::utf8::{decode_utf8, encode_utf8, valid_utf8};
use crate::error::Error;
use crate::external::{spec_ufvk_decodes, spec_ufvk_main_text, ufvk_decodes, ufvk_main_text, utf8_text};
use crate::types::Network;

verus! {

/// The key text that bytes hold: their UTF-8 text, where they are valid UTF-8 and
/// that text reads as a unified full viewing key on the main network.
pub open spec fn ufvk_read(bytes: Seq<u8>) -> Option<Seq<char>> {
    if valid_utf8(bytes) && spec_ufvk_decodes(Network::MainNetwork, decode_utf8(bytes)) {
        Some(decode_utf8(bytes))
    } else {
        None
    }
}

/// The unified full viewing key that bytes hold, as its main-network text, as
/// [`ufvk_read`] says. Bytes that are not UTF-8, or whose text is no key, fail with
/// `Io`.
pub fn ufvk_from_bytes(bytes: &Vec<u8>) -> (r: Result<String, Error>)
    ensures
        r is Ok <==> ufvk_read(bytes@) is Some,
        r matches Ok(s) ==> ufvk_read(bytes@) == Some(s@),
        r matches Err(e) ==> e is Io,
{
    let text = match utf8_text(bytes.as_slice()) {
        Some(t) => t,
        None => return Err(Error::Io("Invalid utf8".to_string())),
    };
    if !ufvk_decodes(Network::MainNetwork, text.as_str()) {
        return Err(Error::Io("Invalid unified full viewing key".to_string()));
    }
    Ok(text)
}

/// The bytes of an encoded unified full viewing key of the given network: the
/// UTF-8 encoding of its text on the main network. `None` where the text does not
/// read as a key on the network.
pub fn ufvk_to_bytes(network: Network, viewing_key: &str) -> (r: Option<Vec<u8>>)
    ensures
        match spec_ufvk_main_text(network, viewing_key@) {
            Some(t) => r matches Some(b) && b@ == encode_utf8(t) && spec_ufvk_decodes(Network::MainNetwork, t),
            None => r is None,
        },
{
    match ufvk_main_text(network, viewing_key) {
        Some(t) => Some(vstd::slice::slice_to_vec(t.as_str().as_bytes())),
        None => None,
    }
}

/// The bytes of a key's main-network text read back as that text.
pub proof fn lemma_ufvk_bytes_roundtrip(text: Seq<char>)
    requires
        spec_ufvk_decodes(Network::MainNetwork, text),
    ensures
        ufvk_read(encode_utf8(text)) == Some(text),
{
    vstd::utf8::encode_utf8_valid_utf8(text);
    vstd::utf8::encode_utf8_decode_utf8(text);
}

} // verus!
