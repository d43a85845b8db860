use vstd::prelude::*;

verus! {

/// The user's configuration directory (`dirs::config_dir`), as the bytes
/// of the path (`OsStr::as_encoded_bytes`, the raw bytes on Unix). It
/// depends on the environment (`XDG_CONFIG_HOME`, `HOME`), so nothing is
/// claimed of it.
#[verifier::external_body]
pub(crate) fn config_dir() -> (r: Option<Vec<u8>>) {
    match dirs::config_dir() {
        Some(p) => Some(p.as_os_str().as_encoded_bytes().to_vec()),
        None => None,
    }
}

/// The user's local data directory (`dirs::data_local_dir`), as the bytes of
/// the path. It depends on the environment (`XDG_DATA_HOME`, `HOME`), so
/// nothing is claimed of it.
#[verifier::external_body]
pub(crate) fn data_local_dir() -> (r: Option<Vec<u8>>) {
    match dirs::data_local_dir() {
        Some(p) => Some(p.as_os_str().as_encoded_bytes().to_vec()),
        None => None,
    }
}

/// The text that `String::from_utf8_lossy` makes of a sequence of bytes
/// (a function of the bytes alone).
pub uninterp spec fn lossy_text(bytes: Seq<u8>) -> Seq<char>;

/// A `String` from bytes of a path (`String::from_utf8_lossy`). The result is
/// the text named `lossy_text` of the bytes; as std documents, valid UTF-8 is
/// decoded as it is (what replaces invalid sequences is left to the name).
#[verifier::external_body]
pub(crate) fn utf8_lossy(bytes: &Vec<u8>) -> (r: String)
    ensures
        r@ == lossy_text(bytes@),
        vstd::utf8::valid_utf8(bytes@) ==> r@ == vstd::utf8::decode_utf8(bytes@),
{
    String::from_utf8_lossy(bytes).into_owned()
}

} // verus!
