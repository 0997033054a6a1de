//! Where the virtual filesystem keeps its settings, and how credentials are encoded at rest.

use vstd::prelude::*;
use crate::paths::{join_path, joined};
use base64::Engine;

verus! {

/// The character of the standard Base64 alphabet for the six bits `d`: `A`-`Z`, `a`-`z`,
/// `0`-`9`, `+`, `/`.
pub open spec fn base64_char(d: int) -> char {
    if d < 26 {
        (65 + d) as char
    } else if d < 52 {
        (97 + d - 26) as char
    } else if d < 62 {
        (48 + d - 52) as char
    } else if d == 62 {
        '+'
    } else {
        '/'
    }
}

/// The standard Base64 encoding of some bytes (RFC 4648, section 4, with padding), as the
/// `base64` crate's `STANDARD` engine writes it: each group of three bytes becomes four
/// characters of six bits each, and a last group of one or two bytes is padded with `=`.
pub open spec fn base64_standard(bytes: Seq<u8>) -> Seq<char>
    decreases bytes.len(),
{
    if bytes.len() == 0 {
        Seq::empty()
    } else if bytes.len() == 1 {
        let x = bytes[0] as int;
        seq![base64_char(x / 4), base64_char((x % 4) * 16), '=', '=']
    } else if bytes.len() == 2 {
        let x = bytes[0] as int;
        let y = bytes[1] as int;
        seq![base64_char(x / 4), base64_char((x % 4) * 16 + y / 16), base64_char((y % 16) * 4), '=']
    } else {
        let x = bytes[0] as int;
        let y = bytes[1] as int;
        let z = bytes[2] as int;
        seq![
            base64_char(x / 4),
            base64_char((x % 4) * 16 + y / 16),
            base64_char((y % 16) * 4 + z / 64),
            base64_char(z % 64),
        ] + base64_standard(bytes.subrange(3, bytes.len() as int))
    }
}

/// What the `STANDARD` engine decodes a text to: the bytes, or none when it is not valid
/// padded Base64.
pub uninterp spec fn base64_standard_decoded(s: Seq<char>) -> Option<Seq<u8>>;

/// Encodes bytes with the `STANDARD` engine (`Engine::encode`): their standard, padded
/// Base64 encoding (see `base64_standard`).
#[verifier::external_body]
pub(crate) fn base64_encode(bytes: &[u8]) -> (r: String)
    ensures
        r@ == base64_standard(bytes@),
{
    base64::engine::general_purpose::STANDARD.encode(bytes)
}

/// Decodes text with the `STANDARD` engine (`Engine::decode`); the result is named
/// `base64_standard_decoded`. Decoding what the engine encoded gives the bytes back, as
/// RFC 4648 requires of the encoding the crate implements.
#[verifier::external_body]
fn base64_decode(s: &str) -> (r: Option<Vec<u8>>)
    ensures
        r is Some ==> base64_standard_decoded(s@) == Some(r->0@),
        r is None ==> base64_standard_decoded(s@) is None,
        forall|b: Seq<u8>| s@ == base64_standard(b) ==> (r is Some && r->0@ == b),
{
    base64::engine::general_purpose::STANDARD.decode(s).ok()
}

/// Makes a string of UTF-8 bytes (`String::from_utf8`): none when the bytes are not UTF-8.
#[verifier::external_body]
fn string_from_utf8(bytes: Vec<u8>) -> (r: Option<String>)
    ensures
        r is Some <==> vstd::utf8::valid_utf8(bytes@),
        r is Some ==> r->0@ == vstd::utf8::decode_utf8(bytes@),
{
    String::from_utf8(bytes).ok()
}

/// Why stored text could not be decoded.
#[derive(Clone, Copy, PartialEq, Eq, Debug, Structural)]
pub enum DecryptError {
    /// Not valid Base64.
    InvalidBase64,
    /// The decoded bytes are not UTF-8.
    InvalidUtf8,
}

/// The settings file of the virtual filesystem: `diaspor/vfs/settings.json` under the data
/// directory, or under the current one.
pub open spec fn settings_path(data_dir: Option<Seq<char>>) -> Seq<char> {
    let base = match data_dir {
        Some(d) => d,
        None => "."@,
    };
    joined(joined(joined(base, "diaspor"@), "vfs"@), "settings.json"@)
}

/// What decoding stored text gives (see `FileSettingsStore::decrypt`).
pub open spec fn decoded_text(s: Seq<char>) -> Result<Seq<char>, DecryptError> {
    match base64_standard_decoded(s) {
        None => Err(DecryptError::InvalidBase64),
        Some(b) => if vstd::utf8::valid_utf8(b) {
            Ok(vstd::utf8::decode_utf8(b))
        } else {
            Err(DecryptError::InvalidUtf8)
        },
    }
}

/// The settings file and how credentials are kept in it.
pub struct FileSettingsStore {
    settings_file: String,
    encryption_enabled: bool,
    master_key: Option<Vec<u8>>,
}

impl FileSettingsStore {
    /// The settings file.
    pub closed spec fn file(&self) -> Seq<char> {
        self.settings_file@
    }

    /// Whether encryption was asked for.
    pub closed spec fn encrypting(&self) -> bool {
        self.encryption_enabled
    }

    /// A store in the data directory, without encryption.
    pub fn new(data_dir: Option<&str>) -> (r: Self)
        ensures
            r.file() == settings_path(match data_dir {
                Some(d) => Some(d@),
                None => None,
            }),
            !r.encrypting(),
    {
        FileSettingsStore { settings_file: Self::settings_file_in(data_dir), encryption_enabled: false, master_key: None }
    }

    /// A store in the data directory, with encryption and its key.
    pub fn with_encryption(data_dir: Option<&str>, master_key: Vec<u8>) -> (r: Self)
        ensures
            r.file() == settings_path(match data_dir {
                Some(d) => Some(d@),
                None => None,
            }),
            r.encrypting(),
    {
        FileSettingsStore {
            settings_file: Self::settings_file_in(data_dir),
            encryption_enabled: true,
            master_key: Some(master_key),
        }
    }

    /// The store used when the data directory cannot be made.
    pub fn fallback() -> (r: Self)
        ensures
            r.file() == "/tmp/diaspor_settings.json"@,
            !r.encrypting(),
    {
        FileSettingsStore {
            settings_file: String::from_str("/tmp/diaspor_settings.json"),
            encryption_enabled: false,
            master_key: None,
        }
    }

    fn settings_file_in(data_dir: Option<&str>) -> (r: String)
        ensures
            r@ == settings_path(match data_dir {
                Some(d) => Some(d@),
                None => None,
            }),
    {
        let base = match data_dir {
            Some(d) => d,
            None => ".",
        };
        let a = join_path(base, "diaspor");
        let b = join_path(a.as_str(), "vfs");
        join_path(b.as_str(), "settings.json")
    }

    /// The settings file.
    pub fn settings_file(&self) -> (r: &str)
        ensures
            r@ == self.file(),
    {
        self.settings_file.as_str()
    }

    /// Whether encryption was asked for.
    pub fn is_encryption_enabled(&self) -> (r: bool)
        ensures
            r == self.encrypting(),
    {
        self.encryption_enabled
    }

    /// Encodes a secret for storage: the Base64 of its UTF-8 bytes (the same with or without
    /// encryption, which is not implemented beyond this).
    pub fn encrypt(&self, plaintext: &str) -> (r: String)
        ensures
            r@ == base64_standard(vstd::utf8::encode_utf8(plaintext@)),
    {
        base64_encode(plaintext.as_bytes())
    }

    /// Decodes a stored secret (see `decoded_text`); what `encrypt` stored decodes to the
    /// secret it was given.
    pub fn decrypt(&self, encrypted: &str) -> (r: Result<String, DecryptError>)
        ensures
            match decoded_text(encrypted@) {
                Ok(t) => r matches Ok(s) && s@ == t,
                Err(e) => r == Err::<String, DecryptError>(e),
            },
            forall|t: Seq<char>| encrypted@ == base64_standard(vstd::utf8::encode_utf8(t)) ==> (r matches Ok(s) && s@ == t),
    {
        let r = match base64_decode(encrypted) {
            None => Err(DecryptError::InvalidBase64),
            Some(bytes) => match string_from_utf8(bytes) {
                Some(s) => Ok(s),
                None => Err(DecryptError::InvalidUtf8),
            },
        };
        proof {
            assert forall|t: Seq<char>| encrypted@ == base64_standard(vstd::utf8::encode_utf8(t)) implies (r matches Ok(s) && s@ == t) by {
                vstd::utf8::encode_utf8_decode_utf8(t);
                vstd::utf8::encode_utf8_valid_utf8(t);
            }
        }
        r
    }
}

} // verus!
