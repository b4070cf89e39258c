//! The service's configuration: the key under which request envelopes are
//! sealed, given as hexadecimal text, and how long a sealed envelope counts.

use hex::FromHexError;
use vstd::prelude::*;

verus! {

/// The number of bytes in the key.
pub const KEY_LENGTH: usize = 32;

/// For how many seconds after its sealing an envelope is accepted.
pub const SIGNATURE_LIFETIME: u32 = 86400;

/// What a hexadecimal digit counts for; `None` for any other character.
/// Upper and lower case count alike.
pub open spec fn digit_value(c: char) -> Option<int> {
    if '0' <= c <= '9' {
        Some(c as int - '0' as int)
    } else if 'a' <= c <= 'f' {
        Some(c as int - 'a' as int + 10)
    } else if 'A' <= c <= 'F' {
        Some(c as int - 'A' as int + 10)
    } else {
        None
    }
}

/// Whether `text` is hexadecimal text for whole bytes: an even number of
/// characters, each a hexadecimal digit.
pub open spec fn is_hex(text: Seq<char>) -> bool {
    &&& text.len() % 2 == 0
    &&& forall|i: int| 0 <= i < text.len() ==> digit_value(#[trigger] text[i]) is Some
}

/// The bytes that hexadecimal text stands for: each pair of digits is one
/// byte, the first digit its upper half.
pub open spec fn hex_bytes(text: Seq<char>) -> Seq<u8> {
    Seq::new(
        text.len() / 2,
        |i: int| (16 * digit_value(text[2 * i])->0 + digit_value(text[2 * i + 1])->0) as u8,
    )
}

/// `hex::FromHexError`: why `hex::decode` refused a text.
#[verifier::external_type_specification]
#[verifier::external_body]
pub struct ExFromHexError(FromHexError);

/// `hex::decode` on a string. It reads the text two characters at a time
/// and succeeds exactly on an even number of hexadecimal digits, of either
/// case; the bytes it then returns are those the digit pairs stand for. A
/// character outside ASCII is never a digit, so counting characters and
/// counting bytes agree wherever every character is a digit.
#[verifier::external_body]
fn decode_hex(text: &str) -> (decoded: Result<Vec<u8>, FromHexError>)
    ensures
        decoded is Ok <==> is_hex(text@),
        decoded matches Ok(bytes) ==> bytes@ == hex_bytes(text@),
{
    hex::decode(text)
}

/// Why a text cannot be the service's secret.
#[derive(Debug, PartialEq, Eq)]
pub enum SecretError {
    /// The text is not hexadecimal text for whole bytes.
    NotHex,
    /// The text stands for some other number of bytes than [`KEY_LENGTH`].
    WrongLength,
}

/// What the request handlers need to open an envelope.
#[derive(Debug)]
pub struct AppConfig {
    pub key: Vec<u8>,
    pub signature_lifetime: u32,
}

impl AppConfig {
    /// The configuration for the secret `secret`, which must be hexadecimal
    /// text for [`KEY_LENGTH`] bytes. Envelopes live for
    /// [`SIGNATURE_LIFETIME`] seconds.
    pub fn new(secret: &str) -> (config: Result<AppConfig, SecretError>)
        ensures
            match config {
                Ok(config) => {
                    &&& is_hex(secret@)
                    &&& secret@.len() == 2 * KEY_LENGTH
                    &&& config.key@ == hex_bytes(secret@)
                    &&& config.signature_lifetime == SIGNATURE_LIFETIME
                },
                Err(SecretError::NotHex) => !is_hex(secret@),
                Err(SecretError::WrongLength) => is_hex(secret@) && secret@.len() != 2
                    * KEY_LENGTH,
            },
    {
        match decode_hex(secret) {
            Err(_) => Err(SecretError::NotHex),
            Ok(key) => {
                if key.len() != KEY_LENGTH {
                    Err(SecretError::WrongLength)
                } else {
                    Ok(AppConfig { key, signature_lifetime: SIGNATURE_LIFETIME })
                }
            },
        }
    }
}

} // verus!
