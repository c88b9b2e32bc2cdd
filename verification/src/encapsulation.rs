//! Encapsulation of one plaintext under the relay's key configuration.

use crate::base16::{encode_hex, hex_encoded};
use crate::config::KeyConfiguration;
use vstd::prelude::*;
use vstd::string::StringExecFns;

verus! {

/// `ohttp::ClientRequest`: the context of one encapsulation, used up by it.
#[verifier::external_type_specification]
#[verifier::external_body]
pub struct ExClientRequest(ohttp::ClientRequest);

/// `ohttp::Error`, known by its name only.
#[verifier::external_type_specification]
#[verifier::external_body]
pub struct ExEncapsulationFault(ohttp::Error);

/// The media type under which an encapsulated request is posted.
pub const REQUEST_CONTENT_TYPE: &'static str = "message/ohttp-req";

/// Bytes that an encapsulated request has more than its plaintext: the
/// header of seven bytes, the encapsulated key of 32 and the tag of 16.
pub const ENCAPSULATION_OVERHEAD: usize = 55;

/// Bytes of a configuration before its list of symmetric suites: the key
/// identifier, two bytes for the KEM, an X25519 public key of 32 bytes, and
/// two bytes for the length of the list.
pub const SUITES_OFFSET: usize = 37;

/// The length in bytes that a configuration declares for its list of suites,
/// in the two bytes before the list, the high one first.
pub open spec fn declared_suites_len(config: Seq<u8>) -> int {
    config[SUITES_OFFSET - 2] as int * 256 + config[SUITES_OFFSET - 1] as int
}

/// Whether the `k`-th suite of the list lies within the configuration and is
/// HKDF-SHA256 (KDF 1) with AES-128-GCM (AEAD 1) or with ChaCha20-Poly1305
/// (AEAD 3). A suite is two bytes for its KDF and two for its AEAD.
pub open spec fn usable_suite_at(config: Seq<u8>, k: int) -> bool {
    &&& 0 <= k
    &&& 4 * k + 4 <= declared_suites_len(config)
    &&& SUITES_OFFSET + 4 * k + 4 <= config.len()
    &&& config[SUITES_OFFSET + 4 * k] == 0
    &&& config[SUITES_OFFSET + 4 * k + 1] == 1
    &&& config[SUITES_OFFSET + 4 * k + 2] == 0
    &&& (config[SUITES_OFFSET + 4 * k + 3] == 1 || config[SUITES_OFFSET + 4 * k + 3] == 3)
}

/// Whether a configuration names the KEM X25519 with HKDF-SHA256 (KEM 32)
/// and lists a suite that can be used with it.
pub open spec fn offers_usable_suite(config: Seq<u8>) -> bool {
    &&& config.len() >= SUITES_OFFSET
    &&& config[1] == 0
    &&& config[2] == 0x20
    &&& exists|k: int| usable_suite_at(config, k)
}

/// Whether `ohttp::ClientRequest::from_encoded_config` accepts `config`.
pub uninterp spec fn config_accepted(config: Seq<u8>) -> bool;

/// `ohttp::ClientRequest::from_encoded_config`.
///
/// Trusted: whether a configuration is accepted depends on its bytes alone.
/// The call drops the suites that it cannot use and takes the first that is
/// left. It panics where none is left, which the precondition rules out.
#[verifier::external_body]
fn client_request(config: &[u8]) -> (made: Result<ohttp::ClientRequest, ohttp::Error>)
    requires
        offers_usable_suite(config@),
    ensures
        made is Ok <==> config_accepted(config@),
{
    ohttp::ClientRequest::from_encoded_config(config)
}

/// `ohttp::ClientRequest::encapsulate`, without the response context.
///
/// Trusted: an encapsulated request is `ENCAPSULATION_OVERHEAD` bytes longer
/// than its plaintext. Its content depends on fresh randomness and is not
/// described.
#[verifier::external_body]
fn seal(request: ohttp::ClientRequest, plaintext: &[u8]) -> (sealed: Result<
    Vec<u8>,
    ohttp::Error,
>)
    ensures
        sealed matches Ok(ciphertext) ==> ciphertext@.len() == plaintext@.len()
            + ENCAPSULATION_OVERHEAD,
{
    match request.encapsulate(plaintext) {
        Ok((ciphertext, _)) => Ok(ciphertext),
        Err(error) => Err(error),
    }
}

/// Why a plaintext was not encapsulated.
#[derive(Debug, Clone, Copy, PartialEq, Eq)]
pub enum EncapsulationError {
    /// No context can be made from the key configuration.
    InvalidConfig,
    /// The context was made and the encapsulation itself failed.
    Failed,
}

/// The text that names an encapsulation error in an outcome.
pub open spec fn reason_text(error: EncapsulationError) -> Seq<char> {
    match error {
        EncapsulationError::InvalidConfig => "invalid key configuration"@,
        EncapsulationError::Failed => "encapsulation failed"@,
    }
}

impl EncapsulationError {
    /// The text that names this error in an outcome.
    pub fn reason(&self) -> (text: String)
        ensures
            text@ == reason_text(*self),
    {
        match self {
            EncapsulationError::InvalidConfig => String::from_str("invalid key configuration"),
            EncapsulationError::Failed => String::from_str("encapsulation failed"),
        }
    }
}

/// Whether a context can be made from `config`.
pub open spec fn usable_config(config: Seq<u8>) -> bool {
    offers_usable_suite(config) && config_accepted(config)
}

/// Looks for a usable suite in the list that `config` declares. Without one
/// no context can be made, and none is asked for.
pub fn has_usable_suite(config: &[u8]) -> (found: bool)
    ensures
        found == offers_usable_suite(config@),
{
    if config.len() < SUITES_OFFSET || config[1] != 0 || config[2] != 0x20 {
        return false;
    }
    let declared: usize = (config[SUITES_OFFSET - 2] as usize) * 256 + (config[SUITES_OFFSET
        - 1] as usize);
    let mut k: usize = 0;
    while 4 * k + 4 <= declared && SUITES_OFFSET + 4 * k + 4 <= config.len()
        invariant
            config.len() >= SUITES_OFFSET,
            config[1] == 0,
            config[2] == 0x20,
            declared == declared_suites_len(config@),
            declared < 65536,
            4 * k <= declared,
            forall|j: int| 0 <= j < k ==> !usable_suite_at(config@, j),
        decreases declared - 4 * k,
    {
        let at: usize = SUITES_OFFSET + 4 * k;
        if config[at] == 0 && config[at + 1] == 1 && config[at + 2] == 0 && (config[at + 3] == 1
            || config[at + 3] == 3) {
            assert(usable_suite_at(config@, k as int));
            return true;
        }
        k += 1;
    }
    assert forall|j: int| !usable_suite_at(config@, j) by {
        if 0 <= j && j >= k {
            assert(4 * j + 4 >= 4 * k + 4);
        }
    }
    false
}

/// Encapsulates `plaintext` under `config`, with a context of its own that
/// no other call shares.
pub fn encapsulate(config: &KeyConfiguration, plaintext: &[u8]) -> (sealed: Result<
    Vec<u8>,
    EncapsulationError,
>)
    ensures
        sealed == Err::<Vec<u8>, EncapsulationError>(EncapsulationError::InvalidConfig)
            <==> !usable_config(config@),
        sealed matches Ok(ciphertext) ==> ciphertext@.len() == plaintext@.len()
            + ENCAPSULATION_OVERHEAD,
{
    if !has_usable_suite(config.as_bytes()) {
        return Err(EncapsulationError::InvalidConfig);
    }
    match client_request(config.as_bytes()) {
        Err(_) => Err(EncapsulationError::InvalidConfig),
        Ok(request) => match seal(request, plaintext) {
            Ok(ciphertext) => Ok(ciphertext),
            Err(_) => Err(EncapsulationError::Failed),
        },
    }
}

/// The line that shows an encapsulated request before it is sent.
pub open spec fn request_text(ciphertext: Seq<u8>) -> Seq<char> {
    "Request: "@ + hex_encoded(ciphertext)
}

/// The line that shows an encapsulated request before it is sent: its bytes
/// in lower-case hexadecimal.
pub fn request_line(ciphertext: &[u8]) -> (line: String)
    ensures
        line@ == request_text(ciphertext@),
{
    let mut line = String::from_str("Request: ");
    let digits = encode_hex(ciphertext);
    line.append(digits.as_str());
    line
}

} // verus!
