//! The relay's key configuration.

use crate::base16::{decode, hex_outcome, well_formed_hex, HexError};
use vstd::prelude::*;
use vstd::string::StringSliceAdditionalSpecFns;

verus! {

/// The key configuration of a relay: a byte string that names the parameters
/// under which requests are encapsulated. It is kept as it was given; whether
/// it can be used shows when a request is encapsulated.
#[derive(Debug, PartialEq, Eq)]
pub struct KeyConfiguration {
    bytes: Vec<u8>,
}

impl View for KeyConfiguration {
    type V = Seq<u8>;

    closed spec fn view(&self) -> Seq<u8> {
        self.bytes@
    }
}

impl KeyConfiguration {
    /// Takes an encoded configuration as it is.
    pub fn from_bytes(bytes: Vec<u8>) -> (config: KeyConfiguration)
        ensures
            config@ == bytes@,
    {
        KeyConfiguration { bytes }
    }

    /// Decodes a configuration written in hexadecimal, upper or lower case.
    pub fn from_hex(text: &str) -> (parsed: Result<KeyConfiguration, HexError>)
        ensures
            parsed is Ok <==> well_formed_hex(text.spec_bytes()),
            hex_outcome(
                text.spec_bytes(),
                match parsed {
                    Ok(config) => Ok(config@),
                    Err(fault) => Err(fault),
                },
            ),
    {
        match decode(text.as_bytes()) {
            Ok(bytes) => Ok(KeyConfiguration { bytes }),
            Err(fault) => Err(fault),
        }
    }

    /// The encoded configuration.
    pub fn as_bytes(&self) -> (bytes: &[u8])
        ensures
            bytes@ == self@,
    {
        self.bytes.as_slice()
    }
}

} // verus!
