use vstd::prelude::*;

use crate::kvstore::Encryption;

verus! {

/// Whether a character is an ASCII hexadecimal digit.
pub open spec fn is_hex_digit(c: char) -> bool {
    ('0' <= c && c <= '9') || ('a' <= c && c <= 'f') || ('A' <= c && c <= 'F')
}

/// The numeric value of an ASCII hexadecimal digit.
pub open spec fn hex_digit_value(c: char) -> int {
    if '0' <= c && c <= '9' {
        c as int - '0' as int
    } else if 'a' <= c && c <= 'f' {
        c as int - 'a' as int + 10
    } else {
        c as int - 'A' as int + 10
    }
}

pub open spec fn all_hex_digits(s: Seq<char>) -> bool {
    forall|i: int| 0 <= i < s.len() ==> is_hex_digit(#[trigger] s[i])
}

/// The bytes a hexadecimal string stands for, two digits per byte, the
/// first digit the high half.
pub open spec fn hex_decoded(s: Seq<char>) -> Seq<u8> {
    Seq::new(
        (s.len() / 2) as nat,
        |i: int| (hex_digit_value(s[2 * i]) * 16 + hex_digit_value(s[2 * i + 1])) as u8,
    )
}

/// Relies on `hex::decode`: it succeeds exactly on an even number of ASCII
/// hexadecimal digits, upper or lower case, and pairs them into bytes; any
/// character outside that set, or an odd count, is refused.
#[verifier::external_body]
fn hex_decode(s: &str) -> (r: Option<Vec<u8>>)
    ensures
        r is Some <==> (s@.len() % 2 == 0 && all_hex_digits(s@)),
        r matches Some(b) ==> b@ == hex_decoded(s@),
{
    hex::decode(s).ok()
}

/// What stops the process from coming up with the configured encryption.
#[derive(Debug, Clone, Copy, PartialEq, Eq)]
pub enum ConfigError {
    /// Encryption is switched on but no key material was given.
    EmptyPrivateKey,
    /// The key material is not a hexadecimal byte string.
    InvalidPrivateKeyHex,
}

/// The encryption section of the configuration: a switch, and the key
/// material as a hexadecimal string when the switch is on.
pub struct EncryptionConfig {
    pub enabled: bool,
    pub private_key: String,
}

/// What this core reads from the configuration handed in at startup.
pub struct Configuration {
    pub encryption: EncryptionConfig,
}

/// The process: holds the configuration read once at startup and builds the
/// pieces the store needs from it.
pub struct Lucid {
    configuration: Configuration,
}

impl Lucid {
    pub closed spec fn configuration_spec(&self) -> Configuration {
        self.configuration
    }

    pub fn new(configuration: Configuration) -> (r: Self)
        ensures
            r.configuration_spec() == configuration,
    {
        Lucid { configuration }
    }

    /// The cipher the configuration calls for: none when encryption is
    /// switched off, otherwise Serpent keyed with the hex-decoded key
    /// material. Empty key material is a fatal configuration error, and so
    /// is key material that is not hexadecimal.
    pub fn configured_encryption(&self) -> (r: Result<Option<Encryption>, ConfigError>)
        ensures
            ({
                let cfg = self.configuration_spec().encryption;
                if !cfg.enabled {
                    r matches Ok(opt) && opt is None
                } else if cfg.private_key@.len() == 0 {
                    r matches Err(e) && e == ConfigError::EmptyPrivateKey
                } else if !(cfg.private_key@.len() % 2 == 0 && all_hex_digits(cfg.private_key@)) {
                    r matches Err(e) && e == ConfigError::InvalidPrivateKeyHex
                } else {
                    r matches Ok(opt) && opt matches Some(enc) && enc.spec_key() == hex_decoded(
                        cfg.private_key@,
                    )
                }
            }),
    {
        if !self.configuration.encryption.enabled {
            return Ok(None);
        }
        if self.configuration.encryption.private_key.as_str().is_empty() {
            return Err(ConfigError::EmptyPrivateKey);
        }
        match hex_decode(self.configuration.encryption.private_key.as_str()) {
            Some(key) => Ok(Some(Encryption::serpent(key))),
            None => Err(ConfigError::InvalidPrivateKeyHex),
        }
    }
}

} // verus!
