//! The configuration of a node, and the checks it has to pass before the
//! node starts.

use vstd::prelude::*;
use vstd::utf8::encode_utf8;
use vstd::utf8::is_ascii_chars_encode_utf8;

verus! {

/// Most bytes that a friendly name or a shoutout may take as UTF-8.
pub const MAX_TEXT_BYTES: usize = 32;

/// Bytes of a generated keystore tag or passphrase.
pub const SECRET_BYTES: usize = 32;

/// The configuration of a node.
#[derive(Clone, Debug, PartialEq, Eq)]
pub struct Config {
    /// The name under which the node announces itself.
    pub friendly_name: String,
    /// A line of text that the node announces with its name.
    pub shoutout: String,
    /// The addresses of the relay endpoints, in the order in which they
    /// are tried.
    pub signal: Vec<String>,
    /// The tag under which the keystore holds the identity of the node.
    pub lair_tag: String,
    /// The passphrase that unlocks the keystore.
    pub lair_passphrase: String,
}

/// Why a configuration is refused.
#[derive(Clone, Copy, Debug, PartialEq, Eq, Structural)]
pub enum ConfigError {
    /// The friendly name takes more than 32 bytes.
    FriendlyNameTooLong,
    /// The shoutout takes more than 32 bytes.
    ShoutoutTooLong,
}

impl ConfigError {
    /// The error in words.
    pub fn message(&self) -> (text: String)
        ensures
            text@ == match *self {
                ConfigError::FriendlyNameTooLong => "friendlyName cannot be > 32 utf8 bytes"@,
                ConfigError::ShoutoutTooLong => "shoutout cannot be > 32 utf8 bytes"@,
            },
    {
        match self {
            ConfigError::FriendlyNameTooLong => "friendlyName cannot be > 32 utf8 bytes".to_owned(),
            ConfigError::ShoutoutTooLong => "shoutout cannot be > 32 utf8 bytes".to_owned(),
        }
    }
}

impl Config {
    /// Whether the friendly name takes at most 32 bytes as UTF-8.
    pub open spec fn name_fits(self) -> bool {
        encode_utf8(self.friendly_name@).len() <= MAX_TEXT_BYTES
    }

    /// Whether the shoutout takes at most 32 bytes as UTF-8.
    pub open spec fn shoutout_fits(self) -> bool {
        encode_utf8(self.shoutout@).len() <= MAX_TEXT_BYTES
    }

    /// A configuration with the default name, shoutout and relay endpoint,
    /// and with a keystore tag and passphrase drawn at random, of 32
    /// bytes each.
    pub fn new() -> (config: Config)
        ensures
            config.friendly_name@ == "Holochain<3"@,
            config.shoutout@ == "Holochain rocks!"@,
            config.signal@.len() == 1,
            config.signal@[0]@
                == "hc-rtc-sig:z9_7dB5HPV8tK6y8Q86yBtO-99Aa2QFZOZxfy0w0lDo/127.0.0.1:43489/[::1]:38559"@,
            encode_utf8(config.lair_tag@).len() == SECRET_BYTES,
            encode_utf8(config.lair_passphrase@).len() == SECRET_BYTES,
            config.name_fits(),
            config.shoutout_fits(),
    {
        proof {
            reveal_strlit("Holochain<3");
            reveal_strlit("Holochain rocks!");
            is_ascii_chars_encode_utf8("Holochain<3"@);
            is_ascii_chars_encode_utf8("Holochain rocks!"@);
        }
        let lair_tag = random_text(SECRET_BYTES);
        let lair_passphrase = random_text(SECRET_BYTES);
        let mut signal: Vec<String> = Vec::new();
        signal.push(
            "hc-rtc-sig:z9_7dB5HPV8tK6y8Q86yBtO-99Aa2QFZOZxfy0w0lDo/127.0.0.1:43489/[::1]:38559".to_owned(),
        );
        Config {
            friendly_name: "Holochain<3".to_owned(),
            shoutout: "Holochain rocks!".to_owned(),
            signal,
            lair_tag,
            lair_passphrase,
        }
    }
}

/// Checks a configuration that was read. It is handed back unchanged if
/// the friendly name and the shoutout each take at most 32 bytes as
/// UTF-8; otherwise the first of the two that is too long is named.
pub fn load_config(config: Config) -> (checked: Result<Config, ConfigError>)
    ensures
        !config.name_fits() ==> checked == Err::<Config, ConfigError>(
            ConfigError::FriendlyNameTooLong,
        ),
        config.name_fits() && !config.shoutout_fits() ==> checked == Err::<Config, ConfigError>(
            ConfigError::ShoutoutTooLong,
        ),
        config.name_fits() && config.shoutout_fits() ==> checked == Ok::<Config, ConfigError>(
            config,
        ),
{
    if config.friendly_name.as_str().as_bytes().len() > MAX_TEXT_BYTES {
        return Err(ConfigError::FriendlyNameTooLong);
    }
    if config.shoutout.as_str().as_bytes().len() > MAX_TEXT_BYTES {
        return Err(ConfigError::ShoutoutTooLong);
    }
    Ok(config)
}

/// Draws a text at random that takes `len` bytes as UTF-8.
///
/// Trusted: calls `rand_utf8::rand_utf8` with the generator that
/// `rand::rng` returns. The contract claims what the function's loop
/// shows: it adds characters until their UTF-8 lengths sum to `len`, and
/// never one that would pass `len`. Which characters come is left open.
#[verifier::external_body]
fn random_text(len: usize) -> (text: String)
    ensures
        encode_utf8(text@).len() == len,
{
    rand_utf8::rand_utf8(&mut rand::rng(), len).into_string()
}

} // verus!
