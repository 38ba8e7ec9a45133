//! The persisted configuration and what is decided from it before the core
//! starts.

use vstd::prelude::*;
use vstd::string::StringExecFns;
use crate::addr::{mask_bits, Ipv4Address, Ipv4Prefix};

verus! {

/// The settings of one user: who connects, and which network lies behind the
/// tunnel. Server address and password are optional.
#[derive(Clone, Debug, PartialEq, Eq)]
pub struct Config {
    pub username: String,
    pub vpn_network: Ipv4Address,
    pub vpn_mask: Ipv4Address,
    pub server: Option<String>,
    pub password: Option<String>,
}

/// What is wrong with a configuration.
#[derive(Clone, Copy, Debug, PartialEq, Eq, Structural)]
pub enum ConfigError {
    /// The VPN mask is not a run of one bits followed by zero bits.
    InvalidMask,
}

/// The VPN network of a configuration that names none: `10.0.0.0`.
pub open spec fn default_network() -> Ipv4Address {
    Ipv4Address { bits: 0x0A00_0000 }
}

/// The VPN mask of a configuration that names none: `255.0.0.0`.
pub open spec fn default_mask() -> Ipv4Address {
    Ipv4Address { bits: 0xFF00_0000 }
}

/// The server a configuration without a server address connects to.
pub open spec fn default_server() -> Seq<char> {
    "ntpu.twaren.net"@
}

/// `text` without its leading and trailing whitespace, as `str::trim` of the
/// standard library returns it.
pub uninterp spec fn trimmed(text: Seq<char>) -> Seq<char>;

/// Strips leading and trailing whitespace with `str::trim`, which goes by
/// Unicode's `White_Space` property. The result is named, not spelled out.
#[verifier::external_body]
fn trim_text(text: &str) -> (r: String)
    ensures
        r@ == trimmed(text@),
{
    text.trim().to_string()
}

impl Config {
    /// The configuration of a user who gave only a name: the default VPN
    /// network and mask, no server address and no password.
    pub fn with_defaults(username: String) -> (r: Config)
        ensures
            r.username == username,
            r.vpn_network == default_network(),
            r.vpn_mask == default_mask(),
            r.server.is_none(),
            r.password.is_none(),
    {
        Config {
            username,
            vpn_network: Ipv4Address { bits: 0x0A00_0000 },
            vpn_mask: Ipv4Address { bits: 0xFF00_0000 },
            server: None,
            password: None,
        }
    }

    /// The configuration for a name as it was typed: the line is stripped of
    /// surrounding whitespace, the rest is as `with_defaults` gives it.
    pub fn from_prompt(line: &str) -> (r: Config)
        ensures
            r.username@ == trimmed(line@),
            r.vpn_network == default_network(),
            r.vpn_mask == default_mask(),
            r.server.is_none(),
            r.password.is_none(),
    {
        Config::with_defaults(trim_text(line))
    }

    /// The VPN prefix of the configuration. A mask with a gap between its one
    /// bits defines no prefix and is rejected.
    pub fn vpn_prefix(&self) -> (r: Result<Ipv4Prefix, ConfigError>)
        ensures
            match r {
                Ok(prefix) => {
                    &&& prefix == Ipv4Prefix { network: self.vpn_network, mask: self.vpn_mask }
                    &&& exists|n: nat| n <= 32 && self.vpn_mask.bits as int == #[trigger] mask_bits(n)
                },
                Err(e) => {
                    &&& e == ConfigError::InvalidMask
                    &&& forall|n: nat| n <= 32 ==> self.vpn_mask.bits as int != #[trigger] mask_bits(n)
                },
            },
    {
        let prefix = Ipv4Prefix { network: self.vpn_network, mask: self.vpn_mask };
        match prefix.prefix_len() {
            Some(n) => {
                assert(self.vpn_mask.bits as int == mask_bits(n as nat));
                Ok(prefix)
            },
            None => Err(ConfigError::InvalidMask),
        }
    }

    /// The server to connect to: the configured one, or the default.
    pub fn server_address(&self) -> (r: String)
        ensures
            r@ == match self.server {
                Some(s) => s@,
                None => default_server(),
            },
    {
        match &self.server {
            Some(s) => s.clone(),
            None => String::from_str("ntpu.twaren.net"),
        }
    }
}

/// The password to connect with: the one the credential store holds for the
/// user, else the configured one. `None` means that it has to be asked for.
pub fn choose_password(stored: Option<String>, configured: Option<String>) -> (r: Option<String>)
    ensures
        r == if stored.is_some() {
            stored
        } else {
            configured
        },
{
    match stored {
        Some(p) => Some(p),
        None => configured,
    }
}

} // verus!
