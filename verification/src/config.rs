//! The validated broker configuration.
use vstd::prelude::*;

use crate::identifiers::{ProfileName, SignerName};
use crate::table::Table;

verus! {

/// How the broker authenticates to a remote server.
#[derive(Debug, Clone, Copy, PartialEq, Eq, Structural)]
pub enum AuthMethod {
    /// Issue a short-lived SSH certificate via the configured signer (default).
    Certificate,
    /// Use a broker-managed, compatibility-only password flow.
    LegacyPassword,
}

#[derive(Debug, Clone, PartialEq, Eq)]
pub struct LegacyPasswordConfig {
    pub secret_ref_env_var: String,
}

#[derive(Debug, Clone, PartialEq, Eq)]
pub struct Config {
    pub broker: BrokerConfig,
    pub signers: Table<SignerConfig>,
    pub servers: Table<ServerConfig>,
    pub profiles: Table<ProfileConfig>,
}

#[derive(Debug, Clone, PartialEq, Eq)]
pub struct BrokerConfig {
    pub cert_ttl_seconds: u64,
    pub audit_log_path: String,
    pub default_signer: SignerName,
}

#[derive(Debug, Clone, PartialEq, Eq)]
pub struct SignerConfig {
    pub kind: String,
    pub ca_url: Option<String>,
    pub provisioner: Option<String>,
    pub subject: Option<String>,
}

#[derive(Debug, Clone, PartialEq, Eq)]
pub struct ServerConfig {
    pub host: String,
    pub port: u16,
    pub user: String,
    pub environment: String,
    pub allowed_profiles: Vec<ProfileName>,
    pub requires_approval: bool,
    pub signer: Option<SignerName>,
    pub auth_method: AuthMethod,
    pub legacy_password: Option<LegacyPasswordConfig>,
    /// Whether unrestricted interactive sessions are allowed for this server.
    /// Requires `requires_approval = true` to be effective.
    pub allow_unrestricted_sessions: bool,
}

#[derive(Debug, Clone, PartialEq, Eq)]
pub struct ProfileConfig {
    pub description: Option<String>,
    pub template: String,
    pub requires_approval: bool,
}

} // verus!
