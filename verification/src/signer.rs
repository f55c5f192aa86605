//! What a certificate signer is asked for and what it hands back.
use vstd::prelude::*;

use crate::identifiers::SignerName;
use crate::text::{cat, cat3};

verus! {

#[derive(Debug, Clone, PartialEq, Eq)]
pub struct SigningRequest {
    pub signer: SignerName,
    pub server_alias: String,
    pub remote_user: String,
    pub ttl_seconds: u64,
}

/// A short-lived key pair and certificate, by the paths of their files.
#[derive(Debug, Clone, PartialEq, Eq)]
pub struct SignedSessionMaterial {
    pub private_key_path: String,
    pub certificate_path: String,
    pub expires_at: String,
}

/// Something that issues short-lived SSH certificates.
pub trait Signer {
    fn signer_name(&self) -> &SignerName;

    fn issue(&self, request: &SigningRequest) -> Result<SignedSessionMaterial, SignerFailure>;
}

#[derive(Debug, Clone, PartialEq, Eq)]
pub enum SignerFailure {
    NotImplemented { name: String },
    IssueFailed { name: String, reason: String },
}

impl SignerFailure {
    pub open spec fn text(&self) -> Seq<char> {
        match self {
            SignerFailure::NotImplemented { name } => "signer '"@ + name@ + "' is not implemented in this milestone"@,
            SignerFailure::IssueFailed { name, reason } => "signer '"@ + name@ + "' failed: "@ + reason@,
        }
    }

    pub fn message(&self) -> (r: String)
        ensures
            r@ == self.text(),
    {
        match self {
            SignerFailure::NotImplemented { name } => cat3(
                "signer '",
                name.as_str(),
                "' is not implemented in this milestone",
            ),
            SignerFailure::IssueFailed { name, reason } => cat(
                cat3("signer '", name.as_str(), "' failed: ").as_str(),
                reason.as_str(),
            ),
        }
    }
}

} // verus!
