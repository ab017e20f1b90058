//! Connection configuration: where to connect and how to authenticate.

use vstd::prelude::*;
use vstd::string::*;
use crate::utils::spec_dec;
use crate::utils::u64_to_dec;

verus! {

/// Declares `std::path::PathBuf` so the public-key variant can carry the
/// key file's location opaquely.
#[verifier::external_type_specification]
#[verifier::external_body]
pub struct ExPathBuf(std::path::PathBuf);

#[derive(Debug)]
pub enum AuthMethod {
    Password(String),
    PublicKey { private_key_path: std::path::PathBuf },
}

/// Immutable input bundle for one connection attempt.
#[derive(Debug)]
pub struct ConnectConfig {
    pub host: String,
    pub port: u16,
    pub username: String,
    pub auth: AuthMethod,
}

impl ConnectConfig {
    /// The `host:port` endpoint text.
    pub fn addr(&self) -> (r: String)
        ensures
            r@ == self.host@ + seq![':'] + spec_dec(self.port as nat),
    {
        let mut r = self.host.clone();
        r.append(":");
        let p = u64_to_dec(self.port as u64);
        r.append(p.as_str());
        proof {
            reveal_strlit(":");
            assert(r@ =~= self.host@ + seq![':'] + spec_dec(self.port as nat));
        }
        r
    }
}

} // verus!
