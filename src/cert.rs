//! Where the host keeps its certificate and key.

use vstd::prelude::*;
use crate::error::CoreError;
use crate::fingerprint::{colon_hex, fingerprint_from_cert_der, sha256_of};
use crate::text::push_str;

verus! {

/// Directory name under the platform's data directory.
pub const APP_DIR_NAME: &'static str = "comacode";

/// Relies on `dirs::data_local_dir`: the platform's per-user local data
/// directory, when one is known. Nothing is promised of it, since it
/// depends on the environment.
#[verifier::external_body]
fn data_local_dir() -> (d: Option<String>) {
    dirs::data_local_dir().map(|p| p.to_string_lossy().into_owned())
}

/// Paths of the stored certificate pair.
#[derive(Debug, Clone)]
pub struct CertStore {
    data_dir: String,
}

impl CertStore {
    pub closed spec fn dir(&self) -> Seq<char> {
        self.data_dir@
    }

    /// The store under the platform's local data directory; `NoDataDir`
    /// when the platform has none.
    pub fn new() -> (r: Result<CertStore, CoreError>)
        ensures
            r matches Err(e) ==> e == CoreError::NoDataDir,
            r matches Ok(s) ==> exists|base: Seq<char>| s.dir() == base + "/"@ + APP_DIR_NAME@,
    {
        match data_local_dir() {
            Some(base) => {
                let ghost b = base@;
                let s = CertStore::under(base);
                assert(s.dir() == b + "/"@ + APP_DIR_NAME@);
                Ok(s)
            },
            None => Err(CoreError::NoDataDir),
        }
    }

    /// The store in the application's directory below `base`.
    pub fn under(base: String) -> (s: CertStore)
        ensures
            s.dir() == base@ + "/"@ + APP_DIR_NAME@,
    {
        let mut d = base;
        push_str(&mut d, "/");
        push_str(&mut d, APP_DIR_NAME);
        CertStore { data_dir: d }
    }

    pub fn data_dir(&self) -> (d: String)
        ensures
            d@ == self.dir(),
    {
        self.data_dir.clone()
    }

    /// Path of the DER certificate.
    pub fn cert_path(&self) -> (p: String)
        ensures
            p@ == self.dir() + "/host.crt"@,
    {
        let mut p = self.data_dir.clone();
        push_str(&mut p, "/host.crt");
        p
    }

    /// Path of the DER private key.
    pub fn key_path(&self) -> (p: String)
        ensures
            p@ == self.dir() + "/host.key"@,
    {
        let mut p = self.data_dir.clone();
        push_str(&mut p, "/host.key");
        p
    }

    /// Fingerprint of a DER certificate: SHA-256 as colon-separated hex.
    pub fn fingerprint(&self, der: &[u8]) -> (s: String)
        ensures
            s@ == colon_hex(sha256_of(der@), false),
    {
        fingerprint_from_cert_der(der)
    }
}

} // verus!
