//! The operator's command-line configuration, as plain data.

use vstd::prelude::*;

verus! {

/// The operator's startup configuration: logging verbosity, the two listen
/// addresses, and the TLS material's paths.
pub struct AppArgs {
    pub verbose: String,
    pub server_addr: String,
    pub web_addr: String,
    pub client_cert_path: String,
    pub client_pri_key_path: String,
}

impl AppArgs {
    /// The defaults the command line falls back to.
    pub fn standard() -> (r: Self)
        ensures
            r.verbose@ == "debug"@,
            r.server_addr@ == "0.0.0.0:1244"@,
            r.web_addr@ == "0.0.0.0:9000"@,
            r.client_cert_path@ == "certs/shadow_ca.crt"@,
            r.client_pri_key_path@ == "certs/rsa_4096_pri.key"@,
    {
        AppArgs {
            verbose: String::from_str("debug"),
            server_addr: String::from_str("0.0.0.0:1244"),
            web_addr: String::from_str("0.0.0.0:9000"),
            client_cert_path: String::from_str("certs/shadow_ca.crt"),
            client_pri_key_path: String::from_str("certs/rsa_4096_pri.key"),
        }
    }
}

} // verus!
