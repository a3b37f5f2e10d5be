//! Client configuration, built once from environment-provided values.
//!
//! Construction is pure: no request is issued. A credential value that was
//! absent at lookup time is rejected, and the error names the missing
//! variable.

use vstd::prelude::*;
use crate::errors::ConfigError;

verus! {

/// One environment lookup: the variable's name and the value found for it,
/// if any.
pub struct EnvValue {
    pub name: String,
    pub value: Option<String>,
}

/// The provenance label stamped on every credential this library builds.
/// It has no functional effect; it only annotates where the credential
/// came from.
pub open spec fn credential_label() -> Seq<char> {
    "loaded-from-custom-env"@
}

/// The client's configuration: region and credentials, immutable after
/// construction. Every request built from one client uses the same region.
pub struct ClientConfig {
    pub region: String,
    pub access_key_id: String,
    pub secret_access_key: String,
    pub source_label: String,
}

/// Builds a client configuration from a region and the two credential
/// lookups. Fails when either lookup found nothing, naming the variable
/// that was missing — the id variable is checked first. No request is
/// issued.
pub fn create_client(region: String, key_id: EnvValue, key_secret: EnvValue) -> (r: Result<
    ClientConfig,
    ConfigError,
>)
    requires
        region@.len() > 0,
    ensures
        match r {
            Ok(c) => key_id.value is Some && key_secret.value is Some && c.region == region
                && c.access_key_id == key_id.value->0 && c.secret_access_key
                == key_secret.value->0 && c.source_label@ == credential_label(),
            Err(e) => match e {
                ConfigError::MissingCredential(n) => (key_id.value is None && n@ == key_id.name@)
                    || (key_id.value is Some && key_secret.value is None && n@
                    == key_secret.name@),
            },
        },
{
    let access_key_id = match key_id.value {
        Some(v) => v,
        None => {
            return Err(ConfigError::MissingCredential(key_id.name));
        },
    };
    let secret_access_key = match key_secret.value {
        Some(v) => v,
        None => {
            return Err(ConfigError::MissingCredential(key_secret.name));
        },
    };
    Ok(
        ClientConfig {
            region,
            access_key_id,
            secret_access_key,
            source_label: String::from_str("loaded-from-custom-env"),
        },
    )
}

} // verus!
