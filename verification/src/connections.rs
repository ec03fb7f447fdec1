//! Saved-connection rules: how a stored S3 profile and its credential
//! become the parameters the S3 provider connects with.

use vstd::prelude::*;

use crate::text::same_text;

verus! {

/// An S3 connection's stored configuration.
#[derive(Debug)]
pub struct S3Configuration {
    /// Service endpoint.
    pub endpoint: String,
    /// Region, if configured.
    pub region: Option<String>,
    /// Bucket.
    pub bucket: String,
    /// Access key id the connection was configured with.
    pub access_key_id: String,
}

/// A stored connection's configuration.
#[derive(Debug)]
pub enum ConnectionConfiguration {
    /// An S3 connection.
    S3(S3Configuration),
    /// Any other kind of connection.
    Other,
}

/// A resolved credential's secret material.
#[derive(Debug)]
pub enum SecretMaterial {
    /// An access key pair.
    AccessKey {
        /// Access key id.
        access_key_id: String,
        /// Secret access key.
        secret_access_key: String,
    },
    /// Any other kind of secret.
    Other,
}

/// Parameters the S3 provider connects with.
#[derive(Debug, PartialEq, Eq)]
pub struct S3ConnectionParameters {
    /// Service endpoint.
    pub endpoint: String,
    /// Region.
    pub region: String,
    /// Bucket.
    pub bucket: String,
    /// Access key id.
    pub access_key_id: String,
    /// Secret access key.
    pub secret_access_key: String,
}

/// Region used when a connection names none.
pub const DEFAULT_S3_REGION: &'static str = "us-east-1";

/// Builds the S3 connection parameters from a stored profile and its
/// credential: the profile must be an S3 connection, the credential an
/// access key whose id matches the configured one; a missing region is the
/// default one.
pub fn s3_parameters(
    configuration: ConnectionConfiguration,
    credential: Option<SecretMaterial>,
) -> (r: Result<S3ConnectionParameters, String>)
    ensures
        configuration is Other ==> (r matches Err(m) && m@ == "connection is not S3"@),
        configuration is S3 && !(credential matches Some(SecretMaterial::AccessKey { .. })) ==> (r matches Err(m) && m@ == "S3 authentication requires a stored access key credential"@),
        configuration matches ConnectionConfiguration::S3(c) ==> (credential matches Some(SecretMaterial::AccessKey { access_key_id, secret_access_key }) ==> (
            if access_key_id@ != c.access_key_id@ {
                r matches Err(m) && m@
                    == "stored access key id does not match the connection configuration"@
            } else {
                r matches Ok(p) && p.endpoint == c.endpoint && p.bucket == c.bucket
                    && p.access_key_id == access_key_id && p.secret_access_key
                    == secret_access_key && p.region@ == match c.region {
                    Some(region) => region@,
                    None => DEFAULT_S3_REGION@,
                }
            })),
{
    let config = match configuration {
        ConnectionConfiguration::S3(c) => c,
        ConnectionConfiguration::Other => {
            return Err(String::from_str("connection is not S3"));
        },
    };
    let (access_key_id, secret_access_key) = match credential {
        Some(SecretMaterial::AccessKey { access_key_id, secret_access_key }) => (
            access_key_id,
            secret_access_key,
        ),
        _ => {
            return Err(String::from_str("S3 authentication requires a stored access key credential"));
        },
    };
    if !same_text(access_key_id.as_str(), config.access_key_id.as_str()) {
        return Err(
            String::from_str("stored access key id does not match the connection configuration"),
        );
    }
    let region = match config.region {
        Some(region) => region,
        None => String::from_str(DEFAULT_S3_REGION),
    };
    Ok(
        S3ConnectionParameters {
            endpoint: config.endpoint,
            region,
            bucket: config.bucket,
            access_key_id,
            secret_access_key,
        },
    )
}

} // verus!
