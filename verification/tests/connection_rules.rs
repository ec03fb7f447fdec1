use fm_application::connections::{
    ConnectionConfiguration, S3Configuration, S3ConnectionParameters, SecretMaterial,
    s3_parameters,
};
use fm_application::semantic::{WorkerClientFailure, connection_is_unusable};

fn configuration(region: Option<&str>) -> ConnectionConfiguration {
    ConnectionConfiguration::S3(S3Configuration {
        endpoint: "https://s3.example".to_owned(),
        region: region.map(str::to_owned),
        bucket: "photos".to_owned(),
        access_key_id: "AKIA1".to_owned(),
    })
}

fn key(id: &str) -> Option<SecretMaterial> {
    Some(SecretMaterial::AccessKey {
        access_key_id: id.to_owned(),
        secret_access_key: "SECRET-REDACTED".to_owned(),
    })
}

#[test]
fn s3_parameters_need_a_matching_access_key() {
    assert_eq!(
        s3_parameters(ConnectionConfiguration::Other, key("AKIA1")),
        Err("connection is not S3".to_owned())
    );
    assert_eq!(
        s3_parameters(configuration(None), None),
        Err("S3 authentication requires a stored access key credential".to_owned())
    );
    assert_eq!(
        s3_parameters(configuration(None), Some(SecretMaterial::Other)),
        Err("S3 authentication requires a stored access key credential".to_owned())
    );
    assert_eq!(
        s3_parameters(configuration(None), key("AKIA2")),
        Err("stored access key id does not match the connection configuration".to_owned())
    );
    assert_eq!(
        s3_parameters(configuration(None), key("AKIA1")),
        Ok(S3ConnectionParameters {
            endpoint: "https://s3.example".to_owned(),
            region: "us-east-1".to_owned(),
            bucket: "photos".to_owned(),
            access_key_id: "AKIA1".to_owned(),
            secret_access_key: "SECRET-REDACTED".to_owned(),
        })
    );
    assert_eq!(
        s3_parameters(configuration(Some("eu-west-1")), key("AKIA1")).map(|p| p.region),
        Ok("eu-west-1".to_owned())
    );
}

#[test]
fn broken_connections_are_dropped_but_remote_failures_keep_them() {
    assert!(connection_is_unusable(&WorkerClientFailure::Disconnected));
    assert!(connection_is_unusable(&WorkerClientFailure::FrameDecode));
    assert!(!connection_is_unusable(&WorkerClientFailure::FrameTooLarge));
    assert!(!connection_is_unusable(&WorkerClientFailure::ShutdownTimedOut));
}
