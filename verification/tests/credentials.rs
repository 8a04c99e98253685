use cloud_storage_job_runner::bucket::gcp::{
    are_auth_creds_present, is_valid_json, require_credentials, CredentialSources,
};
use cloud_storage_job_runner::{CloudServiceProvider, JobRunnerError};

fn nothing() -> CredentialSources {
    CredentialSources {
        service_account_exists: false,
        google_application_credentials_exists: false,
        service_account_json: None,
        google_application_credentials_json: None,
    }
}

#[test]
fn text_between_braces_passes_for_json() {
    assert!(is_valid_json("{}"));
    assert!(is_valid_json("{\"type\": \"service_account\"}"));
}

#[test]
fn other_text_does_not_pass_for_json() {
    assert!(!is_valid_json(""));
    assert!(!is_valid_json("{"));
    assert!(!is_valid_json("}"));
    assert!(!is_valid_json("[]"));
    assert!(!is_valid_json(" {}"));
    assert!(!is_valid_json("{} "));
    assert!(!is_valid_json("{\"name\": \"été\"}"));
}

#[test]
fn no_credentials_are_found_where_there_are_none() {
    assert!(!are_auth_creds_present(&nothing()));
    let mut sources = nothing();
    sources.service_account_json = Some("not json".to_string());
    sources.google_application_credentials_json = Some("".to_string());
    assert!(!are_auth_creds_present(&sources));
}

#[test]
fn credentials_are_found_in_each_of_the_four_places() {
    let mut sources = nothing();
    sources.service_account_exists = true;
    assert!(are_auth_creds_present(&sources));

    let mut sources = nothing();
    sources.google_application_credentials_exists = true;
    assert!(are_auth_creds_present(&sources));

    let mut sources = nothing();
    sources.service_account_json = Some("{}".to_string());
    assert!(are_auth_creds_present(&sources));

    let mut sources = nothing();
    sources.google_application_credentials_json = Some("{\"a\": 1}".to_string());
    assert!(are_auth_creds_present(&sources));
}

#[test]
fn a_bucket_is_not_opened_without_credentials() {
    assert_eq!(
        require_credentials(&nothing()),
        Err(JobRunnerError::BucketCredentialsNotFoundError(CloudServiceProvider::GCP))
    );
    let mut sources = nothing();
    sources.service_account_exists = true;
    assert_eq!(require_credentials(&sources), Ok(()));
}
