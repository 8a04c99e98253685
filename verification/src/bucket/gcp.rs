//! Google Cloud Storage: where the credentials of a service account are
//! looked for before a bucket is opened.

use crate::config::CloudServiceProvider;
use crate::errors::JobRunnerError;
use vstd::prelude::*;
use vstd::string::*;
use vstd::utf8::is_ascii_chars;

verus! {

/// What the environment holds of the credentials of a service account.
#[derive(Debug, PartialEq, Eq)]
pub struct CredentialSources {
    /// Whether `SERVICE_ACCOUNT` is set to a path at which something
    /// exists.
    pub service_account_exists: bool,
    /// Whether `GOOGLE_APPLICATION_CREDENTIALS` is set to a path at which
    /// something exists.
    pub google_application_credentials_exists: bool,
    /// What `SERVICE_ACCOUNT_JSON` is set to, if it is set.
    pub service_account_json: Option<String>,
    /// What `GOOGLE_APPLICATION_CREDENTIALS_JSON` is set to, if it is set.
    pub google_application_credentials_json: Option<String>,
}

/// Whether `contents` could be a JSON object: ASCII text between braces.
pub open spec fn looks_like_json(contents: Seq<char>) -> bool {
    &&& contents.len() > 0
    &&& contents.first() == '{'
    &&& contents.last() == '}'
    &&& is_ascii_chars(contents)
}

/// Whether a variable that may hold credentials as JSON holds them.
pub open spec fn holds_json(variable: Option<String>) -> bool {
    variable matches Some(contents) && looks_like_json(contents@)
}

/// Whether credentials can be found in one of the four places.
pub open spec fn credentials_present(sources: CredentialSources) -> bool {
    ||| sources.service_account_exists
    ||| sources.google_application_credentials_exists
    ||| holds_json(sources.service_account_json)
    ||| holds_json(sources.google_application_credentials_json)
}

/// Whether `contents` could be credentials as JSON. The test is a rough
/// one: it looks at the braces and at the characters, not inside.
pub fn is_valid_json(contents: &str) -> (b: bool)
    ensures
        b == looks_like_json(contents@),
{
    let n: usize = contents.unicode_len();
    n > 0 && contents.get_char(0) == '{' && contents.get_char(n - 1) == '}' && contents.is_ascii()
}

fn variable_holds_json(variable: &Option<String>) -> (b: bool)
    ensures
        b == holds_json(*variable),
{
    match variable {
        Some(contents) => is_valid_json(contents.as_str()),
        None => false,
    }
}

/// Whether the credentials of a service account are where the provider's
/// client will look for them.
pub fn are_auth_creds_present(sources: &CredentialSources) -> (present: bool)
    ensures
        present == credentials_present(*sources),
{
    if sources.service_account_exists {
        return true;
    }
    if sources.google_application_credentials_exists {
        return true;
    }
    if variable_holds_json(&sources.service_account_json) {
        return true;
    }
    if variable_holds_json(&sources.google_application_credentials_json) {
        return true;
    }
    false
}

/// Fails where no credentials can be found. A bucket is opened only behind
/// this test, so that the provider's client is never made without them.
pub fn require_credentials(sources: &CredentialSources) -> (r: Result<(), JobRunnerError>)
    ensures
        match r {
            Ok(()) => credentials_present(*sources),
            Err(e) => {
                &&& !credentials_present(*sources)
                &&& e == JobRunnerError::BucketCredentialsNotFoundError(CloudServiceProvider::GCP)
            },
        },
{
    if are_auth_creds_present(sources) {
        Ok(())
    } else {
        Err(JobRunnerError::BucketCredentialsNotFoundError(CloudServiceProvider::GCP))
    }
}

} // verus!
