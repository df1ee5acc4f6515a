//! Credentials of the remote account, and the token they are stored as.

use vstd::prelude::*;
use crate::error::BackupError;
use crate::json::{
    json_error_text, json_object_text, parse_json, parsed_members, string_member, write_json_object,
};

verus! {

/// What it takes to read the catalog of an account.
#[derive(Clone, Debug, PartialEq, Eq)]
pub struct Credentials {
    pub cloud_name: String,
    pub api_key: String,
    pub api_secret: String,
}

/// The mathematical value of [`Credentials`].
pub ghost struct CredentialsView {
    pub cloud_name: Seq<char>,
    pub api_key: Seq<char>,
    pub api_secret: Seq<char>,
}

impl View for Credentials {
    type V = CredentialsView;

    open spec fn view(&self) -> CredentialsView {
        CredentialsView { cloud_name: self.cloud_name@, api_key: self.api_key@, api_secret: self.api_secret@ }
    }
}

impl DeepView for Credentials {
    type V = CredentialsView;

    open spec fn deep_view(&self) -> CredentialsView {
        self@
    }
}

/// The string under `key`, or the empty string where there is none.
pub open spec fn member_or_empty(members: Map<Seq<char>, Seq<char>>, key: Seq<char>) -> Seq<char> {
    if members.contains_key(key) {
        members[key]
    } else {
        Seq::empty()
    }
}

/// The credentials that three parts make up: none if one of them is empty.
pub open spec fn complete_credentials(
    cloud_name: Seq<char>,
    api_key: Seq<char>,
    api_secret: Seq<char>,
) -> Option<CredentialsView> {
    if cloud_name.len() == 0 || api_key.len() == 0 || api_secret.len() == 0 {
        None
    } else {
        Some(CredentialsView { cloud_name, api_key, api_secret })
    }
}

/// The credentials among the string members of a document.
pub open spec fn credentials_among(members: Map<Seq<char>, Seq<char>>) -> Option<CredentialsView> {
    complete_credentials(
        member_or_empty(members, "cloud_name"@),
        member_or_empty(members, "api_key"@),
        member_or_empty(members, "api_secret"@),
    )
}

/// The members of the token for credentials, as they are handed to the writer.
pub open spec fn token_members(credentials: CredentialsView) -> Seq<(Seq<char>, Seq<char>)> {
    seq![
        ("cloud_name"@, credentials.cloud_name),
        ("api_key"@, credentials.api_key),
        ("api_secret"@, credentials.api_secret),
    ]
}

/// Makes credentials of three parts, each of which may be missing: there
/// are none unless all three are there and not empty.
pub fn credentials_from_parts(
    cloud_name: Option<String>,
    api_key: Option<String>,
    api_secret: Option<String>,
) -> (r: Option<Credentials>)
    ensures
        r.deep_view() == complete_credentials(
            match cloud_name {
                Some(s) => s@,
                None => Seq::empty(),
            },
            match api_key {
                Some(s) => s@,
                None => Seq::empty(),
            },
            match api_secret {
                Some(s) => s@,
                None => Seq::empty(),
            },
        ),
{
    match (cloud_name, api_key, api_secret) {
        (Some(cloud_name), Some(api_key), Some(api_secret)) => {
            if cloud_name.as_str().is_empty() || api_key.as_str().is_empty() || api_secret.as_str().is_empty() {
                None
            } else {
                Some(Credentials { cloud_name, api_key, api_secret })
            }
        },
        _ => None,
    }
}

/// The token under which credentials are stored: a JSON object with the
/// three parts as strings.
pub fn save_credentials(credentials: &Credentials) -> (r: String)
    ensures
        r@ == json_object_text(token_members(credentials@)),
{
    let mut members: Vec<(String, String)> = Vec::new();
    members.push((String::from_str("cloud_name"), credentials.cloud_name.clone()));
    members.push((String::from_str("api_key"), credentials.api_key.clone()));
    members.push((String::from_str("api_secret"), credentials.api_secret.clone()));
    assert(members.deep_view() =~= token_members(credentials@));
    write_json_object(&members)
}

/// Reads credentials back from a token. A token that is not a JSON
/// document is an error; a document in which one of the three parts is
/// missing, not a string, or empty holds no credentials.
pub fn load_credentials(token: &str) -> (r: Result<Option<Credentials>, BackupError>)
    ensures
        match parsed_members(token@) {
            Some(members) => r matches Ok(found) && found.deep_view() == credentials_among(members),
            None => r matches Err(e) && e@ is MalformedResponse,
        },
{
    match parse_json(token) {
        Ok(document) => {
            let cloud_name = string_member(&document, "cloud_name");
            let api_key = string_member(&document, "api_key");
            let api_secret = string_member(&document, "api_secret");
            Ok(credentials_from_parts(cloud_name, api_key, api_secret))
        },
        Err(error) => Err(BackupError::MalformedResponse { detail: json_error_text(&error) }),
    }
}

} // verus!
