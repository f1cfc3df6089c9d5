use vstd::prelude::*;
use crate::error::FedoraError;
use crate::urls::{parse_url, join_url, parsed_url, joined_url};

verus! {

/// Credentials and root URL of a Fedora repository. `root_url` holds the
/// parsed URL in serialised form.
pub struct FedoraAuth {
    pub username: String,
    pub password: String,
    pub root_url: String,
}

impl FedoraAuth {
    /// Fails with `InvalidUrl`, holding the URL parser's error, exactly when
    /// `root_uri` does not parse as an absolute URL.
    pub fn new(username: &str, password: &str, root_uri: &str) -> (res: Result<Self, FedoraError>)
        ensures
            match parsed_url(root_uri@) {
                Ok(u) => res matches Ok(auth) && {
                    &&& auth.root_url@ == u
                    &&& auth.username@ == username@
                    &&& auth.password@ == password@
                },
                Err(t) => res matches Err(FedoraError::InvalidUrl(text)) && text@ == t,
            },
    {
        match parse_url(root_uri) {
            Ok(url) => Ok(FedoraAuth {
                username: username.to_owned(),
                password: password.to_owned(),
                root_url: url,
            }),
            Err(text) => Err(FedoraError::InvalidUrl(text)),
        }
    }

    /// The URL of a repository resource: `uri` resolved against the root URL;
    /// `InvalidUrl` with the URL parser's error when that fails.
    pub fn resource_url(&self, uri: &str) -> (res: Result<String, FedoraError>)
        ensures
            match joined_url(self.root_url@, uri@) {
                Ok(u) => res matches Ok(s) && s@ == u,
                Err(t) => res matches Err(FedoraError::InvalidUrl(text)) && text@ == t,
            },
    {
        match join_url(self.root_url.as_str(), uri) {
            Ok(u) => Ok(u),
            Err(text) => Err(FedoraError::InvalidUrl(text)),
        }
    }
}

} // verus!
