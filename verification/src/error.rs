use vstd::prelude::*;

verus! {

/// Failures of the Fedora side.
#[derive(Debug, PartialEq, Eq)]
pub enum FedoraError {
    /// A URL was refused by the URL parser; holds the text of its error.
    InvalidUrl(String),
    /// The repository answered with text that is not valid Turtle; holds the
    /// parser's error, as `{:?}` formats it.
    InvalidTurtle(String),
}

/// Failures of the ArchivesSpace side.
#[derive(Debug, PartialEq, Eq)]
pub enum AspaceError {
    /// A URL was refused by the URL parser; holds the text of its error.
    InvalidUrl(String),
    /// A ref-id query did not resolve to an archival object.
    ArchivalObjectNotFound,
    /// A JSON document does not have the shape of an archival object.
    InvalidArchivalObject,
    /// A JSON document does not have the shape of a digital object.
    InvalidDigitalObject,
    /// The login answer does not carry a session token.
    InvalidSession,
    /// The session token cannot stand in an HTTP header.
    InvalidHeaderValue,
    /// The archival object refers to no digital object.
    NoDigitalObjectRef,
    /// There is no digital object in the pipeline to update.
    NoDigitalObjectToUpdate,
}

impl FedoraError {
    pub open spec fn spec_message(self) -> Seq<char> {
        match self {
            FedoraError::InvalidUrl(text) => text@,
            FedoraError::InvalidTurtle(text) => text@,
        }
    }

    /// The human-readable text of the error: that of the outside error.
    pub fn message(&self) -> (res: String)
        ensures
            res@ == self.spec_message(),
    {
        match self {
            FedoraError::InvalidUrl(text) => text.clone(),
            FedoraError::InvalidTurtle(text) => text.clone(),
        }
    }
}

impl AspaceError {
    pub open spec fn spec_message(self) -> Seq<char> {
        match self {
            AspaceError::InvalidUrl(text) => text@,
            AspaceError::ArchivalObjectNotFound => "Archival Object not found"@,
            AspaceError::InvalidArchivalObject => "Invalid archival object"@,
            AspaceError::InvalidDigitalObject => "Invalid digital object"@,
            AspaceError::InvalidSession => "Invalid session response"@,
            AspaceError::InvalidHeaderValue => "failed to parse header value"@,
            AspaceError::NoDigitalObjectRef => "No digital object identifier found in archival object"@,
            AspaceError::NoDigitalObjectToUpdate => "No digital object found to update"@,
        }
    }

    /// The human-readable text of the error.
    pub fn message(&self) -> (res: String)
        ensures
            res@ == self.spec_message(),
    {
        match self {
            AspaceError::InvalidUrl(text) => text.clone(),
            AspaceError::ArchivalObjectNotFound => "Archival Object not found".to_owned(),
            AspaceError::InvalidArchivalObject => "Invalid archival object".to_owned(),
            AspaceError::InvalidDigitalObject => "Invalid digital object".to_owned(),
            AspaceError::InvalidSession => "Invalid session response".to_owned(),
            AspaceError::InvalidHeaderValue => "failed to parse header value".to_owned(),
            AspaceError::NoDigitalObjectRef => "No digital object identifier found in archival object".to_owned(),
            AspaceError::NoDigitalObjectToUpdate => "No digital object found to update".to_owned(),
        }
    }
}

} // verus!
