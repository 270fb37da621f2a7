//! What can go wrong while the toolset is brought up to date.

use vstd::prelude::*;
use vstd::string::*;

verus! {

/// A failure of a synchronization run. The variants with a `String` carry
/// the words of the component that failed.
#[derive(Debug)]
pub enum Error {
    /// The release catalog could not be fetched.
    Network(String),
    /// The release catalog was fetched but is not a list of releases.
    Decode(String),
    /// A version was asked of an installation that is not there.
    NotInstalled,
    /// A release asset could not be downloaded.
    Download(String),
    /// The downloaded file is no archive (`entry` is `None`), or the entry
    /// at the given position cannot be read or written.
    Archive { entry: Option<usize>, detail: String },
    /// The upstream project has published no release.
    NoRelease,
    /// The latest release offers no asset for this host.
    NoAsset,
    /// The token file could not be read or written.
    TokenFile(String),
}

/// An error as contracts speak of it: the same variants, with the words by
/// their characters and the position as a number.
pub enum ErrorModel {
    Network(Seq<char>),
    Decode(Seq<char>),
    NotInstalled,
    Download(Seq<char>),
    Archive { entry: Option<nat>, detail: Seq<char> },
    NoRelease,
    NoAsset,
    TokenFile(Seq<char>),
}

impl View for Error {
    type V = ErrorModel;

    open spec fn view(&self) -> ErrorModel {
        match *self {
            Error::Network(detail) => ErrorModel::Network(detail@),
            Error::Decode(detail) => ErrorModel::Decode(detail@),
            Error::NotInstalled => ErrorModel::NotInstalled,
            Error::Download(detail) => ErrorModel::Download(detail@),
            Error::Archive { entry, detail } => ErrorModel::Archive {
                entry: match entry {
                    Some(at) => Some(at as nat),
                    None => None,
                },
                detail: detail@,
            },
            Error::NoRelease => ErrorModel::NoRelease,
            Error::NoAsset => ErrorModel::NoAsset,
            Error::TokenFile(detail) => ErrorModel::TokenFile(detail@),
        }
    }
}

/// An optional error as contracts speak of it.
pub open spec fn error_view(error: Option<Error>) -> Option<ErrorModel> {
    match error {
        Some(e) => Some(e@),
        None => None,
    }
}

/// The words of an error.
pub open spec fn message_of(e: Error) -> Seq<char> {
    match e {
        Error::Network(detail) => detail@,
        Error::Decode(detail) => detail@,
        Error::NotInstalled => "easytier not exists"@,
        Error::Download(detail) => detail@,
        Error::Archive { entry, detail } => detail@,
        Error::NoRelease => "No releases found"@,
        Error::NoAsset => "No assets found in the latest release"@,
        Error::TokenFile(detail) => detail@,
    }
}

impl Clone for Error {
    fn clone(&self) -> (r: Error)
        ensures
            r == *self,
    {
        match self {
            Error::Network(detail) => Error::Network(detail.clone()),
            Error::Decode(detail) => Error::Decode(detail.clone()),
            Error::NotInstalled => Error::NotInstalled,
            Error::Download(detail) => Error::Download(detail.clone()),
            Error::Archive { entry, detail } => Error::Archive {
                entry: *entry,
                detail: detail.clone(),
            },
            Error::NoRelease => Error::NoRelease,
            Error::NoAsset => Error::NoAsset,
            Error::TokenFile(detail) => Error::TokenFile(detail.clone()),
        }
    }
}

impl Error {
    /// The words of the error, for a log or a response.
    pub fn message(&self) -> (r: String)
        ensures
            r@ == message_of(*self),
    {
        match self {
            Error::Network(detail) => detail.clone(),
            Error::Decode(detail) => detail.clone(),
            Error::NotInstalled => String::from_str("easytier not exists"),
            Error::Download(detail) => detail.clone(),
            Error::Archive { entry, detail } => detail.clone(),
            Error::NoRelease => String::from_str("No releases found"),
            Error::NoAsset => String::from_str("No assets found in the latest release"),
            Error::TokenFile(detail) => detail.clone(),
        }
    }
}

} // verus!
