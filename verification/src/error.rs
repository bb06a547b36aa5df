//! What can go wrong, and how each failure reads.

use vstd::prelude::*;
use vstd::string::*;

verus! {

#[derive(Debug, Clone, PartialEq, Eq)]
pub enum Error {
    NotFound(String),
    InvalidId(String),
    RateLimitExceeded(String, String),
    Uninitialized,
    NoLoaderSupport(String, String),
    NoCompatibleVersions(String),
    UnsupportedProjectType(String),
    BadImport(String),
    Deprecated(String),
    Other(String),
}

impl Error {
    /// The line that a reader sees for the failure.
    pub open spec fn message_text(self) -> Seq<char> {
        match self {
            Error::NotFound(what) => what@ + " not found"@,
            Error::InvalidId(id) => id@ + " is not a valid modrinth id/slug"@,
            Error::RateLimitExceeded(who, seconds) => "You exceeded "@ + who@
                + "'s ratelimit, try again in "@ + seconds@ + " seconds"@,
            Error::Uninitialized =>
                "The folder you're in doesnt have a modpack, create one with 'emm init'"@,
            Error::NoLoaderSupport(loader, version) => loader@
                + " loader has no available versions for "@ + version@,
            Error::NoCompatibleVersions(name) => name@
                + " has no compatible versions with your modpack"@,
            Error::UnsupportedProjectType(name) => "Unable to add "@ + name@
                + " because its project type is unsupported"@,
            Error::BadImport(why) => "Unable to import: "@ + why@,
            Error::Deprecated(what) => "Deprecated api usage: "@ + what@,
            Error::Other(text) => text@,
        }
    }

    /// Whether the failure concerns one addon only, so that a batch skips it and goes on.
    pub open spec fn skippable(self) -> bool {
        self is NoCompatibleVersions || self is UnsupportedProjectType
    }

    /// Whether the failure asks for a search by name instead of by id.
    pub open spec fn searchable(self) -> bool {
        self is NotFound || self is InvalidId
    }

    pub fn message(&self) -> (r: String)
        ensures
            r@ == self.message_text(),
    {
        match self {
            Error::NotFound(what) => what.clone().concat(" not found"),
            Error::InvalidId(id) => id.clone().concat(" is not a valid modrinth id/slug"),
            Error::RateLimitExceeded(who, seconds) => String::from_str("You exceeded ").concat(
                who.as_str(),
            ).concat("'s ratelimit, try again in ").concat(seconds.as_str()).concat(" seconds"),
            Error::Uninitialized => String::from_str(
                "The folder you're in doesnt have a modpack, create one with 'emm init'",
            ),
            Error::NoLoaderSupport(loader, version) => loader.clone().concat(
                " loader has no available versions for ",
            ).concat(version.as_str()),
            Error::NoCompatibleVersions(name) => name.clone().concat(
                " has no compatible versions with your modpack",
            ),
            Error::UnsupportedProjectType(name) => String::from_str("Unable to add ").concat(
                name.as_str(),
            ).concat(" because its project type is unsupported"),
            Error::BadImport(why) => String::from_str("Unable to import: ").concat(why.as_str()),
            Error::Deprecated(what) => String::from_str("Deprecated api usage: ").concat(
                what.as_str(),
            ),
            Error::Other(text) => text.clone(),
        }
    }

    pub fn is_skippable(&self) -> (r: bool)
        ensures
            r == self.skippable(),
    {
        match self {
            Error::NoCompatibleVersions(_) => true,
            Error::UnsupportedProjectType(_) => true,
            _ => false,
        }
    }

    pub fn is_searchable(&self) -> (r: bool)
        ensures
            r == self.searchable(),
    {
        match self {
            Error::NotFound(_) => true,
            Error::InvalidId(_) => true,
            _ => false,
        }
    }
}

} // verus!
