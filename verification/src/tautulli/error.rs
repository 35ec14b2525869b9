//! The two ways in which a history cannot be turned into watches.

use vstd::prelude::*;
use vstd::string::StringExecFns;

verus! {

/// Why the watches of an item could not be built. Either way the request is
/// given up, and the error names the item so that the faulty record can be
/// found where it came from.
#[derive(Debug)]
pub enum WatchError {
    /// The date of a kept event has no calendar timestamp.
    UnixTimeOutOfRange { rating_key: String },
    /// A kept event of a TV item has no season or no episode.
    MissingEpisodeCoordinates { rating_key: String },
}

/// A `WatchError` as a mathematical value.
pub enum WatchFault {
    UnixTimeOutOfRange { rating_key: Seq<char> },
    MissingEpisodeCoordinates { rating_key: Seq<char> },
}

impl WatchFault {
    /// The item that the fault was found in.
    pub open spec fn rating_key(self) -> Seq<char> {
        match self {
            WatchFault::UnixTimeOutOfRange { rating_key } => rating_key,
            WatchFault::MissingEpisodeCoordinates { rating_key } => rating_key,
        }
    }

    /// The words that come before the item in the fault's message.
    pub open spec fn preamble(self) -> Seq<char> {
        match self {
            WatchFault::UnixTimeOutOfRange { .. } => "Failed to parse unix time for rating key "@,
            WatchFault::MissingEpisodeCoordinates { .. } => {
                "Missing season or episode for rating key "@
            },
        }
    }

    /// The fault in words: what went wrong, then the item.
    pub open spec fn message(self) -> Seq<char> {
        self.preamble() + self.rating_key()
    }
}

impl View for WatchError {
    type V = WatchFault;

    open spec fn view(&self) -> WatchFault {
        match self {
            WatchError::UnixTimeOutOfRange { rating_key } => WatchFault::UnixTimeOutOfRange {
                rating_key: rating_key@,
            },
            WatchError::MissingEpisodeCoordinates {
                rating_key,
            } => WatchFault::MissingEpisodeCoordinates { rating_key: rating_key@ },
        }
    }
}

impl WatchError {
    /// The item that the error was found in.
    pub fn rating_key(&self) -> (rating_key: &str)
        ensures
            rating_key@ == self@.rating_key(),
    {
        match self {
            WatchError::UnixTimeOutOfRange { rating_key } => rating_key.as_str(),
            WatchError::MissingEpisodeCoordinates { rating_key } => rating_key.as_str(),
        }
    }

    /// The error in words: what went wrong, then the item.
    pub fn message(&self) -> (message: String)
        ensures
            message@ == self@.message(),
    {
        match self {
            WatchError::UnixTimeOutOfRange { rating_key } => String::from_str(
                "Failed to parse unix time for rating key ",
            ).concat(rating_key.as_str()),
            WatchError::MissingEpisodeCoordinates { rating_key } => String::from_str(
                "Missing season or episode for rating key ",
            ).concat(rating_key.as_str()),
        }
    }
}

} // verus!
