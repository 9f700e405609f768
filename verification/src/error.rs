//! Central error type for the Ferrous brain.

use vstd::prelude::*;
use crate::text;

verus! {

/// Every failure mode the core can hit.
#[derive(Debug, PartialEq, Eq)]
pub enum FerrousError {
    /// Filesystem failure (config, snapshot, data dir).
    Io(String),
    /// Malformed or unreadable TOML config.
    TomlParse(String),
    /// Failed to serialize config to TOML.
    TomlSerialize(String),
    /// Any network-layer failure during a source sync.
    Network(String),
    /// A snapshot file on disk could not be decoded.
    Snapshot(String),
    /// A lookup missed.
    ModelNotFound(String),
}

impl FerrousError {
    /// The message of an error.
    pub open spec fn message_text(self) -> Seq<char> {
        match self {
            FerrousError::Io(reason) => "I/O error: "@ + reason@,
            FerrousError::TomlParse(reason) => "config parse error: "@ + reason@,
            FerrousError::TomlSerialize(reason) => "config serialize error: "@ + reason@,
            FerrousError::Network(reason) => "network error: "@ + reason@,
            FerrousError::Snapshot(reason) => "snapshot corrupted: "@ + reason@,
            FerrousError::ModelNotFound(slug) => "model not found: "@ + slug@,
        }
    }

    /// A message for people.
    pub fn message(&self) -> (r: String)
        ensures
            r@ == self.message_text(),
    {
        match self {
            FerrousError::Io(reason) => text::joined("I/O error: ", reason.as_str()),
            FerrousError::TomlParse(reason) => text::joined("config parse error: ", reason.as_str()),
            FerrousError::TomlSerialize(reason) => text::joined(
                "config serialize error: ",
                reason.as_str(),
            ),
            FerrousError::Network(reason) => text::joined("network error: ", reason.as_str()),
            FerrousError::Snapshot(reason) => text::joined("snapshot corrupted: ", reason.as_str()),
            FerrousError::ModelNotFound(slug) => text::joined("model not found: ", slug.as_str()),
        }
    }

    /// Lift the message of a transport failure into our error type.
    pub fn network(reason: String) -> (r: Self)
        ensures
            r == FerrousError::Network(reason),
    {
        FerrousError::Network(reason)
    }

    /// The error of a lookup that missed, with a hint.
    pub fn no_such_model(slug: &str) -> (r: Self)
        ensures
            r matches FerrousError::ModelNotFound(hint) && hint@ == slug@
                + " \u{2014} try `ferrous models search "@ + slug@ + "`"@,
    {
        let mut hint = text::joined(slug, " \u{2014} try `ferrous models search ");
        hint.append(slug);
        hint.append("`");
        FerrousError::ModelNotFound(hint)
    }
}

} // verus!
