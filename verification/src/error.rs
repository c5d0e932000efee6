//! The failures a client operation can report.

use vstd::prelude::*;
use vstd::string::*;

verus! {

/// Why an operation failed. Every variant carries a human-readable detail;
/// for `RelayConnectionFailed` the detail is the relay URL.
#[derive(Debug, Clone)]
pub enum NostrError {
    InvalidHex(String),
    InvalidPublicKey(String),
    InvalidSecretKey(String),
    InvalidUrl(String),
    RelayConnectionFailed(String),
    EventCreationFailed(String),
    EventPublishingFailed(String),
    EventQueryFailed(String),
    SubscriptionFailed(String),
    UnsupportedOperation(String),
    Timeout(String),
    Generic(String),
}

impl NostrError {
    /// The detail carried by the error.
    pub open spec fn detail(&self) -> Seq<char> {
        match self {
            NostrError::InvalidHex(d) => d@,
            NostrError::InvalidPublicKey(d) => d@,
            NostrError::InvalidSecretKey(d) => d@,
            NostrError::InvalidUrl(d) => d@,
            NostrError::RelayConnectionFailed(d) => d@,
            NostrError::EventCreationFailed(d) => d@,
            NostrError::EventPublishingFailed(d) => d@,
            NostrError::EventQueryFailed(d) => d@,
            NostrError::SubscriptionFailed(d) => d@,
            NostrError::UnsupportedOperation(d) => d@,
            NostrError::Timeout(d) => d@,
            NostrError::Generic(d) => d@,
        }
    }

    /// The fixed text that introduces the detail in `message`.
    pub open spec fn label(&self) -> Seq<char> {
        match self {
            NostrError::InvalidHex(_) => "Invalid hex: "@,
            NostrError::InvalidPublicKey(_) => "Invalid public key: "@,
            NostrError::InvalidSecretKey(_) => "Invalid secret key: "@,
            NostrError::InvalidUrl(_) => "Invalid URL: "@,
            NostrError::RelayConnectionFailed(_) => "Relay connection failed: "@,
            NostrError::EventCreationFailed(_) => "Event creation failed: "@,
            NostrError::EventPublishingFailed(_) => "Event publishing failed: "@,
            NostrError::EventQueryFailed(_) => "Event query failed: "@,
            NostrError::SubscriptionFailed(_) => "Subscription failed: "@,
            NostrError::UnsupportedOperation(_) => "Unsupported operation: "@,
            NostrError::Timeout(_) => "Timeout: "@,
            NostrError::Generic(_) => "Generic error: "@,
        }
    }

    /// The error as one line of text: its label followed by its detail.
    pub fn message(&self) -> (text: String)
        ensures
            text@ == self.label() + self.detail(),
    {
        match self {
            NostrError::InvalidHex(d) => String::from_str("Invalid hex: ").concat(d.as_str()),
            NostrError::InvalidPublicKey(d) => String::from_str("Invalid public key: ").concat(
                d.as_str(),
            ),
            NostrError::InvalidSecretKey(d) => String::from_str("Invalid secret key: ").concat(
                d.as_str(),
            ),
            NostrError::InvalidUrl(d) => String::from_str("Invalid URL: ").concat(d.as_str()),
            NostrError::RelayConnectionFailed(d) => String::from_str(
                "Relay connection failed: ",
            ).concat(d.as_str()),
            NostrError::EventCreationFailed(d) => String::from_str(
                "Event creation failed: ",
            ).concat(d.as_str()),
            NostrError::EventPublishingFailed(d) => String::from_str(
                "Event publishing failed: ",
            ).concat(d.as_str()),
            NostrError::EventQueryFailed(d) => String::from_str("Event query failed: ").concat(
                d.as_str(),
            ),
            NostrError::SubscriptionFailed(d) => String::from_str("Subscription failed: ").concat(
                d.as_str(),
            ),
            NostrError::UnsupportedOperation(d) => String::from_str(
                "Unsupported operation: ",
            ).concat(d.as_str()),
            NostrError::Timeout(d) => String::from_str("Timeout: ").concat(d.as_str()),
            NostrError::Generic(d) => String::from_str("Generic error: ").concat(d.as_str()),
        }
    }
}

} // verus!
