//! The typed errors of both subsystems and the classes they fall into.

use vstd::prelude::*;
use vstd::string::*;

verus! {

/// The classes of failure that a caller tells apart.
#[derive(Debug, Clone, Copy, PartialEq, Eq, Structural, Hash)]
pub enum ErrorKind {
    /// Something that the request names is absent.
    NotFound,
    /// The state of the order does not admit the change.
    InvalidTransition,
    /// The store or the cache could not be reached.
    ConnectionFailure,
    /// A blob could not be encoded or decoded.
    SerializationFailure,
    /// A menu was written in part only.
    PartialPublish,
}

/// Every way in which an operation can fail.
#[derive(Debug, Clone, Copy, PartialEq, Eq, Structural, Hash)]
pub enum ServiceError {
    OrderNotFound,
    DishNotFound,
    LineNotFound,
    TableNotFound,
    NoActiveMenu,
    ActiveMenuMissing,
    OrderAlreadyConfirmed,
    OrderNotConfirmed,
    AlreadyCooked,
    AlreadyPaid,
    /// The change would take a stored figure out of the range of its column.
    OutOfRange,
    ConnectionFailure,
    SerializationFailure,
    UnknownCategory,
    PartialPublish,
}

impl ServiceError {
    /// The class of the error.
    pub open spec fn spec_kind(self) -> ErrorKind {
        match self {
            ServiceError::OrderNotFound
            | ServiceError::DishNotFound
            | ServiceError::LineNotFound
            | ServiceError::TableNotFound
            | ServiceError::NoActiveMenu
            | ServiceError::ActiveMenuMissing => ErrorKind::NotFound,
            ServiceError::OrderAlreadyConfirmed
            | ServiceError::OrderNotConfirmed
            | ServiceError::AlreadyCooked
            | ServiceError::AlreadyPaid
            | ServiceError::OutOfRange => ErrorKind::InvalidTransition,
            ServiceError::ConnectionFailure => ErrorKind::ConnectionFailure,
            ServiceError::SerializationFailure
            | ServiceError::UnknownCategory => ErrorKind::SerializationFailure,
            ServiceError::PartialPublish => ErrorKind::PartialPublish,
        }
    }

    /// The class of the error.
    #[verifier::when_used_as_spec(spec_kind)]
    pub fn kind(self) -> (kind: ErrorKind)
        ensures
            kind == self.spec_kind(),
    {
        match self {
            ServiceError::OrderNotFound => ErrorKind::NotFound,
            ServiceError::DishNotFound => ErrorKind::NotFound,
            ServiceError::LineNotFound => ErrorKind::NotFound,
            ServiceError::TableNotFound => ErrorKind::NotFound,
            ServiceError::NoActiveMenu => ErrorKind::NotFound,
            ServiceError::ActiveMenuMissing => ErrorKind::NotFound,
            ServiceError::OrderAlreadyConfirmed => ErrorKind::InvalidTransition,
            ServiceError::OrderNotConfirmed => ErrorKind::InvalidTransition,
            ServiceError::AlreadyCooked => ErrorKind::InvalidTransition,
            ServiceError::AlreadyPaid => ErrorKind::InvalidTransition,
            ServiceError::OutOfRange => ErrorKind::InvalidTransition,
            ServiceError::ConnectionFailure => ErrorKind::ConnectionFailure,
            ServiceError::SerializationFailure => ErrorKind::SerializationFailure,
            ServiceError::UnknownCategory => ErrorKind::SerializationFailure,
            ServiceError::PartialPublish => ErrorKind::PartialPublish,
        }
    }

    /// The error in words.
    pub open spec fn spec_message(self) -> Seq<char> {
        match self {
            ServiceError::OrderNotFound => "Order was not found"@,
            ServiceError::DishNotFound => "Failed to get dish's price"@,
            ServiceError::LineNotFound => "The order has no such dish"@,
            ServiceError::TableNotFound => "Table was not found"@,
            ServiceError::NoActiveMenu => "Failed to get value of active menu"@,
            ServiceError::ActiveMenuMissing => "Failed to get JSON object of menu from redis db"@,
            ServiceError::OrderAlreadyConfirmed => "The order is already confirmed"@,
            ServiceError::OrderNotConfirmed => "The order is not confirmed yet"@,
            ServiceError::AlreadyCooked => "The order is already cooked"@,
            ServiceError::AlreadyPaid => "The order is already paid"@,
            ServiceError::OutOfRange => "A figure would leave the range of its column"@,
            ServiceError::ConnectionFailure => "Failed to establish connection"@,
            ServiceError::SerializationFailure => "Failed to compose JSON object"@,
            ServiceError::UnknownCategory => "Couldn't recognize dish type"@,
            ServiceError::PartialPublish => "The menu was written in part only"@,
        }
    }

    /// The error in words.
    pub fn message(self) -> (text: String)
        ensures
            text@ == self.spec_message(),
    {
        match self {
            ServiceError::OrderNotFound => String::from_str("Order was not found"),
            ServiceError::DishNotFound => String::from_str("Failed to get dish's price"),
            ServiceError::LineNotFound => String::from_str("The order has no such dish"),
            ServiceError::TableNotFound => String::from_str("Table was not found"),
            ServiceError::NoActiveMenu => String::from_str("Failed to get value of active menu"),
            ServiceError::ActiveMenuMissing => String::from_str(
                "Failed to get JSON object of menu from redis db",
            ),
            ServiceError::OrderAlreadyConfirmed => String::from_str(
                "The order is already confirmed",
            ),
            ServiceError::OrderNotConfirmed => String::from_str("The order is not confirmed yet"),
            ServiceError::AlreadyCooked => String::from_str("The order is already cooked"),
            ServiceError::AlreadyPaid => String::from_str("The order is already paid"),
            ServiceError::OutOfRange => String::from_str(
                "A figure would leave the range of its column",
            ),
            ServiceError::ConnectionFailure => String::from_str("Failed to establish connection"),
            ServiceError::SerializationFailure => String::from_str("Failed to compose JSON object"),
            ServiceError::UnknownCategory => String::from_str("Couldn't recognize dish type"),
            ServiceError::PartialPublish => String::from_str("The menu was written in part only"),
        }
    }

    /// Whether a caller may send the same request again and hope for
    /// another outcome: only failures of the connection and of encoding
    /// are of that kind, and a menu written in part is published anew.
    pub fn is_retryable(self) -> (retry: bool)
        ensures
            retry == (self.spec_kind() == ErrorKind::ConnectionFailure || self.spec_kind()
                == ErrorKind::SerializationFailure || self.spec_kind()
                == ErrorKind::PartialPublish),
    {
        match self.kind() {
            ErrorKind::NotFound => false,
            ErrorKind::InvalidTransition => false,
            ErrorKind::ConnectionFailure => true,
            ErrorKind::SerializationFailure => true,
            ErrorKind::PartialPublish => true,
        }
    }
}

impl ErrorKind {
    /// The HTTP status that stands for the class: 404 and 409 for what the
    /// caller can mend, 500 for what the server failed at.
    pub fn status_code(self) -> (status: u16)
        ensures
            status == match self {
                ErrorKind::NotFound => 404u16,
                ErrorKind::InvalidTransition => 409u16,
                _ => 500u16,
            },
    {
        match self {
            ErrorKind::NotFound => 404,
            ErrorKind::InvalidTransition => 409,
            ErrorKind::ConnectionFailure => 500,
            ErrorKind::SerializationFailure => 500,
            ErrorKind::PartialPublish => 500,
        }
    }
}

} // verus!
