use restaurant_pos::errors::{ErrorKind, ServiceError};

const ALL: [ServiceError; 15] = [
    ServiceError::OrderNotFound,
    ServiceError::DishNotFound,
    ServiceError::LineNotFound,
    ServiceError::TableNotFound,
    ServiceError::NoActiveMenu,
    ServiceError::ActiveMenuMissing,
    ServiceError::OrderAlreadyConfirmed,
    ServiceError::OrderNotConfirmed,
    ServiceError::AlreadyCooked,
    ServiceError::AlreadyPaid,
    ServiceError::OutOfRange,
    ServiceError::ConnectionFailure,
    ServiceError::SerializationFailure,
    ServiceError::UnknownCategory,
    ServiceError::PartialPublish,
];

#[test]
fn errors_fall_into_their_classes() {
    assert_eq!(ServiceError::OrderNotFound.kind(), ErrorKind::NotFound);
    assert_eq!(ServiceError::DishNotFound.kind(), ErrorKind::NotFound);
    assert_eq!(ServiceError::LineNotFound.kind(), ErrorKind::NotFound);
    assert_eq!(ServiceError::TableNotFound.kind(), ErrorKind::NotFound);
    assert_eq!(ServiceError::NoActiveMenu.kind(), ErrorKind::NotFound);
    assert_eq!(ServiceError::ActiveMenuMissing.kind(), ErrorKind::NotFound);
    assert_eq!(ServiceError::OrderAlreadyConfirmed.kind(), ErrorKind::InvalidTransition);
    assert_eq!(ServiceError::OrderNotConfirmed.kind(), ErrorKind::InvalidTransition);
    assert_eq!(ServiceError::AlreadyCooked.kind(), ErrorKind::InvalidTransition);
    assert_eq!(ServiceError::AlreadyPaid.kind(), ErrorKind::InvalidTransition);
    assert_eq!(ServiceError::OutOfRange.kind(), ErrorKind::InvalidTransition);
    assert_eq!(ServiceError::ConnectionFailure.kind(), ErrorKind::ConnectionFailure);
    assert_eq!(ServiceError::SerializationFailure.kind(), ErrorKind::SerializationFailure);
    assert_eq!(ServiceError::UnknownCategory.kind(), ErrorKind::SerializationFailure);
    assert_eq!(ServiceError::PartialPublish.kind(), ErrorKind::PartialPublish);
}

#[test]
fn classes_have_their_status() {
    assert_eq!(ErrorKind::NotFound.status_code(), 404);
    assert_eq!(ErrorKind::InvalidTransition.status_code(), 409);
    assert_eq!(ErrorKind::ConnectionFailure.status_code(), 500);
    assert_eq!(ErrorKind::SerializationFailure.status_code(), 500);
    assert_eq!(ErrorKind::PartialPublish.status_code(), 500);
}

#[test]
fn only_server_side_failures_are_retried() {
    for error in ALL {
        let expected = matches!(
            error,
            ServiceError::ConnectionFailure
                | ServiceError::SerializationFailure
                | ServiceError::UnknownCategory
                | ServiceError::PartialPublish
        );
        assert_eq!(error.is_retryable(), expected);
    }
}

#[test]
fn errors_speak() {
    assert_eq!(ServiceError::OrderAlreadyConfirmed.message(), "The order is already confirmed");
    assert_eq!(ServiceError::OrderNotConfirmed.message(), "The order is not confirmed yet");
    assert_eq!(ServiceError::AlreadyPaid.message(), "The order is already paid");
    assert_eq!(ServiceError::AlreadyCooked.message(), "The order is already cooked");
    assert_eq!(ServiceError::ConnectionFailure.message(), "Failed to establish connection");
    assert_eq!(ServiceError::DishNotFound.message(), "Failed to get dish's price");
    assert_eq!(ServiceError::NoActiveMenu.message(), "Failed to get value of active menu");
    assert_eq!(
        ServiceError::ActiveMenuMissing.message(),
        "Failed to get JSON object of menu from redis db"
    );
    for a in 0..ALL.len() {
        assert!(!ALL[a].message().is_empty());
        for b in 0..a {
            assert_ne!(ALL[a].message(), ALL[b].message());
        }
    }
}
