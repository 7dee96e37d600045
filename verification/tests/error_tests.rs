use maccy::error::ErrorCode;

#[test]
fn error_code_values() {
    assert_eq!(ErrorCode::Success.value(), 0);
    assert_eq!(ErrorCode::Init.value(), 1);
    assert_eq!(ErrorCode::Pairing.value(), 2);
    assert_eq!(ErrorCode::Network.value(), 3);
    assert_eq!(ErrorCode::InvalidArg.value(), 4);
    assert_eq!(ErrorCode::NotRunning.value(), 5);
    assert_eq!(ErrorCode::AlreadyExists.value(), 6);
    assert_eq!(ErrorCode::NotFound.value(), 7);
    assert_eq!(ErrorCode::Serialization.value(), 8);
}

#[test]
fn error_code_messages() {
    assert_eq!(ErrorCode::Success.message(), "OK");
    assert_eq!(ErrorCode::Init.message(), "Initialization error");
    assert_eq!(ErrorCode::Pairing.message(), "Pairing error");
    assert_eq!(ErrorCode::Network.message(), "Network error");
    assert_eq!(ErrorCode::InvalidArg.message(), "Invalid argument");
    assert_eq!(ErrorCode::NotRunning.message(), "Sync engine not running");
    assert_eq!(ErrorCode::AlreadyExists.message(), "Already exists");
    assert_eq!(ErrorCode::NotFound.message(), "Not found");
    assert_eq!(ErrorCode::Serialization.message(), "Serialization error");
}
