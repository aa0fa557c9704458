use indy_api::error_code::{invalid_param_code, validate, ErrorCode};

#[test]
fn success_is_zero() {
    assert_eq!(ErrorCode::Success.value(), 0);
}

#[test]
fn common_band_values() {
    assert_eq!(ErrorCode::CommonInvalidParam1.value(), 100);
    assert_eq!(ErrorCode::CommonInvalidParam12.value(), 111);
    assert_eq!(ErrorCode::CommonInvalidState.value(), 112);
    assert_eq!(ErrorCode::CommonInvalidStructure.value(), 113);
    assert_eq!(ErrorCode::CommonIOError.value(), 114);
    assert_eq!(ErrorCode::CommonInvalidParam13.value(), 115);
    assert_eq!(ErrorCode::CommonInvalidParam27.value(), 129);
}

#[test]
fn wallet_band_values() {
    assert_eq!(ErrorCode::WalletInvalidHandle.value(), 200);
    assert_eq!(ErrorCode::WalletAccessFailed.value(), 207);
    assert_eq!(ErrorCode::WalletQueryError.value(), 214);
}

#[test]
fn ledger_band_values() {
    assert_eq!(ErrorCode::PoolLedgerNotCreatedError.value(), 300);
    assert_eq!(ErrorCode::PoolIncompatibleProtocolVersion.value(), 308);
    assert_eq!(ErrorCode::LedgerNotFound.value(), 309);
}

#[test]
fn anoncreds_band_values() {
    assert_eq!(ErrorCode::AnoncredsRevocationRegistryFullError.value(), 400);
    assert_eq!(ErrorCode::AnoncredsInvalidUserRevocId.value(), 401);
    assert_eq!(ErrorCode::AnoncredsMasterSecretDuplicateNameError.value(), 404);
    assert_eq!(ErrorCode::AnoncredsCredDefAlreadyExistsError.value(), 407);
}

#[test]
fn singleton_band_values() {
    assert_eq!(ErrorCode::UnknownCryptoTypeError.value(), 500);
    assert_eq!(ErrorCode::DidAlreadyExistsError.value(), 600);
}

#[test]
fn payment_band_values() {
    assert_eq!(ErrorCode::PaymentUnknownMethodError.value(), 700);
    assert_eq!(ErrorCode::PaymentInsufficientFundsError.value(), 702);
    assert_eq!(ErrorCode::TransactionNotAllowedError.value(), 706);
}

#[test]
fn positional_codes_follow_the_band_layout() {
    for position in 1u8..=27 {
        let expected = if position <= 12 {
            99 + position as i32
        } else {
            102 + position as i32
        };
        assert_eq!(invalid_param_code(position).value(), expected);
    }
}

#[test]
fn validate_rejects_with_the_positional_code() {
    assert!(validate(3, true).is_ok());
    assert_eq!(validate(3, false), Err(ErrorCode::CommonInvalidParam3));
    assert_eq!(validate(27, false), Err(ErrorCode::CommonInvalidParam27));
}

#[test]
fn all_values_are_pairwise_distinct() {
    let codes = [
        ErrorCode::Success,
        ErrorCode::CommonInvalidParam1,
        ErrorCode::CommonInvalidParam2,
        ErrorCode::CommonInvalidParam3,
        ErrorCode::CommonInvalidParam4,
        ErrorCode::CommonInvalidParam5,
        ErrorCode::CommonInvalidParam6,
        ErrorCode::CommonInvalidParam7,
        ErrorCode::CommonInvalidParam8,
        ErrorCode::CommonInvalidParam9,
        ErrorCode::CommonInvalidParam10,
        ErrorCode::CommonInvalidParam11,
        ErrorCode::CommonInvalidParam12,
        ErrorCode::CommonInvalidState,
        ErrorCode::CommonInvalidStructure,
        ErrorCode::CommonIOError,
        ErrorCode::CommonInvalidParam13,
        ErrorCode::CommonInvalidParam14,
        ErrorCode::CommonInvalidParam15,
        ErrorCode::CommonInvalidParam16,
        ErrorCode::CommonInvalidParam17,
        ErrorCode::CommonInvalidParam18,
        ErrorCode::CommonInvalidParam19,
        ErrorCode::CommonInvalidParam20,
        ErrorCode::CommonInvalidParam21,
        ErrorCode::CommonInvalidParam22,
        ErrorCode::CommonInvalidParam23,
        ErrorCode::CommonInvalidParam24,
        ErrorCode::CommonInvalidParam25,
        ErrorCode::CommonInvalidParam26,
        ErrorCode::CommonInvalidParam27,
        ErrorCode::WalletInvalidHandle,
        ErrorCode::WalletUnknownTypeError,
        ErrorCode::WalletTypeAlreadyRegisteredError,
        ErrorCode::WalletAlreadyExistsError,
        ErrorCode::WalletNotFoundError,
        ErrorCode::WalletIncompatiblePoolError,
        ErrorCode::WalletAlreadyOpenedError,
        ErrorCode::WalletAccessFailed,
        ErrorCode::WalletInputError,
        ErrorCode::WalletDecodingError,
        ErrorCode::WalletStorageError,
        ErrorCode::WalletEncryptionError,
        ErrorCode::WalletItemNotFound,
        ErrorCode::WalletItemAlreadyExists,
        ErrorCode::WalletQueryError,
        ErrorCode::PoolLedgerNotCreatedError,
        ErrorCode::PoolLedgerInvalidPoolHandle,
        ErrorCode::PoolLedgerTerminated,
        ErrorCode::LedgerNoConsensusError,
        ErrorCode::LedgerInvalidTransaction,
        ErrorCode::LedgerSecurityError,
        ErrorCode::PoolLedgerConfigAlreadyExistsError,
        ErrorCode::PoolLedgerTimeout,
        ErrorCode::PoolIncompatibleProtocolVersion,
        ErrorCode::LedgerNotFound,
        ErrorCode::AnoncredsRevocationRegistryFullError,
        ErrorCode::AnoncredsInvalidUserRevocId,
        ErrorCode::AnoncredsMasterSecretDuplicateNameError,
        ErrorCode::AnoncredsProofRejected,
        ErrorCode::AnoncredsCredentialRevoked,
        ErrorCode::AnoncredsCredDefAlreadyExistsError,
        ErrorCode::UnknownCryptoTypeError,
        ErrorCode::DidAlreadyExistsError,
        ErrorCode::PaymentUnknownMethodError,
        ErrorCode::PaymentIncompatibleMethodsError,
        ErrorCode::PaymentInsufficientFundsError,
        ErrorCode::PaymentSourceDoesNotExistError,
        ErrorCode::PaymentOperationNotSupportedError,
        ErrorCode::PaymentExtraFundsError,
        ErrorCode::TransactionNotAllowedError,
    ];
    for (i, a) in codes.iter().enumerate() {
        for b in codes.iter().skip(i + 1) {
            assert_ne!(a.value(), b.value());
        }
    }
}
