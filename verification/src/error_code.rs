//! The error taxonomy: a closed set of variants, each bound to a stable
//! numeric value inside a band reserved for one subsystem.
//!
//! Bands (a wire-compatibility contract, never reassigned):
//! common 100-129 (with 27 positional invalid-parameter variants),
//! wallet 200-214, pool/ledger 300-309, credential issuance 400-407,
//! crypto 500, DID 600, payment 700-706; success is 0.

use vstd::prelude::*;

verus! {

/// Every outcome that can cross the boundary, reduced to one tag.
#[derive(Debug, PartialEq, Eq, Copy, Clone, Structural)]
pub enum ErrorCode {
    Success,
    CommonInvalidParam1,
    CommonInvalidParam2,
    CommonInvalidParam3,
    CommonInvalidParam4,
    CommonInvalidParam5,
    CommonInvalidParam6,
    CommonInvalidParam7,
    CommonInvalidParam8,
    CommonInvalidParam9,
    CommonInvalidParam10,
    CommonInvalidParam11,
    CommonInvalidParam12,
    CommonInvalidState,
    CommonInvalidStructure,
    CommonIOError,
    CommonInvalidParam13,
    CommonInvalidParam14,
    CommonInvalidParam15,
    CommonInvalidParam16,
    CommonInvalidParam17,
    CommonInvalidParam18,
    CommonInvalidParam19,
    CommonInvalidParam20,
    CommonInvalidParam21,
    CommonInvalidParam22,
    CommonInvalidParam23,
    CommonInvalidParam24,
    CommonInvalidParam25,
    CommonInvalidParam26,
    CommonInvalidParam27,
    WalletInvalidHandle,
    WalletUnknownTypeError,
    WalletTypeAlreadyRegisteredError,
    WalletAlreadyExistsError,
    WalletNotFoundError,
    WalletIncompatiblePoolError,
    WalletAlreadyOpenedError,
    WalletAccessFailed,
    WalletInputError,
    WalletDecodingError,
    WalletStorageError,
    WalletEncryptionError,
    WalletItemNotFound,
    WalletItemAlreadyExists,
    WalletQueryError,
    PoolLedgerNotCreatedError,
    PoolLedgerInvalidPoolHandle,
    PoolLedgerTerminated,
    LedgerNoConsensusError,
    LedgerInvalidTransaction,
    LedgerSecurityError,
    PoolLedgerConfigAlreadyExistsError,
    PoolLedgerTimeout,
    PoolIncompatibleProtocolVersion,
    LedgerNotFound,
    AnoncredsRevocationRegistryFullError,
    AnoncredsInvalidUserRevocId,
    AnoncredsMasterSecretDuplicateNameError,
    AnoncredsProofRejected,
    AnoncredsCredentialRevoked,
    AnoncredsCredDefAlreadyExistsError,
    UnknownCryptoTypeError,
    DidAlreadyExistsError,
    PaymentUnknownMethodError,
    PaymentIncompatibleMethodsError,
    PaymentInsufficientFundsError,
    PaymentSourceDoesNotExistError,
    PaymentOperationNotSupportedError,
    PaymentExtraFundsError,
    TransactionNotAllowedError,
}

/// The numeric value bound to each variant. Once assigned, a value is never
/// given another meaning: this mapping is the wire contract.
pub open spec fn code_of(e: ErrorCode) -> int {
    match e {
        ErrorCode::Success => 0,
        ErrorCode::CommonInvalidParam1 => 100,
        ErrorCode::CommonInvalidParam2 => 101,
        ErrorCode::CommonInvalidParam3 => 102,
        ErrorCode::CommonInvalidParam4 => 103,
        ErrorCode::CommonInvalidParam5 => 104,
        ErrorCode::CommonInvalidParam6 => 105,
        ErrorCode::CommonInvalidParam7 => 106,
        ErrorCode::CommonInvalidParam8 => 107,
        ErrorCode::CommonInvalidParam9 => 108,
        ErrorCode::CommonInvalidParam10 => 109,
        ErrorCode::CommonInvalidParam11 => 110,
        ErrorCode::CommonInvalidParam12 => 111,
        ErrorCode::CommonInvalidState => 112,
        ErrorCode::CommonInvalidStructure => 113,
        ErrorCode::CommonIOError => 114,
        ErrorCode::CommonInvalidParam13 => 115,
        ErrorCode::CommonInvalidParam14 => 116,
        ErrorCode::CommonInvalidParam15 => 117,
        ErrorCode::CommonInvalidParam16 => 118,
        ErrorCode::CommonInvalidParam17 => 119,
        ErrorCode::CommonInvalidParam18 => 120,
        ErrorCode::CommonInvalidParam19 => 121,
        ErrorCode::CommonInvalidParam20 => 122,
        ErrorCode::CommonInvalidParam21 => 123,
        ErrorCode::CommonInvalidParam22 => 124,
        ErrorCode::CommonInvalidParam23 => 125,
        ErrorCode::CommonInvalidParam24 => 126,
        ErrorCode::CommonInvalidParam25 => 127,
        ErrorCode::CommonInvalidParam26 => 128,
        ErrorCode::CommonInvalidParam27 => 129,
        ErrorCode::WalletInvalidHandle => 200,
        ErrorCode::WalletUnknownTypeError => 201,
        ErrorCode::WalletTypeAlreadyRegisteredError => 202,
        ErrorCode::WalletAlreadyExistsError => 203,
        ErrorCode::WalletNotFoundError => 204,
        ErrorCode::WalletIncompatiblePoolError => 205,
        ErrorCode::WalletAlreadyOpenedError => 206,
        ErrorCode::WalletAccessFailed => 207,
        ErrorCode::WalletInputError => 208,
        ErrorCode::WalletDecodingError => 209,
        ErrorCode::WalletStorageError => 210,
        ErrorCode::WalletEncryptionError => 211,
        ErrorCode::WalletItemNotFound => 212,
        ErrorCode::WalletItemAlreadyExists => 213,
        ErrorCode::WalletQueryError => 214,
        ErrorCode::PoolLedgerNotCreatedError => 300,
        ErrorCode::PoolLedgerInvalidPoolHandle => 301,
        ErrorCode::PoolLedgerTerminated => 302,
        ErrorCode::LedgerNoConsensusError => 303,
        ErrorCode::LedgerInvalidTransaction => 304,
        ErrorCode::LedgerSecurityError => 305,
        ErrorCode::PoolLedgerConfigAlreadyExistsError => 306,
        ErrorCode::PoolLedgerTimeout => 307,
        ErrorCode::PoolIncompatibleProtocolVersion => 308,
        ErrorCode::LedgerNotFound => 309,
        ErrorCode::AnoncredsRevocationRegistryFullError => 400,
        ErrorCode::AnoncredsInvalidUserRevocId => 401,
        ErrorCode::AnoncredsMasterSecretDuplicateNameError => 404,
        ErrorCode::AnoncredsProofRejected => 405,
        ErrorCode::AnoncredsCredentialRevoked => 406,
        ErrorCode::AnoncredsCredDefAlreadyExistsError => 407,
        ErrorCode::UnknownCryptoTypeError => 500,
        ErrorCode::DidAlreadyExistsError => 600,
        ErrorCode::PaymentUnknownMethodError => 700,
        ErrorCode::PaymentIncompatibleMethodsError => 701,
        ErrorCode::PaymentInsufficientFundsError => 702,
        ErrorCode::PaymentSourceDoesNotExistError => 703,
        ErrorCode::PaymentOperationNotSupportedError => 704,
        ErrorCode::PaymentExtraFundsError => 705,
        ErrorCode::TransactionNotAllowedError => 706,
    }
}

/// The values the taxonomy has claimed so far. New subsystems claim new,
/// previously unused bands; nothing inside a claimed band is ever reused.
pub open spec fn is_assigned_code(v: int) -> bool {
    v == 0
        || (100 <= v <= 129)
        || (200 <= v <= 214)
        || (300 <= v <= 309)
        || (400 <= v <= 401)
        || (404 <= v <= 407)
        || v == 500
        || v == 600
        || (700 <= v <= 706)
}

impl ErrorCode {
    /// The numeric value this variant crosses the boundary as.
    pub fn value(&self) -> (r: i32)
        ensures
            r as int == code_of(*self),
    {
        match self {
            ErrorCode::Success => 0,
            ErrorCode::CommonInvalidParam1 => 100,
            ErrorCode::CommonInvalidParam2 => 101,
            ErrorCode::CommonInvalidParam3 => 102,
            ErrorCode::CommonInvalidParam4 => 103,
            ErrorCode::CommonInvalidParam5 => 104,
            ErrorCode::CommonInvalidParam6 => 105,
            ErrorCode::CommonInvalidParam7 => 106,
            ErrorCode::CommonInvalidParam8 => 107,
            ErrorCode::CommonInvalidParam9 => 108,
            ErrorCode::CommonInvalidParam10 => 109,
            ErrorCode::CommonInvalidParam11 => 110,
            ErrorCode::CommonInvalidParam12 => 111,
            ErrorCode::CommonInvalidState => 112,
            ErrorCode::CommonInvalidStructure => 113,
            ErrorCode::CommonIOError => 114,
            ErrorCode::CommonInvalidParam13 => 115,
            ErrorCode::CommonInvalidParam14 => 116,
            ErrorCode::CommonInvalidParam15 => 117,
            ErrorCode::CommonInvalidParam16 => 118,
            ErrorCode::CommonInvalidParam17 => 119,
            ErrorCode::CommonInvalidParam18 => 120,
            ErrorCode::CommonInvalidParam19 => 121,
            ErrorCode::CommonInvalidParam20 => 122,
            ErrorCode::CommonInvalidParam21 => 123,
            ErrorCode::CommonInvalidParam22 => 124,
            ErrorCode::CommonInvalidParam23 => 125,
            ErrorCode::CommonInvalidParam24 => 126,
            ErrorCode::CommonInvalidParam25 => 127,
            ErrorCode::CommonInvalidParam26 => 128,
            ErrorCode::CommonInvalidParam27 => 129,
            ErrorCode::WalletInvalidHandle => 200,
            ErrorCode::WalletUnknownTypeError => 201,
            ErrorCode::WalletTypeAlreadyRegisteredError => 202,
            ErrorCode::WalletAlreadyExistsError => 203,
            ErrorCode::WalletNotFoundError => 204,
            ErrorCode::WalletIncompatiblePoolError => 205,
            ErrorCode::WalletAlreadyOpenedError => 206,
            ErrorCode::WalletAccessFailed => 207,
            ErrorCode::WalletInputError => 208,
            ErrorCode::WalletDecodingError => 209,
            ErrorCode::WalletStorageError => 210,
            ErrorCode::WalletEncryptionError => 211,
            ErrorCode::WalletItemNotFound => 212,
            ErrorCode::WalletItemAlreadyExists => 213,
            ErrorCode::WalletQueryError => 214,
            ErrorCode::PoolLedgerNotCreatedError => 300,
            ErrorCode::PoolLedgerInvalidPoolHandle => 301,
            ErrorCode::PoolLedgerTerminated => 302,
            ErrorCode::LedgerNoConsensusError => 303,
            ErrorCode::LedgerInvalidTransaction => 304,
            ErrorCode::LedgerSecurityError => 305,
            ErrorCode::PoolLedgerConfigAlreadyExistsError => 306,
            ErrorCode::PoolLedgerTimeout => 307,
            ErrorCode::PoolIncompatibleProtocolVersion => 308,
            ErrorCode::LedgerNotFound => 309,
            ErrorCode::AnoncredsRevocationRegistryFullError => 400,
            ErrorCode::AnoncredsInvalidUserRevocId => 401,
            ErrorCode::AnoncredsMasterSecretDuplicateNameError => 404,
            ErrorCode::AnoncredsProofRejected => 405,
            ErrorCode::AnoncredsCredentialRevoked => 406,
            ErrorCode::AnoncredsCredDefAlreadyExistsError => 407,
            ErrorCode::UnknownCryptoTypeError => 500,
            ErrorCode::DidAlreadyExistsError => 600,
            ErrorCode::PaymentUnknownMethodError => 700,
            ErrorCode::PaymentIncompatibleMethodsError => 701,
            ErrorCode::PaymentInsufficientFundsError => 702,
            ErrorCode::PaymentSourceDoesNotExistError => 703,
            ErrorCode::PaymentOperationNotSupportedError => 704,
            ErrorCode::PaymentExtraFundsError => 705,
            ErrorCode::TransactionNotAllowedError => 706,
        }
    }
}

/// The positional invalid-parameter variant for a 1-based argument position.
/// Positions 1 through 27 are supported by the taxonomy.
pub open spec fn invalid_param_spec(position: int) -> ErrorCode {
    if position == 1 { ErrorCode::CommonInvalidParam1 }
    else if position == 2 { ErrorCode::CommonInvalidParam2 }
    else if position == 3 { ErrorCode::CommonInvalidParam3 }
    else if position == 4 { ErrorCode::CommonInvalidParam4 }
    else if position == 5 { ErrorCode::CommonInvalidParam5 }
    else if position == 6 { ErrorCode::CommonInvalidParam6 }
    else if position == 7 { ErrorCode::CommonInvalidParam7 }
    else if position == 8 { ErrorCode::CommonInvalidParam8 }
    else if position == 9 { ErrorCode::CommonInvalidParam9 }
    else if position == 10 { ErrorCode::CommonInvalidParam10 }
    else if position == 11 { ErrorCode::CommonInvalidParam11 }
    else if position == 12 { ErrorCode::CommonInvalidParam12 }
    else if position == 13 { ErrorCode::CommonInvalidParam13 }
    else if position == 14 { ErrorCode::CommonInvalidParam14 }
    else if position == 15 { ErrorCode::CommonInvalidParam15 }
    else if position == 16 { ErrorCode::CommonInvalidParam16 }
    else if position == 17 { ErrorCode::CommonInvalidParam17 }
    else if position == 18 { ErrorCode::CommonInvalidParam18 }
    else if position == 19 { ErrorCode::CommonInvalidParam19 }
    else if position == 20 { ErrorCode::CommonInvalidParam20 }
    else if position == 21 { ErrorCode::CommonInvalidParam21 }
    else if position == 22 { ErrorCode::CommonInvalidParam22 }
    else if position == 23 { ErrorCode::CommonInvalidParam23 }
    else if position == 24 { ErrorCode::CommonInvalidParam24 }
    else if position == 25 { ErrorCode::CommonInvalidParam25 }
    else if position == 26 { ErrorCode::CommonInvalidParam26 }
    else { ErrorCode::CommonInvalidParam27 }
}

/// The positional invalid-parameter code for argument `position` (1-based).
pub fn invalid_param_code(position: u8) -> (r: ErrorCode)
    requires
        1 <= position <= 27,
    ensures
        r == invalid_param_spec(position as int),
{
    match position {
        1 => ErrorCode::CommonInvalidParam1,
        2 => ErrorCode::CommonInvalidParam2,
        3 => ErrorCode::CommonInvalidParam3,
        4 => ErrorCode::CommonInvalidParam4,
        5 => ErrorCode::CommonInvalidParam5,
        6 => ErrorCode::CommonInvalidParam6,
        7 => ErrorCode::CommonInvalidParam7,
        8 => ErrorCode::CommonInvalidParam8,
        9 => ErrorCode::CommonInvalidParam9,
        10 => ErrorCode::CommonInvalidParam10,
        11 => ErrorCode::CommonInvalidParam11,
        12 => ErrorCode::CommonInvalidParam12,
        13 => ErrorCode::CommonInvalidParam13,
        14 => ErrorCode::CommonInvalidParam14,
        15 => ErrorCode::CommonInvalidParam15,
        16 => ErrorCode::CommonInvalidParam16,
        17 => ErrorCode::CommonInvalidParam17,
        18 => ErrorCode::CommonInvalidParam18,
        19 => ErrorCode::CommonInvalidParam19,
        20 => ErrorCode::CommonInvalidParam20,
        21 => ErrorCode::CommonInvalidParam21,
        22 => ErrorCode::CommonInvalidParam22,
        23 => ErrorCode::CommonInvalidParam23,
        24 => ErrorCode::CommonInvalidParam24,
        25 => ErrorCode::CommonInvalidParam25,
        26 => ErrorCode::CommonInvalidParam26,
        _ => ErrorCode::CommonInvalidParam27,
    }
}

/// Positional argument validation: `Ok` when the argument at `position`
/// satisfied its shape check, otherwise the matching positional code.
pub fn validate(position: u8, ok: bool) -> (r: Result<(), ErrorCode>)
    requires
        1 <= position <= 27,
    ensures
        ok ==> r is Ok,
        !ok ==> r == Result::<(), ErrorCode>::Err(invalid_param_spec(position as int)),
{
    if ok {
        Ok(())
    } else {
        Err(invalid_param_code(position))
    }
}

/// Every variant's value lies inside a claimed band, and the invalid-parameter
/// family sits where the common band reserves it.
pub proof fn lemma_codes_in_bands()
    ensures
        forall|e: ErrorCode| is_assigned_code(#[trigger] code_of(e)),
        forall|p: int|
            1 <= p <= 27 ==> code_of(#[trigger] invalid_param_spec(p)) == if p <= 12 {
                99 + p
            } else {
                102 + p
            },
{
}

/// No two variants share a numeric value: the mapping to the wire is
/// injective, so a value, once assigned, keeps a single meaning.
pub proof fn lemma_codes_injective()
    ensures
        forall|a: ErrorCode, b: ErrorCode| code_of(a) == code_of(b) ==> a == b,
{
}

} // verus!
