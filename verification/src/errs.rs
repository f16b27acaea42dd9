//! The error taxonomy, and the mapping from engine errors to the outcomes a
//! conformance driver reports.
//!
//! Every error is fatal to its connection.  The taxonomy separates decode
//! failures, messages that are valid but arrive in the wrong state, AEAD
//! failures (which carry no detail, to avoid an oracle), peer misbehaviour,
//! parameter mismatch, certificate problems, and alerts from the peer; a
//! graceful close is distinguishable from a protocol violation.

use vstd::prelude::*;

use crate::resolver::ResolveError;

verus! {

pub const ALERT_CLOSE_NOTIFY: u8 = 0;
pub const ALERT_UNEXPECTED_MESSAGE: u8 = 10;
pub const ALERT_RECORD_OVERFLOW: u8 = 22;
pub const ALERT_DECOMPRESSION_FAILURE: u8 = 30;
pub const ALERT_HANDSHAKE_FAILURE: u8 = 40;
pub const ALERT_BAD_CERTIFICATE: u8 = 42;
pub const ALERT_DECRYPT_ERROR: u8 = 51;
pub const ALERT_PROTOCOL_VERSION: u8 = 70;
pub const ALERT_INTERNAL_ERROR: u8 = 80;

/// A structurally invalid wire element.
#[derive(Clone, Copy, Debug, PartialEq, Eq, Structural)]
pub enum InvalidMessage {
    MissingData,
    TrailingData,
    InvalidCcs,
    InvalidContentType,
    InvalidEmptyPayload,
    InvalidKeyUpdate,
    UnknownProtocolVersion,
    MessageTooLarge,
    MessageTooShort,
    DuplicateExtension,
    UnexpectedMessage,
    NoSignatureSchemes,
    IllegalEmptyList,
    IllegalEmptyValue,
    UnsupportedCompression,
    InvalidCertRequest,
}

/// Something the protocol forbids, though each message parsed.
#[derive(Clone, Copy, Debug, PartialEq, Eq, Structural)]
pub enum PeerMisbehaved {
    TooMuchEarlyDataReceived,
    TooManyKeyUpdateRequests,
    TooManyEmptyFragments,
    TooManyWarningAlertsReceived,
    KeyEpochWithPendingFragment,
    SelectedUnofferedCipherSuite,
    SelectedUnofferedKxGroup,
    SelectedUnofferedCertCompression,
    InvalidCertCompression,
    OfferedDuplicateCertificateCompressions,
    MissingPskModesExtension,
    SignedHandshakeWithUnadvertisedSigScheme,
    InvalidKeyShare,
    MessageInterleavedWithHandshakeMessage,
    ServerEchoedCompatibilitySessionId,
    UnsolicitedEncryptedExtension,
    UnsolicitedEchExtension,
    IllegalHelloRetryRequestWithInvalidEch,
    DuplicateClientHelloExtensions,
    DuplicateServerHelloExtensions,
    IncorrectFinished,
    EarlyDataOfferedWithoutResumption,
}

/// No mutually acceptable parameter set exists.
#[derive(Clone, Copy, Debug, PartialEq, Eq, Structural)]
pub enum PeerIncompatible {
    NoSupportedVersions,
    NoCipherSuitesInCommon,
    NoKxGroupsInCommon,
    NoSignatureSchemesInCommon,
    ExtendedMasterSecretRequired,
    ServerSentHelloRetryRequestWithUnknownExtension,
}

/// Why a peer certificate was unacceptable.
#[derive(Clone, Copy, Debug, PartialEq, Eq, Structural)]
pub enum CertificateError {
    BadEncoding,
    BadSignature,
    UnsupportedSignatureAlgorithm,
    InvalidOcspResponse,
    Expired,
    UnknownIssuer,
}

/// A fatal connection error.
#[derive(Debug)]
pub enum Error {
    /// A non-handshake message arrived in a state that does not accept it.
    InappropriateMessage { got_type: u8 },
    /// A handshake message arrived outside the current state's accept set.
    InappropriateHandshakeMessage { got_type: u8 },
    /// A wire structure could not be decoded.
    InvalidMessage(InvalidMessage),
    /// Record protection failed to open a record; no detail is given.
    DecryptError,
    /// The peer broke a protocol rule.
    PeerMisbehaved(PeerMisbehaved),
    /// No common parameters.
    PeerIncompatible(PeerIncompatible),
    /// The peer's certificate chain was unacceptable.
    InvalidCertificate(CertificateError),
    /// The peer sent a fatal alert.
    AlertReceived(u8),
    /// No application protocol in common.
    NoApplicationProtocol,
    /// The peer presented no certificate where one was required.
    NoCertificatesPresented,
    /// A record exceeded the permitted size.
    PeerSentOversizedRecord,
    /// The server rejected the encrypted hello, possibly supplying retry
    /// configurations for the caller to act on.
    RejectedEch { retry_configs: Option<Vec<u8>> },
    /// No client credential satisfied the server's request.
    CredentialResolution(ResolveError),
}

/// The message a conformance driver prints for one outcome.
#[derive(Clone, Copy, Debug, PartialEq, Eq, Structural)]
pub enum ShimMsg {
    UnexpectedMessage,
    RecordOverflowAlert,
    HandshakeFailure,
    WrongVersion,
    PeerAlertInternalError,
    BadAlert,
    BadChangeCipherSpec,
    DecodeError,
    IllegalEmptyValue,
    BadHandshakeMsg,
    Garbage,
    ErrorParsingExtension,
    DuplicateExtension,
    UnexpectedExtension,
    PreSharedKeyMustBeLast,
    InconsistentEchNegotiation,
    DecryptionFailed,
    NoApplicationProtocol,
    EchRejected,
    Incompatible,
    MissingExtension,
    TooMuchReadEarlyData,
    WrongSignatureType,
    UnknownCertCompressionAlg,
    CertDecompressionFailed,
    WrongCipherReturned,
    TooManyWarningAlerts,
    TooManyKeyUpdates,
    ServerEchoedInvalidSessionId,
    TooManyEmptyFragments,
    WrongCurve,
    BadEcpoint,
    ExcessHandshakeData,
    PeerMisbehaviour,
    NoCerts,
    DecompressionFailureAlert,
    CannotParseLeafCert,
    BadSignature,
    OcspCbError,
    BadCert,
    DataLengthTooLong,
    NoMatchingIssuer,
    NoCommonSignatureAlgorithms,
    Unhandled,
}

/// What the driver should do for an error: print the message, then exit with
/// the given status (zero marks a recognised failure).
#[derive(Clone, Copy, Debug, PartialEq, Eq, Structural)]
pub struct ShimOutcome {
    pub msg: ShimMsg,
    pub exit_code: u8,
}

/// The outcome the driver owes for each engine error.  `ech_active` reports
/// whether an encrypted or greased hello was configured, which refines a few
/// classifications.
pub open spec fn spec_shim_outcome(ech_active: bool, ech_offered: bool, err: Error) -> ShimOutcome {
    let q = |m: ShimMsg| ShimOutcome { msg: m, exit_code: 0 };
    match err {
        Error::InappropriateMessage { .. } => q(ShimMsg::UnexpectedMessage),
        Error::InappropriateHandshakeMessage { .. } => q(ShimMsg::UnexpectedMessage),
        Error::AlertReceived(a) => if a == ALERT_RECORD_OVERFLOW {
            q(ShimMsg::RecordOverflowAlert)
        } else if a == ALERT_HANDSHAKE_FAILURE {
            q(ShimMsg::HandshakeFailure)
        } else if a == ALERT_PROTOCOL_VERSION {
            q(ShimMsg::WrongVersion)
        } else if a == ALERT_INTERNAL_ERROR {
            q(ShimMsg::PeerAlertInternalError)
        } else if a == ALERT_UNEXPECTED_MESSAGE {
            q(ShimMsg::BadAlert)
        } else if a == ALERT_DECOMPRESSION_FAILURE {
            ShimOutcome { msg: ShimMsg::DecompressionFailureAlert, exit_code: 1 }
        } else {
            q(ShimMsg::Unhandled)
        },
        Error::InvalidMessage(im) => match im {
            InvalidMessage::InvalidCcs => q(ShimMsg::BadChangeCipherSpec),
            InvalidMessage::IllegalEmptyList => q(ShimMsg::DecodeError),
            InvalidMessage::IllegalEmptyValue => q(ShimMsg::IllegalEmptyValue),
            InvalidMessage::InvalidKeyUpdate => q(ShimMsg::BadHandshakeMsg),
            InvalidMessage::MissingData => q(ShimMsg::BadHandshakeMsg),
            InvalidMessage::TrailingData => q(ShimMsg::BadHandshakeMsg),
            InvalidMessage::NoSignatureSchemes => q(ShimMsg::BadHandshakeMsg),
            InvalidMessage::UnsupportedCompression => q(ShimMsg::BadHandshakeMsg),
            InvalidMessage::InvalidCertRequest => q(ShimMsg::BadHandshakeMsg),
            InvalidMessage::InvalidContentType => q(ShimMsg::Garbage),
            InvalidMessage::InvalidEmptyPayload => q(ShimMsg::Garbage),
            InvalidMessage::UnknownProtocolVersion => q(ShimMsg::Garbage),
            InvalidMessage::MessageTooLarge => q(ShimMsg::Garbage),
            InvalidMessage::MessageTooShort => if ech_active {
                q(ShimMsg::ErrorParsingExtension)
            } else {
                q(ShimMsg::Garbage)
            },
            InvalidMessage::DuplicateExtension => q(ShimMsg::DuplicateExtension),
            InvalidMessage::UnexpectedMessage => q(ShimMsg::Garbage),
        },
        Error::DecryptError => if ech_offered {
            q(ShimMsg::InconsistentEchNegotiation)
        } else {
            q(ShimMsg::DecryptionFailed)
        },
        Error::NoApplicationProtocol => q(ShimMsg::NoApplicationProtocol),
        Error::RejectedEch { .. } => q(ShimMsg::EchRejected),
        Error::PeerIncompatible(pi) => match pi {
            PeerIncompatible::ServerSentHelloRetryRequestWithUnknownExtension => q(
                ShimMsg::UnexpectedExtension,
            ),
            _ => q(ShimMsg::Incompatible),
        },
        Error::PeerMisbehaved(pm) => match pm {
            PeerMisbehaved::MissingPskModesExtension => q(ShimMsg::MissingExtension),
            PeerMisbehaved::TooMuchEarlyDataReceived => q(ShimMsg::TooMuchReadEarlyData),
            PeerMisbehaved::SignedHandshakeWithUnadvertisedSigScheme => q(
                ShimMsg::WrongSignatureType,
            ),
            PeerMisbehaved::SelectedUnofferedCertCompression => q(
                ShimMsg::UnknownCertCompressionAlg,
            ),
            PeerMisbehaved::InvalidCertCompression => q(ShimMsg::CertDecompressionFailed),
            PeerMisbehaved::OfferedDuplicateCertificateCompressions => q(
                ShimMsg::ErrorParsingExtension,
            ),
            PeerMisbehaved::SelectedUnofferedCipherSuite => q(ShimMsg::WrongCipherReturned),
            PeerMisbehaved::TooManyWarningAlertsReceived => q(ShimMsg::TooManyWarningAlerts),
            PeerMisbehaved::TooManyKeyUpdateRequests => q(ShimMsg::TooManyKeyUpdates),
            PeerMisbehaved::ServerEchoedCompatibilitySessionId => q(
                ShimMsg::ServerEchoedInvalidSessionId,
            ),
            PeerMisbehaved::TooManyEmptyFragments => q(ShimMsg::TooManyEmptyFragments),
            PeerMisbehaved::IllegalHelloRetryRequestWithInvalidEch => q(
                ShimMsg::UnexpectedExtension,
            ),
            PeerMisbehaved::UnsolicitedEchExtension => q(ShimMsg::UnexpectedExtension),
            PeerMisbehaved::UnsolicitedEncryptedExtension => if ech_offered {
                q(ShimMsg::UnexpectedExtension)
            } else {
                q(ShimMsg::PeerMisbehaviour)
            },
            PeerMisbehaved::SelectedUnofferedKxGroup => q(ShimMsg::WrongCurve),
            PeerMisbehaved::InvalidKeyShare => q(ShimMsg::BadEcpoint),
            PeerMisbehaved::MessageInterleavedWithHandshakeMessage => q(
                ShimMsg::UnexpectedMessage,
            ),
            PeerMisbehaved::KeyEpochWithPendingFragment => q(ShimMsg::ExcessHandshakeData),
            _ => q(ShimMsg::PeerMisbehaviour),
        },
        Error::NoCertificatesPresented => q(ShimMsg::NoCerts),
        Error::InvalidCertificate(ce) => match ce {
            CertificateError::BadEncoding => q(ShimMsg::CannotParseLeafCert),
            CertificateError::BadSignature => q(ShimMsg::BadSignature),
            CertificateError::UnsupportedSignatureAlgorithm => q(ShimMsg::WrongSignatureType),
            CertificateError::InvalidOcspResponse => q(ShimMsg::OcspCbError),
            _ => q(ShimMsg::BadCert),
        },
        Error::PeerSentOversizedRecord => q(ShimMsg::DataLengthTooLong),
        Error::CredentialResolution(re) => match re {
            ResolveError::NoMatchingIssuer => q(ShimMsg::NoMatchingIssuer),
            ResolveError::NoCommonSignatureAlgorithms => q(ShimMsg::NoCommonSignatureAlgorithms),
        },
    }
}

/// Classifies an engine error for the conformance driver.
pub fn shim_outcome(ech_active: bool, ech_offered: bool, err: &Error) -> (r: ShimOutcome)
    ensures
        r == spec_shim_outcome(ech_active, ech_offered, *err),
{
    match err {
        Error::InappropriateMessage { .. } => ShimOutcome {
            msg: ShimMsg::UnexpectedMessage,
            exit_code: 0,
        },
        Error::InappropriateHandshakeMessage { .. } => ShimOutcome {
            msg: ShimMsg::UnexpectedMessage,
            exit_code: 0,
        },
        Error::AlertReceived(a) => {
            let m = if *a == ALERT_RECORD_OVERFLOW {
                ShimMsg::RecordOverflowAlert
            } else if *a == ALERT_HANDSHAKE_FAILURE {
                ShimMsg::HandshakeFailure
            } else if *a == ALERT_PROTOCOL_VERSION {
                ShimMsg::WrongVersion
            } else if *a == ALERT_INTERNAL_ERROR {
                ShimMsg::PeerAlertInternalError
            } else if *a == ALERT_UNEXPECTED_MESSAGE {
                ShimMsg::BadAlert
            } else if *a == ALERT_DECOMPRESSION_FAILURE {
                ShimMsg::DecompressionFailureAlert
            } else {
                ShimMsg::Unhandled
            };
            let code: u8 = if *a == ALERT_DECOMPRESSION_FAILURE {
                1
            } else {
                0
            };
            ShimOutcome { msg: m, exit_code: code }
        },
        Error::InvalidMessage(im) => {
            let m = match im {
                InvalidMessage::InvalidCcs => ShimMsg::BadChangeCipherSpec,
                InvalidMessage::IllegalEmptyList => ShimMsg::DecodeError,
                InvalidMessage::IllegalEmptyValue => ShimMsg::IllegalEmptyValue,
                InvalidMessage::InvalidKeyUpdate => ShimMsg::BadHandshakeMsg,
                InvalidMessage::MissingData => ShimMsg::BadHandshakeMsg,
                InvalidMessage::TrailingData => ShimMsg::BadHandshakeMsg,
                InvalidMessage::NoSignatureSchemes => ShimMsg::BadHandshakeMsg,
                InvalidMessage::UnsupportedCompression => ShimMsg::BadHandshakeMsg,
                InvalidMessage::InvalidCertRequest => ShimMsg::BadHandshakeMsg,
                InvalidMessage::InvalidContentType => ShimMsg::Garbage,
                InvalidMessage::InvalidEmptyPayload => ShimMsg::Garbage,
                InvalidMessage::UnknownProtocolVersion => ShimMsg::Garbage,
                InvalidMessage::MessageTooLarge => ShimMsg::Garbage,
                InvalidMessage::MessageTooShort => if ech_active {
                    ShimMsg::ErrorParsingExtension
                } else {
                    ShimMsg::Garbage
                },
                InvalidMessage::DuplicateExtension => ShimMsg::DuplicateExtension,
                InvalidMessage::UnexpectedMessage => ShimMsg::Garbage,
            };
            ShimOutcome { msg: m, exit_code: 0 }
        },
        Error::DecryptError => {
            let m = if ech_offered {
                ShimMsg::InconsistentEchNegotiation
            } else {
                ShimMsg::DecryptionFailed
            };
            ShimOutcome { msg: m, exit_code: 0 }
        },
        Error::NoApplicationProtocol => ShimOutcome {
            msg: ShimMsg::NoApplicationProtocol,
            exit_code: 0,
        },
        Error::RejectedEch { .. } => ShimOutcome { msg: ShimMsg::EchRejected, exit_code: 0 },
        Error::PeerIncompatible(pi) => {
            let m = match pi {
                PeerIncompatible::ServerSentHelloRetryRequestWithUnknownExtension => ShimMsg::UnexpectedExtension,
                _ => ShimMsg::Incompatible,
            };
            ShimOutcome { msg: m, exit_code: 0 }
        },
        Error::PeerMisbehaved(pm) => {
            let m = match pm {
                PeerMisbehaved::MissingPskModesExtension => ShimMsg::MissingExtension,
                PeerMisbehaved::TooMuchEarlyDataReceived => ShimMsg::TooMuchReadEarlyData,
                PeerMisbehaved::SignedHandshakeWithUnadvertisedSigScheme => ShimMsg::WrongSignatureType,
                PeerMisbehaved::SelectedUnofferedCertCompression => ShimMsg::UnknownCertCompressionAlg,
                PeerMisbehaved::InvalidCertCompression => ShimMsg::CertDecompressionFailed,
                PeerMisbehaved::OfferedDuplicateCertificateCompressions => ShimMsg::ErrorParsingExtension,
                PeerMisbehaved::SelectedUnofferedCipherSuite => ShimMsg::WrongCipherReturned,
                PeerMisbehaved::TooManyWarningAlertsReceived => ShimMsg::TooManyWarningAlerts,
                PeerMisbehaved::TooManyKeyUpdateRequests => ShimMsg::TooManyKeyUpdates,
                PeerMisbehaved::ServerEchoedCompatibilitySessionId => ShimMsg::ServerEchoedInvalidSessionId,
                PeerMisbehaved::TooManyEmptyFragments => ShimMsg::TooManyEmptyFragments,
                PeerMisbehaved::IllegalHelloRetryRequestWithInvalidEch => ShimMsg::UnexpectedExtension,
                PeerMisbehaved::UnsolicitedEchExtension => ShimMsg::UnexpectedExtension,
                PeerMisbehaved::UnsolicitedEncryptedExtension => if ech_offered {
                    ShimMsg::UnexpectedExtension
                } else {
                    ShimMsg::PeerMisbehaviour
                },
                PeerMisbehaved::SelectedUnofferedKxGroup => ShimMsg::WrongCurve,
                PeerMisbehaved::InvalidKeyShare => ShimMsg::BadEcpoint,
                PeerMisbehaved::MessageInterleavedWithHandshakeMessage => ShimMsg::UnexpectedMessage,
                PeerMisbehaved::KeyEpochWithPendingFragment => ShimMsg::ExcessHandshakeData,
                _ => ShimMsg::PeerMisbehaviour,
            };
            ShimOutcome { msg: m, exit_code: 0 }
        },
        Error::NoCertificatesPresented => ShimOutcome { msg: ShimMsg::NoCerts, exit_code: 0 },
        Error::InvalidCertificate(ce) => {
            let m = match ce {
                CertificateError::BadEncoding => ShimMsg::CannotParseLeafCert,
                CertificateError::BadSignature => ShimMsg::BadSignature,
                CertificateError::UnsupportedSignatureAlgorithm => ShimMsg::WrongSignatureType,
                CertificateError::InvalidOcspResponse => ShimMsg::OcspCbError,
                _ => ShimMsg::BadCert,
            };
            ShimOutcome { msg: m, exit_code: 0 }
        },
        Error::PeerSentOversizedRecord => ShimOutcome {
            msg: ShimMsg::DataLengthTooLong,
            exit_code: 0,
        },
        Error::CredentialResolution(re) => {
            let m = match re {
                ResolveError::NoMatchingIssuer => ShimMsg::NoMatchingIssuer,
                ResolveError::NoCommonSignatureAlgorithms => ShimMsg::NoCommonSignatureAlgorithms,
            };
            ShimOutcome { msg: m, exit_code: 0 }
        },
    }
}

/// Whether an error is the peer's orderly shutdown rather than a violation:
/// callers of a long-running service may log the two differently.
pub open spec fn spec_is_graceful_close(err: Error) -> bool {
    err matches Error::AlertReceived(a) && a == ALERT_CLOSE_NOTIFY
}

pub fn is_graceful_close(err: &Error) -> (r: bool)
    ensures
        r == spec_is_graceful_close(*err),
{
    match err {
        Error::AlertReceived(a) => *a == ALERT_CLOSE_NOTIFY,
        _ => false,
    }
}

} // verus!
