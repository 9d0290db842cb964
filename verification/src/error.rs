use vstd::prelude::*;

verus! {

/// Every way in which an action of the platform can fail.
#[derive(Clone, Debug, PartialEq, Eq)]
pub enum ContractError {
    /// A failure reported by the host library, with its message.
    StdError(String),
    /// A failure of payment handling, with its message.
    Payment(String),
    Unauthorized {},
    SurveyNotFound {},
    SurveyAlreadyExists {},
    SurveyAlreadyCancelled {},
    InvalidManager {},
    OnlyCreatorOrManager {},
    AllParticipantsRewarded {},
    ArrayLengthMismatch {},
    UserAlreadyRewarded {},
    InvalidMessageHash {},
    TokenAlreadyUsed {},
    ProofExpired {},
    InsufficientContractBalance {},
    SurveyCreationFailed {},
    RewardPaymentFailed {},
    SurveyCancellationFailed {},
    InvalidSigner {},
    InvalidRewardAmount {},
    InvalidTransactionValue {},
    ArithmeticError {},
    InvalidAddress {},
    CustomError { val: String },
    SemVer(String),
    /// The signature verifier itself failed, as opposed to answering "no".
    SignatureVerificationFailed(String),
    InvalidAccount { receiver: String },
    ExpectedAgoricAccount { receiver: String },
    SequenceNotFound {},
    ChannelIdNotFound {},
    PayloadDeserializationFailed { error: String },
    AcknowledgementAlreadyProcessed {},
    UnknownReplyId { id: u64 },
    ReplyError { error: String },
    NoDataInReply {},
    NothingToRefund {},
    ResponseParseFailed { error: String },
}

} // verus!
