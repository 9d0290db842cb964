use vstd::prelude::*;

verus! {

/// A manager as named at instantiation: address and base64 public key.
#[derive(Clone, Debug, PartialEq, Eq)]
pub struct Manager {
    pub addr: String,
    pub pub_key: String,
}

/// Message that sets the platform up.
#[derive(Clone, Debug, PartialEq, Eq)]
pub struct InstantiateMsg {
    pub managers: Vec<Manager>,
    pub receiver_prefix: String,
    pub channel_id: String,
}

/// The privileged actions.
#[derive(Clone, Debug, PartialEq, Eq)]
pub enum ExecuteMsg {
    SetManagers { managers: String, pub_key: String, status: bool },
    CreateSurvey {
        signature: String,
        token: String,
        time_to_expire: u64,
        owner: String,
        survey_id: String,
        participants_limit: u32,
        reward_denom: String,
        reward_amount: u128,
        survey_hash: String,
        manager_pub_key: String,
    },
    CancelSurvey {
        signature: String,
        token: String,
        time_to_expire: u64,
        survey_id: String,
        manager_pub_key: String,
    },
    PayRewards {
        signature: String,
        token: String,
        time_to_expire: u64,
        survey_ids: Vec<String>,
        participants: Vec<String>,
        manager_pub_key: String,
    },
    TransferOwnership { new_owner: String },
}

/// Message for a migration; it carries nothing.
#[derive(Clone, Debug, PartialEq, Eq)]
pub struct MigrateMsg {}

/// What a query for one survey answers.
#[derive(Clone, Debug, PartialEq, Eq)]
pub struct SurveyResponse {
    pub survey_creator: String,
    pub participants_limit: u32,
    pub reward_amount: u128,
    pub participants_rewarded: u32,
    pub survey_hash: String,
    pub amount_to_fund: u128,
    pub is_cancelled: bool,
}

/// The read-only requests.
#[derive(Clone, Debug, PartialEq, Eq)]
pub enum QueryMsg {
    CreateSurveyProof {
        token: String,
        time_to_expire: u64,
        owner: String,
        survey_id: String,
        participants_limit: u32,
        reward_amount: u128,
        survey_hash: String,
        reward_denom: String,
    },
    CancelSurveyProof { token: String, time_to_expire: u64, survey_id: String },
    PayRewardsProof {
        token: String,
        time_to_expire: u64,
        survey_ids: Vec<String>,
        participants: Vec<String>,
    },
    GetSurvey { survey_id: String },
    GetSurveyAmountToFund { survey_id: String },
    GetSurveyRewardsAmountPaid { survey_id: String },
    GetConfig {},
}

/// The end of a packet's life as the remote side reports it.
#[derive(Clone, Debug, PartialEq, Eq)]
pub enum IBCLifecycleComplete {
    IBCAck { channel: String, sequence: u64, ack: String, success: bool },
    IBCTimeout { channel: String, sequence: u64 },
}

/// Message of the privileged callback entry.
#[derive(Clone, Debug, PartialEq, Eq)]
pub enum SudoMsg {
    IBCLifecycleComplete(IBCLifecycleComplete),
}

/// Payload of the first kind of settlement.
#[derive(Clone, Debug, PartialEq, Eq)]
pub struct Type1 {
    pub message: String,
}

/// Payload of the second kind of settlement.
#[derive(Clone, Debug, PartialEq, Eq)]
pub struct Type2 {
    pub data: String,
}

/// What a dispatch leaves behind for its callbacks: a closed set of kinds.
#[derive(Clone, Debug, PartialEq, Eq)]
pub enum SudoPayload {
    HandlerPayload1(Type1),
    HandlerPayload2(Type2),
}

} // verus!
