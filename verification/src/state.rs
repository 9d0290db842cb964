use vstd::prelude::*;
use crate::error::ContractError;
use crate::msg::{SudoPayload, Type1, Type2};
use crate::table::Table;

verus! {

/// A registered signer: its address, its raw public key and whether it is active.
#[derive(Clone, Debug, PartialEq, Eq)]
pub struct ManagerInfo {
    pub address: String,
    pub pub_key: Vec<u8>,
    pub status: bool,
}

/// The singleton configuration, fixed at creation.
#[derive(Clone, Debug, PartialEq, Eq)]
pub struct Config {
    pub owner: String,
    pub receiver_prefix: String,
    pub channel_id: String,
}

/// First correlation id that is handed out.
pub const IBC_SUDO_ID_RANGE_START: u64 = 1_000_000_000;

/// How far the correlation ids rise above the first before they start again.
pub const IBC_SUDO_ID_RANGE_SIZE: u64 = 1_000;

/// Last correlation id that is handed out.
pub const IBC_SUDO_ID_RANGE_END: u64 = IBC_SUDO_ID_RANGE_START + IBC_SUDO_ID_RANGE_SIZE;

/// A reward campaign: a fixed reward for each of a limited number of participants.
#[derive(Clone, Debug, PartialEq, Eq)]
pub struct SurveyInfo {
    pub survey_creator: String,
    pub participants_limit: u32,
    pub reward_amount: u128,
    pub participants_rewarded: u32,
    pub survey_hash: String,
    pub is_cancelled: bool,
    pub reward_denom: String,
}

/// What a proof for the creation of a survey binds.
#[derive(Clone, Debug, PartialEq)]
pub struct CreateSurveyPayload<'a> {
    pub token: &'a str,
    pub time_to_expire: u64,
    pub owner: &'a str,
    pub survey_id: &'a str,
    pub participants_limit: u32,
    pub reward_amount: u128,
    pub survey_hash: &'a str,
    pub reward_denom: &'a str,
    pub domain: &'a str,
}

/// What a proof for the cancellation of a survey binds.
#[derive(Clone, Debug, PartialEq)]
pub struct CancelSurveyPayload<'a> {
    pub token: &'a str,
    pub time_to_expire: u64,
    pub survey_id: &'a str,
    pub domain: &'a str,
}

/// What a proof for a payment of rewards binds.
#[derive(Clone, Debug, PartialEq)]
pub struct PayRewardsPayload<'a> {
    pub token: &'a str,
    pub time_to_expire: u64,
    pub survey_id: Vec<String>,
    pub participants: Vec<String>,
    pub domain: &'a str,
}

/// The settlement payloads that wait for a callback: first under the
/// correlation id of their dispatch, later under the channel and sequence
/// that the reply made known.
pub struct PendingStore {
    /// The counter of correlation ids; `None` before the first allocation.
    pub reply_id: Option<u64>,
    pub reply_queue: Table<u64, SudoPayload>,
    pub sudo_payloads: Table<(String, u64), SudoPayload>,
}

/// The id that the next allocation hands out when the counter holds `counter`.
pub open spec fn current_id(counter: Option<u64>) -> u64 {
    let id = match counter {
        Some(c) => c,
        None => IBC_SUDO_ID_RANGE_START,
    };
    if id > IBC_SUDO_ID_RANGE_END {
        IBC_SUDO_ID_RANGE_START
    } else {
        id
    }
}

/// The id of the allocation that comes after `k` others, from a counter that holds `counter`.
pub open spec fn nth_id(counter: Option<u64>, k: nat) -> u64
    decreases k,
{
    if k == 0 {
        current_id(counter)
    } else {
        nth_id(Some((current_id(counter) + 1) as u64), (k - 1) as nat)
    }
}

/// Consecutive allocations count upwards from the counter's value and start
/// again at the first id once the last one has been handed out: the id after
/// `k` allocations lies `k` steps further round the cycle of ids.
pub proof fn lemma_allocation_cycle(c: u64, k: nat)
    requires
        IBC_SUDO_ID_RANGE_START <= c <= IBC_SUDO_ID_RANGE_END + 1,
    ensures
        nth_id(Some(c), k) == IBC_SUDO_ID_RANGE_START + (c - IBC_SUDO_ID_RANGE_START + k) % (
        IBC_SUDO_ID_RANGE_SIZE + 1),
    decreases k,
{
    if k > 0 {
        let next = (current_id(Some(c)) + 1) as u64;
        lemma_allocation_cycle(next, (k - 1) as nat);
    }
}

/// A copy of a settlement payload.
pub fn copy_payload(payload: &SudoPayload) -> (r: SudoPayload)
    ensures
        r == *payload,
{
    match payload {
        SudoPayload::HandlerPayload1(t) => SudoPayload::HandlerPayload1(
            Type1 { message: t.message.clone() },
        ),
        SudoPayload::HandlerPayload2(t) => SudoPayload::HandlerPayload2(
            Type2 { data: t.data.clone() },
        ),
    }
}

impl PendingStore {
    /// The store before anything was dispatched.
    pub fn new() -> (s: Self)
        ensures
            s.reply_id is None,
            s.reply_queue@ == Map::<u64, SudoPayload>::empty(),
            s.sudo_payloads@ == Map::<(Seq<char>, u64), SudoPayload>::empty(),
    {
        PendingStore { reply_id: None, reply_queue: Table::new(), sudo_payloads: Table::new() }
    }
}

/// Records `payload` under the channel and sequence of its packet.
pub fn save_sudo_payload(
    store: &mut PendingStore,
    channel_id: String,
    seq_id: u64,
    payload: SudoPayload,
)
    ensures
        final(store).sudo_payloads@ == old(store).sudo_payloads@.insert(
            (channel_id@, seq_id),
            payload,
        ),
        final(store).reply_queue == old(store).reply_queue,
        final(store).reply_id == old(store).reply_id,
{
    store.sudo_payloads.set((channel_id, seq_id), payload);
}

/// The payload recorded under a channel and sequence; a host-level error if there is none.
pub fn read_sudo_payload(store: &PendingStore, channel_id: String, seq_id: u64) -> (r: Result<
    SudoPayload,
    ContractError,
>)
    ensures
        store.sudo_payloads@.contains_key((channel_id@, seq_id)) ==> r == Ok::<
            SudoPayload,
            ContractError,
        >(store.sudo_payloads@[(channel_id@, seq_id)]),
        !store.sudo_payloads@.contains_key((channel_id@, seq_id)) ==> (r matches Err(
            ContractError::StdError(m),
        ) && m@ == "sudo payload not found"@),
{
    let key = (channel_id, seq_id);
    match store.sudo_payloads.get(&key) {
        Some(p) => Ok(copy_payload(p)),
        None => Err(ContractError::StdError("sudo payload not found".to_owned())),
    }
}

/// Hands out the next correlation id and moves the counter past it.
pub fn get_next_id(store: &mut PendingStore) -> (id: u64)
    ensures
        id == current_id(old(store).reply_id),
        id <= IBC_SUDO_ID_RANGE_END,
        final(store).reply_id == Some((id + 1) as u64),
        final(store).reply_queue == old(store).reply_queue,
        final(store).sudo_payloads == old(store).sudo_payloads,
{
    let mut id: u64 = match store.reply_id {
        Some(c) => c,
        None => IBC_SUDO_ID_RANGE_START,
    };
    if id > IBC_SUDO_ID_RANGE_END {
        id = IBC_SUDO_ID_RANGE_START;
    }
    store.reply_id = Some(id + 1);
    id
}

/// Allocates a correlation id and records `payload` under it.
pub fn save_reply_payload(store: &mut PendingStore, payload: SudoPayload) -> (id: u64)
    ensures
        id == current_id(old(store).reply_id),
        final(store).reply_id == Some((id + 1) as u64),
        final(store).reply_queue@ == old(store).reply_queue@.insert(id, payload),
        final(store).sudo_payloads == old(store).sudo_payloads,
{
    let id = get_next_id(store);
    store.reply_queue.set(id, payload);
    id
}

/// The payload that waits under a correlation id.
pub fn read_reply_payload(store: &PendingStore, id: u64) -> (r: Result<SudoPayload, ContractError>)
    ensures
        store.reply_queue@.contains_key(id) ==> r == Ok::<SudoPayload, ContractError>(
            store.reply_queue@[id],
        ),
        !store.reply_queue@.contains_key(id) ==> r == Err::<SudoPayload, ContractError>(
            ContractError::UnknownReplyId { id },
        ),
{
    match store.reply_queue.get(&id) {
        Some(p) => Ok(copy_payload(p)),
        None => Err(ContractError::UnknownReplyId { id }),
    }
}

} // verus!
