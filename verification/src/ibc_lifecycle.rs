use vstd::prelude::*;
use crate::error::ContractError;
use crate::helpers::MsgTransfer;
use crate::msg::{SudoPayload, Type1, Type2};
use crate::state::{
    current_id, read_reply_payload, read_sudo_payload, save_reply_payload, save_sudo_payload,
    PendingStore,
};

verus! {

/// What `neutron_sdk`'s `decode_message_response` reads from the bytes of a
/// transfer response: the packet's sequence and channel, or `None` where the
/// bytes are no such message.
pub uninterp spec fn transfer_response(bytes: Seq<u8>) -> Option<(u64, Seq<char>)>;

/// Calls `neutron_sdk::interchain_txs::helpers::decode_message_response` for
/// a `MsgTransferResponse`. Trusted: sequence and channel are those of the
/// decoded message, and the error, with the decoder's message, comes exactly
/// when the decoder refuses the bytes.
#[verifier::external_body]
fn decode_transfer_response(bytes: &Vec<u8>) -> (r: Result<(u64, String), String>)
    ensures
        match r {
            Ok(found) => transfer_response(bytes@) == Some((found.0, found.1@)),
            Err(_) => transfer_response(bytes@) is None,
        },
{
    match neutron_sdk::interchain_txs::helpers::decode_message_response::<
        neutron_std::types::neutron::transfer::MsgTransferResponse,
    >(bytes) {
        Ok(resp) => Ok((resp.sequence_id, resp.channel)),
        Err(e) => Err(e.to_string()),
    }
}

/// A transfer to dispatch, with the correlation id under which its reply comes back.
#[derive(Clone, Debug, PartialEq, Eq)]
pub struct SubMsg {
    pub id: u64,
    pub msg: MsgTransfer,
}

/// The reply to a dispatch: its correlation id and either the encoded
/// responses of the messages that ran, or the error text.
#[derive(Debug, PartialEq, Eq)]
pub struct Reply {
    pub id: u64,
    pub result: Result<Vec<Vec<u8>>, String>,
}

/// The packet that a later callback speaks of, as far as it is identified.
#[derive(Clone, Debug, PartialEq, Eq)]
pub struct RequestPacket {
    pub sequence: Option<u64>,
    pub source_channel: Option<String>,
}

/// What the remote side reports of a packet.
#[derive(Clone, Debug, PartialEq, Eq)]
pub enum SudoResult {
    Response(Vec<u8>),
    Timeout,
    Error(String),
}

/// Where a payload went when its reply arrived.
#[derive(Clone, Debug, PartialEq, Eq)]
pub struct Promotion {
    pub sequence_id: u64,
    pub channel: String,
}

/// What a callback led to: the handler that ran, with its payload, or nothing.
#[derive(Clone, Debug, PartialEq, Eq)]
pub enum SudoAction {
    Callback1(Type1),
    Callback2(Type2),
    Nothing,
}

/// Records `payload` for the reply to `msg` and attaches the correlation id to the message.
pub fn msg_with_sudo_callback(store: &mut PendingStore, msg: MsgTransfer, payload: SudoPayload)
    -> (r: SubMsg)
    ensures
        r.id == current_id(old(store).reply_id),
        r.msg == msg,
        final(store).reply_id == Some((r.id + 1) as u64),
        final(store).reply_queue@ == old(store).reply_queue@.insert(r.id, payload),
        final(store).sudo_payloads == old(store).sudo_payloads,
{
    let id = save_reply_payload(store, payload);
    SubMsg { id, msg }
}

/// The handler for payloads of the first kind.
pub fn sudo_callback1(payload: Type1) -> (r: SudoAction)
    ensures
        r == SudoAction::Callback1(payload),
{
    SudoAction::Callback1(payload)
}

/// The handler for payloads of the second kind.
pub fn sudo_callback2(payload: Type2) -> (r: SudoAction)
    ensures
        r == SudoAction::Callback2(payload),
{
    SudoAction::Callback2(payload)
}

/// The action that a payload's kind selects.
pub open spec fn action_for(payload: SudoPayload) -> SudoAction {
    match payload {
        SudoPayload::HandlerPayload1(t) => SudoAction::Callback1(t),
        SudoPayload::HandlerPayload2(t) => SudoAction::Callback2(t),
    }
}

/// A remote error ends the transfer; nothing is done about it.
pub fn sudo_error(req: RequestPacket, data: String) -> (r: Result<SudoAction, ContractError>)
    ensures
        r == Ok::<SudoAction, ContractError>(SudoAction::Nothing),
{
    Ok(SudoAction::Nothing)
}

/// A timeout ends the transfer; nothing is done about it.
pub fn sudo_timeout(req: RequestPacket) -> (r: Result<SudoAction, ContractError>)
    ensures
        r == Ok::<SudoAction, ContractError>(SudoAction::Nothing),
{
    Ok(SudoAction::Nothing)
}

/// What a response callback for `req` answers on the pending payloads `pending`.
pub open spec fn response_verdict(
    pending: Map<(Seq<char>, u64), SudoPayload>,
    req: RequestPacket,
    r: Result<SudoAction, ContractError>,
) -> bool {
    match (req.sequence, req.source_channel) {
        (None, _) => r == Err::<SudoAction, ContractError>(ContractError::SequenceNotFound {  }),
        (Some(_), None) => r == Err::<SudoAction, ContractError>(
            ContractError::ChannelIdNotFound {  },
        ),
        (Some(seq), Some(channel)) => if pending.contains_key((channel@, seq)) {
            r == Ok::<SudoAction, ContractError>(action_for(pending[(channel@, seq)]))
        } else {
            r matches Err(ContractError::StdError(_))
        },
    }
}

/// Handles the remote side's response for a packet: finds the payload that
/// waits under the packet's channel and sequence and runs the handler of its
/// kind. The payload stays where it is.
pub fn sudo_response(store: &PendingStore, req: RequestPacket, data: Vec<u8>) -> (r: Result<
    SudoAction,
    ContractError,
>)
    ensures
        response_verdict(store.sudo_payloads@, req, r),
{
    let seq_id = match req.sequence {
        Some(s) => s,
        None => {
            return Err(ContractError::SequenceNotFound {  });
        },
    };
    let channel_id = match req.source_channel {
        Some(c) => c,
        None => {
            return Err(ContractError::ChannelIdNotFound {  });
        },
    };
    match read_sudo_payload(store, channel_id, seq_id) {
        Err(e) => Err(e),
        Ok(SudoPayload::HandlerPayload1(t1)) => Ok(sudo_callback1(t1)),
        Ok(SudoPayload::HandlerPayload2(t2)) => Ok(sudo_callback2(t2)),
    }
}

/// Handles a callback for a packet, whatever the remote side reports.
pub fn on_sudo(store: &PendingStore, req: RequestPacket, outcome: SudoResult) -> (r: Result<
    SudoAction,
    ContractError,
>)
    ensures
        match outcome {
            SudoResult::Response(_) => response_verdict(store.sudo_payloads@, req, r),
            _ => r == Ok::<SudoAction, ContractError>(SudoAction::Nothing),
        },
{
    match outcome {
        SudoResult::Response(data) => sudo_response(store, req, data),
        SudoResult::Timeout => sudo_timeout(req),
        SudoResult::Error(text) => sudo_error(req, text),
    }
}

/// Moves `payload`, which waits under the correlation id `id`, to the channel
/// and sequence that the decoded response names: it is recorded under that
/// pair and no longer waits under the id. A response that could not be
/// decoded changes nothing.
pub fn promote_payload(
    store: &mut PendingStore,
    id: u64,
    payload: SudoPayload,
    decoded: Result<(u64, String), String>,
) -> (r: Result<Promotion, ContractError>)
    ensures
        final(store).reply_id == old(store).reply_id,
        match decoded {
            Err(m) => r == Err::<Promotion, ContractError>(
                ContractError::ResponseParseFailed { error: m },
            ) && final(store).sudo_payloads == old(store).sudo_payloads && final(store).reply_queue
                == old(store).reply_queue,
            Ok(found) => r matches Ok(p) && p.sequence_id == found.0 && p.channel@ == found.1@
                && final(store).sudo_payloads@ == old(store).sudo_payloads@.insert(
                (found.1@, found.0),
                payload,
            ) && final(store).reply_queue@ == old(store).reply_queue@.remove(id),
        },
{
    match decoded {
        Err(m) => Err(ContractError::ResponseParseFailed { error: m }),
        Ok(found) => {
            let sequence_id = found.0;
            let channel = found.1;
            save_sudo_payload(store, channel.clone(), sequence_id, payload);
            store.reply_queue.remove(&id);
            Ok(Promotion { sequence_id, channel })
        },
    }
}

/// What the reply `reply` leads to: `waiting` and `waiting_after` are the
/// payloads under correlation ids before and after it, `before` and `after`
/// those under channel and sequence.
pub open spec fn reply_verdict(
    waiting: Map<u64, SudoPayload>,
    waiting_after: Map<u64, SudoPayload>,
    before: Map<(Seq<char>, u64), SudoPayload>,
    after: Map<(Seq<char>, u64), SudoPayload>,
    reply: Reply,
    r: Result<Promotion, ContractError>,
) -> bool {
    if !waiting.contains_key(reply.id) {
        r == Err::<Promotion, ContractError>(ContractError::UnknownReplyId { id: reply.id })
            && after == before && waiting_after == waiting
    } else {
        match reply.result {
            Err(text) => r == Err::<Promotion, ContractError>(
                ContractError::ReplyError { error: text },
            ) && after == before && waiting_after == waiting,
            Ok(responses) => if responses@.len() == 0 {
                r == Err::<Promotion, ContractError>(ContractError::NoDataInReply {  }) && after
                    == before && waiting_after == waiting
            } else {
                match transfer_response(responses@[0]@) {
                    None => r matches Err(ContractError::ResponseParseFailed { .. }) && after
                        == before && waiting_after == waiting,
                    Some(found) => r matches Ok(p) && p.sequence_id == found.0 && p.channel@
                        == found.1 && after == before.insert(
                        (found.1, found.0),
                        waiting[reply.id],
                    ) && waiting_after == waiting.remove(reply.id),
                }
            },
        }
    }
}

/// Handles the reply to a dispatch. On success the payload that waits under
/// the reply's correlation id is moved: it is recorded under the channel and
/// sequence that the first response names, and nothing waits under the id
/// any longer. A reply without a waiting payload, a failed dispatch, a reply
/// without responses and a response that cannot be read are errors and
/// change nothing: the payload then stays under its id.
pub fn prepare_sudo_payload(store: &mut PendingStore, reply: Reply) -> (r: Result<
    Promotion,
    ContractError,
>)
    ensures
        final(store).reply_id == old(store).reply_id,
        reply_verdict(
            old(store).reply_queue@,
            final(store).reply_queue@,
            old(store).sudo_payloads@,
            final(store).sudo_payloads@,
            reply,
            r,
        ),
{
    let payload = match read_reply_payload(store, reply.id) {
        Ok(p) => p,
        Err(e) => {
            return Err(e);
        },
    };
    let responses = match reply.result {
        Ok(list) => list,
        Err(text) => {
            return Err(ContractError::ReplyError { error: text });
        },
    };
    if responses.len() == 0 {
        return Err(ContractError::NoDataInReply {  });
    }
    let decoded = decode_transfer_response(&responses[0]);
    promote_payload(store, reply.id, payload, decoded)
}

} // verus!
