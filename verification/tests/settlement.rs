use quizzler::error::ContractError;
use quizzler::helpers::{create_ibc_transfer, MsgTransfer};
use quizzler::ibc_lifecycle::{
    msg_with_sudo_callback, on_sudo, prepare_sudo_payload, promote_payload, sudo_callback1,
    sudo_callback2, sudo_error, sudo_response, sudo_timeout, Promotion, Reply, RequestPacket,
    SudoAction, SudoResult,
};
use quizzler::msg::{SudoPayload, Type1, Type2};
use quizzler::state::{
    copy_payload, get_next_id, read_reply_payload, read_sudo_payload, save_reply_payload,
    save_sudo_payload, Config, PendingStore, IBC_SUDO_ID_RANGE_END, IBC_SUDO_ID_RANGE_SIZE,
    IBC_SUDO_ID_RANGE_START,
};
use quizzler::table::{Key, Table};
use bech32::ToBase32;

fn kind_one(text: &str) -> SudoPayload {
    SudoPayload::HandlerPayload1(Type1 { message: text.to_string() })
}

fn kind_two(text: &str) -> SudoPayload {
    SudoPayload::HandlerPayload2(Type2 { data: text.to_string() })
}

fn transfer() -> MsgTransfer {
    let config = Config {
        owner: "owner".to_string(),
        receiver_prefix: "agoric".to_string(),
        channel_id: "channel-0".to_string(),
    };
    let receiver =
        bech32::encode("agoric", vec![5u8; 20].to_base32(), bech32::Variant::Bech32).unwrap();
    create_ibc_transfer(&config, 0, "contract", &receiver, "uusdc", 5000).unwrap()
}

// sequence 7 on "channel-0", as the remote module encodes it
fn response_bytes() -> Vec<u8> {
    let mut bytes = vec![0x08, 7, 0x12, 9];
    bytes.extend_from_slice(b"channel-0");
    bytes
}

fn packet(seq: Option<u64>, channel: Option<&str>) -> RequestPacket {
    RequestPacket { sequence: seq, source_channel: channel.map(|c| c.to_string()) }
}

#[test]
fn ids_count_up_from_the_base() {
    let mut store = PendingStore::new();
    assert_eq!(IBC_SUDO_ID_RANGE_START, 1_000_000_000);
    assert_eq!(IBC_SUDO_ID_RANGE_END, IBC_SUDO_ID_RANGE_START + IBC_SUDO_ID_RANGE_SIZE);
    for k in 0..5u64 {
        assert_eq!(get_next_id(&mut store), IBC_SUDO_ID_RANGE_START + k);
    }
    assert_eq!(store.reply_id, Some(IBC_SUDO_ID_RANGE_START + 5));
}

#[test]
fn ids_wrap_after_the_upper_bound() {
    let mut store = PendingStore::new();
    store.reply_id = Some(IBC_SUDO_ID_RANGE_END - 1);
    assert_eq!(get_next_id(&mut store), IBC_SUDO_ID_RANGE_END - 1);
    assert_eq!(get_next_id(&mut store), IBC_SUDO_ID_RANGE_END);
    assert_eq!(store.reply_id, Some(IBC_SUDO_ID_RANGE_END + 1));
    assert_eq!(get_next_id(&mut store), IBC_SUDO_ID_RANGE_START);
    assert_eq!(get_next_id(&mut store), IBC_SUDO_ID_RANGE_START + 1);
}

#[test]
fn a_full_cycle_returns_to_the_start() {
    let mut store = PendingStore::new();
    store.reply_id = Some(IBC_SUDO_ID_RANGE_START + 3);
    for k in 0..1001u64 {
        let want = IBC_SUDO_ID_RANGE_START + (3 + k) % (IBC_SUDO_ID_RANGE_SIZE + 1);
        assert_eq!(get_next_id(&mut store), want);
    }
    assert_eq!(get_next_id(&mut store), IBC_SUDO_ID_RANGE_START + 3);
}

#[test]
fn reply_payloads_are_kept_by_id() {
    let mut store = PendingStore::new();
    let a = save_reply_payload(&mut store, kind_one("a"));
    let b = save_reply_payload(&mut store, kind_two("b"));
    assert_eq!((a, b), (IBC_SUDO_ID_RANGE_START, IBC_SUDO_ID_RANGE_START + 1));
    assert_eq!(read_reply_payload(&store, a), Ok(kind_one("a")));
    assert_eq!(read_reply_payload(&store, b), Ok(kind_two("b")));
    assert_eq!(read_reply_payload(&store, 5), Err(ContractError::UnknownReplyId { id: 5 }));
    assert_eq!(copy_payload(&kind_two("x")), kind_two("x"));
}

#[test]
fn sudo_payloads_are_kept_by_channel_and_sequence() {
    let mut store = PendingStore::new();
    save_sudo_payload(&mut store, "channel-0".to_string(), 7, kind_one("a"));
    save_sudo_payload(&mut store, "channel-1".to_string(), 7, kind_two("b"));
    save_sudo_payload(&mut store, "channel-0".to_string(), 7, kind_one("c"));
    assert_eq!(read_sudo_payload(&store, "channel-0".to_string(), 7), Ok(kind_one("c")));
    assert_eq!(read_sudo_payload(&store, "channel-1".to_string(), 7), Ok(kind_two("b")));
    assert!(matches!(
        read_sudo_payload(&store, "channel-0".to_string(), 8),
        Err(ContractError::StdError(_))
    ));
}

#[test]
fn dispatch_reply_and_sudo_scenario() {
    let mut store = PendingStore::new();
    let sub = msg_with_sudo_callback(&mut store, transfer(), kind_one("pay s1"));
    assert_eq!(sub.id, IBC_SUDO_ID_RANGE_START);
    assert_eq!(sub.msg, transfer());
    let reply = Reply { id: sub.id, result: Ok(vec![response_bytes()]) };
    assert_eq!(
        prepare_sudo_payload(&mut store, reply),
        Ok(Promotion { sequence_id: 7, channel: "channel-0".to_string() })
    );
    assert_eq!(read_sudo_payload(&store, "channel-0".to_string(), 7), Ok(kind_one("pay s1")));
    // the payload was moved: nothing waits under the correlation id any longer
    assert_eq!(
        read_reply_payload(&store, sub.id),
        Err(ContractError::UnknownReplyId { id: sub.id })
    );
    let handled = on_sudo(
        &store,
        packet(Some(7), Some("channel-0")),
        SudoResult::Response(vec![1]),
    );
    assert_eq!(handled, Ok(SudoAction::Callback1(Type1 { message: "pay s1".to_string() })));
    // a pair that was never promoted has no payload
    assert!(matches!(
        on_sudo(&store, packet(Some(8), Some("channel-0")), SudoResult::Response(vec![1])),
        Err(ContractError::StdError(_))
    ));
    // handling leaves the entry in place: a repeated callback finds it again
    assert_eq!(read_sudo_payload(&store, "channel-0".to_string(), 7), Ok(kind_one("pay s1")));
    assert_eq!(
        on_sudo(&store, packet(Some(7), Some("channel-0")), SudoResult::Response(vec![1])),
        Ok(SudoAction::Callback1(Type1 { message: "pay s1".to_string() }))
    );
}

#[test]
fn reply_errors_change_nothing() {
    let mut store = PendingStore::new();
    let id = save_reply_payload(&mut store, kind_two("x"));
    assert_eq!(
        prepare_sudo_payload(&mut store, Reply { id: 42, result: Ok(vec![response_bytes()]) }),
        Err(ContractError::UnknownReplyId { id: 42 })
    );
    assert_eq!(
        prepare_sudo_payload(&mut store, Reply { id, result: Err("out of gas".to_string()) }),
        Err(ContractError::ReplyError { error: "out of gas".to_string() })
    );
    assert_eq!(
        prepare_sudo_payload(&mut store, Reply { id, result: Ok(vec![]) }),
        Err(ContractError::NoDataInReply {})
    );
    assert!(matches!(
        prepare_sudo_payload(&mut store, Reply { id, result: Ok(vec![vec![0xff, 0xff]]) }),
        Err(ContractError::ResponseParseFailed { .. })
    ));
    assert_eq!(store.sudo_payloads.mark(), 0);
    assert_eq!(read_reply_payload(&store, id), Ok(kind_two("x")));
}

#[test]
fn promote_payload_takes_the_decoded_pair() {
    let mut store = PendingStore::new();
    assert_eq!(
        promote_payload(&mut store, 1, kind_one("a"), Err("bad".to_string())),
        Err(ContractError::ResponseParseFailed { error: "bad".to_string() })
    );
    assert_eq!(
        promote_payload(&mut store, 1, kind_one("a"), Ok((3, "channel-9".to_string()))),
        Ok(Promotion { sequence_id: 3, channel: "channel-9".to_string() })
    );
    assert_eq!(read_sudo_payload(&store, "channel-9".to_string(), 3), Ok(kind_one("a")));
}

#[test]
fn sudo_needs_sequence_and_channel() {
    let mut store = PendingStore::new();
    save_sudo_payload(&mut store, "channel-0".to_string(), 1, kind_two("d"));
    assert_eq!(
        sudo_response(&store, packet(None, Some("channel-0")), vec![]),
        Err(ContractError::SequenceNotFound {})
    );
    assert_eq!(
        sudo_response(&store, packet(None, None), vec![]),
        Err(ContractError::SequenceNotFound {})
    );
    assert_eq!(
        sudo_response(&store, packet(Some(1), None), vec![]),
        Err(ContractError::ChannelIdNotFound {})
    );
    assert_eq!(
        sudo_response(&store, packet(Some(1), Some("channel-0")), vec![]),
        Ok(SudoAction::Callback2(Type2 { data: "d".to_string() }))
    );
}

#[test]
fn timeout_and_error_are_terminal() {
    let store = PendingStore::new();
    assert_eq!(sudo_timeout(packet(None, None)), Ok(SudoAction::Nothing));
    assert_eq!(sudo_error(packet(Some(1), None), "boom".to_string()), Ok(SudoAction::Nothing));
    assert_eq!(on_sudo(&store, packet(None, None), SudoResult::Timeout), Ok(SudoAction::Nothing));
    assert_eq!(
        on_sudo(&store, packet(None, None), SudoResult::Error("e".to_string())),
        Ok(SudoAction::Nothing)
    );
    assert_eq!(
        sudo_callback1(Type1 { message: "m".to_string() }),
        SudoAction::Callback1(Type1 { message: "m".to_string() })
    );
    assert_eq!(
        sudo_callback2(Type2 { data: "d".to_string() }),
        SudoAction::Callback2(Type2 { data: "d".to_string() })
    );
}

#[test]
fn table_keeps_the_last_write() {
    let mut t: Table<u64, u8> = Table::new();
    assert_eq!(t.get(&1), None);
    t.set(1, 10);
    t.set(2, 20);
    t.set(1, 11);
    assert_eq!(t.get(&1), Some(&11));
    assert_eq!(t.get(&2), Some(&20));
    assert!(!t.contains(&3));
    let mark = t.mark();
    t.set(2, 21);
    t.rewind(mark);
    assert_eq!(t.get(&2), Some(&20));
    assert!(("a".to_string(), 1u64).same(&("a".to_string(), 1u64)));
    assert!(!("a".to_string(), 1u64).same(&("a".to_string(), 2u64)));
    assert!(!("a".to_string(), "b".to_string()).same(&("a".to_string(), "c".to_string())));
}

#[test]
fn a_successful_reply_moves_the_payload() {
    let mut store = PendingStore::new();
    let first = save_reply_payload(&mut store, kind_one("a"));
    let second = save_reply_payload(&mut store, kind_two("b"));
    let reply = Reply { id: first, result: Ok(vec![response_bytes()]) };
    assert!(prepare_sudo_payload(&mut store, reply).is_ok());
    assert!(!store.reply_queue.contains(&first));
    assert_eq!(read_reply_payload(&store, second), Ok(kind_two("b")));
    assert_eq!(read_sudo_payload(&store, "channel-0".to_string(), 7), Ok(kind_one("a")));
    // a second reply under the same id finds nothing to move
    let again = Reply { id: first, result: Ok(vec![response_bytes()]) };
    assert_eq!(
        prepare_sudo_payload(&mut store, again),
        Err(ContractError::UnknownReplyId { id: first })
    );
    assert_eq!(store.reply_id, Some(second + 1));
}

#[test]
fn a_failed_reply_keeps_the_payload_under_its_id() {
    let mut store = PendingStore::new();
    let id = save_reply_payload(&mut store, kind_one("a"));
    let failed = Reply { id, result: Err("denied".to_string()) };
    assert!(prepare_sudo_payload(&mut store, failed).is_err());
    let unreadable = Reply { id, result: Ok(vec![vec![0xff, 0xff]]) };
    assert!(prepare_sudo_payload(&mut store, unreadable).is_err());
    assert_eq!(read_reply_payload(&store, id), Ok(kind_one("a")));
    assert_eq!(
        promote_payload(&mut store, id, kind_one("a"), Err("bad".to_string())),
        Err(ContractError::ResponseParseFailed { error: "bad".to_string() })
    );
    assert!(store.reply_queue.contains(&id));
    assert!(promote_payload(&mut store, id, kind_one("a"), Ok((1, "c".to_string()))).is_ok());
    assert!(!store.reply_queue.contains(&id));
}

#[test]
fn table_remove_takes_out_every_write_to_the_key() {
    let mut t: Table<u64, u8> = Table::new();
    t.set(1, 10);
    t.set(2, 20);
    t.set(1, 11);
    t.set(3, 30);
    t.remove(&1);
    assert_eq!(t.get(&1), None);
    assert_eq!(t.get(&2), Some(&20));
    assert_eq!(t.get(&3), Some(&30));
    t.remove(&7);
    assert_eq!(t.mark(), 2);
    t.set(1, 12);
    assert_eq!(t.get(&1), Some(&12));
}
