use mailbox_rs::mb_channel::idx_flag;
use mailbox_rs::mb_channel::idx_masked;
use mailbox_rs::mb_channel::MBChannel;
use mailbox_rs::mb_channel::MBChannelIf;
use mailbox_rs::mb_channel::MBQueue;
use mailbox_rs::mb_channel::MBQueueIdxC;
use mailbox_rs::mb_channel::MBQueueIf;
use mailbox_rs::mb_channel::MBReqEntry;
use mailbox_rs::mb_channel::MBRespEntry;
use mailbox_rs::mb_channel::MBState;
use mailbox_rs::mb_channel::MB_CHANNEL_SIZE;
use mailbox_rs::mb_channel::MB_MAX_ARGS;
use mailbox_rs::mb_channel::MB_MAX_ENTRIES;
use mailbox_rs::mb_channel::MB_REQ_ENTRY_SIZE;
use mailbox_rs::mb_channel::MB_REQ_QUEUE_SIZE;
use mailbox_rs::mb_channel::MB_RESP_ENTRY_SIZE;
use mailbox_rs::mb_channel::MB_RESP_QUEUE_SIZE;
use mailbox_rs::mb_rpcs::MBAction;
use mailbox_rs::mb_rpcs::MBExit;
use mailbox_rs::mb_rpcs::MBMemCmp;

#[test]
fn idx_masked_takes_low_three_bits() {
    assert_eq!(idx_masked(0), 0);
    assert_eq!(idx_masked(7), 7);
    assert_eq!(idx_masked(8), 0);
    assert_eq!(idx_masked(13), 5);
    assert_eq!(idx_masked(0xffff_ffff), 7);
}

#[test]
fn idx_flag_is_clear_fourth_bit() {
    assert!(idx_flag(0));
    assert!(idx_flag(7));
    assert!(!idx_flag(8));
    assert!(!idx_flag(15));
    assert!(idx_flag(16));
    assert!(!idx_flag(0xffff_ffff));
}

#[test]
fn constants_of_the_layout() {
    assert_eq!(MB_MAX_ENTRIES, 8);
    assert_eq!(MB_MAX_ARGS, 8);
    assert_eq!(MB_REQ_ENTRY_SIZE, 40);
    assert_eq!(MB_RESP_ENTRY_SIZE, 8);
    assert_eq!(MB_REQ_QUEUE_SIZE, 8 + 8 * 40 + 4);
    assert_eq!(MB_RESP_QUEUE_SIZE, 8 + 8 * 8 + 4);
    assert_eq!(MB_CHANNEL_SIZE, 8 + 332 + 76);
}

#[test]
fn state_and_entries_default_to_zero() {
    assert_eq!(MBState::default(), MBState::INIT);
    let e = MBReqEntry::default();
    assert_eq!(e.action, MBAction::IDLE);
    assert_eq!(e.words, 0);
    assert_eq!(e.args, [0; MB_MAX_ARGS]);
    let r = MBRespEntry::default();
    assert_eq!(r.words, 0);
    assert_eq!(r.get_rets(), 0);
}

#[test]
fn entry_setters_change_one_field() {
    let mut e = MBReqEntry::default();
    e.set_action(MBAction::PRINT);
    e.set_words(2);
    e.set_args(1, 0xdead);
    assert_eq!(e.action, MBAction::PRINT);
    assert_eq!(e.words, 2);
    assert_eq!(e.args, [0, 0xdead, 0, 0, 0, 0, 0, 0]);
}

#[test]
fn const_init_is_reset_and_not_ready() {
    let ch = MBChannel::const_init();
    assert!(!ch.is_ready());
    assert!(ch.reset_ready());
    assert!(ch.req_can_put());
    assert!(!ch.req_can_get());
    assert!(ch.resp_can_put());
    assert!(!ch.resp_can_get());
    assert_eq!(ch.state, MBState::INIT);
    assert_eq!(ch.id, 0);
    assert_eq!(ch.base(), 0);
    let d = MBChannel::default();
    assert_eq!(d.req_queue.idx_p, 0);
    assert_eq!(d.resp_queue.idx_c.0, 0);
}

#[test]
fn queue_full_after_eight_and_empty_after_eight_more() {
    let mut q: MBQueue<u32> =
        MBQueue { _reserverd: 0, idx_p: 0, queue: [0; MB_MAX_ENTRIES], idx_c: MBQueueIdxC(0) };
    assert!(q.empty());
    assert!(!q.full());
    for i in 0..8u32 {
        assert!(!q.full());
        *q.cur_p_entry_mut() = 100 + i;
        q.advance_p();
        assert!(!q.empty());
    }
    assert!(q.full());
    assert_eq!(q.idx_p_masked(), 0);
    assert!(!q.idx_p_flag());
    assert!(q.idx_c_flag());
    for i in 0..8u32 {
        assert!(!q.empty());
        assert_eq!(*q.cur_c_entry(), 100 + i);
        q.advance_c();
        assert!(!q.full());
    }
    assert!(q.empty());
    assert_eq!(q.idx_c_masked(), 0);
}

#[test]
fn queue_indices_wrap_modulo_two_to_the_32() {
    let mut q: MBQueue<u32> = MBQueue {
        _reserverd: 0,
        idx_p: 0xffff_fffe,
        queue: [0; MB_MAX_ENTRIES],
        idx_c: MBQueueIdxC(0xffff_fffe),
    };
    assert!(q.empty());
    *q.cur_p_entry_mut() = 1;
    q.advance_p();
    *q.cur_p_entry_mut() = 2;
    q.advance_p();
    *q.cur_p_entry_mut() = 3;
    q.advance_p();
    assert_eq!(q.idx_p, 1);
    assert!(!q.empty());
    assert!(!q.full());
    assert_eq!(*q.cur_c_entry(), 1);
    q.advance_c();
    assert_eq!(*q.cur_c_entry(), 2);
    q.advance_c();
    assert_eq!(q.idx_c.0, 0);
    assert_eq!(*q.cur_c_entry(), 3);
    q.advance_c();
    assert!(q.empty());
}

#[test]
fn requests_come_out_in_the_order_of_their_commits() {
    let mut ch = MBChannel::const_init();
    ch.reset_ack();
    for code in [11u32, 22, 33] {
        assert!(ch.req_can_put());
        ch.put_req(&MBExit, code);
        ch.commit_req();
    }
    for code in [11u32, 22, 33] {
        assert!(ch.req_can_get());
        let e = ch.get_req();
        assert_eq!(e.action, MBAction::EXIT);
        assert_eq!(e.words, 1);
        assert_eq!(e.args[0], code);
        ch.ack_req();
    }
    assert!(!ch.req_can_get());
}

#[test]
fn responses_come_out_in_the_order_of_their_commits() {
    let mut ch = MBChannel::const_init();
    ch.reset_ack();
    let rpc = MBMemCmp::new();
    for v in [5u32, 0xffff_fffb, 0] {
        assert!(ch.resp_can_put());
        ch.put_resp(MBRespEntry { words: 1, rets: v });
        ch.commit_resp();
    }
    for v in [5i32, -5, 0] {
        assert!(ch.resp_can_get());
        assert_eq!(ch.get_resp(&rpc), v);
        ch.ack_resp();
    }
    assert!(!ch.resp_can_get());
}

#[test]
fn put_does_not_advance_and_get_does_not_consume() {
    let mut ch = MBChannel::const_init();
    ch.put_req(&MBExit, 7);
    assert!(!ch.req_can_get());
    ch.commit_req();
    assert!(ch.req_can_get());
    assert_eq!(ch.get_req().args[0], 7);
    assert_eq!(ch.get_req().args[0], 7);
    assert!(ch.req_can_get());
    ch.ack_req();
    assert!(!ch.req_can_get());
}

#[test]
fn operations_return_the_addresses_of_what_they_wrote() {
    let mut ch = MBChannel::with_base(0x1000);
    assert_eq!(ch.base(), 0x1000);
    assert_eq!(ch.put_req(&MBExit, 1), 0x1000 + 8 + 8);
    assert_eq!(ch.commit_req(), 0x1000 + 8 + 4);
    assert_eq!(ch.put_req(&MBExit, 2), 0x1000 + 8 + 8 + 40);
    assert_eq!(ch.commit_req(), 0x1000 + 8 + 4);
    assert_eq!(ch.ack_req(), 0x1000 + 8 + 328);
    assert_eq!(ch.put_resp(MBRespEntry { words: 0, rets: 0 }), 0x1000 + 340 + 8);
    assert_eq!(ch.commit_resp(), 0x1000 + 340 + 4);
    assert_eq!(ch.put_resp(MBRespEntry { words: 0, rets: 0 }), 0x1000 + 340 + 8 + 8);
    assert_eq!(ch.ack_resp(), 0x1000 + 340 + 72);
}

#[test]
fn reset_ready_exactly_when_all_four_indices_are_zero() {
    let mut ch = MBChannel::const_init();
    assert!(ch.reset_ready());
    ch.commit_req();
    assert!(!ch.reset_ready());
    ch.reset_req();
    assert!(ch.reset_ready());
    ch.ack_req();
    assert!(!ch.reset_ready());
    ch.reset_req();
    ch.commit_resp();
    assert!(!ch.reset_ready());
    ch.reset_req();
    ch.ack_resp();
    assert!(!ch.reset_ready());
    ch.reset_req();
    assert!(ch.reset_ready());
}

#[test]
fn reset_request_and_ack_give_back_a_fresh_ready_channel() {
    let mut ch = MBChannel::const_init();
    ch.reset_ack();
    ch.put_req(&MBExit, 9);
    ch.commit_req();
    ch.put_resp(MBRespEntry { words: 1, rets: 3 });
    ch.commit_resp();
    ch.reset_req();
    assert!(!ch.is_ready());
    assert!(ch.reset_ready());
    assert!(!ch.req_can_get());
    assert!(!ch.resp_can_get());
    ch.reset_ack();
    let mut fresh = MBChannel::const_init();
    fresh.reset_ack();
    assert_eq!(ch.is_ready(), fresh.is_ready());
    assert_eq!(ch.reset_ready(), fresh.reset_ready());
    assert_eq!(ch.req_can_put(), fresh.req_can_put());
    assert_eq!(ch.req_can_get(), fresh.req_can_get());
    assert_eq!(ch.resp_can_put(), fresh.resp_can_put());
    assert_eq!(ch.resp_can_get(), fresh.resp_can_get());
    assert!(ch.is_ready());
}
