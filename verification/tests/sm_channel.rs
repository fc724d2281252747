use mailbox_rs::mb_channel::MBChannelIf;
use mailbox_rs::mb_channel::MBRespEntry;
use mailbox_rs::mb_rpcs::MBAction;
use mailbox_rs::mb_rpcs::MBCall;
use mailbox_rs::mb_rpcs::MBCallArgs;
use mailbox_rs::mb_rpcs::MBExit;
use mailbox_rs::mb_rpcs::MBMemCmp;
use mailbox_rs::mb_rpcs::MBOther;
use mailbox_rs::mb_rpcs::MBOtherArgs;
use mailbox_rs::mb_std::mb_ptr_resolver::MBPtrReader;
use mailbox_rs::mb_std::mb_ptr_resolver::MBPtrWriter;
use mailbox_rs::mb_std::mb_share_mem::channel::load_segments;
use mailbox_rs::mb_std::mb_share_mem::channel::mailbox_base;
use mailbox_rs::mb_std::mb_share_mem::channel::read_word;
use mailbox_rs::mb_std::mb_share_mem::channel::write_word;
use mailbox_rs::mb_std::mb_share_mem::channel::MBChannelShareMem;
use mailbox_rs::mb_std::mb_share_mem::channel::MBLayoutError;
use mailbox_rs::mb_std::mb_share_mem::channel::MBQueueShareMem;
use mailbox_rs::mb_std::mb_share_mem::channel::MBSegment;
use mailbox_rs::mb_std::mb_share_mem::share_mem::MBBufferMem;
use mailbox_rs::mb_std::mb_share_mem::share_mem::MBShareMem;
use mailbox_rs::mb_std::mb_share_mem::share_mem::MBShareMemSpace;

type Space = MBShareMemSpace<MBBufferMem>;

fn space(base: u32, size: u32) -> Space {
    let mut s = MBShareMemSpace::new();
    s.add_mem(MBBufferMem::new(base, size).unwrap()).unwrap();
    s
}

fn dirty(base: u32, size: u32) -> Space {
    let mut s = space(base, size);
    let junk = vec![0xa5u8; size as usize];
    assert_eq!(s.write(base, &junk), size as usize);
    s
}

#[test]
fn construction_zeroes_the_block() {
    let ch = MBChannelShareMem::new(0x1000, dirty(0x1000, 0x200)).unwrap();
    assert_eq!(ch.base(), 0x1000);
    assert!(!ch.is_ready());
    assert!(ch.reset_ready());
    assert!(ch.req_can_put());
    assert!(!ch.req_can_get());
    assert!(ch.resp_can_put());
    assert!(!ch.resp_can_get());
    assert_eq!(ch.mem.read_slice(0x1000, 416).unwrap(), vec![0u8; 416]);
    assert_eq!(ch.mem.read_slice(0x1000 + 416, 4).unwrap(), vec![0xa5u8; 4]);
}

#[test]
fn construction_needs_memory_under_the_whole_block() {
    assert!(MBChannelShareMem::new(0x1000, space(0x1000, 415)).is_none());
    assert!(MBChannelShareMem::new(0x1000, space(0x1000, 416)).is_some());
    assert!(MBChannelShareMem::new(0x0fff, space(0x1000, 0x400)).is_none());
    assert!(MBChannelShareMem::new(0x1001, space(0x1000, 416)).is_none());
    let mut two = space(0x1000, 0x100);
    two.add_mem(MBBufferMem::new(0x1100, 0x200).unwrap()).unwrap();
    assert!(MBChannelShareMem::new(0x1000, two).is_none());
}

#[test]
fn the_image_of_the_block_is_laid_out_word_for_word() {
    let mut ch = MBChannelShareMem::new(0x100, space(0x100, 0x200)).unwrap();
    ch.reset_ack();
    assert_eq!(ch.mem.read_u32(0x100 + 4).unwrap(), 1);
    let call = MBCall::new();
    let addr = ch.put_req(&call, &MBCallArgs { len: 7, method: 0x11, args: [1, 2, 3, 4, 5, 6, 7] });
    assert_eq!(addr, 0x100 + 8 + 8);
    assert_eq!(ch.commit_req(), 0x100 + 8 + 4);
    let addr = ch.put_req(&MBOther::new(), &MBOtherArgs { code: 9, len: 0, args: [0; 7] });
    assert_eq!(addr, 0x100 + 8 + 8 + 40);
    ch.commit_req();
    let bytes = ch.mem.read_slice(0x100, 416).unwrap();
    let word = |k: usize| u32::from_le_bytes([bytes[4 * k], bytes[4 * k + 1], bytes[4 * k + 2], bytes[4 * k + 3]]);
    assert_eq!(word(0), 0);
    assert_eq!(word(1), 1);
    assert_eq!(word(2), 0);
    assert_eq!(word(3), 2);
    assert_eq!(
        (4..14).map(word).collect::<Vec<u32>>(),
        vec![7, 8, 0x11, 1, 2, 3, 4, 5, 6, 7]
    );
    assert_eq!(
        (14..24).map(word).collect::<Vec<u32>>(),
        vec![0x8000_0000, 1, 9, 1, 2, 3, 4, 5, 6, 7]
    );
    assert_eq!(word(84), 0);
    assert_eq!(ch.ack_req(), 0x100 + 8 + 328);
    assert_eq!(ch.mem.read_u32(0x100 + 8 + 328).unwrap(), 1);
    assert_eq!(ch.put_resp(MBRespEntry { words: 1, rets: 0xdead_beef }), 0x100 + 340 + 8);
    assert_eq!(ch.commit_resp(), 0x100 + 340 + 4);
    assert_eq!(ch.mem.read_u32(0x100 + 340 + 4).unwrap(), 1);
    assert_eq!(ch.mem.read_slice(0x100 + 340 + 8, 8).unwrap(), vec![1, 0, 0, 0, 0xef, 0xbe, 0xad, 0xde]);
    assert_eq!(ch.ack_resp(), 0x100 + 340 + 72);
    assert_eq!(ch.mem.read_u32(0x100 + 340 + 72).unwrap(), 1);
    assert_eq!(ch.mem.read_slice(0x100 + 416, 4).unwrap(), vec![0, 0, 0, 0]);
}

#[test]
fn the_peer_is_seen_through_the_memory() {
    let mut ch = MBChannelShareMem::new(0, space(0, 0x200)).unwrap();
    assert!(!ch.is_ready());
    ch.mem.write_u32(4, 1).unwrap();
    assert!(ch.is_ready());
    ch.mem.write_u32(4, 2).unwrap();
    assert!(!ch.is_ready());
    for (k, w) in [6u32, 2, 0x300, 0x301, 4, 0, 0, 0, 0, 0].iter().enumerate() {
        ch.mem.write_u32(16 + 4 * k as u32, *w).unwrap();
    }
    ch.mem.write_u32(12, 1).unwrap();
    assert!(ch.req_can_get());
    let e = ch.get_req();
    assert_eq!(e.action, MBAction::MEMCMP);
    assert_eq!(e.words, 2);
    assert_eq!(&e.args[..3], &[0x300, 0x301, 4]);
    ch.mem.write_u32(16, 77).unwrap();
    assert_eq!(ch.get_req().action, MBAction::OTHER);
    ch.mem.write_u32(340 + 8, 1).unwrap();
    ch.mem.write_u32(340 + 12, 0xffff_fffb).unwrap();
    ch.mem.write_u32(340 + 4, 1).unwrap();
    assert!(ch.resp_can_get());
    assert_eq!(ch.get_resp(&MBMemCmp::new()), -5);
    ch.mem.write_u32(12, 9).unwrap();
    assert!(!ch.reset_ready());
    ch.reset_req();
    assert!(ch.reset_ready());
    assert_eq!(ch.mem.read_u32(12).unwrap(), 0);
    assert_eq!(ch.mem.read_u32(340 + 4).unwrap(), 0);
    assert_eq!(ch.mem.read_u32(4).unwrap(), 0);
}

#[test]
fn shared_channel_is_a_queue_of_eight() {
    let mut ch = MBChannelShareMem::new(0x40, space(0, 0x400)).unwrap();
    ch.reset_ack();
    for round in 0..3u32 {
        for i in 0..8u32 {
            assert!(ch.req_can_put());
            ch.put_req(&MBExit, round * 8 + i);
            ch.commit_req();
        }
        assert!(!ch.req_can_put());
        for i in 0..8u32 {
            assert!(ch.req_can_get());
            assert_eq!(ch.get_req().args[0], round * 8 + i);
            ch.ack_req();
        }
        assert!(!ch.req_can_get());
    }
}

#[test]
fn words_of_the_block() {
    let mut m = space(0x100, 0x200);
    write_word(&mut m, 0x100, 103, 0x0102_0304);
    assert_eq!(read_word(&m, 0x100, 103), 0x0102_0304);
    assert_eq!(m.read(0x100 + 412, 4), vec![4, 3, 2, 1]);
    assert_eq!(read_word(&m, 0x100, 102), 0);
    let q = MBQueueShareMem::new(8, 1u32, 2u32);
    assert_eq!((q.base, q.cur_p_entry, q.cur_c_entry), (8, 1, 2));
}

#[test]
fn mailbox_base_selects_a_block_of_the_section() {
    assert_eq!(mailbox_base(0x2000, 416 * 3, 0), Ok(0x2000));
    assert_eq!(mailbox_base(0x2000, 416 * 3, 1), Ok(0x2000 + 416));
    assert_eq!(mailbox_base(0x2000, 416 * 3, 2), Ok(0x2000 + 832));
    assert_eq!(mailbox_base(0x2000, 416 * 3, 3), Err(MBLayoutError::OutOfSection));
    assert_eq!(mailbox_base(0x2000, 416 * 3 - 1, 2), Err(MBLayoutError::OutOfSection));
    assert_eq!(mailbox_base(0x2000, 0, 0), Err(MBLayoutError::OutOfSection));
    assert_eq!(mailbox_base(0xffff_fe60, 416, 0), Ok(0xffff_fe60));
    assert_eq!(mailbox_base(0xffff_fe61, 416, 0), Err(MBLayoutError::OutOfSection));
    assert_eq!(mailbox_base(0x1_0000_0000, 416, 0), Err(MBLayoutError::OutOfSection));
    assert_eq!(mailbox_base(u64::MAX, u64::MAX, usize::MAX), Err(MBLayoutError::OutOfSection));
}

#[test]
fn with_elf_lays_out_the_block_of_that_index() {
    let ch = MBChannelShareMem::with_elf(0x100, 832, 1, dirty(0, 0x800)).unwrap();
    assert_eq!(ch.base(), 0x100 + 416);
    assert!(ch.reset_ready());
    assert_eq!(ch.mem.read_slice(0x100 + 416, 416).unwrap(), vec![0u8; 416]);
    assert_eq!(ch.mem.read_slice(0x100, 4).unwrap(), vec![0xa5u8; 4]);
    assert_eq!(
        MBChannelShareMem::with_elf(0x100, 832, 2, space(0, 0x1000)).err(),
        Some(MBLayoutError::OutOfSection)
    );
    assert_eq!(
        MBChannelShareMem::with_elf(0x100, 832, 1, space(0, 0x300)).err(),
        Some(MBLayoutError::OutOfRange)
    );
}

#[test]
fn segments_are_copied_where_the_memory_covers_them() {
    let mut m = space(0x100, 0x100);
    let segs = vec![
        MBSegment { addr: 0x100, data: vec![1, 2, 3, 4] },
        MBSegment { addr: 0x1fe, data: vec![9, 9, 9] },
        MBSegment { addr: 0x102, data: vec![7] },
        MBSegment { addr: 0x1_0000_0100, data: vec![8] },
        MBSegment { addr: 0x110, data: vec![] },
        MBSegment { addr: 0x1ff, data: vec![5] },
    ];
    assert_eq!(load_segments(&mut m, &segs), 3);
    assert_eq!(m.read(0x100, 4), vec![1, 2, 7, 4]);
    assert_eq!(m.read(0x1fe, 2), vec![0, 5]);
    assert_eq!(load_segments(&mut m, &[]), 0);
}
