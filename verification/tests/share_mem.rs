use mailbox_rs::mb_rpcs::MBStringArgs;
use mailbox_rs::mb_std::mb_ptr_resolver::MBPtrError;
use mailbox_rs::mb_std::mb_ptr_resolver::MBPtrReader;
use mailbox_rs::mb_std::mb_ptr_resolver::MBPtrResolver;
use mailbox_rs::mb_std::mb_ptr_resolver::MBPtrWriter;
use mailbox_rs::mb_std::mb_ptr_resolver::MBSMPtrResolver;
use mailbox_rs::mb_std::mb_ptr_resolver::MB_C_STR_MAX;
use mailbox_rs::mb_std::mb_share_mem::share_mem::MBBufferMem;
use mailbox_rs::mb_std::mb_share_mem::share_mem::MBShareMem;
use mailbox_rs::mb_std::mb_share_mem::share_mem::MBShareMemBlock;
use mailbox_rs::mb_std::mb_share_mem::share_mem::MBShareMemSpace;

fn space(blocks: &[(u32, u32)]) -> MBShareMemSpace<MBBufferMem> {
    let mut s = MBShareMemSpace::new();
    for (base, size) in blocks {
        s.add_mem(MBBufferMem::new(*base, *size).unwrap()).unwrap();
    }
    s
}

#[test]
fn buffer_block_geometry() {
    let m = MBBufferMem::new(0x1000, 16).unwrap();
    assert_eq!(m.base(), 0x1000);
    assert_eq!(m.size(), 16);
    assert_eq!(m.end_addr(), 0x100f);
    assert!(m.in_range(0x1000));
    assert!(m.in_range(0x100f));
    assert!(!m.in_range(0x0fff));
    assert!(!m.in_range(0x1010));
    assert!(MBBufferMem::new(0, 0).is_none());
    assert!(MBBufferMem::new(0xffff_fff0, 0x11).is_none());
    assert!(MBBufferMem::new(0xffff_fff0, 0x10).is_some());
}

#[test]
fn buffer_block_moves_all_bytes_or_none() {
    let mut m = MBBufferMem::new(0x100, 8).unwrap();
    assert_eq!(m.write(0x102, &[1, 2, 3]), 3);
    assert_eq!(m.read(0x100, 8), vec![0, 0, 1, 2, 3, 0, 0, 0]);
    assert_eq!(m.read(0x103, 2), vec![2, 3]);
    assert_eq!(m.write(0x106, &[9, 9, 9]), 0);
    assert_eq!(m.write(0xff, &[9]), 0);
    assert_eq!(m.write(0x108, &[9]), 0);
    assert_eq!(m.write(0x100, &[]), 0);
    assert_eq!(m.read(0x100, 8), vec![0, 0, 1, 2, 3, 0, 0, 0]);
    assert_eq!(m.read(0x106, 3), Vec::<u8>::new());
    assert_eq!(m.read(0xff, 1), Vec::<u8>::new());
    assert_eq!(m.read(0x100, 0), Vec::<u8>::new());
    assert_eq!(m.write(0x107, &[7]), 1);
    assert_eq!(m.read(0x107, 1), vec![7]);
}

#[test]
fn space_refuses_blocks_that_overlap() {
    let mut s = space(&[(0x100, 0x100), (0x400, 0x100)]);
    assert_eq!(s.add_mem(MBBufferMem::new(0x1ff, 2).unwrap()), Err("Overlapped!"));
    assert_eq!(s.add_mem(MBBufferMem::new(0xf0, 0x11).unwrap()), Err("Overlapped!"));
    assert_eq!(s.add_mem(MBBufferMem::new(0x120, 0x10).unwrap()), Err("Overlapped!"));
    assert_eq!(s.add_mem(MBBufferMem::new(0x80, 0x400).unwrap()), Err("Overlapped!"));
    assert_eq!(s.mems.len(), 2);
    assert_eq!(s.add_mem(MBBufferMem::new(0x200, 0x200).unwrap()), Ok(()));
    assert_eq!(s.add_mem(MBBufferMem::new(0xf0, 0x10).unwrap()), Ok(()));
    assert_eq!(s.mems.len(), 4);
}

#[test]
fn space_routes_by_the_first_address() {
    let mut s = space(&[(0, 4096), (4096, 16384)]);
    assert_eq!(s.find_mem_by_addr(0).unwrap().base(), 0);
    assert_eq!(s.find_mem_by_addr(4095).unwrap().base(), 0);
    assert_eq!(s.find_mem_by_addr(4096).unwrap().base(), 4096);
    assert!(s.find_mem_by_addr(4096 + 16384).is_none());
    assert_eq!(s.write(4090, &[1, 2, 3]), 3);
    assert_eq!(s.write(5000, &[4, 5]), 2);
    assert_eq!(s.read(4090, 3), vec![1, 2, 3]);
    assert_eq!(s.read(5000, 2), vec![4, 5]);
    assert_eq!(s.write(4094, &[1, 2, 3, 4]), 0);
    assert_eq!(s.read(4094, 4), Vec::<u8>::new());
    assert_eq!(s.write(0x10_0000, &[1]), 0);
    assert_eq!(s.read(0x10_0000, 1), Vec::<u8>::new());
    assert_eq!(s.read(4094, 2), vec![0, 0]);
}

#[test]
fn space_without_blocks_moves_nothing() {
    let mut s: MBShareMemSpace<MBBufferMem> = MBShareMemSpace::new();
    assert!(s.find_mem_by_addr(0).is_none());
    assert_eq!(s.write(0, &[1]), 0);
    assert_eq!(s.read(0, 1), Vec::<u8>::new());
}

#[test]
fn resolver_reads_and_writes_words_of_two_and_eight_bytes() {
    let mut r = MBSMPtrResolver::new(space(&[(0x100, 0x100)]));
    assert_eq!(r.write_u16(0x120, 0xbeef), Ok(()));
    assert_eq!(r.read_slice(0x120, 2).unwrap(), vec![0xef, 0xbe]);
    assert_eq!(r.read_u16(0x120), Ok(0xbeef));
    assert_eq!(r.write_u64(0x130, 0x0102_0304_0506_0708), Ok(()));
    assert_eq!(r.read_slice(0x130, 8).unwrap(), vec![8, 7, 6, 5, 4, 3, 2, 1]);
    assert_eq!(r.read_u64(0x130), Ok(0x0102_0304_0506_0708));
    assert_eq!(r.read_u32(0x134), Ok(0x0102_0304));
    assert_eq!(r.read_u16(0x1ff), Err(MBPtrError::OutOfRange));
    assert_eq!(r.write_u16(0x1ff, 1), Err(MBPtrError::OutOfRange));
    assert_eq!(r.read_u64(0x1f9), Err(MBPtrError::OutOfRange));
    assert_eq!(r.write_u64(0x1f9, 1), Err(MBPtrError::OutOfRange));
    assert_eq!(r.read_u64(0x1f8), Ok(0));
}

#[test]
fn resolver_reads_and_writes_bytes_and_words() {
    let mut r = MBSMPtrResolver::new(space(&[(0x100, 0x100)]));
    assert_eq!(r.write_u32(0x110, 0x1234_5678), Ok(()));
    assert_eq!(r.read_slice(0x110, 4).unwrap(), vec![0x78, 0x56, 0x34, 0x12]);
    assert_eq!(r.read_u32(0x110), Ok(0x1234_5678));
    assert_eq!(r.read_u8(0x111), Ok(0x56));
    assert_eq!(r.write_u8(0x111, 0xaa), Ok(()));
    assert_eq!(r.read_u32(0x110), Ok(0x1234_aa78));
    assert_eq!(r.write_slice(0x1fe, &[1, 2, 3]), Err(MBPtrError::OutOfRange));
    assert_eq!(r.try_write_slice(0x1fe, &[1, 2, 3]), 0);
    assert_eq!(r.try_write_slice(0x1fe, &[1, 2]), 2);
    assert_eq!(r.try_read_slice(0x1fe, 2), vec![1, 2]);
    assert_eq!(r.try_read_slice(0x1fe, 3), Vec::<u8>::new());
    assert_eq!(r.read_slice(0x1fe, 3), Err(MBPtrError::OutOfRange));
    assert_eq!(r.read_u32(0x1fd), Err(MBPtrError::OutOfRange));
    assert_eq!(r.read_u8(0x200), Err(MBPtrError::OutOfRange));
    assert_eq!(r.write_u32(0x1fd, 1), Err(MBPtrError::OutOfRange));
    assert_eq!(r.write_u8(0xff, 1), Err(MBPtrError::OutOfRange));
    assert_eq!(r.read_slice(0x5000, 0), Ok(vec![]));
    assert_eq!(r.write_slice(0x5000, &[]), Ok(()));
}

#[test]
fn resolver_reads_strings_by_length() {
    let mut r = MBSMPtrResolver::new(space(&[(0x100, 0x100)]));
    r.write_slice(0x120, b"hello world").unwrap();
    assert_eq!(r.read_str(&MBStringArgs { len: 5, ptr: 0x120 }).unwrap(), b"hello".to_vec());
    assert_eq!(r.read_str(&MBStringArgs { len: 0, ptr: 0x120 }).unwrap(), b"".to_vec());
    assert_eq!(r.read_str(&MBStringArgs { len: 5, ptr: 0x1fc }), Err(MBPtrError::OutOfRange));
}

#[test]
fn resolver_reads_strings_up_to_the_zero_byte() {
    let mut r = MBSMPtrResolver::new(space(&[(0x100, 0x100)]));
    r.write_slice(0x120, b"f.c\0rest").unwrap();
    assert_eq!(r.read_c_str(0x120).unwrap(), b"f.c".to_vec());
    assert_eq!(r.read_c_str(0x123).unwrap(), b"".to_vec());
    assert_eq!(r.read_c_str(0x124).unwrap(), b"rest".to_vec());
    r.write_slice(0x1fc, b"abcd").unwrap();
    assert_eq!(r.read_c_str(0x1fc), Err(MBPtrError::OutOfRange));
    assert_eq!(r.read_c_str(0x5000), Err(MBPtrError::OutOfRange));
}

#[test]
fn resolver_gives_up_on_strings_longer_than_the_cap() {
    assert_eq!(MB_C_STR_MAX, 4096);
    let mut r = MBSMPtrResolver::new(space(&[(0, 0x3000)]));
    let long = vec![b'a'; 5000];
    r.write_slice(0, &long).unwrap();
    assert_eq!(r.read_c_str(0), Err(MBPtrError::Overrun));
    r.write_u8(4095, 0).unwrap();
    assert_eq!(r.read_c_str(0).unwrap().len(), 4095);
    r.write_u8(4095, b'a').unwrap();
    r.write_u8(4096, 0).unwrap();
    assert_eq!(r.read_c_str(0), Err(MBPtrError::Overrun));
    assert_eq!(r.read_c_str(1).unwrap().len(), 4095);
}

#[test]
fn resolver_stops_at_the_end_of_the_address_space() {
    let mut r = MBSMPtrResolver::new(space(&[(0xffff_fff0, 0x10)]));
    r.write_slice(0xffff_fffc, b"abcd").unwrap();
    assert_eq!(r.read_c_str(0xffff_fffc), Err(MBPtrError::OutOfRange));
    r.write_u8(0xffff_ffff, 0).unwrap();
    assert_eq!(r.read_c_str(0xffff_fffc).unwrap(), b"abc".to_vec());
}
