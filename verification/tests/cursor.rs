use netstack_core::{BufIter, Eth, EthRtype, Header, MacAddress, ICMP, TCP, UDP};

#[test]
fn next_succeeds_floor_of_len_over_size_times() {
    for len in 0usize..40 {
        let mut buf = vec![0u8; len];
        let mut it = BufIter::new(&mut buf);
        let mut taken = 0;
        while it.next::<UDP>().is_some() {
            taken += 1;
        }
        assert_eq!(taken, len / 8);
        assert!(it.next::<UDP>().is_none());
        assert_eq!(it.get_curr_arr().len(), len % 8);
    }
}

#[test]
fn next_reads_the_bytes_at_the_cursor() {
    let mut buf: Vec<u8> = (1u8..=20).collect();
    let mut it = BufIter::new(&mut buf);
    let first = it.next::<UDP>().unwrap();
    assert_eq!(first, UDP { sport: 0x0102, dport: 0x0304, ulen: 0x0506, sum: 0x0708 });
    let second = it.next::<ICMP>().unwrap();
    assert_eq!(second, ICMP { type_: 9, code: 10, checksum: 0x0b0c, id: 0x0d0e, seq: 0x0f10 });
    assert!(it.next::<UDP>().is_none());
    assert_eq!(it.get_curr_arr(), &[17, 18, 19, 20]);
}

#[test]
fn next_gives_back_the_bytes_it_read() {
    let mut buf: Vec<u8> = (100u8..116).collect();
    let copy = buf.clone();
    let mut it = BufIter::new(&mut buf);
    let mut out = [0u8; 8];
    assert!(it.next::<UDP>().unwrap().encode(&mut out));
    assert_eq!(out, copy[0..8]);
    assert!(it.next::<ICMP>().unwrap().encode(&mut out));
    assert_eq!(out, copy[8..16]);
}

#[test]
fn failed_next_leaves_the_cursor_in_place() {
    let mut buf: Vec<u8> = (0u8..10).collect();
    let mut it = BufIter::new(&mut buf);
    assert!(it.next::<TCP>().is_none());
    assert!(it.next::<Eth>().is_none());
    let udp = it.next::<UDP>().unwrap();
    assert_eq!(udp.sport, 0x0001);
    assert!(it.next::<UDP>().is_none());
    assert_eq!(it.get_curr_arr(), &[8, 9]);
}

#[test]
fn next_fits_a_buffer_exactly() {
    let mut buf = [0u8; 14];
    let mut it = BufIter::new(&mut buf);
    assert!(it.next::<Eth>().is_some());
    assert!(it.next::<UDP>().is_none());
    assert!(it.get_curr_arr().is_empty());
}

#[test]
fn empty_buffer_has_nothing() {
    let mut buf: [u8; 0] = [];
    let mut it = BufIter::new(&mut buf);
    assert!(it.next::<ICMP>().is_none());
    assert!(it.next_mut::<ICMP>().is_none());
    assert!(it.get_curr_arr_mut().is_empty());
}

#[test]
fn get_curr_arr_of_a_fresh_cursor_is_the_buffer() {
    let mut buf = [5u8, 6, 7];
    let it = BufIter::new(&mut buf);
    assert_eq!(it.get_curr_arr(), &[5, 6, 7]);
}

#[test]
fn next_mut_hands_out_the_bytes_at_the_cursor() {
    let mut buf: Vec<u8> = (0u8..30).collect();
    let mut it = BufIter::new(&mut buf);
    let eth = it.next_mut::<Eth>().unwrap();
    assert_eq!(eth, &[0, 1, 2, 3, 4, 5, 6, 7, 8, 9, 10, 11, 12, 13]);
    let udp = it.next_mut::<UDP>().unwrap();
    assert_eq!(udp, &[14, 15, 16, 17, 18, 19, 20, 21]);
    assert!(it.next_mut::<TCP>().is_none());
    assert_eq!(it.get_curr_arr_mut(), &[22, 23, 24, 25, 26, 27, 28, 29]);
}

#[test]
fn writes_through_next_mut_land_in_the_buffer() {
    let mut buf = [0xeeu8; 26];
    {
        let mut it = BufIter::new(&mut buf);
        let eth_bytes = it.next_mut::<Eth>().unwrap();
        let udp_bytes = it.next_mut::<UDP>().unwrap();
        let rest = it.get_curr_arr_mut();
        // The three pieces are disjoint and can be written in any order.
        rest[0] = 0x77;
        let udp = UDP { sport: 68, dport: 67, ulen: 12, sum: 0xabcd };
        assert!(udp.encode(udp_bytes));
        let eth = Eth {
            dhost: MacAddress::broadcast(),
            shost: MacAddress::new([2, 0, 0, 0, 0, 1]),
            rtype: EthRtype::IP,
        };
        assert!(eth.encode(eth_bytes));
    }
    assert_eq!(
        buf,
        [
            0xff, 0xff, 0xff, 0xff, 0xff, 0xff, 2, 0, 0, 0, 0, 1, 0x08, 0x00, 0, 68, 0, 67, 0, 12,
            0xab, 0xcd, 0x77, 0xee, 0xee, 0xee,
        ]
    );
}

#[test]
fn next_after_next_mut_reads_what_follows() {
    let mut buf: Vec<u8> = (0u8..16).collect();
    let mut it = BufIter::new(&mut buf);
    let head = it.next_mut::<UDP>().unwrap();
    head[0] = 0xaa;
    let udp = it.next::<UDP>().unwrap();
    assert_eq!(udp, UDP { sport: 0x0809, dport: 0x0a0b, ulen: 0x0c0d, sum: 0x0e0f });
    assert_eq!(buf[0], 0xaa);
    assert_eq!(buf[8], 8);
}
