use netstack_core::TcpFlags;

#[test]
fn flags_have_their_bits() {
    assert_eq!(TcpFlags::NONE().bits(), 0);
    assert_eq!(TcpFlags::F().bits(), 0b0000_0001);
    assert_eq!(TcpFlags::S().bits(), 0b0000_0010);
    assert_eq!(TcpFlags::R().bits(), 0b0000_0100);
    assert_eq!(TcpFlags::P().bits(), 0b0000_1000);
    assert_eq!(TcpFlags::A().bits(), 0b0001_0000);
    assert_eq!(TcpFlags::U().bits(), 0b0010_0000);
    assert_eq!(TcpFlags::all().bits(), 0b0011_1111);
}

#[test]
fn syn_and_ack_combine_to_the_or_of_their_bits() {
    let both = TcpFlags::S() | TcpFlags::A();
    assert_eq!(both.bits(), TcpFlags::S().bits() | TcpFlags::A().bits());
    assert_eq!(both.bits(), 0x12);
    assert_eq!(TcpFlags::S().union(TcpFlags::A()), both);
}

#[test]
fn none_changes_no_flag() {
    let flags = [TcpFlags::F(), TcpFlags::S(), TcpFlags::R(), TcpFlags::P(), TcpFlags::A(), TcpFlags::U()];
    for flag in flags {
        assert_eq!(TcpFlags::NONE() | flag, flag);
        assert_eq!(flag | TcpFlags::NONE(), flag);
        assert_eq!(TcpFlags::NONE().union(flag), flag);
    }
}

#[test]
fn no_combination_leaves_the_six_positions() {
    for a in 0u8..64 {
        for b in 0u8..64 {
            let x = TcpFlags::from_bits(a).unwrap();
            let y = TcpFlags::from_bits(b).unwrap();
            assert_eq!((x | y).bits() & 0xc0, 0);
            assert_eq!((x & y).bits() & 0xc0, 0);
            assert_eq!((x | y).bits(), a | b);
            assert_eq!(x.intersection(y).bits(), a & b);
        }
    }
}

#[test]
fn from_bits_refuses_unknown_bits() {
    assert_eq!(TcpFlags::from_bits(0x3f), Some(TcpFlags::all()));
    assert_eq!(TcpFlags::from_bits(0x40), None);
    assert_eq!(TcpFlags::from_bits(0x92), None);
    assert_eq!(TcpFlags::from_bits(0), Some(TcpFlags::NONE()));
}

#[test]
fn from_bits_truncate_drops_unknown_bits() {
    assert_eq!(TcpFlags::from_bits_truncate(0xd2), TcpFlags::S() | TcpFlags::A());
    assert_eq!(TcpFlags::from_bits_truncate(0xc0), TcpFlags::NONE());
}

#[test]
fn contains_and_is_empty() {
    let syn_ack = TcpFlags::S() | TcpFlags::A();
    assert!(syn_ack.contains(TcpFlags::S()));
    assert!(syn_ack.contains(TcpFlags::A()));
    assert!(syn_ack.contains(TcpFlags::NONE()));
    assert!(!syn_ack.contains(TcpFlags::F()));
    assert!(!TcpFlags::S().contains(syn_ack));
    assert!(TcpFlags::NONE().is_empty());
    assert!(!syn_ack.is_empty());
    assert!((TcpFlags::S() & TcpFlags::A()).is_empty());
}
