//! Building blocks of a bare-metal TCP/IP stack on a virtio network device:
//! the wire layout of the protocol headers, the Internet checksum, a cursor
//! over packet buffers, and the bookkeeping of DMA memory and register
//! windows.
//!
//! Everything here works on plain values and byte slices. Touching the
//! device's memory is left to the caller.

pub mod addr;
pub mod buf_iter;
pub mod checksum;
pub mod consts;
pub mod flags;
pub mod hal;
pub mod net;
pub mod wire;

pub use addr::{Ipv4Addr, MacAddress};
pub use buf_iter::BufIter;
pub use checksum::check_sum;
pub use consts::{EthRtype, IpProtocal};
pub use flags::TcpFlags;
pub use hal::{
    MyHalImpl, Page, QueueLayout, QueueMutRef, QueueRegions, Region, SafeIoRegion, PAGE_SIZE,
};
pub use net::{Arp, Eth, Ip, ICMP, TCP, UDP};
pub use wire::Header;
