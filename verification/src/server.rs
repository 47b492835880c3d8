//! The in-process benchmark server endpoint: its bind address and the
//! MTU it accepts for a run.

use vstd::prelude::*;

use crate::connection_manager::Mtu;

verus! {

/// The in-process server endpoint.
pub struct Server {
    pub address: String,
    pub port: u16,
}

impl Server {
    pub fn new(address: String, port: u16) -> (r: Server)
        ensures
            r.address == address,
            r.port == port,
    {
        Server { address, port }
    }
}

/// The MTU a run uses for a requested byte size; an unknown size falls
/// back to 1024 bytes.
pub fn mtu_for_size(size: u32) -> (r: Mtu)
    ensures
        size == 512 ==> r == Mtu::Mtu512,
        size == 1024 ==> r == Mtu::Mtu1024,
        size == 2048 ==> r == Mtu::Mtu2048,
        size == 4096 ==> r == Mtu::Mtu4096,
        size != 512 && size != 1024 && size != 2048 && size != 4096 ==> r == Mtu::Mtu1024,
{
    match size {
        512 => Mtu::Mtu512,
        1024 => Mtu::Mtu1024,
        2048 => Mtu::Mtu2048,
        4096 => Mtu::Mtu4096,
        _ => Mtu::Mtu1024,
    }
}

} // verus!
