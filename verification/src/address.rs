//! Bluetooth addresses, and the addresses that the mouse listens on.

use vstd::prelude::*;
use vstd::std_specs::cmp::PartialEqSpec;

verus! {

/// The address of a Bluetooth device: six bytes, the most significant first.
#[derive(Clone, Copy, Debug, Eq)]
pub struct Address(pub [u8; 6]);

impl PartialEq for Address {
    /// Two addresses are equal where their bytes are.
    fn eq(&self, other: &Self) -> (b: bool) {
        let b = self.0[0] == other.0[0] && self.0[1] == other.0[1] && self.0[2] == other.0[2]
            && self.0[3] == other.0[3] && self.0[4] == other.0[4] && self.0[5] == other.0[5];
        proof {
            if b {
                assert(self.0@ =~= other.0@);
                assert(self.0 =~= other.0);
            }
        }
        b
    }
}

impl vstd::std_specs::cmp::PartialEqSpecImpl for Address {
    open spec fn obeys_eq_spec() -> bool {
        true
    }

    open spec fn eq_spec(&self, other: &Self) -> bool {
        *self == *other
    }
}

/// The kinds of address that a device can have.
#[derive(Clone, Copy, Debug, PartialEq, Eq, Structural)]
pub enum AddressType {
    /// An address of classic Bluetooth (BR/EDR).
    BrEdr,
    /// A public address of Bluetooth Low Energy.
    LePublic,
    /// A random address of Bluetooth Low Energy.
    LeRandom,
}

/// The protocol service multiplexors on which HID hosts look for a device's two
/// channels.
#[derive(Clone, Copy, Debug, PartialEq, Eq, Structural)]
pub struct HidPsms {
    /// The multiplexor of the control channel.
    pub control: u16,
    /// The multiplexor of the interrupt channel.
    pub interrupt: u16,
}

/// An L2CAP address to listen on.
#[derive(Clone, Copy, Debug)]
pub struct ListenerAddress {
    /// The local adapter's address.
    pub addr: Address,
    /// The kind of that address.
    pub addr_type: AddressType,
    /// The protocol service multiplexor.
    pub psm: u16,
    /// The connection identifier; zero where the system picks one.
    pub cid: u16,
    /// How many connections may wait to be accepted.
    pub backlog: u32,
}

/// Where hosts reach the multiplexor `psm` of the adapter `address` over classic
/// Bluetooth, with no waiting line and no fixed connection identifier.
pub open spec fn classic_listener(address: Address, psm: u16) -> ListenerAddress {
    ListenerAddress { addr: address, addr_type: AddressType::BrEdr, psm, cid: 0, backlog: 0 }
}

/// Where a socket has to listen to be found on the HID control multiplexor.
pub fn control_listener_address(address: Address, psms: HidPsms) -> (listener: ListenerAddress)
    ensures
        listener == classic_listener(address, psms.control),
        listener.addr == address,
        listener.addr_type == AddressType::BrEdr,
        listener.psm == psms.control,
        listener.cid == 0,
        listener.backlog == 0,
{
    ListenerAddress {
        addr: address,
        addr_type: AddressType::BrEdr,
        psm: psms.control,
        cid: 0,
        backlog: 0,
    }
}

/// Where a socket has to listen to be found on the HID interrupt multiplexor.
pub fn interrupt_listener_address(address: Address, psms: HidPsms) -> (listener: ListenerAddress)
    ensures
        listener == classic_listener(address, psms.interrupt),
        listener.addr == address,
        listener.addr_type == AddressType::BrEdr,
        listener.psm == psms.interrupt,
        listener.cid == 0,
        listener.backlog == 0,
{
    ListenerAddress {
        addr: address,
        addr_type: AddressType::BrEdr,
        psm: psms.interrupt,
        cid: 0,
        backlog: 0,
    }
}

/// Whatever the adapter and the multiplexor, the mouse listens at that adapter and that
/// multiplexor over classic Bluetooth, with nothing fixed and nobody waiting.
pub proof fn law_listens_over_classic_bluetooth(address: Address, psm: u16)
    ensures
        classic_listener(address, psm).addr == address,
        classic_listener(address, psm).addr_type == AddressType::BrEdr,
        classic_listener(address, psm).psm == psm,
        classic_listener(address, psm).cid == 0,
        classic_listener(address, psm).backlog == 0,
{
}

/// Two addresses are the same exactly where all their bytes are.
pub proof fn law_addresses_are_their_bytes(a: Address, b: Address)
    ensures
        a.eq_spec(&b) <==> (forall|i: int|
            0 <= i < 6 ==> #[trigger] a.0@[i] == b.0@[i]),
        Address::obeys_eq_spec(),
{
    if forall|i: int| 0 <= i < 6 ==> #[trigger] a.0@[i] == b.0@[i] {
        assert(a.0@ =~= b.0@);
        assert(a.0 =~= b.0);
    }
}

} // verus!
