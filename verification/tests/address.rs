use bluetooth_mouse::address::{
    control_listener_address, interrupt_listener_address, Address, AddressType, HidPsms,
};

const HERE: Address = Address([1, 2, 3, 4, 5, 6]);

#[test]
fn addresses_differ_in_any_byte() {
    assert_eq!(HERE, Address([1, 2, 3, 4, 5, 6]));
    for i in 0..6 {
        let mut bytes = HERE.0;
        bytes[i] ^= 0x80;
        assert_ne!(HERE, Address(bytes));
    }
}

#[test]
fn listens_for_both_channels_over_classic_bluetooth() {
    let psms = HidPsms { control: 0x11, interrupt: 0x13 };
    let control = control_listener_address(HERE, psms);
    assert_eq!(control.addr, HERE);
    assert_eq!(control.addr_type, AddressType::BrEdr);
    assert_eq!((control.psm, control.cid, control.backlog), (0x11, 0, 0));
    let interrupt = interrupt_listener_address(HERE, psms);
    assert_eq!(interrupt.addr, HERE);
    assert_eq!(interrupt.addr_type, AddressType::BrEdr);
    assert_eq!((interrupt.psm, interrupt.cid, interrupt.backlog), (0x13, 0, 0));
}
