use kvm_device::codec::{decode, encode};
use kvm_device::routing::{
    kvm_irq_routing, kvm_irq_routing_entry, kvm_irq_routing_entry_u, kvm_irq_routing_hv_sint,
    kvm_irq_routing_irqchip, kvm_irq_routing_msi, kvm_irq_routing_msi_u,
    kvm_irq_routing_s390_adapter, kvm_irq_routing_xen_evtchn,
};

#[test]
fn routing_header_is_count_then_flags() {
    let table = kvm_irq_routing { nr: 3, flags: 0x0100 };
    assert_eq!(encode(&table), vec![3, 0, 0, 0, 0, 1, 0, 0]);
}

#[test]
fn msi_route_is_read_as_stored() {
    let mut target = kvm_irq_routing_entry_u::default();
    let mut last = kvm_irq_routing_msi_u::default();
    last.set_devid(0x0a0b_0c0d);
    assert_eq!(last.devid(), 0x0a0b_0c0d);
    assert_eq!(last.pad, 0x0a0b_0c0d);
    let msi = kvm_irq_routing_msi {
        address_lo: 0xfee0_0000,
        address_hi: 1,
        data: 0x4021,
        u: last,
    };
    target.set_msi(msi);
    assert_eq!(target.msi(), msi);
    assert_eq!(target.pad, [0xfee0_0000, 1, 0x4021, 0x0a0b_0c0d, 0, 0, 0, 0]);
}

#[test]
fn members_share_the_first_bytes() {
    let mut target = kvm_irq_routing_entry_u::default();
    target.pad = [1, 2, 3, 4, 5, 6, 7, 8];
    assert_eq!(target.irqchip(), kvm_irq_routing_irqchip { irqchip: 1, pin: 2 });
    assert_eq!(target.hv_sint(), kvm_irq_routing_hv_sint { vcpu: 1, sint: 2 });
    assert_eq!(target.xen_evtchn(), kvm_irq_routing_xen_evtchn { port: 1, vcpu: 2, priority: 3 });
    assert_eq!(target.msi().address_lo, 1);
    assert_eq!(target.msi().u.devid(), 4);
    assert_eq!(
        target.adapter(),
        kvm_irq_routing_s390_adapter {
            ind_addr: 0x0000_0002_0000_0001,
            summary_addr: 0x0000_0004_0000_0003,
            ind_offset: 0x0000_0006_0000_0005,
            summary_offset: 7,
            adapter_id: 8,
        }
    );
}

#[test]
fn storing_a_member_keeps_the_bytes_after_it() {
    let mut target = kvm_irq_routing_entry_u::default();
    target.pad = [0x11; 8];
    target.set_irqchip(kvm_irq_routing_irqchip { irqchip: 0, pin: 5 });
    assert_eq!(target.pad, [0, 5, 0x11, 0x11, 0x11, 0x11, 0x11, 0x11]);
    target.set_xen_evtchn(kvm_irq_routing_xen_evtchn { port: 9, vcpu: 8, priority: 7 });
    assert_eq!(target.pad, [9, 8, 7, 0x11, 0x11, 0x11, 0x11, 0x11]);
    target.set_hv_sint(kvm_irq_routing_hv_sint { vcpu: 2, sint: 3 });
    assert_eq!(target.pad, [2, 3, 7, 0x11, 0x11, 0x11, 0x11, 0x11]);
    let adapter = kvm_irq_routing_s390_adapter {
        ind_addr: 1,
        summary_addr: 2,
        ind_offset: 3,
        summary_offset: 4,
        adapter_id: 5,
    };
    target.set_adapter(adapter);
    assert_eq!(target.pad, [1, 0, 2, 0, 3, 0, 4, 5]);
    assert_eq!(target.adapter(), adapter);
}

#[test]
fn entry_round_trips_with_its_union() {
    let mut entry = kvm_irq_routing_entry { gsi: 32, type_: 2, flags: 1, pad: 0, ..Default::default() };
    entry.u.set_msi(kvm_irq_routing_msi {
        address_lo: 0x0808_0000,
        address_hi: 0,
        data: 77,
        u: kvm_irq_routing_msi_u { pad: 3 },
    });
    let bytes = encode(&entry);
    assert_eq!(bytes.len(), 48);
    assert_eq!(&bytes[0..16], &[32, 0, 0, 0, 2, 0, 0, 0, 1, 0, 0, 0, 0, 0, 0, 0]);
    assert_eq!(&bytes[16..32], &[0, 0, 8, 8, 0, 0, 0, 0, 77, 0, 0, 0, 3, 0, 0, 0]);
    assert_eq!(&bytes[32..48], &[0u8; 16]);
    let again: kvm_irq_routing_entry = decode(&bytes).unwrap();
    assert_eq!(again, entry);
    assert_eq!(again.u.msi().data, 77);
}
