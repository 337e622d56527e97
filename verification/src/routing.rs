//! Interrupt routing tables.
#![allow(non_camel_case_types)]

use crate::arrays::{
    array_of, elements, images, lemma_array_of, lemma_array_of_view, lemma_elements_of_images,
    lemma_images_len, lemma_images_of_elements, read_array, write_array, zeroed_array,
};
use crate::layout::{zero_image, BinaryStructure};
use crate::unions::{member, member_of, store, stored};
use vstd::prelude::*;
use vstd::slice::slice_subrange;

verus! {

/// The header of an interrupt routing table: the number of entries that
/// follow it, and flags.
#[derive(Debug, Clone, Copy, PartialEq, Eq)]
pub struct kvm_irq_routing {
    pub nr: u32,
    pub flags: u32,
}

impl BinaryStructure for kvm_irq_routing {
    open spec fn spec_size() -> nat {
        8
    }

    open spec fn image(&self) -> Seq<u8> {
        self.nr.image() + self.flags.image()
    }

    open spec fn from_image(bytes: Seq<u8>) -> Self {
        kvm_irq_routing {
            nr: u32::from_image(bytes.subrange(0, 4)),
            flags: u32::from_image(bytes.subrange(4, 8)),
        }
    }

    proof fn lemma_image_len(&self) {
        self.nr.lemma_image_len();
        self.flags.lemma_image_len();
    }

    proof fn lemma_image_of_value(bytes: Seq<u8>) {
        u32::lemma_image_of_value(bytes.subrange(0, 4));
        u32::lemma_image_of_value(bytes.subrange(4, 8));
        assert(Self::from_image(bytes).image() =~= bytes);
    }

    proof fn lemma_value_of_image(&self) {
        self.nr.lemma_image_len();
        self.flags.lemma_image_len();
        assert(self.image().subrange(0, 4) =~= self.nr.image());
        self.nr.lemma_value_of_image();
        assert(self.image().subrange(4, 8) =~= self.flags.image());
        self.flags.lemma_value_of_image();
    }

    fn size() -> (n: usize) {
        8
    }

    fn zeroed() -> (value: Self) {
        let value = kvm_irq_routing {
            nr: u32::zeroed(),
            flags: u32::zeroed(),
        };
        assert(value.image() =~= zero_image(8));
        value
    }

    fn write_to(&self, out: &mut Vec<u8>) {
        self.nr.write_to(out);
        self.flags.write_to(out);
        assert(out@ =~= old(out)@ + self.image());
    }

    fn read_from(bytes: &[u8]) -> (value: Self) {
        kvm_irq_routing {
            nr: u32::read_from(slice_subrange(bytes, 0, 4)),
            flags: u32::read_from(slice_subrange(bytes, 4, 8)),
        }
    }
}

impl Default for kvm_irq_routing {
    fn default() -> (value: Self)
        ensures
            value.image() == zero_image(8),
    {
        Self::zeroed()
    }
}

/// A route to a pin of an interrupt controller.
#[derive(Debug, Clone, Copy, PartialEq, Eq)]
pub struct kvm_irq_routing_irqchip {
    pub irqchip: u32,
    pub pin: u32,
}

impl BinaryStructure for kvm_irq_routing_irqchip {
    open spec fn spec_size() -> nat {
        8
    }

    open spec fn image(&self) -> Seq<u8> {
        self.irqchip.image() + self.pin.image()
    }

    open spec fn from_image(bytes: Seq<u8>) -> Self {
        kvm_irq_routing_irqchip {
            irqchip: u32::from_image(bytes.subrange(0, 4)),
            pin: u32::from_image(bytes.subrange(4, 8)),
        }
    }

    proof fn lemma_image_len(&self) {
        self.irqchip.lemma_image_len();
        self.pin.lemma_image_len();
    }

    proof fn lemma_image_of_value(bytes: Seq<u8>) {
        u32::lemma_image_of_value(bytes.subrange(0, 4));
        u32::lemma_image_of_value(bytes.subrange(4, 8));
        assert(Self::from_image(bytes).image() =~= bytes);
    }

    proof fn lemma_value_of_image(&self) {
        self.irqchip.lemma_image_len();
        self.pin.lemma_image_len();
        assert(self.image().subrange(0, 4) =~= self.irqchip.image());
        self.irqchip.lemma_value_of_image();
        assert(self.image().subrange(4, 8) =~= self.pin.image());
        self.pin.lemma_value_of_image();
    }

    fn size() -> (n: usize) {
        8
    }

    fn zeroed() -> (value: Self) {
        let value = kvm_irq_routing_irqchip {
            irqchip: u32::zeroed(),
            pin: u32::zeroed(),
        };
        assert(value.image() =~= zero_image(8));
        value
    }

    fn write_to(&self, out: &mut Vec<u8>) {
        self.irqchip.write_to(out);
        self.pin.write_to(out);
        assert(out@ =~= old(out)@ + self.image());
    }

    fn read_from(bytes: &[u8]) -> (value: Self) {
        kvm_irq_routing_irqchip {
            irqchip: u32::read_from(slice_subrange(bytes, 0, 4)),
            pin: u32::read_from(slice_subrange(bytes, 4, 8)),
        }
    }
}

impl Default for kvm_irq_routing_irqchip {
    fn default() -> (value: Self)
        ensures
            value.image() == zero_image(8),
    {
        Self::zeroed()
    }
}

/// The last word of a message-signalled route: padding, or the identifier of
/// the device that sends the message. Both readings cover the whole word.
#[derive(Debug, Clone, Copy, PartialEq, Eq)]
pub struct kvm_irq_routing_msi_u {
    pub pad: u32,
}

impl BinaryStructure for kvm_irq_routing_msi_u {
    open spec fn spec_size() -> nat {
        4
    }

    open spec fn image(&self) -> Seq<u8> {
        self.pad.image()
    }

    open spec fn from_image(bytes: Seq<u8>) -> Self {
        kvm_irq_routing_msi_u {
            pad: u32::from_image(bytes),
        }
    }

    proof fn lemma_image_len(&self) {
        self.pad.lemma_image_len();
    }

    proof fn lemma_image_of_value(bytes: Seq<u8>) {
        u32::lemma_image_of_value(bytes);
    }

    proof fn lemma_value_of_image(&self) {
        self.pad.lemma_value_of_image();
    }

    fn size() -> (n: usize) {
        4
    }

    fn zeroed() -> (value: Self) {
        let value = kvm_irq_routing_msi_u {
            pad: u32::zeroed(),
        };
        assert(value.image() =~= zero_image(4));
        value
    }

    fn write_to(&self, out: &mut Vec<u8>) {
        self.pad.write_to(out);
        assert(out@ =~= old(out)@ + self.image());
    }

    fn read_from(bytes: &[u8]) -> (value: Self) {
        kvm_irq_routing_msi_u {
            pad: u32::read_from(bytes),
        }
    }
}

impl Default for kvm_irq_routing_msi_u {
    fn default() -> (value: Self)
        ensures
            value.image() == zero_image(4),
    {
        Self::zeroed()
    }
}

/// A message-signalled interrupt route.
#[derive(Debug, Clone, Copy, PartialEq, Eq)]
pub struct kvm_irq_routing_msi {
    pub address_lo: u32,
    pub address_hi: u32,
    pub data: u32,
    pub u: kvm_irq_routing_msi_u,
}

impl BinaryStructure for kvm_irq_routing_msi {
    open spec fn spec_size() -> nat {
        16
    }

    open spec fn image(&self) -> Seq<u8> {
        self.address_lo.image()
            + self.address_hi.image()
            + self.data.image()
            + self.u.image()
    }

    open spec fn from_image(bytes: Seq<u8>) -> Self {
        kvm_irq_routing_msi {
            address_lo: u32::from_image(bytes.subrange(0, 4)),
            address_hi: u32::from_image(bytes.subrange(4, 8)),
            data: u32::from_image(bytes.subrange(8, 12)),
            u: kvm_irq_routing_msi_u::from_image(bytes.subrange(12, 16)),
        }
    }

    proof fn lemma_image_len(&self) {
        self.address_lo.lemma_image_len();
        self.address_hi.lemma_image_len();
        self.data.lemma_image_len();
        self.u.lemma_image_len();
    }

    proof fn lemma_image_of_value(bytes: Seq<u8>) {
        u32::lemma_image_of_value(bytes.subrange(0, 4));
        u32::lemma_image_of_value(bytes.subrange(4, 8));
        u32::lemma_image_of_value(bytes.subrange(8, 12));
        kvm_irq_routing_msi_u::lemma_image_of_value(bytes.subrange(12, 16));
        assert(Self::from_image(bytes).image() =~= bytes);
    }

    proof fn lemma_value_of_image(&self) {
        self.address_lo.lemma_image_len();
        self.address_hi.lemma_image_len();
        self.data.lemma_image_len();
        self.u.lemma_image_len();
        assert(self.image().subrange(0, 4) =~= self.address_lo.image());
        self.address_lo.lemma_value_of_image();
        assert(self.image().subrange(4, 8) =~= self.address_hi.image());
        self.address_hi.lemma_value_of_image();
        assert(self.image().subrange(8, 12) =~= self.data.image());
        self.data.lemma_value_of_image();
        assert(self.image().subrange(12, 16) =~= self.u.image());
        self.u.lemma_value_of_image();
    }

    fn size() -> (n: usize) {
        16
    }

    fn zeroed() -> (value: Self) {
        let value = kvm_irq_routing_msi {
            address_lo: u32::zeroed(),
            address_hi: u32::zeroed(),
            data: u32::zeroed(),
            u: kvm_irq_routing_msi_u::zeroed(),
        };
        assert(value.image() =~= zero_image(16));
        value
    }

    fn write_to(&self, out: &mut Vec<u8>) {
        self.address_lo.write_to(out);
        self.address_hi.write_to(out);
        self.data.write_to(out);
        self.u.write_to(out);
        assert(out@ =~= old(out)@ + self.image());
    }

    fn read_from(bytes: &[u8]) -> (value: Self) {
        kvm_irq_routing_msi {
            address_lo: u32::read_from(slice_subrange(bytes, 0, 4)),
            address_hi: u32::read_from(slice_subrange(bytes, 4, 8)),
            data: u32::read_from(slice_subrange(bytes, 8, 12)),
            u: kvm_irq_routing_msi_u::read_from(slice_subrange(bytes, 12, 16)),
        }
    }
}

impl Default for kvm_irq_routing_msi {
    fn default() -> (value: Self)
        ensures
            value.image() == zero_image(16),
    {
        Self::zeroed()
    }
}

/// A route to an adapter interrupt.
#[derive(Debug, Clone, Copy, PartialEq, Eq)]
pub struct kvm_irq_routing_s390_adapter {
    pub ind_addr: u64,
    pub summary_addr: u64,
    pub ind_offset: u64,
    pub summary_offset: u32,
    pub adapter_id: u32,
}

impl BinaryStructure for kvm_irq_routing_s390_adapter {
    open spec fn spec_size() -> nat {
        32
    }

    open spec fn image(&self) -> Seq<u8> {
        self.ind_addr.image()
            + self.summary_addr.image()
            + self.ind_offset.image()
            + self.summary_offset.image()
            + self.adapter_id.image()
    }

    open spec fn from_image(bytes: Seq<u8>) -> Self {
        kvm_irq_routing_s390_adapter {
            ind_addr: u64::from_image(bytes.subrange(0, 8)),
            summary_addr: u64::from_image(bytes.subrange(8, 16)),
            ind_offset: u64::from_image(bytes.subrange(16, 24)),
            summary_offset: u32::from_image(bytes.subrange(24, 28)),
            adapter_id: u32::from_image(bytes.subrange(28, 32)),
        }
    }

    proof fn lemma_image_len(&self) {
        self.ind_addr.lemma_image_len();
        self.summary_addr.lemma_image_len();
        self.ind_offset.lemma_image_len();
        self.summary_offset.lemma_image_len();
        self.adapter_id.lemma_image_len();
    }

    proof fn lemma_image_of_value(bytes: Seq<u8>) {
        u64::lemma_image_of_value(bytes.subrange(0, 8));
        u64::lemma_image_of_value(bytes.subrange(8, 16));
        u64::lemma_image_of_value(bytes.subrange(16, 24));
        u32::lemma_image_of_value(bytes.subrange(24, 28));
        u32::lemma_image_of_value(bytes.subrange(28, 32));
        assert(Self::from_image(bytes).image() =~= bytes);
    }

    proof fn lemma_value_of_image(&self) {
        self.ind_addr.lemma_image_len();
        self.summary_addr.lemma_image_len();
        self.ind_offset.lemma_image_len();
        self.summary_offset.lemma_image_len();
        self.adapter_id.lemma_image_len();
        assert(self.image().subrange(0, 8) =~= self.ind_addr.image());
        self.ind_addr.lemma_value_of_image();
        assert(self.image().subrange(8, 16) =~= self.summary_addr.image());
        self.summary_addr.lemma_value_of_image();
        assert(self.image().subrange(16, 24) =~= self.ind_offset.image());
        self.ind_offset.lemma_value_of_image();
        assert(self.image().subrange(24, 28) =~= self.summary_offset.image());
        self.summary_offset.lemma_value_of_image();
        assert(self.image().subrange(28, 32) =~= self.adapter_id.image());
        self.adapter_id.lemma_value_of_image();
    }

    fn size() -> (n: usize) {
        32
    }

    fn zeroed() -> (value: Self) {
        let value = kvm_irq_routing_s390_adapter {
            ind_addr: u64::zeroed(),
            summary_addr: u64::zeroed(),
            ind_offset: u64::zeroed(),
            summary_offset: u32::zeroed(),
            adapter_id: u32::zeroed(),
        };
        assert(value.image() =~= zero_image(32));
        value
    }

    fn write_to(&self, out: &mut Vec<u8>) {
        self.ind_addr.write_to(out);
        self.summary_addr.write_to(out);
        self.ind_offset.write_to(out);
        self.summary_offset.write_to(out);
        self.adapter_id.write_to(out);
        assert(out@ =~= old(out)@ + self.image());
    }

    fn read_from(bytes: &[u8]) -> (value: Self) {
        kvm_irq_routing_s390_adapter {
            ind_addr: u64::read_from(slice_subrange(bytes, 0, 8)),
            summary_addr: u64::read_from(slice_subrange(bytes, 8, 16)),
            ind_offset: u64::read_from(slice_subrange(bytes, 16, 24)),
            summary_offset: u32::read_from(slice_subrange(bytes, 24, 28)),
            adapter_id: u32::read_from(slice_subrange(bytes, 28, 32)),
        }
    }
}

impl Default for kvm_irq_routing_s390_adapter {
    fn default() -> (value: Self)
        ensures
            value.image() == zero_image(32),
    {
        Self::zeroed()
    }
}

/// A route to a synthetic interrupt source of a virtual processor.
#[derive(Debug, Clone, Copy, PartialEq, Eq)]
pub struct kvm_irq_routing_hv_sint {
    pub vcpu: u32,
    pub sint: u32,
}

impl BinaryStructure for kvm_irq_routing_hv_sint {
    open spec fn spec_size() -> nat {
        8
    }

    open spec fn image(&self) -> Seq<u8> {
        self.vcpu.image() + self.sint.image()
    }

    open spec fn from_image(bytes: Seq<u8>) -> Self {
        kvm_irq_routing_hv_sint {
            vcpu: u32::from_image(bytes.subrange(0, 4)),
            sint: u32::from_image(bytes.subrange(4, 8)),
        }
    }

    proof fn lemma_image_len(&self) {
        self.vcpu.lemma_image_len();
        self.sint.lemma_image_len();
    }

    proof fn lemma_image_of_value(bytes: Seq<u8>) {
        u32::lemma_image_of_value(bytes.subrange(0, 4));
        u32::lemma_image_of_value(bytes.subrange(4, 8));
        assert(Self::from_image(bytes).image() =~= bytes);
    }

    proof fn lemma_value_of_image(&self) {
        self.vcpu.lemma_image_len();
        self.sint.lemma_image_len();
        assert(self.image().subrange(0, 4) =~= self.vcpu.image());
        self.vcpu.lemma_value_of_image();
        assert(self.image().subrange(4, 8) =~= self.sint.image());
        self.sint.lemma_value_of_image();
    }

    fn size() -> (n: usize) {
        8
    }

    fn zeroed() -> (value: Self) {
        let value = kvm_irq_routing_hv_sint {
            vcpu: u32::zeroed(),
            sint: u32::zeroed(),
        };
        assert(value.image() =~= zero_image(8));
        value
    }

    fn write_to(&self, out: &mut Vec<u8>) {
        self.vcpu.write_to(out);
        self.sint.write_to(out);
        assert(out@ =~= old(out)@ + self.image());
    }

    fn read_from(bytes: &[u8]) -> (value: Self) {
        kvm_irq_routing_hv_sint {
            vcpu: u32::read_from(slice_subrange(bytes, 0, 4)),
            sint: u32::read_from(slice_subrange(bytes, 4, 8)),
        }
    }
}

impl Default for kvm_irq_routing_hv_sint {
    fn default() -> (value: Self)
        ensures
            value.image() == zero_image(8),
    {
        Self::zeroed()
    }
}

/// A route to an event channel.
#[derive(Debug, Clone, Copy, PartialEq, Eq)]
pub struct kvm_irq_routing_xen_evtchn {
    pub port: u32,
    pub vcpu: u32,
    pub priority: u32,
}

impl BinaryStructure for kvm_irq_routing_xen_evtchn {
    open spec fn spec_size() -> nat {
        12
    }

    open spec fn image(&self) -> Seq<u8> {
        self.port.image() + self.vcpu.image() + self.priority.image()
    }

    open spec fn from_image(bytes: Seq<u8>) -> Self {
        kvm_irq_routing_xen_evtchn {
            port: u32::from_image(bytes.subrange(0, 4)),
            vcpu: u32::from_image(bytes.subrange(4, 8)),
            priority: u32::from_image(bytes.subrange(8, 12)),
        }
    }

    proof fn lemma_image_len(&self) {
        self.port.lemma_image_len();
        self.vcpu.lemma_image_len();
        self.priority.lemma_image_len();
    }

    proof fn lemma_image_of_value(bytes: Seq<u8>) {
        u32::lemma_image_of_value(bytes.subrange(0, 4));
        u32::lemma_image_of_value(bytes.subrange(4, 8));
        u32::lemma_image_of_value(bytes.subrange(8, 12));
        assert(Self::from_image(bytes).image() =~= bytes);
    }

    proof fn lemma_value_of_image(&self) {
        self.port.lemma_image_len();
        self.vcpu.lemma_image_len();
        self.priority.lemma_image_len();
        assert(self.image().subrange(0, 4) =~= self.port.image());
        self.port.lemma_value_of_image();
        assert(self.image().subrange(4, 8) =~= self.vcpu.image());
        self.vcpu.lemma_value_of_image();
        assert(self.image().subrange(8, 12) =~= self.priority.image());
        self.priority.lemma_value_of_image();
    }

    fn size() -> (n: usize) {
        12
    }

    fn zeroed() -> (value: Self) {
        let value = kvm_irq_routing_xen_evtchn {
            port: u32::zeroed(),
            vcpu: u32::zeroed(),
            priority: u32::zeroed(),
        };
        assert(value.image() =~= zero_image(12));
        value
    }

    fn write_to(&self, out: &mut Vec<u8>) {
        self.port.write_to(out);
        self.vcpu.write_to(out);
        self.priority.write_to(out);
        assert(out@ =~= old(out)@ + self.image());
    }

    fn read_from(bytes: &[u8]) -> (value: Self) {
        kvm_irq_routing_xen_evtchn {
            port: u32::read_from(slice_subrange(bytes, 0, 4)),
            vcpu: u32::read_from(slice_subrange(bytes, 4, 8)),
            priority: u32::read_from(slice_subrange(bytes, 8, 12)),
        }
    }
}

impl Default for kvm_irq_routing_xen_evtchn {
    fn default() -> (value: Self)
        ensures
            value.image() == zero_image(12),
    {
        Self::zeroed()
    }
}

/// The target of a routing entry: thirty-two bytes that hold one of the five
/// kinds of route, chosen by the entry's type. The members have different
/// sizes and all start at the first byte. The structure keeps the whole
/// extent as data, so every byte of it is part of the image whichever
/// member was stored last.
#[derive(Debug, Clone, Copy, PartialEq, Eq)]
pub struct kvm_irq_routing_entry_u {
    pub pad: [u32; 8],
}

impl BinaryStructure for kvm_irq_routing_entry_u {
    open spec fn spec_size() -> nat {
        32
    }

    open spec fn image(&self) -> Seq<u8> {
        images(self.pad@)
    }

    open spec fn from_image(bytes: Seq<u8>) -> Self {
        kvm_irq_routing_entry_u {
            pad: array_of::<u32, 8>(elements::<u32>(bytes, 8)),
        }
    }

    proof fn lemma_image_len(&self) {
        broadcast use vstd::array::group_array_axioms;

        lemma_images_len(self.pad@);
    }

    proof fn lemma_image_of_value(bytes: Seq<u8>) {
        broadcast use vstd::array::group_array_axioms;

        lemma_images_of_elements::<u32>(bytes, 8);
        lemma_array_of::<u32, 8>(elements::<u32>(bytes, 8));
    }

    proof fn lemma_value_of_image(&self) {
        broadcast use vstd::array::group_array_axioms;

        lemma_elements_of_images(self.pad@);
        lemma_array_of_view(self.pad);
    }

    fn size() -> (n: usize) {
        32
    }

    fn zeroed() -> (value: Self) {
        let value = kvm_irq_routing_entry_u {
            pad: zeroed_array::<u32, 8>(),
        };
        assert(value.image() =~= zero_image(32));
        value
    }

    fn write_to(&self, out: &mut Vec<u8>) {
        write_array(&self.pad, out);
        assert(out@ =~= old(out)@ + self.image());
    }

    fn read_from(bytes: &[u8]) -> (value: Self) {
        kvm_irq_routing_entry_u {
            pad: read_array::<u32, 8>(bytes),
        }
    }
}

impl Default for kvm_irq_routing_entry_u {
    fn default() -> (value: Self)
        ensures
            value.image() == zero_image(32),
    {
        Self::zeroed()
    }
}

/// One entry of an interrupt routing table.
#[derive(Debug, Clone, Copy, PartialEq, Eq)]
pub struct kvm_irq_routing_entry {
    pub gsi: u32,
    pub type_: u32,
    pub flags: u32,
    pub pad: u32,
    pub u: kvm_irq_routing_entry_u,
}

impl BinaryStructure for kvm_irq_routing_entry {
    open spec fn spec_size() -> nat {
        48
    }

    open spec fn image(&self) -> Seq<u8> {
        self.gsi.image()
            + self.type_.image()
            + self.flags.image()
            + self.pad.image()
            + self.u.image()
    }

    open spec fn from_image(bytes: Seq<u8>) -> Self {
        kvm_irq_routing_entry {
            gsi: u32::from_image(bytes.subrange(0, 4)),
            type_: u32::from_image(bytes.subrange(4, 8)),
            flags: u32::from_image(bytes.subrange(8, 12)),
            pad: u32::from_image(bytes.subrange(12, 16)),
            u: kvm_irq_routing_entry_u::from_image(bytes.subrange(16, 48)),
        }
    }

    proof fn lemma_image_len(&self) {
        self.gsi.lemma_image_len();
        self.type_.lemma_image_len();
        self.flags.lemma_image_len();
        self.pad.lemma_image_len();
        self.u.lemma_image_len();
    }

    proof fn lemma_image_of_value(bytes: Seq<u8>) {
        u32::lemma_image_of_value(bytes.subrange(0, 4));
        u32::lemma_image_of_value(bytes.subrange(4, 8));
        u32::lemma_image_of_value(bytes.subrange(8, 12));
        u32::lemma_image_of_value(bytes.subrange(12, 16));
        kvm_irq_routing_entry_u::lemma_image_of_value(bytes.subrange(16, 48));
        assert(Self::from_image(bytes).image() =~= bytes);
    }

    proof fn lemma_value_of_image(&self) {
        self.gsi.lemma_image_len();
        self.type_.lemma_image_len();
        self.flags.lemma_image_len();
        self.pad.lemma_image_len();
        self.u.lemma_image_len();
        assert(self.image().subrange(0, 4) =~= self.gsi.image());
        self.gsi.lemma_value_of_image();
        assert(self.image().subrange(4, 8) =~= self.type_.image());
        self.type_.lemma_value_of_image();
        assert(self.image().subrange(8, 12) =~= self.flags.image());
        self.flags.lemma_value_of_image();
        assert(self.image().subrange(12, 16) =~= self.pad.image());
        self.pad.lemma_value_of_image();
        assert(self.image().subrange(16, 48) =~= self.u.image());
        self.u.lemma_value_of_image();
    }

    fn size() -> (n: usize) {
        48
    }

    fn zeroed() -> (value: Self) {
        let value = kvm_irq_routing_entry {
            gsi: u32::zeroed(),
            type_: u32::zeroed(),
            flags: u32::zeroed(),
            pad: u32::zeroed(),
            u: kvm_irq_routing_entry_u::zeroed(),
        };
        assert(value.image() =~= zero_image(48));
        value
    }

    fn write_to(&self, out: &mut Vec<u8>) {
        self.gsi.write_to(out);
        self.type_.write_to(out);
        self.flags.write_to(out);
        self.pad.write_to(out);
        self.u.write_to(out);
        assert(out@ =~= old(out)@ + self.image());
    }

    fn read_from(bytes: &[u8]) -> (value: Self) {
        kvm_irq_routing_entry {
            gsi: u32::read_from(slice_subrange(bytes, 0, 4)),
            type_: u32::read_from(slice_subrange(bytes, 4, 8)),
            flags: u32::read_from(slice_subrange(bytes, 8, 12)),
            pad: u32::read_from(slice_subrange(bytes, 12, 16)),
            u: kvm_irq_routing_entry_u::read_from(slice_subrange(bytes, 16, 48)),
        }
    }
}

impl Default for kvm_irq_routing_entry {
    fn default() -> (value: Self)
        ensures
            value.image() == zero_image(48),
    {
        Self::zeroed()
    }
}

impl kvm_irq_routing_msi_u {
    /// The word read as a device identifier.
    pub fn devid(&self) -> (devid: u32)
        ensures
            devid == self.pad,
    {
        self.pad
    }

    /// Stores a device identifier in the word.
    pub fn set_devid(&mut self, devid: u32)
        ensures
            final(self).pad == devid,
    {
        self.pad = devid;
    }
}

impl kvm_irq_routing_entry_u {
    /// The target read as a route to a pin of an interrupt controller.
    pub fn irqchip(&self) -> (route: kvm_irq_routing_irqchip)
        ensures
            route == member_of::<kvm_irq_routing_irqchip>(self.image()),
    {
        member(self)
    }

    /// Stores a route to a pin of an interrupt controller, keeping the bytes after it.
    pub fn set_irqchip(&mut self, route: kvm_irq_routing_irqchip)
        ensures
            final(self).image() == stored(old(self).image(), route),
    {
        store(self, &route);
    }

    /// The target read as a route to a message-signalled interrupt.
    pub fn msi(&self) -> (route: kvm_irq_routing_msi)
        ensures
            route == member_of::<kvm_irq_routing_msi>(self.image()),
    {
        member(self)
    }

    /// Stores a route to a message-signalled interrupt, keeping the bytes after it.
    pub fn set_msi(&mut self, route: kvm_irq_routing_msi)
        ensures
            final(self).image() == stored(old(self).image(), route),
    {
        store(self, &route);
    }

    /// The target read as a route to an adapter interrupt.
    pub fn adapter(&self) -> (route: kvm_irq_routing_s390_adapter)
        ensures
            route == member_of::<kvm_irq_routing_s390_adapter>(self.image()),
    {
        member(self)
    }

    /// Stores a route to an adapter interrupt, keeping the bytes after it.
    pub fn set_adapter(&mut self, route: kvm_irq_routing_s390_adapter)
        ensures
            final(self).image() == stored(old(self).image(), route),
    {
        store(self, &route);
    }

    /// The target read as a route to a synthetic interrupt source.
    pub fn hv_sint(&self) -> (route: kvm_irq_routing_hv_sint)
        ensures
            route == member_of::<kvm_irq_routing_hv_sint>(self.image()),
    {
        member(self)
    }

    /// Stores a route to a synthetic interrupt source, keeping the bytes after it.
    pub fn set_hv_sint(&mut self, route: kvm_irq_routing_hv_sint)
        ensures
            final(self).image() == stored(old(self).image(), route),
    {
        store(self, &route);
    }

    /// The target read as a route to an event channel.
    pub fn xen_evtchn(&self) -> (route: kvm_irq_routing_xen_evtchn)
        ensures
            route == member_of::<kvm_irq_routing_xen_evtchn>(self.image()),
    {
        member(self)
    }

    /// Stores a route to an event channel, keeping the bytes after it.
    pub fn set_xen_evtchn(&mut self, route: kvm_irq_routing_xen_evtchn)
        ensures
            final(self).image() == stored(old(self).image(), route),
    {
        store(self, &route);
    }
}

} // verus!
