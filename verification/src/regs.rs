//! Register and processor-state structures of a 64-bit Arm guest.
#![allow(non_camel_case_types)]

use crate::arrays::{
    array_of, elements, images, lemma_array_of, lemma_array_of_view, lemma_elements_of_images,
    lemma_images_len, lemma_images_of_elements, read_array, write_array, zeroed_array,
};
use crate::layout::{zero_image, BinaryStructure};
use vstd::prelude::*;
use vstd::slice::slice_subrange;

verus! {

/// The multiprocessing state of a virtual processor.
#[derive(Debug, Clone, Copy, PartialEq, Eq)]
pub struct kvm_mp_state {
    pub mp_state: u32,
}

impl BinaryStructure for kvm_mp_state {
    open spec fn spec_size() -> nat {
        4
    }

    open spec fn image(&self) -> Seq<u8> {
        self.mp_state.image()
    }

    open spec fn from_image(bytes: Seq<u8>) -> Self {
        kvm_mp_state { mp_state: u32::from_image(bytes) }
    }

    proof fn lemma_image_len(&self) {
        self.mp_state.lemma_image_len();
    }

    proof fn lemma_image_of_value(bytes: Seq<u8>) {
        u32::lemma_image_of_value(bytes);
    }

    proof fn lemma_value_of_image(&self) {
        self.mp_state.lemma_value_of_image();
    }

    fn size() -> (n: usize) {
        4
    }

    fn zeroed() -> (value: Self) {
        kvm_mp_state { mp_state: u32::zeroed() }
    }

    fn write_to(&self, out: &mut Vec<u8>) {
        self.mp_state.write_to(out);
    }

    fn read_from(bytes: &[u8]) -> (value: Self) {
        kvm_mp_state { mp_state: u32::read_from(bytes) }
    }
}

impl Default for kvm_mp_state {
    fn default() -> (value: Self)
        ensures
            value.image() == zero_image(4),
    {
        Self::zeroed()
    }
}

/// One register of a virtual processor: its identifier, and the address of
/// the memory that holds or receives its value.
#[derive(Debug, Clone, Copy, PartialEq, Eq)]
pub struct kvm_one_reg {
    pub id: u64,
    pub addr: u64,
}

impl BinaryStructure for kvm_one_reg {
    open spec fn spec_size() -> nat {
        16
    }

    open spec fn image(&self) -> Seq<u8> {
        self.id.image() + self.addr.image()
    }

    open spec fn from_image(bytes: Seq<u8>) -> Self {
        kvm_one_reg {
            id: u64::from_image(bytes.subrange(0, 8)),
            addr: u64::from_image(bytes.subrange(8, 16)),
        }
    }

    proof fn lemma_image_len(&self) {
        self.id.lemma_image_len();
        self.addr.lemma_image_len();
    }

    proof fn lemma_image_of_value(bytes: Seq<u8>) {
        u64::lemma_image_of_value(bytes.subrange(0, 8));
        u64::lemma_image_of_value(bytes.subrange(8, 16));
        assert(Self::from_image(bytes).image() =~= bytes);
    }

    proof fn lemma_value_of_image(&self) {
        self.id.lemma_image_len();
        self.addr.lemma_image_len();
        self.id.lemma_value_of_image();
        self.addr.lemma_value_of_image();
        assert(self.image().subrange(0, 8) =~= self.id.image());
        assert(self.image().subrange(8, 16) =~= self.addr.image());
    }

    fn size() -> (n: usize) {
        16
    }

    fn zeroed() -> (value: Self) {
        let value = kvm_one_reg { id: u64::zeroed(), addr: u64::zeroed() };
        assert(value.image() =~= zero_image(16));
        value
    }

    fn write_to(&self, out: &mut Vec<u8>) {
        self.id.write_to(out);
        self.addr.write_to(out);
        assert(out@ =~= old(out)@ + self.image());
    }

    fn read_from(bytes: &[u8]) -> (value: Self) {
        kvm_one_reg {
            id: u64::read_from(slice_subrange(bytes, 0, 8)),
            addr: u64::read_from(slice_subrange(bytes, 8, 16)),
        }
    }
}

impl Default for kvm_one_reg {
    fn default() -> (value: Self)
        ensures
            value.image() == zero_image(16),
    {
        Self::zeroed()
    }
}

/// The processor model and the features that a virtual processor starts with.
#[derive(Debug, Clone, Copy, PartialEq, Eq)]
pub struct kvm_vcpu_init {
    pub target: u32,
    pub features: [u32; 7],
}

impl BinaryStructure for kvm_vcpu_init {
    open spec fn spec_size() -> nat {
        32
    }

    open spec fn image(&self) -> Seq<u8> {
        self.target.image() + images(self.features@)
    }

    open spec fn from_image(bytes: Seq<u8>) -> Self {
        kvm_vcpu_init {
            target: u32::from_image(bytes.subrange(0, 4)),
            features: array_of::<u32, 7>(elements::<u32>(bytes.subrange(4, 32), 7)),
        }
    }

    proof fn lemma_image_len(&self) {
        broadcast use vstd::array::group_array_axioms;

        self.target.lemma_image_len();
        lemma_images_len(self.features@);
    }

    proof fn lemma_image_of_value(bytes: Seq<u8>) {
        broadcast use vstd::array::group_array_axioms;

        u32::lemma_image_of_value(bytes.subrange(0, 4));
        lemma_images_of_elements::<u32>(bytes.subrange(4, 32), 7);
        lemma_array_of::<u32, 7>(elements::<u32>(bytes.subrange(4, 32), 7));
        assert(Self::from_image(bytes).image() =~= bytes);
    }

    proof fn lemma_value_of_image(&self) {
        broadcast use vstd::array::group_array_axioms;

        self.target.lemma_image_len();
        lemma_images_len(self.features@);
        assert(self.image().subrange(0, 4) =~= self.target.image());
        self.target.lemma_value_of_image();
        assert(self.image().subrange(4, 32) =~= images(self.features@));
        lemma_elements_of_images(self.features@);
        lemma_array_of_view(self.features);
    }

    fn size() -> (n: usize) {
        32
    }

    fn zeroed() -> (value: Self) {
        let value = kvm_vcpu_init {
            target: u32::zeroed(),
            features: zeroed_array::<u32, 7>(),
        };
        assert(value.image() =~= zero_image(32));
        value
    }

    fn write_to(&self, out: &mut Vec<u8>) {
        self.target.write_to(out);
        write_array(&self.features, out);
        assert(out@ =~= old(out)@ + self.image());
    }

    fn read_from(bytes: &[u8]) -> (value: Self) {
        kvm_vcpu_init {
            target: u32::read_from(slice_subrange(bytes, 0, 4)),
            features: read_array::<u32, 7>(slice_subrange(bytes, 4, 32)),
        }
    }
}

impl Default for kvm_vcpu_init {
    fn default() -> (value: Self)
        ensures
            value.image() == zero_image(32),
    {
        Self::zeroed()
    }
}

/// The general-purpose registers of a virtual processor.
#[derive(Debug, Clone, Copy, PartialEq, Eq)]
pub struct user_pt_regs {
    pub regs: [u64; 31],
    pub sp: u64,
    pub pc: u64,
    pub pstate: u64,
}

impl BinaryStructure for user_pt_regs {
    open spec fn spec_size() -> nat {
        272
    }

    open spec fn image(&self) -> Seq<u8> {
        images(self.regs@) + self.sp.image() + self.pc.image() + self.pstate.image()
    }

    open spec fn from_image(bytes: Seq<u8>) -> Self {
        user_pt_regs {
            regs: array_of::<u64, 31>(elements::<u64>(bytes.subrange(0, 248), 31)),
            sp: u64::from_image(bytes.subrange(248, 256)),
            pc: u64::from_image(bytes.subrange(256, 264)),
            pstate: u64::from_image(bytes.subrange(264, 272)),
        }
    }

    proof fn lemma_image_len(&self) {
        broadcast use vstd::array::group_array_axioms;

        lemma_images_len(self.regs@);
        self.sp.lemma_image_len();
        self.pc.lemma_image_len();
        self.pstate.lemma_image_len();
    }

    proof fn lemma_image_of_value(bytes: Seq<u8>) {
        broadcast use vstd::array::group_array_axioms;

        lemma_images_of_elements::<u64>(bytes.subrange(0, 248), 31);
        lemma_array_of::<u64, 31>(elements::<u64>(bytes.subrange(0, 248), 31));
        u64::lemma_image_of_value(bytes.subrange(248, 256));
        u64::lemma_image_of_value(bytes.subrange(256, 264));
        u64::lemma_image_of_value(bytes.subrange(264, 272));
        assert(Self::from_image(bytes).image() =~= bytes);
    }

    proof fn lemma_value_of_image(&self) {
        broadcast use vstd::array::group_array_axioms;

        lemma_images_len(self.regs@);
        self.sp.lemma_image_len();
        self.pc.lemma_image_len();
        self.pstate.lemma_image_len();
        assert(self.image().subrange(0, 248) =~= images(self.regs@));
        lemma_elements_of_images(self.regs@);
        lemma_array_of_view(self.regs);
        assert(self.image().subrange(248, 256) =~= self.sp.image());
        self.sp.lemma_value_of_image();
        assert(self.image().subrange(256, 264) =~= self.pc.image());
        self.pc.lemma_value_of_image();
        assert(self.image().subrange(264, 272) =~= self.pstate.image());
        self.pstate.lemma_value_of_image();
    }

    fn size() -> (n: usize) {
        272
    }

    fn zeroed() -> (value: Self) {
        let value = user_pt_regs {
            regs: zeroed_array::<u64, 31>(),
            sp: u64::zeroed(),
            pc: u64::zeroed(),
            pstate: u64::zeroed(),
        };
        assert(value.image() =~= zero_image(272));
        value
    }

    fn write_to(&self, out: &mut Vec<u8>) {
        write_array(&self.regs, out);
        self.sp.write_to(out);
        self.pc.write_to(out);
        self.pstate.write_to(out);
        assert(out@ =~= old(out)@ + self.image());
    }

    fn read_from(bytes: &[u8]) -> (value: Self) {
        user_pt_regs {
            regs: read_array::<u64, 31>(slice_subrange(bytes, 0, 248)),
            sp: u64::read_from(slice_subrange(bytes, 248, 256)),
            pc: u64::read_from(slice_subrange(bytes, 256, 264)),
            pstate: u64::read_from(slice_subrange(bytes, 264, 272)),
        }
    }
}

impl Default for user_pt_regs {
    fn default() -> (value: Self)
        ensures
            value.image() == zero_image(272),
    {
        Self::zeroed()
    }
}

/// The floating-point and vector registers of a virtual processor.
#[derive(Debug, Clone, Copy, PartialEq, Eq)]
pub struct user_fpsimd_state {
    pub vregs: [u128; 32],
    pub fpsr: u32,
    pub fpcr: u32,
    pub __reserved: [u32; 2],
}

impl BinaryStructure for user_fpsimd_state {
    open spec fn spec_size() -> nat {
        528
    }

    open spec fn image(&self) -> Seq<u8> {
        images(self.vregs@)
            + self.fpsr.image()
            + self.fpcr.image()
            + images(self.__reserved@)
    }

    open spec fn from_image(bytes: Seq<u8>) -> Self {
        user_fpsimd_state {
            vregs: array_of::<u128, 32>(elements::<u128>(bytes.subrange(0, 512), 32)),
            fpsr: u32::from_image(bytes.subrange(512, 516)),
            fpcr: u32::from_image(bytes.subrange(516, 520)),
            __reserved: array_of::<u32, 2>(elements::<u32>(bytes.subrange(520, 528), 2)),
        }
    }

    proof fn lemma_image_len(&self) {
        broadcast use vstd::array::group_array_axioms;

        lemma_images_len(self.vregs@);
        self.fpsr.lemma_image_len();
        self.fpcr.lemma_image_len();
        lemma_images_len(self.__reserved@);
    }

    proof fn lemma_image_of_value(bytes: Seq<u8>) {
        broadcast use vstd::array::group_array_axioms;

        lemma_images_of_elements::<u128>(bytes.subrange(0, 512), 32);
        lemma_array_of::<u128, 32>(elements::<u128>(bytes.subrange(0, 512), 32));
        u32::lemma_image_of_value(bytes.subrange(512, 516));
        u32::lemma_image_of_value(bytes.subrange(516, 520));
        lemma_images_of_elements::<u32>(bytes.subrange(520, 528), 2);
        lemma_array_of::<u32, 2>(elements::<u32>(bytes.subrange(520, 528), 2));
        assert(Self::from_image(bytes).image() =~= bytes);
    }

    proof fn lemma_value_of_image(&self) {
        broadcast use vstd::array::group_array_axioms;

        lemma_images_len(self.vregs@);
        self.fpsr.lemma_image_len();
        self.fpcr.lemma_image_len();
        lemma_images_len(self.__reserved@);
        assert(self.image().subrange(0, 512) =~= images(self.vregs@));
        lemma_elements_of_images(self.vregs@);
        lemma_array_of_view(self.vregs);
        assert(self.image().subrange(512, 516) =~= self.fpsr.image());
        self.fpsr.lemma_value_of_image();
        assert(self.image().subrange(516, 520) =~= self.fpcr.image());
        self.fpcr.lemma_value_of_image();
        assert(self.image().subrange(520, 528) =~= images(self.__reserved@));
        lemma_elements_of_images(self.__reserved@);
        lemma_array_of_view(self.__reserved);
    }

    fn size() -> (n: usize) {
        528
    }

    fn zeroed() -> (value: Self) {
        let value = user_fpsimd_state {
            vregs: zeroed_array::<u128, 32>(),
            fpsr: u32::zeroed(),
            fpcr: u32::zeroed(),
            __reserved: zeroed_array::<u32, 2>(),
        };
        assert(value.image() =~= zero_image(528));
        value
    }

    fn write_to(&self, out: &mut Vec<u8>) {
        write_array(&self.vregs, out);
        self.fpsr.write_to(out);
        self.fpcr.write_to(out);
        write_array(&self.__reserved, out);
        assert(out@ =~= old(out)@ + self.image());
    }

    fn read_from(bytes: &[u8]) -> (value: Self) {
        user_fpsimd_state {
            vregs: read_array::<u128, 32>(slice_subrange(bytes, 0, 512)),
            fpsr: u32::read_from(slice_subrange(bytes, 512, 516)),
            fpcr: u32::read_from(slice_subrange(bytes, 516, 520)),
            __reserved: read_array::<u32, 2>(slice_subrange(bytes, 520, 528)),
        }
    }
}

impl Default for user_fpsimd_state {
    fn default() -> (value: Self)
        ensures
            value.image() == zero_image(528),
    {
        Self::zeroed()
    }
}

/// The register file of a virtual processor.
#[derive(Debug, Clone, Copy, PartialEq, Eq)]
pub struct kvm_regs {
    pub regs: user_pt_regs,
    pub sp_el1: u64,
    pub elr_el1: u64,
    pub spsr: [u64; 5],
    /// The eight bytes that bring `fp_regs` to a multiple of sixteen.
    pub padding: u64,
    pub fp_regs: user_fpsimd_state,
}

impl BinaryStructure for kvm_regs {
    open spec fn spec_size() -> nat {
        864
    }

    open spec fn image(&self) -> Seq<u8> {
        self.regs.image()
            + self.sp_el1.image()
            + self.elr_el1.image()
            + images(self.spsr@)
            + self.padding.image()
            + self.fp_regs.image()
    }

    open spec fn from_image(bytes: Seq<u8>) -> Self {
        kvm_regs {
            regs: user_pt_regs::from_image(bytes.subrange(0, 272)),
            sp_el1: u64::from_image(bytes.subrange(272, 280)),
            elr_el1: u64::from_image(bytes.subrange(280, 288)),
            spsr: array_of::<u64, 5>(elements::<u64>(bytes.subrange(288, 328), 5)),
            padding: u64::from_image(bytes.subrange(328, 336)),
            fp_regs: user_fpsimd_state::from_image(bytes.subrange(336, 864)),
        }
    }

    proof fn lemma_image_len(&self) {
        broadcast use vstd::array::group_array_axioms;

        self.regs.lemma_image_len();
        self.sp_el1.lemma_image_len();
        self.elr_el1.lemma_image_len();
        lemma_images_len(self.spsr@);
        self.padding.lemma_image_len();
        self.fp_regs.lemma_image_len();
    }

    proof fn lemma_image_of_value(bytes: Seq<u8>) {
        broadcast use vstd::array::group_array_axioms;

        user_pt_regs::lemma_image_of_value(bytes.subrange(0, 272));
        u64::lemma_image_of_value(bytes.subrange(272, 280));
        u64::lemma_image_of_value(bytes.subrange(280, 288));
        lemma_images_of_elements::<u64>(bytes.subrange(288, 328), 5);
        lemma_array_of::<u64, 5>(elements::<u64>(bytes.subrange(288, 328), 5));
        u64::lemma_image_of_value(bytes.subrange(328, 336));
        user_fpsimd_state::lemma_image_of_value(bytes.subrange(336, 864));
        assert(Self::from_image(bytes).image() =~= bytes);
    }

    proof fn lemma_value_of_image(&self) {
        broadcast use vstd::array::group_array_axioms;

        self.regs.lemma_image_len();
        self.sp_el1.lemma_image_len();
        self.elr_el1.lemma_image_len();
        lemma_images_len(self.spsr@);
        self.padding.lemma_image_len();
        self.fp_regs.lemma_image_len();
        assert(self.image().subrange(0, 272) =~= self.regs.image());
        self.regs.lemma_value_of_image();
        assert(self.image().subrange(272, 280) =~= self.sp_el1.image());
        self.sp_el1.lemma_value_of_image();
        assert(self.image().subrange(280, 288) =~= self.elr_el1.image());
        self.elr_el1.lemma_value_of_image();
        assert(self.image().subrange(288, 328) =~= images(self.spsr@));
        lemma_elements_of_images(self.spsr@);
        lemma_array_of_view(self.spsr);
        assert(self.image().subrange(328, 336) =~= self.padding.image());
        self.padding.lemma_value_of_image();
        assert(self.image().subrange(336, 864) =~= self.fp_regs.image());
        self.fp_regs.lemma_value_of_image();
    }

    fn size() -> (n: usize) {
        864
    }

    fn zeroed() -> (value: Self) {
        let value = kvm_regs {
            regs: user_pt_regs::zeroed(),
            sp_el1: u64::zeroed(),
            elr_el1: u64::zeroed(),
            spsr: zeroed_array::<u64, 5>(),
            padding: u64::zeroed(),
            fp_regs: user_fpsimd_state::zeroed(),
        };
        assert(value.image() =~= zero_image(864));
        value
    }

    fn write_to(&self, out: &mut Vec<u8>) {
        self.regs.write_to(out);
        self.sp_el1.write_to(out);
        self.elr_el1.write_to(out);
        write_array(&self.spsr, out);
        self.padding.write_to(out);
        self.fp_regs.write_to(out);
        assert(out@ =~= old(out)@ + self.image());
    }

    fn read_from(bytes: &[u8]) -> (value: Self) {
        kvm_regs {
            regs: user_pt_regs::read_from(slice_subrange(bytes, 0, 272)),
            sp_el1: u64::read_from(slice_subrange(bytes, 272, 280)),
            elr_el1: u64::read_from(slice_subrange(bytes, 280, 288)),
            spsr: read_array::<u64, 5>(slice_subrange(bytes, 288, 328)),
            padding: u64::read_from(slice_subrange(bytes, 328, 336)),
            fp_regs: user_fpsimd_state::read_from(slice_subrange(bytes, 336, 864)),
        }
    }
}

impl Default for kvm_regs {
    fn default() -> (value: Self)
        ensures
            value.image() == zero_image(864),
    {
        Self::zeroed()
    }
}

} // verus!
