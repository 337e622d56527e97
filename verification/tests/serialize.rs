use kvm_device::codec::{decode, decode_text, encode, encode_text, SizeMismatch};
use kvm_device::layout::BinaryStructure;
use kvm_device::regs::{
    kvm_mp_state, kvm_one_reg, kvm_regs, kvm_vcpu_init, user_fpsimd_state, user_pt_regs,
};
use kvm_device::routing::{kvm_irq_routing, kvm_irq_routing_entry};

fn is_serde<T: BinaryStructure + Default>() {
    let config = bincode::config::standard();
    let serialized = bincode::serde::encode_to_vec(encode(&T::default()), config).unwrap();
    let (bytes, _): (Vec<u8>, _) = bincode::serde::decode_from_slice(&serialized, config).unwrap();
    let deserialized: T = decode(&bytes).unwrap();
    let serialized_again = bincode::serde::encode_to_vec(encode(&deserialized), config).unwrap();
    // Compare the serialized state after a roundtrip: some structures hold
    // union regions, so only the bytes say what they are.
    assert_eq!(serialized, serialized_again);
}

#[test]
fn static_assert_serde_implementations() {
    is_serde::<user_pt_regs>();
    is_serde::<user_fpsimd_state>();
    is_serde::<kvm_regs>();
    is_serde::<kvm_vcpu_init>();
    is_serde::<kvm_mp_state>();
    is_serde::<kvm_one_reg>();
    is_serde::<kvm_irq_routing>();
    is_serde::<kvm_irq_routing_entry>();
}

fn is_serde_json<T: BinaryStructure + Default>() {
    let serialized = encode_text(&T::default());
    let deserialized = decode_text::<T>(serialized.as_ref()).unwrap();
    let serialized_again = encode_text(&deserialized);
    // Compare the serialized state after a roundtrip: some structures hold
    // union regions, so only the bytes say what they are.
    assert_eq!(serialized, serialized_again);
    // The text is the JSON array of the image's bytes.
    assert_eq!(serialized, serde_json::to_string(&encode(&T::default())).unwrap());
    assert_eq!(serde_json::from_str::<Vec<u8>>(&serialized).unwrap(), encode(&deserialized));
}

#[test]
fn test_json_serde() {
    is_serde_json::<user_pt_regs>();
    is_serde_json::<user_fpsimd_state>();
    is_serde_json::<kvm_regs>();
    is_serde_json::<kvm_vcpu_init>();
    is_serde_json::<kvm_mp_state>();
    is_serde_json::<kvm_one_reg>();
    is_serde_json::<kvm_irq_routing>();
    is_serde_json::<kvm_irq_routing_entry>();
}

fn default_is_zero_and_round_trips<T: BinaryStructure + Default + PartialEq + std::fmt::Debug>(
    size: usize,
) {
    let value = T::default();
    let bytes = encode(&value);
    assert_eq!(T::size(), size);
    assert_eq!(bytes, vec![0u8; size]);
    let again: T = decode(&bytes).unwrap();
    assert_eq!(again, value);
    assert_eq!(encode(&again), bytes);
}

#[test]
fn default_of_every_structure_is_all_zero() {
    default_is_zero_and_round_trips::<user_pt_regs>(272);
    default_is_zero_and_round_trips::<user_fpsimd_state>(528);
    default_is_zero_and_round_trips::<kvm_regs>(864);
    default_is_zero_and_round_trips::<kvm_vcpu_init>(32);
    default_is_zero_and_round_trips::<kvm_mp_state>(4);
    default_is_zero_and_round_trips::<kvm_one_reg>(16);
    default_is_zero_and_round_trips::<kvm_irq_routing>(8);
    default_is_zero_and_round_trips::<kvm_irq_routing_entry>(48);
}

fn refuses_other_sizes<T: BinaryStructure + std::fmt::Debug>() {
    let size = T::size();
    for len in [0, 1, size - 1, size + 1, 2 * size] {
        let bytes = vec![0xa5u8; len];
        let result: Result<T, SizeMismatch> = decode(&bytes);
        assert_eq!(result.unwrap_err(), SizeMismatch { expected: size, actual: len });
    }
}

#[test]
fn decode_refuses_every_other_size() {
    refuses_other_sizes::<user_pt_regs>();
    refuses_other_sizes::<user_fpsimd_state>();
    refuses_other_sizes::<kvm_regs>();
    refuses_other_sizes::<kvm_vcpu_init>();
    refuses_other_sizes::<kvm_mp_state>();
    refuses_other_sizes::<kvm_one_reg>();
    refuses_other_sizes::<kvm_irq_routing>();
    refuses_other_sizes::<kvm_irq_routing_entry>();
}

#[test]
fn decode_of_an_empty_buffer_is_a_size_mismatch() {
    let result: Result<kvm_mp_state, SizeMismatch> = decode(&[]);
    assert_eq!(result, Err(SizeMismatch { expected: 4, actual: 0 }));
}

#[test]
fn integers_are_little_endian() {
    assert_eq!(encode(&0x0403_0201u32), vec![1, 2, 3, 4]);
    assert_eq!(encode(&0x0807_0605_0403_0201u64), vec![1, 2, 3, 4, 5, 6, 7, 8]);
    assert_eq!(
        encode(&0x100f_0e0d_0c0b_0a09_0807_0605_0403_0201u128),
        vec![1, 2, 3, 4, 5, 6, 7, 8, 9, 10, 11, 12, 13, 14, 15, 16]
    );
    assert_eq!(decode::<u32>(&[1, 2, 3, 4]), Ok(0x0403_0201));
    assert_eq!(decode::<u64>(&[1, 2, 3, 4, 5, 6, 7, 8]), Ok(0x0807_0605_0403_0201));
    assert_eq!(
        decode::<u128>(&[1, 2, 3, 4, 5, 6, 7, 8, 9, 10, 11, 12, 13, 14, 15, 16]),
        Ok(0x100f_0e0d_0c0b_0a09_0807_0605_0403_0201)
    );
    assert_eq!(encode(&u32::MAX), vec![0xff; 4]);
    assert_eq!(decode::<u64>(&[0xff; 8]), Ok(u64::MAX));
}

#[test]
fn one_reg_image_is_id_then_addr() {
    let reg = kvm_one_reg { id: 0x6030_0000_0010_0000, addr: 0x7fff_1234_5678 };
    let bytes = encode(&reg);
    assert_eq!(
        bytes,
        vec![0, 0, 0x10, 0, 0, 0, 0x30, 0x60, 0x78, 0x56, 0x34, 0x12, 0xff, 0x7f, 0, 0]
    );
    assert_eq!(decode::<kvm_one_reg>(&bytes), Ok(reg));
}

#[test]
fn vcpu_init_image_is_target_then_features() {
    let init = kvm_vcpu_init { target: 5, features: [1, 2, 3, 4, 5, 6, 0x8000_0000] };
    let bytes = encode(&init);
    assert_eq!(bytes.len(), 32);
    assert_eq!(&bytes[0..4], &[5, 0, 0, 0]);
    assert_eq!(&bytes[4..8], &[1, 0, 0, 0]);
    assert_eq!(&bytes[24..28], &[6, 0, 0, 0]);
    assert_eq!(&bytes[28..32], &[0, 0, 0, 0x80]);
    assert_eq!(decode::<kvm_vcpu_init>(&bytes), Ok(init));
}

#[test]
fn register_file_fields_stand_at_their_offsets() {
    let mut regs = kvm_regs::default();
    regs.regs.regs[0] = 0x11;
    regs.regs.regs[30] = 0x22;
    regs.regs.sp = 0x33;
    regs.regs.pc = 0x44;
    regs.regs.pstate = 0x55;
    regs.sp_el1 = 0x66;
    regs.elr_el1 = 0x77;
    regs.spsr[4] = 0x88;
    regs.padding = 0x99;
    regs.fp_regs.vregs[0] = 0xaa;
    regs.fp_regs.vregs[31] = 0xbb << 120;
    regs.fp_regs.fpsr = 0xcc;
    regs.fp_regs.fpcr = 0xdd;
    regs.fp_regs.__reserved[1] = 0xee;
    let bytes = encode(&regs);
    assert_eq!(bytes.len(), 864);
    let set: Vec<(usize, u8)> =
        bytes.iter().copied().enumerate().filter(|(_, byte)| *byte != 0).collect();
    assert_eq!(
        set,
        vec![
            (0, 0x11),
            (240, 0x22),
            (248, 0x33),
            (256, 0x44),
            (264, 0x55),
            (272, 0x66),
            (280, 0x77),
            (320, 0x88),
            (328, 0x99),
            (336, 0xaa),
            (847, 0xbb),
            (848, 0xcc),
            (852, 0xdd),
            (860, 0xee),
        ]
    );
    assert_eq!(decode::<kvm_regs>(&bytes), Ok(regs));
}

#[test]
fn every_bit_pattern_is_a_value() {
    let bytes: Vec<u8> = (0..864u32).map(|i| (i * 7 + 3) as u8).collect();
    let regs: kvm_regs = decode(&bytes).unwrap();
    assert_eq!(encode(&regs), bytes);
    let bytes: Vec<u8> = (0..48u32).map(|i| (255 - i) as u8).collect();
    let entry: kvm_irq_routing_entry = decode(&bytes).unwrap();
    assert_eq!(encode(&entry), bytes);
}
