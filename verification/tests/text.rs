use kvm_device::codec::{decode_text, encode, encode_text, SizeMismatch, TextError};
use kvm_device::regs::{kvm_mp_state, kvm_one_reg, kvm_regs};
use kvm_device::routing::kvm_irq_routing_entry;
use kvm_device::text::{bytes_to_text, text_to_bytes};

#[test]
fn text_lists_the_bytes_in_decimal() {
    assert_eq!(bytes_to_text(&[]), "[]");
    assert_eq!(bytes_to_text(&[0]), "[0]");
    assert_eq!(bytes_to_text(&[9, 10, 99, 100, 101, 255]), "[9,10,99,100,101,255]");
    assert_eq!(encode_text(&kvm_mp_state { mp_state: 0x0100_ff07 }), "[7,255,0,1]");
    assert_eq!(
        encode_text(&kvm_one_reg { id: 1, addr: 0x0200 }),
        "[1,0,0,0,0,0,0,0,0,2,0,0,0,0,0,0]"
    );
}

#[test]
fn text_of_every_byte_is_read_back() {
    let all: Vec<u8> = (0..=255).collect();
    let text = bytes_to_text(&all);
    assert_eq!(text_to_bytes(&text), Some(all.clone()));
    assert_eq!(text, serde_json::to_string(&all).unwrap());
    for byte in 0..=255u8 {
        assert_eq!(bytes_to_text(&[byte]), format!("[{}]", byte));
        assert_eq!(text_to_bytes(&format!("[{}]", byte)), Some(vec![byte]));
    }
}

#[test]
fn text_round_trips_for_any_bit_pattern() {
    let bytes: Vec<u8> = (0..864u32).map(|i| (i * 31 + 5) as u8).collect();
    let text = bytes_to_text(&bytes);
    let regs: kvm_regs = decode_text(&text).unwrap();
    assert_eq!(encode(&regs), bytes);
    assert_eq!(encode_text(&regs), text);
}

#[test]
fn malformed_text_is_refused() {
    for text in [
        "", "[", "]", "][", "[,]", "[1,]", "[,1]", "[1,,2]", "[1 ,2]", "[ 1]", "[1] ", " [1]",
        "[01]", "[00]", "[256]", "[300]", "[1000]", "[0255]", "[-1]", "[+1]", "[1.0]", "[1e0]",
        "[a]", "[1;2]", "[1,2", "1,2]", "[1]]", "[[1]]", "[1,2]x", "(1,2)", "[\u{663}]",
        "[1,\u{e9}]", "[null]", "\"AQ==\"",
    ] {
        assert_eq!(text_to_bytes(text), None, "{:?}", text);
        assert_eq!(decode_text::<kvm_mp_state>(text), Err(TextError::Malformed), "{:?}", text);
    }
}

#[test]
fn text_with_another_count_of_bytes_is_a_size_mismatch() {
    assert_eq!(
        decode_text::<kvm_mp_state>("[]"),
        Err(TextError::Size(SizeMismatch { expected: 4, actual: 0 }))
    );
    assert_eq!(
        decode_text::<kvm_mp_state>("[1,2,3]"),
        Err(TextError::Size(SizeMismatch { expected: 4, actual: 3 }))
    );
    assert_eq!(
        decode_text::<kvm_mp_state>("[1,2,3,4,5]"),
        Err(TextError::Size(SizeMismatch { expected: 4, actual: 5 }))
    );
    assert_eq!(decode_text::<kvm_mp_state>("[1,2,3,4]"), Ok(kvm_mp_state { mp_state: 0x0403_0201 }));
    let text = encode_text(&kvm_irq_routing_entry::default());
    assert_eq!(
        decode_text::<kvm_one_reg>(&text),
        Err(TextError::Size(SizeMismatch { expected: 16, actual: 48 }))
    );
}

#[test]
fn numbers_at_the_edge_of_a_byte() {
    assert_eq!(text_to_bytes("[255,249,250,199,200]"), Some(vec![255, 249, 250, 199, 200]));
    assert_eq!(text_to_bytes("[260]"), None);
    assert_eq!(text_to_bytes("[256,1]"), None);
    assert_eq!(text_to_bytes("[1,999]"), None);
    assert_eq!(text_to_bytes("[0,0]"), Some(vec![0, 0]));
    assert_eq!(text_to_bytes("[10,100]"), Some(vec![10, 100]));
}
