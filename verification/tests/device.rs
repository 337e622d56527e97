use kvm_device::codec::{decode, encode, SizeMismatch};
use kvm_device::device::{
    control_result, get_device_attr, has_device_attr, kvm_device_attr, set_device_attr, Error,
};
use kvm_device::ioctl::{
    request_code, DEVICE_ATTR_SIZE, IOC_NONE, IOC_READ, IOC_WRITE, KVMIO, KVM_GET_DEVICE_ATTR,
    KVM_HAS_DEVICE_ATTR, KVM_SET_DEVICE_ATTR,
};
use kvm_device::layout::BinaryStructure;

#[test]
fn operation_numbers_are_those_of_the_kernel() {
    assert_eq!(KVM_SET_DEVICE_ATTR(), 0x4018_aee1);
    assert_eq!(KVM_GET_DEVICE_ATTR(), 0x4018_aee2);
    assert_eq!(KVM_HAS_DEVICE_ATTR(), 0x4018_aee3);
    assert_eq!(DEVICE_ATTR_SIZE as usize, kvm_device_attr::size());
}

#[test]
fn request_code_packs_its_fields() {
    assert_eq!(request_code(IOC_NONE, KVMIO, 0x01, 0), 0xae01);
    assert_eq!(request_code(IOC_READ, KVMIO, 0x04, 8), 0x8008_ae04);
    assert_eq!(request_code(IOC_WRITE, KVMIO, 0xe1, 24), 0x4018_aee1);
    assert_eq!(request_code(IOC_READ | IOC_WRITE, 0xaf, 0x12, 40), 0xc028_af12);
    assert_eq!(request_code(3, 255, 255, 16383), 0xffff_ffff);
    assert_eq!(
        request_code(IOC_WRITE, KVMIO, 0xe3, 24),
        vmm_sys_util::ioctl::ioctl_expr(IOC_WRITE, KVMIO, 0xe3, 24) as u64
    );
}

#[test]
fn request_code_loses_bits_that_do_not_fit() {
    // A direction of four has no bit within the number's thirty-two.
    assert_eq!(request_code(4, 0, 0, 0), 0);
    // A size of 2^14 runs into the direction.
    assert_eq!(request_code(0, 0, 0, 16384), 0x4000_0000);
    // A type of 256 runs into the size.
    assert_eq!(request_code(0, 256, 0, 0), 0x1_0000);
}

#[test]
fn descriptor_image_is_the_four_fields_in_order() {
    let attr = kvm_device_attr {
        group: 0x0102_0304,
        attr: 0x1112_1314_1516_1718,
        addr: 0x2122_2324_2526_2728,
        flags: 0x3132_3334,
    };
    let bytes = encode(&attr);
    assert_eq!(
        bytes,
        vec![
            0x04, 0x03, 0x02, 0x01, 0x18, 0x17, 0x16, 0x15, 0x14, 0x13, 0x12, 0x11, 0x28, 0x27,
            0x26, 0x25, 0x24, 0x23, 0x22, 0x21, 0x34, 0x33, 0x32, 0x31
        ]
    );
    assert_eq!(decode::<kvm_device_attr>(&bytes), Ok(attr));
    assert_eq!(encode(&kvm_device_attr::default()), vec![0u8; 24]);
    assert_eq!(
        decode::<kvm_device_attr>(&bytes[..23]),
        Err(SizeMismatch { expected: 24, actual: 23 })
    );
}

#[test]
fn requests_carry_the_descriptor_unchanged() {
    let attr = kvm_device_attr { group: 1, attr: 4, addr: 0xdead_beef, flags: 0 };
    let has = has_device_attr(&attr);
    assert_eq!(has.code, KVM_HAS_DEVICE_ATTR());
    assert_eq!(has.payload, attr);
    assert!(!has.mutable);
    let set = set_device_attr(&attr);
    assert_eq!(set.code, KVM_SET_DEVICE_ATTR());
    assert_eq!(set.payload, attr);
    assert!(!set.mutable);
    let get = get_device_attr(&attr);
    assert_eq!(get.code, KVM_GET_DEVICE_ATTR());
    assert_eq!(get.payload, attr);
    assert_eq!(get.payload.addr, 0xdead_beef);
    assert!(get.mutable);
}

#[test]
fn zero_return_is_success() {
    assert_eq!(control_result(0, 0), Ok(()));
    // The error number is stale after a success, and is not looked at.
    assert_eq!(control_result(0, libc::EFAULT), Ok(()));
}

#[test]
fn refusal_carries_the_error_number() {
    assert_eq!(control_result(-1, libc::ENOTTY), Err(Error::new(25)));
    assert_eq!(control_result(-1, libc::EFAULT), Err(Error::new(libc::EFAULT)));
    assert_eq!(control_result(-1, libc::ENXIO).unwrap_err().errno(), libc::ENXIO);
    assert_eq!(control_result(-1, libc::ENODEV).unwrap_err().errno(), 19);
    assert_ne!(control_result(-1, libc::EFAULT), control_result(-1, libc::ENXIO));
    // Any return value but zero is a failure.
    assert_eq!(control_result(1, libc::EBUSY), Err(Error::new(libc::EBUSY)));
    assert_eq!(control_result(i32::MIN, 0), Err(Error::new(0)));
}

#[test]
fn unsupported_attribute_is_refused_by_all_three_operations() {
    // A device that does not know the group answers each request with -1 and
    // the same error number; none of the three then reports success.
    let attr = kvm_device_attr { group: 1, attr: 1, addr: 0x0, flags: 0 };
    for request in [has_device_attr(&attr), get_device_attr(&attr), set_device_attr(&attr)] {
        assert_eq!(request.payload.addr, 0x0);
        assert_eq!(control_result(-1, 25).unwrap_err().errno(), 25);
    }
}
