//! Numbers of control operations.
//!
//! A control operation is named by one number that packs four fields: the
//! direction of the transfer, the type of the device family, the number of
//! the operation within the family, and the size of the payload.
#![allow(non_snake_case)]

use vstd::prelude::*;

verus! {

/// The type of the hypervisor's family of control operations.
pub const KVMIO: u32 = 0xAE;

/// Direction of an operation without payload.
pub const IOC_NONE: u32 = 0;

/// Direction of an operation whose payload the caller writes.
pub const IOC_WRITE: u32 = 1;

/// Direction of an operation whose payload the caller reads.
pub const IOC_READ: u32 = 2;

/// The size in bytes of a device attribute descriptor.
pub const DEVICE_ATTR_SIZE: u32 = 24;

/// Whether the four fields fit in the bits that the number gives them: two
/// for the direction, eight for the type, eight for the operation, fourteen
/// for the size.
pub open spec fn fields_fit(dir: u32, ty: u32, nr: u32, size: u32) -> bool {
    dir < 4 && ty < 256 && nr < 256 && size < 16384
}

/// The number that packs the four fields, for fields that fit.
pub open spec fn packed(dir: u32, ty: u32, nr: u32, size: u32) -> int {
    dir * 0x4000_0000 + size * 0x1_0000 + ty * 0x100 + nr
}

/// The number as the shifts compute it, for any fields: bits that a shift
/// pushes beyond the thirty-second are lost.
pub open spec fn shifted(dir: u32, ty: u32, nr: u32, size: u32) -> u32 {
    (dir << 30u32) | (ty << 8u32) | (nr << 0u32) | (size << 16u32)
}

/// `vmm_sys_util::ioctl::ioctl_expr`: the four fields, each shifted to its
/// place in thirty-two bits, joined by bitwise or and widened.
#[verifier::external_body]
fn ioctl_expr(dir: u32, ty: u32, nr: u32, size: u32) -> (code: u64)
    ensures
        code == shifted(dir, ty, nr, size),
{
    vmm_sys_util::ioctl::ioctl_expr(dir, ty, nr, size) as u64
}

/// Fields that fit do not overlap: the shifted number is the packed one.
pub proof fn lemma_shifted_is_packed(dir: u32, ty: u32, nr: u32, size: u32)
    requires
        fields_fit(dir, ty, nr, size),
    ensures
        shifted(dir, ty, nr, size) == packed(dir, ty, nr, size),
{
    assert(dir < 4 && ty < 256 && nr < 256 && size < 16384 ==> ((dir << 30u32) | (ty << 8u32) | (nr
        << 0u32) | (size << 16u32)) == dir * 0x4000_0000 + size * 0x1_0000 + ty * 0x100 + nr)
        by (bit_vector);
}

/// The number of the control operation with the given fields.
pub fn request_code(dir: u32, ty: u32, nr: u32, size: u32) -> (code: u64)
    ensures
        code == shifted(dir, ty, nr, size),
        fields_fit(dir, ty, nr, size) ==> code == packed(dir, ty, nr, size),
{
    proof {
        if fields_fit(dir, ty, nr, size) {
            lemma_shifted_is_packed(dir, ty, nr, size);
        }
    }
    ioctl_expr(dir, ty, nr, size)
}

/// The number of the operation that sets a device attribute.
pub fn KVM_SET_DEVICE_ATTR() -> (code: u64)
    ensures
        code == packed(IOC_WRITE, KVMIO, 0xe1, DEVICE_ATTR_SIZE),
        code == 0x4018_aee1,
{
    request_code(IOC_WRITE, KVMIO, 0xe1, DEVICE_ATTR_SIZE)
}

/// The number of the operation that gets a device attribute.
pub fn KVM_GET_DEVICE_ATTR() -> (code: u64)
    ensures
        code == packed(IOC_WRITE, KVMIO, 0xe2, DEVICE_ATTR_SIZE),
        code == 0x4018_aee2,
{
    request_code(IOC_WRITE, KVMIO, 0xe2, DEVICE_ATTR_SIZE)
}

/// The number of the operation that tests for a device attribute.
pub fn KVM_HAS_DEVICE_ATTR() -> (code: u64)
    ensures
        code == packed(IOC_WRITE, KVMIO, 0xe3, DEVICE_ATTR_SIZE),
        code == 0x4018_aee3,
{
    request_code(IOC_WRITE, KVMIO, 0xe3, DEVICE_ATTR_SIZE)
}

} // verus!
