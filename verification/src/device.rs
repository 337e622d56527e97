//! The device attribute protocol: testing for, setting and getting an
//! attribute of an emulated device.
//!
//! Each of the three operations is one control request to the kernel and one
//! answer. This module decides what is sent and what an answer means; the
//! owner of the device's descriptor performs the request in between.
#![allow(non_camel_case_types)]

use crate::ioctl::{KVM_GET_DEVICE_ATTR, KVM_HAS_DEVICE_ATTR, KVM_SET_DEVICE_ATTR};
use crate::layout::{zero_image, BinaryStructure};
use vstd::prelude::*;
use vstd::slice::slice_subrange;

verus! {

/// A device attribute descriptor: which attribute of a device is meant, and
/// where the caller keeps its value.
///
/// The image holds the four fields in the order of their declaration,
/// without padding.
#[derive(Debug, Clone, Copy, PartialEq, Eq, Structural)]
pub struct kvm_device_attr {
    /// The group of attributes, which the device defines.
    pub group: u32,
    /// The attribute within the group.
    pub attr: u64,
    /// The address of the caller's memory for the attribute's value. Nothing
    /// here can check that it is valid: that is up to the caller.
    pub addr: u64,
    /// Reserved.
    pub flags: u32,
}

impl BinaryStructure for kvm_device_attr {
    open spec fn spec_size() -> nat {
        24
    }

    open spec fn image(&self) -> Seq<u8> {
        self.group.image() + self.attr.image() + self.addr.image() + self.flags.image()
    }

    open spec fn from_image(bytes: Seq<u8>) -> Self {
        kvm_device_attr {
            group: u32::from_image(bytes.subrange(0, 4)),
            attr: u64::from_image(bytes.subrange(4, 12)),
            addr: u64::from_image(bytes.subrange(12, 20)),
            flags: u32::from_image(bytes.subrange(20, 24)),
        }
    }

    proof fn lemma_image_len(&self) {
        self.group.lemma_image_len();
        self.attr.lemma_image_len();
        self.addr.lemma_image_len();
        self.flags.lemma_image_len();
    }

    proof fn lemma_image_of_value(bytes: Seq<u8>) {
        u32::lemma_image_of_value(bytes.subrange(0, 4));
        u64::lemma_image_of_value(bytes.subrange(4, 12));
        u64::lemma_image_of_value(bytes.subrange(12, 20));
        u32::lemma_image_of_value(bytes.subrange(20, 24));
        assert(Self::from_image(bytes).image() =~= bytes);
    }

    proof fn lemma_value_of_image(&self) {
        self.group.lemma_image_len();
        self.attr.lemma_image_len();
        self.addr.lemma_image_len();
        self.flags.lemma_image_len();
        assert(self.image().subrange(0, 4) =~= self.group.image());
        self.group.lemma_value_of_image();
        assert(self.image().subrange(4, 12) =~= self.attr.image());
        self.attr.lemma_value_of_image();
        assert(self.image().subrange(12, 20) =~= self.addr.image());
        self.addr.lemma_value_of_image();
        assert(self.image().subrange(20, 24) =~= self.flags.image());
        self.flags.lemma_value_of_image();
    }

    fn size() -> (n: usize) {
        24
    }

    fn zeroed() -> (value: Self) {
        let value = kvm_device_attr {
            group: u32::zeroed(),
            attr: u64::zeroed(),
            addr: u64::zeroed(),
            flags: u32::zeroed(),
        };
        assert(value.image() =~= zero_image(24));
        value
    }

    fn write_to(&self, out: &mut Vec<u8>) {
        self.group.write_to(out);
        self.attr.write_to(out);
        self.addr.write_to(out);
        self.flags.write_to(out);
        assert(out@ =~= old(out)@ + self.image());
    }

    fn read_from(bytes: &[u8]) -> (value: Self) {
        kvm_device_attr {
            group: u32::read_from(slice_subrange(bytes, 0, 4)),
            attr: u64::read_from(slice_subrange(bytes, 4, 12)),
            addr: u64::read_from(slice_subrange(bytes, 12, 20)),
            flags: u32::read_from(slice_subrange(bytes, 20, 24)),
        }
    }
}

impl Default for kvm_device_attr {
    fn default() -> (value: Self)
        ensures
            value.image() == zero_image(24),
    {
        Self::zeroed()
    }
}

/// The failure of a control request: the error number that the operating
/// system reported for it.
#[derive(Debug, Clone, Copy, PartialEq, Eq, Structural)]
pub struct Error {
    /// The error number.
    pub errno: i32,
}

impl Error {
    /// The error with the given error number.
    pub fn new(errno: i32) -> (error: Error)
        ensures
            error == (Error { errno }),
    {
        Error { errno }
    }

    /// The error number.
    pub fn errno(&self) -> (errno: i32)
        ensures
            errno == self.errno,
    {
        self.errno
    }
}

/// One of the three operations on a device attribute.
#[derive(Debug, Clone, Copy, PartialEq, Eq, Structural)]
pub enum AttrOperation {
    /// Tests whether the device has the attribute.
    HasAttr,
    /// Sets the attribute from the caller's memory.
    SetAttr,
    /// Gets the attribute into the caller's memory.
    GetAttr,
}

/// The number of the control operation that performs `operation`.
pub open spec fn operation_code(operation: AttrOperation) -> u64 {
    match operation {
        AttrOperation::HasAttr => 0x4018_aee3,
        AttrOperation::SetAttr => 0x4018_aee1,
        AttrOperation::GetAttr => 0x4018_aee2,
    }
}

/// One control request on a device: what to hand to the kernel.
#[derive(Debug, Clone, Copy, PartialEq, Eq, Structural)]
pub struct ControlRequest {
    /// The number of the control operation.
    pub code: u64,
    /// The descriptor that is the operation's payload.
    pub payload: kvm_device_attr,
    /// Whether the kernel gets the payload for writing. It does only when
    /// the attribute is fetched.
    pub mutable: bool,
}

/// The request that `operation` on the attribute `device_attr` makes.
pub open spec fn request_for(operation: AttrOperation, device_attr: kvm_device_attr)
    -> ControlRequest {
    ControlRequest {
        code: operation_code(operation),
        payload: device_attr,
        mutable: operation == AttrOperation::GetAttr,
    }
}

/// What the answer to a control request means: success for a zero return
/// value, and otherwise the failure with the error number that came with it.
pub open spec fn outcome(ret: i32, errno: i32) -> Result<(), Error> {
    if ret == 0 {
        Ok(())
    } else {
        Err(Error { errno })
    }
}

impl AttrOperation {
    /// The number of the control operation that performs the operation.
    pub fn code(self) -> (code: u64)
        ensures
            code == operation_code(self),
    {
        match self {
            AttrOperation::HasAttr => KVM_HAS_DEVICE_ATTR(),
            AttrOperation::SetAttr => KVM_SET_DEVICE_ATTR(),
            AttrOperation::GetAttr => KVM_GET_DEVICE_ATTR(),
        }
    }
}

/// The request that `operation` on the attribute `device_attr` makes: the
/// one primitive that the three operations share.
pub fn request(operation: AttrOperation, device_attr: &kvm_device_attr) -> (request:
    ControlRequest)
    ensures
        request == request_for(operation, *device_attr),
{
    let mutable = match operation {
        AttrOperation::GetAttr => true,
        _ => false,
    };
    ControlRequest { code: operation.code(), payload: *device_attr, mutable }
}

/// The request that tests whether a device has the attribute. The kernel
/// does not look at `addr` for it.
pub fn has_device_attr(device_attr: &kvm_device_attr) -> (request: ControlRequest)
    ensures
        request == request_for(AttrOperation::HasAttr, *device_attr),
{
    self::request(AttrOperation::HasAttr, device_attr)
}

/// The request that sets the attribute from the memory at `addr`.
pub fn set_device_attr(device_attr: &kvm_device_attr) -> (request: ControlRequest)
    ensures
        request == request_for(AttrOperation::SetAttr, *device_attr),
{
    self::request(AttrOperation::SetAttr, device_attr)
}

/// The request that gets the attribute into the memory at `addr`. Whoever
/// performs it must know that the memory at `addr` may be written.
pub fn get_device_attr(device_attr: &kvm_device_attr) -> (request: ControlRequest)
    ensures
        request == request_for(AttrOperation::GetAttr, *device_attr),
{
    self::request(AttrOperation::GetAttr, device_attr)
}

/// The result of a control request that returned `ret`, with `errno` the
/// error number that the operating system holds after it.
pub fn control_result(ret: i32, errno: i32) -> (result: Result<(), Error>)
    ensures
        result == outcome(ret, errno),
        result is Ok <==> ret == 0,
        result matches Err(error) ==> error.errno == errno,
{
    if ret != 0 {
        return Err(Error::new(errno));
    }
    Ok(())
}

/// The three operations have three different numbers.
pub proof fn lemma_operation_codes_differ(a: AttrOperation, b: AttrOperation)
    ensures
        operation_code(a) == operation_code(b) <==> a == b,
{
}

/// No request changes the descriptor, its address included, and only the
/// request that gets an attribute lets the kernel write to the payload.
pub proof fn lemma_request_keeps_descriptor(operation: AttrOperation, device_attr: kvm_device_attr)
    ensures
        request_for(operation, device_attr).payload == device_attr,
        request_for(operation, device_attr).payload.addr == device_attr.addr,
        request_for(operation, device_attr).mutable <==> operation == AttrOperation::GetAttr,
{
}

/// A request that the kernel refused is never reported as a success, and its
/// failure carries the error number unchanged.
pub proof fn lemma_refusal_is_reported(ret: i32, errno: i32)
    requires
        ret != 0,
    ensures
        outcome(ret, errno) == Err::<(), Error>(Error { errno }),
        !(outcome(ret, errno) is Ok),
{
}

} // verus!
