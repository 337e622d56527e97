//! Device-attribute control protocol of a hypervisor's emulated devices, and
//! the byte-exact serialization of the fixed-layout structures exchanged with
//! the kernel.

pub mod arrays;
pub mod codec;
pub mod device;
pub mod endian;
pub mod ioctl;
pub mod layout;
pub mod regs;
pub mod routing;
pub mod text;
pub mod unions;
