//! The uniform face of a domain: the `Basic` capabilities every domain
//! interface extends, the registry of interface kinds, and the small
//! plain-data types that cross particular interfaces.

use vstd::prelude::*;
use crate::AlienError;

verus! {

/// Capabilities common to every domain interface: a stable identifier
/// for the current instance and a liveness flag that turns false once
/// the instance has crashed.  Implemented by domain implementations and
/// by the proxies that stand in front of them, which report the id and
/// liveness of the implementation currently installed.
pub trait Basic: Sized {
    spec fn spec_domain_id(self) -> u64;

    spec fn spec_is_active(self) -> bool;

    fn domain_id(&self) -> (r: u64)
        ensures
            r == self.spec_domain_id(),
    ;

    fn is_active(&self) -> (r: bool)
        ensures
            r == self.spec_is_active(),
    ;
}

/// The identifier buffer handed to domain creation must hold at least
/// 32 bytes; a shorter buffer is a malformed argument, rejected before
/// the kernel service is reached.
pub fn check_domain_identifier(identifier: &[u8]) -> (r: Result<(), AlienError>)
    ensures
        identifier@.len() >= 32 ==> r == Ok::<(), AlienError>(()),
        identifier@.len() < 32 ==> r == Err::<(), AlienError>(AlienError::InvalidArgument),
{
    if identifier.len() < 32 {
        Err(AlienError::InvalidArgument)
    } else {
        Ok(())
    }
}

/// The kind of interface a domain implements.
#[derive(Debug, Clone, Copy, PartialEq, Eq, Structural)]
pub enum DomainTypeRaw {
    FsDomain,
    BlkDeviceDomain,
    CacheBlkDeviceDomain,
    RtcDomain,
    GpuDomain,
    InputDomain,
    VfsDomain,
    UartDomain,
    PLICDomain,
    TaskDomain,
    SysCallDomain,
    ShadowBlockDomain,
    BufUartDomain,
    NetDeviceDomain,
    BufInputDomain,
    EmptyDeviceDomain,
    DevFsDomain,
    SchedulerDomain,
    LogDomain,
    NetDomain,
}

impl DomainTypeRaw {
    /// The interface kind encoded by `value`, if any.
    pub open spec fn spec_try_from(value: u8) -> Option<DomainTypeRaw> {
        match value {
            1u8 => Some(DomainTypeRaw::FsDomain),
            2u8 => Some(DomainTypeRaw::BlkDeviceDomain),
            3u8 => Some(DomainTypeRaw::CacheBlkDeviceDomain),
            4u8 => Some(DomainTypeRaw::RtcDomain),
            5u8 => Some(DomainTypeRaw::GpuDomain),
            6u8 => Some(DomainTypeRaw::InputDomain),
            7u8 => Some(DomainTypeRaw::VfsDomain),
            8u8 => Some(DomainTypeRaw::UartDomain),
            9u8 => Some(DomainTypeRaw::PLICDomain),
            10u8 => Some(DomainTypeRaw::TaskDomain),
            11u8 => Some(DomainTypeRaw::SysCallDomain),
            12u8 => Some(DomainTypeRaw::ShadowBlockDomain),
            13u8 => Some(DomainTypeRaw::BufUartDomain),
            14u8 => Some(DomainTypeRaw::NetDeviceDomain),
            15u8 => Some(DomainTypeRaw::BufInputDomain),
            16u8 => Some(DomainTypeRaw::EmptyDeviceDomain),
            17u8 => Some(DomainTypeRaw::DevFsDomain),
            18u8 => Some(DomainTypeRaw::SchedulerDomain),
            19u8 => Some(DomainTypeRaw::LogDomain),
            20u8 => Some(DomainTypeRaw::NetDomain),
            _ => None,
        }
    }

    /// Decode an interface kind from its wire encoding; codes outside
    /// the table are rejected.
    pub fn try_from(value: u8) -> (r: Result<DomainTypeRaw, ()>)
        ensures
            match Self::spec_try_from(value) {
                Some(ty) => r == Ok::<DomainTypeRaw, ()>(ty),
                None => r == Err::<DomainTypeRaw, ()>(()),
            },
    {
        match value {
            1u8 => Ok(DomainTypeRaw::FsDomain),
            2u8 => Ok(DomainTypeRaw::BlkDeviceDomain),
            3u8 => Ok(DomainTypeRaw::CacheBlkDeviceDomain),
            4u8 => Ok(DomainTypeRaw::RtcDomain),
            5u8 => Ok(DomainTypeRaw::GpuDomain),
            6u8 => Ok(DomainTypeRaw::InputDomain),
            7u8 => Ok(DomainTypeRaw::VfsDomain),
            8u8 => Ok(DomainTypeRaw::UartDomain),
            9u8 => Ok(DomainTypeRaw::PLICDomain),
            10u8 => Ok(DomainTypeRaw::TaskDomain),
            11u8 => Ok(DomainTypeRaw::SysCallDomain),
            12u8 => Ok(DomainTypeRaw::ShadowBlockDomain),
            13u8 => Ok(DomainTypeRaw::BufUartDomain),
            14u8 => Ok(DomainTypeRaw::NetDeviceDomain),
            15u8 => Ok(DomainTypeRaw::BufInputDomain),
            16u8 => Ok(DomainTypeRaw::EmptyDeviceDomain),
            17u8 => Ok(DomainTypeRaw::DevFsDomain),
            18u8 => Ok(DomainTypeRaw::SchedulerDomain),
            19u8 => Ok(DomainTypeRaw::LogDomain),
            20u8 => Ok(DomainTypeRaw::NetDomain),
            _ => Err(()),
        }
    }
}

/// Which interrupt controller flavour a platform provides.
#[derive(Debug, Clone, Copy, PartialEq, Eq, Structural)]
pub enum PlicType {
    Qemu,
    SiFive,
}

/// Construction argument of the interrupt-controller domain: the MMIO
/// region of the device and its flavour.
#[derive(Debug, Clone)]
pub struct PlicInfo {
    pub device_start: usize,
    pub device_end: usize,
    pub ty: PlicType,
}

/// A heap snapshot handed through the task domain's `heap_info` call.
#[derive(Debug, Clone, Copy)]
pub struct TmpHeapInfo {
    pub start: usize,
    pub current: usize,
}

impl TmpHeapInfo {
    pub fn new(start: usize, current: usize) -> (r: Self)
        ensures
            r.start == start,
            r.current == current,
    {
        Self { start, current }
    }
}

/// A device number: a major and a minor part packed into one `u64`.
#[derive(Debug, Clone, Copy, PartialEq, Eq, Structural)]
pub struct DeviceId {
    pub major: u32,
    pub minor: u32,
}

impl DeviceId {
    pub fn new(major: u32, minor: u32) -> (r: Self)
        ensures
            r.major == major,
            r.minor == minor,
    {
        Self { major, minor }
    }

    pub open spec fn spec_id(&self) -> u64 {
        ((self.major as u64) << 32) | (self.minor as u64)
    }

    pub fn id(&self) -> (r: u64)
        ensures
            r == self.spec_id(),
    {
        ((self.major as u64) << 32) | (self.minor as u64)
    }

    /// Unpack a device number; inverse of [`DeviceId::id`].
    pub fn from_id(id: u64) -> (r: Self)
        ensures
            r.major == (id >> 32) as u32,
            r.minor == (id & 0xffffffff) as u32,
            r.spec_id() == id,
    {
        let major: u32 = (id >> 32) as u32;
        let minor: u32 = (id & 0xffffffff) as u32;
        proof {
            assert(((major as u64) << 32) | (minor as u64) == id) by (bit_vector)
                requires
                    major == (id >> 32) as u32,
                    minor == (id & 0xffffffff) as u32,
            ;
        }
        Self { major, minor }
    }

    pub fn major(&self) -> (r: u32)
        ensures
            r == self.major,
    {
        self.major
    }

    pub fn minor(&self) -> (r: u32)
        ensures
            r == self.minor,
    {
        self.minor
    }
}

/// Whose priority a `set_priority`-style call addresses.
#[derive(Debug, Clone, Copy, PartialEq, Eq, Structural)]
pub enum PriorityTarget {
    Process(u32),
    ProcessGroup(u32),
    User(u32),
}

/// The `which` selector of the priority calls.
#[allow(non_camel_case_types)]
#[derive(Debug, Clone, Copy, PartialEq, Eq, Structural)]
pub enum Which {
    PRIO_PROCESS,
    PRIO_PGRP,
    PRIO_USER,
}

impl Which {
    /// Decode the selector; values outside 0..=2 are invalid arguments.
    pub fn try_from(value: i32) -> (r: Result<Which, AlienError>)
        ensures
            value == 0 ==> r == Ok::<Which, AlienError>(Which::PRIO_PROCESS),
            value == 1 ==> r == Ok::<Which, AlienError>(Which::PRIO_PGRP),
            value == 2 ==> r == Ok::<Which, AlienError>(Which::PRIO_USER),
            !(0 <= value <= 2) ==> r == Err::<Which, AlienError>(AlienError::InvalidArgument),
    {
        match value {
            0 => Ok(Which::PRIO_PROCESS),
            1 => Ok(Which::PRIO_PGRP),
            2 => Ok(Which::PRIO_USER),
            _ => Err(AlienError::InvalidArgument),
        }
    }
}

} // verus!
