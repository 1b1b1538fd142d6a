use vstd::prelude::*;

use crate::device::Version;

verus! {

/// Keeps struct literals of parameter structs open to new fields: write
/// `..Default::default()` after the fields you set.
#[derive(Clone, Copy, Debug, PartialEq, Eq, Hash)]
pub struct NonExhaustive(pub ());

/// Not enough memory.
#[derive(Clone, Copy, Debug, PartialEq, Eq, Hash)]
pub enum OomError {
    /// There is no memory available on the host (ie. the CPU, RAM, etc.).
    OutOfHostMemory,
    /// There is no memory available on the device (ie. video memory).
    OutOfDeviceMemory,
}

/// An error that the driver reported, by its `VkResult` code.
#[derive(Clone, Copy, Debug, PartialEq, Eq, Hash)]
pub enum VulkanError {
    OutOfHostMemory,
    OutOfDeviceMemory,
    InitializationFailed,
    DeviceLost,
    TooManyObjects,
    InvalidExternalHandle,
    /// A code without a name of its own here.
    Unnamed(i32),
}

/// The error that a `VkResult` code stands for.
pub open spec fn vulkan_error_of(code: i32) -> VulkanError {
    if code == -1 {
        VulkanError::OutOfHostMemory
    } else if code == -2 {
        VulkanError::OutOfDeviceMemory
    } else if code == -3 {
        VulkanError::InitializationFailed
    } else if code == -4 {
        VulkanError::DeviceLost
    } else if code == -10 {
        VulkanError::TooManyObjects
    } else if code == -1000072003 {
        VulkanError::InvalidExternalHandle
    } else {
        VulkanError::Unnamed(code)
    }
}

impl VulkanError {
    /// The error for a negative `VkResult` code.
    pub fn from_raw(code: i32) -> (r: VulkanError)
        ensures
            r == vulkan_error_of(code),
    {
        if code == -1 {
            VulkanError::OutOfHostMemory
        } else if code == -2 {
            VulkanError::OutOfDeviceMemory
        } else if code == -3 {
            VulkanError::InitializationFailed
        } else if code == -4 {
            VulkanError::DeviceLost
        } else if code == -10 {
            VulkanError::TooManyObjects
        } else if code == -1000072003 {
            VulkanError::InvalidExternalHandle
        } else {
            VulkanError::Unnamed(code)
        }
    }

    /// Whether the error is one of running out of memory.
    pub fn is_oom(&self) -> (r: bool)
        ensures
            r == (*self is OutOfHostMemory || *self is OutOfDeviceMemory),
    {
        match self {
            VulkanError::OutOfHostMemory | VulkanError::OutOfDeviceMemory => true,
            _ => false,
        }
    }
}

impl OomError {
    /// The memory error that a driver error is. Only the two out-of-memory errors are.
    pub fn from_vulkan_error(err: VulkanError) -> (r: OomError)
        requires
            err is OutOfHostMemory || err is OutOfDeviceMemory,
        ensures
            err is OutOfHostMemory ==> r == OomError::OutOfHostMemory,
            err is OutOfDeviceMemory ==> r == OomError::OutOfDeviceMemory,
    {
        match err {
            VulkanError::OutOfHostMemory => OomError::OutOfHostMemory,
            _ => OomError::OutOfDeviceMemory,
        }
    }
}

/// Names a set of requirements, one of which must be met.
#[derive(Clone, Copy, Debug, PartialEq, Eq, Hash)]
pub struct RequiresOneOf {
    /// A minimum API version.
    pub api_version: Option<Version>,
    /// Device features.
    pub features: &'static [&'static str],
    /// Device extensions.
    pub device_extensions: &'static [&'static str],
    /// Instance extensions.
    pub instance_extensions: &'static [&'static str],
}

impl RequiresOneOf {
    /// Nothing is named.
    pub fn none() -> (r: RequiresOneOf)
        ensures
            r.api_version is None,
            r.features@.len() == 0,
            r.device_extensions@.len() == 0,
            r.instance_extensions@.len() == 0,
    {
        RequiresOneOf { api_version: None, features: &[], device_extensions: &[], instance_extensions: &[] }
    }
}

/// A requirement for using some part of the API was not met.
#[derive(Clone, Copy, Debug, PartialEq, Eq, Hash)]
pub struct RequirementNotMet {
    pub required_for: &'static str,
    pub requires_one_of: RequiresOneOf,
}


/// Error that can happen when allocating a block of device memory.
#[derive(Clone, Copy, Debug, PartialEq, Eq, Hash)]
pub enum DeviceMemoryError {
    /// Not enough memory available.
    OomError(OomError),
    /// The maximum number of allocations has been exceeded.
    TooManyObjects,
}

impl DeviceMemoryError {
    /// The allocation error for a driver error. Only running out of memory and running out
    /// of allocations are expected when the driver allocates memory.
    pub fn from_vulkan_error(err: VulkanError) -> (r: DeviceMemoryError)
        requires
            err is OutOfHostMemory || err is OutOfDeviceMemory || err is TooManyObjects,
        ensures
            err is OutOfHostMemory ==> r == DeviceMemoryError::OomError(OomError::OutOfHostMemory),
            err is OutOfDeviceMemory ==> r == DeviceMemoryError::OomError(
                OomError::OutOfDeviceMemory,
            ),
            err is TooManyObjects ==> r == DeviceMemoryError::TooManyObjects,
    {
        match err {
            VulkanError::TooManyObjects => DeviceMemoryError::TooManyObjects,
            _ => DeviceMemoryError::OomError(OomError::from_vulkan_error(err)),
        }
    }
}

} // verus!
