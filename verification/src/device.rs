use vstd::prelude::*;

verus! {

/// A block of device memory: the raw handle the driver gave for it, its size
/// in bytes and the memory type it was allocated from.
#[derive(Clone, Copy, Debug, PartialEq, Eq, Structural, Hash)]
pub struct DeviceMemory {
    handle: u64,
    allocation_size: u64,
    memory_type_index: u32,
}

impl DeviceMemory {
    pub closed spec fn spec_handle(&self) -> u64 {
        self.handle
    }

    pub closed spec fn spec_allocation_size(&self) -> u64 {
        self.allocation_size
    }

    pub closed spec fn spec_memory_type_index(&self) -> u32 {
        self.memory_type_index
    }

    /// Wraps a block that the driver allocated.
    pub fn from_handle(handle: u64, allocation_size: u64, memory_type_index: u32) -> (r:
        DeviceMemory)
        ensures
            r.internal_object() == handle,
            r.allocation_size() == allocation_size,
            r.memory_type_index() == memory_type_index,
    {
        DeviceMemory { handle, allocation_size, memory_type_index }
    }

    /// The raw handle of the block.
    #[verifier::when_used_as_spec(spec_handle)]
    pub fn internal_object(&self) -> (r: u64)
        ensures
            r == self.spec_handle(),
    {
        self.handle
    }

    /// The size of the block in bytes.
    #[verifier::when_used_as_spec(spec_allocation_size)]
    pub fn allocation_size(&self) -> (r: u64)
        ensures
            r == self.spec_allocation_size(),
    {
        self.allocation_size
    }

    /// The memory type the block was allocated from.
    #[verifier::when_used_as_spec(spec_memory_type_index)]
    pub fn memory_type_index(&self) -> (r: u32)
        ensures
            r == self.spec_memory_type_index(),
    {
        self.memory_type_index
    }
}

/// `<u64 as Hash>::hash`: feeds `value` to the hasher. What the hasher's state becomes is
/// left unsaid.
#[verifier::external_body]
pub(crate) fn hash_u64<H: std::hash::Hasher>(value: u64, state: &mut H) {
    std::hash::Hash::hash(&value, state)
}

/// A Vulkan API version.
#[derive(Clone, Copy, Debug, PartialEq, Eq, Hash)]
pub struct Version {
    pub major: u32,
    pub minor: u32,
    pub patch: u32,
}

/// `a` is the same version as `b` or a later one, comparing major, then minor, then patch.
pub open spec fn version_at_least(a: Version, b: Version) -> bool {
    a.major > b.major || (a.major == b.major && (a.minor > b.minor || (a.minor == b.minor
        && a.patch >= b.patch)))
}

impl Version {
    /// The version `major.minor.0`.
    pub fn major_minor(major: u32, minor: u32) -> (r: Version)
        ensures
            r == (Version { major, minor, patch: 0 }),
    {
        Version { major, minor, patch: 0 }
    }

    /// Whether `self` is `other` or a later version.
    pub fn is_at_least(&self, other: &Version) -> (r: bool)
        ensures
            r == version_at_least(*self, *other),
    {
        if self.major != other.major {
            self.major > other.major
        } else if self.minor != other.minor {
            self.minor > other.minor
        } else {
            self.patch >= other.patch
        }
    }
}

/// The device extensions that this crate looks at, and whether each is enabled.
#[derive(Clone, Copy, Debug, PartialEq, Eq, Hash)]
pub struct DeviceExtensions {
    pub khr_external_semaphore: bool,
    pub khr_external_semaphore_fd: bool,
}

impl DeviceExtensions {
    /// No extension enabled.
    pub fn empty() -> (r: DeviceExtensions)
        ensures
            !r.khr_external_semaphore,
            !r.khr_external_semaphore_fd,
    {
        DeviceExtensions { khr_external_semaphore: false, khr_external_semaphore_fd: false }
    }
}

/// A logical device, as far as this crate reads it: its raw handle, the API version and
/// extensions it was created with, and how many memory types its physical device has.
#[derive(Debug)]
pub struct Device {
    handle: u64,
    api_version: Version,
    enabled_extensions: DeviceExtensions,
    memory_type_count: u32,
}

impl Device {
    pub closed spec fn spec_handle(&self) -> u64 {
        self.handle
    }

    pub closed spec fn spec_api_version(&self) -> Version {
        self.api_version
    }

    pub closed spec fn spec_enabled_extensions(&self) -> DeviceExtensions {
        self.enabled_extensions
    }

    pub closed spec fn spec_memory_type_count(&self) -> u32 {
        self.memory_type_count
    }

    /// Wraps a device that the driver created.
    pub fn from_handle(
        handle: u64,
        api_version: Version,
        enabled_extensions: DeviceExtensions,
        memory_type_count: u32,
    ) -> (r: Device)
        ensures
            r.internal_object() == handle,
            r.api_version() == api_version,
            r.spec_enabled_extensions() == enabled_extensions,
            r.memory_type_count() == memory_type_count,
    {
        Device { handle, api_version, enabled_extensions, memory_type_count }
    }

    /// The raw handle of the device.
    #[verifier::when_used_as_spec(spec_handle)]
    pub fn internal_object(&self) -> (r: u64)
        ensures
            r == self.spec_handle(),
    {
        self.handle
    }

    /// The API version the device works with.
    #[verifier::when_used_as_spec(spec_api_version)]
    pub fn api_version(&self) -> (r: Version)
        ensures
            r == self.spec_api_version(),
    {
        self.api_version
    }

    /// The extensions enabled on the device.
    pub fn enabled_extensions(&self) -> (r: &DeviceExtensions)
        ensures
            *r == self.spec_enabled_extensions(),
    {
        &self.enabled_extensions
    }

    /// The number of memory types of the physical device.
    #[verifier::when_used_as_spec(spec_memory_type_count)]
    pub fn memory_type_count(&self) -> (r: u32)
        ensures
            r == self.spec_memory_type_count(),
    {
        self.memory_type_count
    }
}

} // verus!
