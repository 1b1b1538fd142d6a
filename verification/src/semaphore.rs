use std::sync::Arc;
use vstd::prelude::*;

use crate::device::{hash_u64, version_at_least, Device, Version};
use crate::errors::{NonExhaustive, OomError, RequirementNotMet, RequiresOneOf, VulkanError};

verus! {

/// The handle type used for Vulkan external semaphore APIs.
#[derive(Clone, Copy, Debug, PartialEq, Eq, Hash)]
#[non_exhaustive]
pub enum ExternalSemaphoreHandleType {
    OpaqueFd,
    OpaqueWin32,
    OpaqueWin32Kmt,
    D3D12Fence,
    SyncFd,
}

/// The bit that stands for a handle type in `VkExternalSemaphoreHandleTypeFlags`.
pub open spec fn handle_type_bit(t: ExternalSemaphoreHandleType) -> u32 {
    match t {
        ExternalSemaphoreHandleType::OpaqueFd => 0x1,
        ExternalSemaphoreHandleType::OpaqueWin32 => 0x2,
        ExternalSemaphoreHandleType::OpaqueWin32Kmt => 0x4,
        ExternalSemaphoreHandleType::D3D12Fence => 0x8,
        ExternalSemaphoreHandleType::SyncFd => 0x10,
    }
}

impl ExternalSemaphoreHandleType {
    /// The handle type as a `VkExternalSemaphoreHandleTypeFlags` value.
    pub fn to_raw(self) -> (r: u32)
        ensures
            r == handle_type_bit(self),
    {
        match self {
            ExternalSemaphoreHandleType::OpaqueFd => 0x1,
            ExternalSemaphoreHandleType::OpaqueWin32 => 0x2,
            ExternalSemaphoreHandleType::OpaqueWin32Kmt => 0x4,
            ExternalSemaphoreHandleType::D3D12Fence => 0x8,
            ExternalSemaphoreHandleType::SyncFd => 0x10,
        }
    }

    /// The handle type whose bit `raw` is, if it is one of them.
    pub fn try_from_raw(raw: u32) -> (r: Option<ExternalSemaphoreHandleType>)
        ensures
            match r {
                Some(t) => handle_type_bit(t) == raw,
                None => forall|t: ExternalSemaphoreHandleType| handle_type_bit(t) != raw,
            },
    {
        if raw == 0x1 {
            Some(ExternalSemaphoreHandleType::OpaqueFd)
        } else if raw == 0x2 {
            Some(ExternalSemaphoreHandleType::OpaqueWin32)
        } else if raw == 0x4 {
            Some(ExternalSemaphoreHandleType::OpaqueWin32Kmt)
        } else if raw == 0x8 {
            Some(ExternalSemaphoreHandleType::D3D12Fence)
        } else if raw == 0x10 {
            Some(ExternalSemaphoreHandleType::SyncFd)
        } else {
            None
        }
    }

    /// Checks that the device supports the handle type. None of these handle types asks
    /// for a version or an extension, so every device does.
    pub fn validate_device(self, device: &Device) -> (r: Result<(), RequirementNotMet>)
        ensures
            r is Ok,
    {
        Ok(())
    }
}

/// A mask of multiple external semaphore handle types.
#[derive(Clone, Copy, Debug, PartialEq, Eq, Hash)]
pub struct ExternalSemaphoreHandleTypes {
    pub opaque_fd: bool,
    pub opaque_win32: bool,
    pub opaque_win32_kmt: bool,
    pub d3d12_fence: bool,
    pub sync_fd: bool,
    pub _ne: NonExhaustive,
}

impl ExternalSemaphoreHandleTypes {
    /// The mask holds handle type `t`.
    pub open spec fn has(self, t: ExternalSemaphoreHandleType) -> bool {
        match t {
            ExternalSemaphoreHandleType::OpaqueFd => self.opaque_fd,
            ExternalSemaphoreHandleType::OpaqueWin32 => self.opaque_win32,
            ExternalSemaphoreHandleType::OpaqueWin32Kmt => self.opaque_win32_kmt,
            ExternalSemaphoreHandleType::D3D12Fence => self.d3d12_fence,
            ExternalSemaphoreHandleType::SyncFd => self.sync_fd,
        }
    }

    /// The mask holds no handle type.
    pub open spec fn spec_is_empty(&self) -> bool {
        !self.opaque_fd && !self.opaque_win32 && !self.opaque_win32_kmt && !self.d3d12_fence
            && !self.sync_fd
    }

    /// Some handle type is in both masks.
    pub open spec fn spec_intersects(&self, other: &Self) -> bool {
        ||| self.opaque_fd && other.opaque_fd
        ||| self.opaque_win32 && other.opaque_win32
        ||| self.opaque_win32_kmt && other.opaque_win32_kmt
        ||| self.d3d12_fence && other.d3d12_fence
        ||| self.sync_fd && other.sync_fd
    }

    /// The mask as `VkExternalSemaphoreHandleTypeFlags` bits.
    pub open spec fn spec_to_raw(&self) -> u32 {
        (if self.opaque_fd { 0x1u32 } else { 0 }) | (if self.opaque_win32 { 0x2u32 } else { 0 }) | (
        if self.opaque_win32_kmt { 0x4u32 } else { 0 }) | (if self.d3d12_fence { 0x8u32 } else {
            0
        }) | (if self.sync_fd { 0x10u32 } else { 0 })
    }

    /// The mask with no handle type.
    pub fn empty() -> (r: ExternalSemaphoreHandleTypes)
        ensures
            r.spec_is_empty(),
            forall|t: ExternalSemaphoreHandleType| !#[trigger] r.has(t),
    {
        ExternalSemaphoreHandleTypes {
            opaque_fd: false,
            opaque_win32: false,
            opaque_win32_kmt: false,
            d3d12_fence: false,
            sync_fd: false,
            _ne: NonExhaustive(()),
        }
    }

    /// Whether the mask holds no handle type.
    #[verifier::when_used_as_spec(spec_is_empty)]
    pub fn is_empty(&self) -> (r: bool)
        ensures
            r == self.spec_is_empty(),
            r <==> forall|t: ExternalSemaphoreHandleType| !#[trigger] self.has(t),
    {
        proof {
            lemma_empty_iff_no_handle_type(*self);
        }
        !(self.opaque_fd || self.opaque_win32 || self.opaque_win32_kmt || self.d3d12_fence
            || self.sync_fd)
    }

    /// Whether some handle type is in both masks.
    #[verifier::when_used_as_spec(spec_intersects)]
    pub fn intersects(&self, other: &Self) -> (r: bool)
        ensures
            r == self.spec_intersects(other),
    {
        (self.opaque_fd && other.opaque_fd) || (self.opaque_win32 && other.opaque_win32) || (
        self.opaque_win32_kmt && other.opaque_win32_kmt) || (self.d3d12_fence
            && other.d3d12_fence) || (self.sync_fd && other.sync_fd)
    }

    /// The mask as `VkExternalSemaphoreHandleTypeFlags` bits.
    #[verifier::when_used_as_spec(spec_to_raw)]
    pub fn to_raw(&self) -> (r: u32)
        ensures
            r == self.spec_to_raw(),
    {
        (if self.opaque_fd { 0x1u32 } else { 0 }) | (if self.opaque_win32 { 0x2u32 } else { 0 }) | (
        if self.opaque_win32_kmt { 0x4u32 } else { 0 }) | (if self.d3d12_fence { 0x8u32 } else {
            0
        }) | (if self.sync_fd { 0x10u32 } else { 0 })
    }

    /// The mask of the handle types whose bits are set in `raw`; other bits are ignored.
    pub fn from_raw(raw: u32) -> (r: ExternalSemaphoreHandleTypes)
        ensures
            r.opaque_fd == (raw & 0x1 != 0),
            r.opaque_win32 == (raw & 0x2 != 0),
            r.opaque_win32_kmt == (raw & 0x4 != 0),
            r.d3d12_fence == (raw & 0x8 != 0),
            r.sync_fd == (raw & 0x10 != 0),
    {
        ExternalSemaphoreHandleTypes {
            opaque_fd: raw & 0x1 != 0,
            opaque_win32: raw & 0x2 != 0,
            opaque_win32_kmt: raw & 0x4 != 0,
            d3d12_fence: raw & 0x8 != 0,
            sync_fd: raw & 0x10 != 0,
            _ne: NonExhaustive(()),
        }
    }

    /// Checks that the device supports every handle type of the mask. None of these
    /// handle types asks for a version or an extension, so every device does.
    pub fn validate_device(self, device: &Device) -> (r: Result<(), RequirementNotMet>)
        ensures
            r is Ok,
    {
        Ok(())
    }
}

/// The mask that holds exactly the handle type `t`.
pub open spec fn handle_types_of(t: ExternalSemaphoreHandleType) -> ExternalSemaphoreHandleTypes {
    ExternalSemaphoreHandleTypes {
        opaque_fd: t is OpaqueFd,
        opaque_win32: t is OpaqueWin32,
        opaque_win32_kmt: t is OpaqueWin32Kmt,
        d3d12_fence: t is D3D12Fence,
        sync_fd: t is SyncFd,
        _ne: NonExhaustive(()),
    }
}

impl From<ExternalSemaphoreHandleType> for ExternalSemaphoreHandleTypes {
    fn from(val: ExternalSemaphoreHandleType) -> (r: Self) {
        let mut result = Self::empty();
        match val {
            ExternalSemaphoreHandleType::OpaqueFd => result.opaque_fd = true,
            ExternalSemaphoreHandleType::OpaqueWin32 => result.opaque_win32 = true,
            ExternalSemaphoreHandleType::OpaqueWin32Kmt => result.opaque_win32_kmt = true,
            ExternalSemaphoreHandleType::D3D12Fence => result.d3d12_fence = true,
            ExternalSemaphoreHandleType::SyncFd => result.sync_fd = true,
        }
        result
    }
}

impl vstd::std_specs::convert::FromSpecImpl<ExternalSemaphoreHandleType> for ExternalSemaphoreHandleTypes {
    open spec fn obeys_from_spec() -> bool {
        true
    }

    open spec fn from_spec(v: ExternalSemaphoreHandleType) -> Self {
        handle_types_of(v)
    }
}


/// Parameters to create a new `Semaphore`.
#[derive(Clone, Copy, Debug)]
pub struct SemaphoreCreateInfo {
    /// The handle types that can be exported from the semaphore.
    ///
    /// The default value is [`ExternalSemaphoreHandleTypes::empty()`].
    pub export_handle_types: ExternalSemaphoreHandleTypes,
    pub _ne: NonExhaustive,
}

impl Default for SemaphoreCreateInfo {
    fn default() -> (r: Self)
        ensures
            r.export_handle_types.spec_is_empty(),
    {
        SemaphoreCreateInfo {
            export_handle_types: ExternalSemaphoreHandleTypes::empty(),
            _ne: NonExhaustive(()),
        }
    }
}

/// The semaphore configuration to query in `PhysicalDevice::external_semaphore_properties`.
#[derive(Clone, Copy, Debug, PartialEq, Eq, Hash)]
pub struct ExternalSemaphoreInfo {
    /// The external handle type that will be used with the semaphore.
    pub handle_type: ExternalSemaphoreHandleType,
    pub _ne: NonExhaustive,
}

impl ExternalSemaphoreInfo {
    /// Returns an `ExternalSemaphoreInfo` with the specified `handle_type`.
    pub fn handle_type(handle_type: ExternalSemaphoreHandleType) -> (r: Self)
        ensures
            r.handle_type == handle_type,
    {
        Self { handle_type, _ne: NonExhaustive(()) }
    }
}

/// The properties for exporting or importing external handles, when a semaphore is created
/// with a specific configuration.
#[derive(Clone, Copy, Debug)]
#[non_exhaustive]
pub struct ExternalSemaphoreProperties {
    /// Whether a handle can be exported to an external source with the queried
    /// external handle type.
    pub exportable: bool,
    /// Whether a handle can be imported from an external source with the queried
    /// external handle type.
    pub importable: bool,
    /// Which external handle types can be re-exported after the queried external handle type
    /// has been imported.
    pub export_from_imported_handle_types: ExternalSemaphoreHandleTypes,
    /// Which external handle types can be enabled along with the queried external handle type
    /// when creating the semaphore.
    pub compatible_handle_types: ExternalSemaphoreHandleTypes,
}

/// Error that can be returned from operations on a semaphore.
#[derive(Clone, Copy, Debug, PartialEq, Eq)]
pub enum SemaphoreError {
    /// Not enough memory available.
    OomError(OomError),
    /// A requirement of the operation was not met.
    RequirementNotMet { required_for: &'static str, requires_one_of: RequiresOneOf },
    /// The requested export handle type was not provided in `export_handle_types` when creating
    /// the semaphore.
    HandleTypeNotSupported { handle_type: ExternalSemaphoreHandleType },
    /// The requested export handle type is not a POSIX file descriptor handle type.
    HandleTypeNotFd { handle_type: ExternalSemaphoreHandleType },
}

impl From<OomError> for SemaphoreError {
    fn from(err: OomError) -> (r: Self) {
        SemaphoreError::OomError(err)
    }
}

impl vstd::std_specs::convert::FromSpecImpl<OomError> for SemaphoreError {
    open spec fn obeys_from_spec() -> bool {
        true
    }

    open spec fn from_spec(v: OomError) -> Self {
        SemaphoreError::OomError(v)
    }
}

impl From<RequirementNotMet> for SemaphoreError {
    fn from(err: RequirementNotMet) -> (r: Self) {
        SemaphoreError::RequirementNotMet {
            required_for: err.required_for,
            requires_one_of: err.requires_one_of,
        }
    }
}

impl vstd::std_specs::convert::FromSpecImpl<RequirementNotMet> for SemaphoreError {
    open spec fn obeys_from_spec() -> bool {
        true
    }

    open spec fn from_spec(v: RequirementNotMet) -> Self {
        SemaphoreError::RequirementNotMet {
            required_for: v.required_for,
            requires_one_of: v.requires_one_of,
        }
    }
}

impl SemaphoreError {
    /// The semaphore error for a driver error. Only running out of memory is expected from
    /// the semaphore calls of the driver.
    pub fn from_vulkan_error(err: VulkanError) -> (r: Self)
        requires
            err is OutOfHostMemory || err is OutOfDeviceMemory,
        ensures
            err is OutOfHostMemory ==> r == SemaphoreError::OomError(OomError::OutOfHostMemory),
            err is OutOfDeviceMemory ==> r == SemaphoreError::OomError(
                OomError::OutOfDeviceMemory,
            ),
    {
        SemaphoreError::OomError(OomError::from_vulkan_error(err))
    }
}

/// What `Semaphore::new` reports when export handle types are asked for on a device that
/// supports neither Vulkan 1.1 nor `khr_external_semaphore`.
pub open spec fn external_semaphore_missing() -> SemaphoreError {
    SemaphoreError::RequirementNotMet {
        required_for: "`create_info.export_handle_types` is not empty",
        requires_one_of: RequiresOneOf {
            api_version: Some(Version { major: 1, minor: 1, patch: 0 }),
            features: &[],
            device_extensions: &["khr_external_semaphore"],
            instance_extensions: &[],
        },
    }
}

/// What `Semaphore::export_fd` reports on a device without `khr_external_semaphore_fd`.
pub open spec fn external_semaphore_fd_missing() -> SemaphoreError {
    SemaphoreError::RequirementNotMet {
        required_for: "`export_fd`",
        requires_one_of: RequiresOneOf {
            api_version: None,
            features: &[],
            device_extensions: &["khr_external_semaphore_fd"],
            instance_extensions: &[],
        },
    }
}

/// Used to provide synchronization between command buffers during their execution.
///
/// It is similar to a fence, except that it is purely on the GPU side. The CPU can't query a
/// semaphore's status or wait for it to be signaled.
#[derive(Debug)]
pub struct Semaphore {
    handle: u64,
    device: Arc<Device>,
    export_handle_types: ExternalSemaphoreHandleTypes,
    must_put_in_pool: bool,
}

impl Semaphore {
    pub closed spec fn spec_handle(&self) -> u64 {
        self.handle
    }

    pub closed spec fn spec_device(&self) -> Device {
        *self.device
    }

    pub closed spec fn spec_export_handle_types(&self) -> ExternalSemaphoreHandleTypes {
        self.export_handle_types
    }

    /// The semaphore goes back to the device's pool when it is released, rather than being
    /// destroyed.
    pub closed spec fn spec_must_put_in_pool(&self) -> bool {
        self.must_put_in_pool
    }

    /// Checks `create_info` against the device before a semaphore is created: export handle
    /// types need Vulkan 1.1 or `khr_external_semaphore`.
    pub fn validate_new(device: &Device, create_info: &SemaphoreCreateInfo) -> (r: Result<
        (),
        SemaphoreError,
    >)
        ensures
            r is Ok <==> (create_info.export_handle_types.spec_is_empty() || version_at_least(
                device.api_version(),
                Version { major: 1, minor: 1, patch: 0 },
            ) || device.spec_enabled_extensions().khr_external_semaphore),
            r matches Err(e) ==> e == external_semaphore_missing(),
            (exists|t: ExternalSemaphoreHandleType| #[trigger] create_info.export_handle_types.has(t))
                && !version_at_least(device.api_version(), Version { major: 1, minor: 1, patch: 0 })
                && !device.spec_enabled_extensions().khr_external_semaphore ==> r is Err,
    {
        proof {
            lemma_empty_iff_no_handle_type(create_info.export_handle_types);
        }
        let export_handle_types = create_info.export_handle_types;
        if !export_handle_types.is_empty() {
            if !(device.api_version().is_at_least(&Version::major_minor(1, 1))
                || device.enabled_extensions().khr_external_semaphore) {
                return Err(
                    SemaphoreError::RequirementNotMet {
                        required_for: "`create_info.export_handle_types` is not empty",
                        requires_one_of: RequiresOneOf {
                            api_version: Some(Version::major_minor(1, 1)),
                            features: &[],
                            device_extensions: &["khr_external_semaphore"],
                            instance_extensions: &[],
                        },
                    },
                );
            }
            match export_handle_types.validate_device(device) {
                Ok(()) => {},
                Err(err) => {
                    return Err(SemaphoreError::from(err));
                },
            }
        }
        Ok(())
    }

    /// A semaphore for a raw handle that the driver created on `device` with `create_info`.
    pub fn from_handle(device: Arc<Device>, handle: u64, create_info: SemaphoreCreateInfo) -> (r:
        Semaphore)
        ensures
            r.internal_object() == handle,
            r.spec_device() == *device,
            r.spec_export_handle_types() == create_info.export_handle_types,
            !r.spec_must_put_in_pool(),
    {
        Semaphore {
            handle,
            device,
            export_handle_types: create_info.export_handle_types,
            must_put_in_pool: false,
        }
    }

    /// Takes a semaphore from the device's semaphore pool, the one given back last. `None`
    /// when the pool is empty: then a new semaphore is created and marked with
    /// `put_in_pool_on_release`.
    pub fn from_pool(device: Arc<Device>, pool: &mut Vec<u64>) -> (r: Option<Semaphore>)
        ensures
            match r {
                Some(s) => {
                    &&& old(pool)@.len() > 0
                    &&& final(pool)@ == old(pool)@.drop_last()
                    &&& s.internal_object() == old(pool)@.last()
                    &&& s.spec_device() == *device
                    &&& s.spec_export_handle_types().spec_is_empty()
                    &&& s.spec_must_put_in_pool()
                },
                None => old(pool)@.len() == 0 && final(pool)@ == old(pool)@,
            },
    {
        match pool.pop() {
            Some(handle) => Some(
                Semaphore {
                    handle,
                    device,
                    export_handle_types: ExternalSemaphoreHandleTypes::empty(),
                    must_put_in_pool: true,
                },
            ),
            None => None,
        }
    }

    /// Marks a new semaphore so that it goes into the device's pool when it is released.
    pub fn put_in_pool_on_release(&mut self)
        ensures
            final(self).spec_must_put_in_pool(),
            final(self).internal_object() == old(self).internal_object(),
            final(self).spec_device() == old(self).spec_device(),
            final(self).spec_export_handle_types() == old(self).spec_export_handle_types(),
    {
        self.must_put_in_pool = true;
    }

    /// Releases the semaphore: a pooled one goes back into the device's pool and `None` is
    /// returned; the handle of any other is returned, for the driver to destroy.
    pub fn release(self, pool: &mut Vec<u64>) -> (r: Option<u64>)
        ensures
            self.spec_must_put_in_pool() ==> r is None && final(pool)@ == old(pool)@.push(
                self.internal_object(),
            ),
            !self.spec_must_put_in_pool() ==> r == Some(self.internal_object()) && final(pool)@
                == old(pool)@,
    {
        if self.must_put_in_pool {
            pool.push(self.handle);
            None
        } else {
            Some(self.handle)
        }
    }

    /// Checks that the semaphore can be exported into a POSIX file descriptor of
    /// `handle_type`: the device has `khr_external_semaphore_fd` (else `RequirementNotMet`),
    /// the semaphore was created with the handle type among its export handle types (else
    /// `HandleTypeNotSupported`), and the handle type is one of the two file-descriptor
    /// types (else `HandleTypeNotFd`).
    pub fn validate_export_fd(&self, handle_type: ExternalSemaphoreHandleType) -> (r: Result<
        (),
        SemaphoreError,
    >)
        ensures
            r is Ok <==> {
                &&& self.spec_device().spec_enabled_extensions().khr_external_semaphore_fd
                &&& self.spec_export_handle_types().has(handle_type)
                &&& (handle_type is OpaqueFd || handle_type is SyncFd)
            },
            r matches Err(e) ==> if !self.spec_device().spec_enabled_extensions().khr_external_semaphore_fd {
                e == external_semaphore_fd_missing()
            } else if !self.spec_export_handle_types().has(handle_type) {
                e == (SemaphoreError::HandleTypeNotSupported { handle_type })
            } else {
                e == (SemaphoreError::HandleTypeNotFd { handle_type })
            },
    {
        if !self.device.enabled_extensions().khr_external_semaphore_fd {
            return Err(
                SemaphoreError::RequirementNotMet {
                    required_for: "`export_fd`",
                    requires_one_of: RequiresOneOf {
                        api_version: None,
                        features: &[],
                        device_extensions: &["khr_external_semaphore_fd"],
                        instance_extensions: &[],
                    },
                },
            );
        }
        match handle_type.validate_device(&self.device) {
            Ok(()) => {},
            Err(err) => {
                return Err(SemaphoreError::from(err));
            },
        }
        let requested = ExternalSemaphoreHandleTypes::from(handle_type);
        if !self.export_handle_types.intersects(&requested) {
            return Err(SemaphoreError::HandleTypeNotSupported { handle_type });
        }
        match handle_type {
            ExternalSemaphoreHandleType::OpaqueFd | ExternalSemaphoreHandleType::SyncFd => {},
            _ => {
                return Err(SemaphoreError::HandleTypeNotFd { handle_type });
            },
        }
        Ok(())
    }

    /// The raw handle of the semaphore.
    #[verifier::when_used_as_spec(spec_handle)]
    pub fn internal_object(&self) -> (r: u64)
        ensures
            r == self.spec_handle(),
    {
        self.handle
    }

    /// The device the semaphore belongs to.
    pub fn device(&self) -> (r: &Arc<Device>)
        ensures
            **r == self.spec_device(),
    {
        &self.device
    }

    /// The handle types that can be exported from the semaphore.
    pub fn export_handle_types(&self) -> (r: ExternalSemaphoreHandleTypes)
        ensures
            r == self.spec_export_handle_types(),
    {
        self.export_handle_types
    }

    /// Whether the semaphore goes back into the device's pool when it is released.
    pub fn must_put_in_pool(&self) -> (r: bool)
        ensures
            r == self.spec_must_put_in_pool(),
    {
        self.must_put_in_pool
    }
}

/// Two semaphores are the same when they have the same handle on the same device.
pub open spec fn same_semaphore(a: &Semaphore, b: &Semaphore) -> bool {
    a.spec_handle() == b.spec_handle() && a.spec_device().spec_handle()
        == b.spec_device().spec_handle()
}

impl PartialEq for Semaphore {
    fn eq(&self, other: &Self) -> (r: bool) {
        self.handle == other.handle && self.device.internal_object()
            == other.device.internal_object()
    }
}

impl Eq for Semaphore {

}

impl std::hash::Hash for Semaphore {
    fn hash<H: std::hash::Hasher>(&self, state: &mut H) {
        hash_u64(self.handle, state);
        hash_u64(self.device.internal_object(), state);
    }
}

impl vstd::std_specs::cmp::PartialEqSpecImpl for Semaphore {
    open spec fn obeys_eq_spec() -> bool {
        true
    }

    open spec fn eq_spec(&self, other: &Semaphore) -> bool {
        same_semaphore(self, other)
    }
}

/// A semaphore given back to the pool is the next one taken from it, and taking it leaves
/// the pool as it was before.
pub proof fn lemma_pool_returns_last_released(pool: Seq<u64>, handle: u64)
    ensures
        pool.push(handle).len() > 0,
        pool.push(handle).last() == handle,
        pool.push(handle).drop_last() == pool,
{
    assert(pool.push(handle).drop_last() =~= pool);
}


/// Distinct handle types have distinct bits, so `try_from_raw` gives back the handle type
/// that `to_raw` turned into bits.
pub proof fn lemma_handle_type_bit_injective(a: ExternalSemaphoreHandleType, b: ExternalSemaphoreHandleType)
    ensures
        handle_type_bit(a) == handle_type_bit(b) ==> a == b,
{
}

/// The mask of one handle type has that handle type's bit, and nothing else.
pub proof fn lemma_single_mask_raw(t: ExternalSemaphoreHandleType)
    ensures
        handle_types_of(t).spec_to_raw() == handle_type_bit(t),
{
    assert(0x1u32 | 0u32 | 0u32 | 0u32 | 0u32 == 0x1u32) by (bit_vector);
    assert(0u32 | 0x2u32 | 0u32 | 0u32 | 0u32 == 0x2u32) by (bit_vector);
    assert(0u32 | 0u32 | 0x4u32 | 0u32 | 0u32 == 0x4u32) by (bit_vector);
    assert(0u32 | 0u32 | 0u32 | 0x8u32 | 0u32 == 0x8u32) by (bit_vector);
    assert(0u32 | 0u32 | 0u32 | 0u32 | 0x10u32 == 0x10u32) by (bit_vector);
}

/// Turning a mask into bits and back gives the same handle types.
pub proof fn lemma_mask_raw_round_trip(m: ExternalSemaphoreHandleTypes)
    ensures
        (m.spec_to_raw() & 0x1 != 0) == m.opaque_fd,
        (m.spec_to_raw() & 0x2 != 0) == m.opaque_win32,
        (m.spec_to_raw() & 0x4 != 0) == m.opaque_win32_kmt,
        (m.spec_to_raw() & 0x8 != 0) == m.d3d12_fence,
        (m.spec_to_raw() & 0x10 != 0) == m.sync_fd,
{
    let a = m.opaque_fd;
    let b = m.opaque_win32;
    let c = m.opaque_win32_kmt;
    let d = m.d3d12_fence;
    let e = m.sync_fd;
    let raw = m.spec_to_raw();
    assert(raw == (if a { 0x1u32 } else { 0 }) | (if b { 0x2u32 } else { 0 }) | (if c { 0x4u32 } else {
        0
    }) | (if d { 0x8u32 } else { 0 }) | (if e { 0x10u32 } else { 0 }));
    assert({
        &&& (raw & 0x1 != 0) == a
        &&& (raw & 0x2 != 0) == b
        &&& (raw & 0x4 != 0) == c
        &&& (raw & 0x8 != 0) == d
        &&& (raw & 0x10 != 0) == e
    }) by (bit_vector)
        requires
            raw == (if a { 0x1u32 } else { 0 }) | (if b { 0x2u32 } else { 0 }) | (if c { 0x4u32 } else {
                0
            }) | (if d { 0x8u32 } else { 0 }) | (if e { 0x10u32 } else { 0 }),
    ;
}

/// A mask is empty exactly when it holds none of the five handle types, and exactly when
/// its bits are all clear.
pub proof fn lemma_empty_iff_no_handle_type(m: ExternalSemaphoreHandleTypes)
    ensures
        m.spec_is_empty() <==> forall|t: ExternalSemaphoreHandleType| !#[trigger] m.has(t),
        m.spec_is_empty() <==> m.spec_to_raw() == 0,
{
    if !m.spec_is_empty() {
        if m.opaque_fd {
            assert(m.has(ExternalSemaphoreHandleType::OpaqueFd));
        } else if m.opaque_win32 {
            assert(m.has(ExternalSemaphoreHandleType::OpaqueWin32));
        } else if m.opaque_win32_kmt {
            assert(m.has(ExternalSemaphoreHandleType::OpaqueWin32Kmt));
        } else if m.d3d12_fence {
            assert(m.has(ExternalSemaphoreHandleType::D3D12Fence));
        } else {
            assert(m.has(ExternalSemaphoreHandleType::SyncFd));
        }
    }
    if m.spec_is_empty() {
        assert forall|t: ExternalSemaphoreHandleType| !#[trigger] m.has(t) by {
            match t {
                ExternalSemaphoreHandleType::OpaqueFd => {},
                ExternalSemaphoreHandleType::OpaqueWin32 => {},
                ExternalSemaphoreHandleType::OpaqueWin32Kmt => {},
                ExternalSemaphoreHandleType::D3D12Fence => {},
                ExternalSemaphoreHandleType::SyncFd => {},
            }
        }
    }
    let a = m.opaque_fd;
    let b = m.opaque_win32;
    let c = m.opaque_win32_kmt;
    let d = m.d3d12_fence;
    let e = m.sync_fd;
    let raw = m.spec_to_raw();
    assert(raw == (if a { 0x1u32 } else { 0 }) | (if b { 0x2u32 } else { 0 }) | (if c { 0x4u32 } else {
        0
    }) | (if d { 0x8u32 } else { 0 }) | (if e { 0x10u32 } else { 0 }));
    assert(raw == 0 <==> (!a && !b && !c && !d && !e)) by (bit_vector)
        requires
            raw == (if a { 0x1u32 } else { 0 }) | (if b { 0x2u32 } else { 0 }) | (if c { 0x4u32 } else {
                0
            }) | (if d { 0x8u32 } else { 0 }) | (if e { 0x10u32 } else { 0 }),
    ;
}

/// A mask meets the mask of one handle type exactly when it holds that handle type.
pub proof fn lemma_intersects_single(m: ExternalSemaphoreHandleTypes, t: ExternalSemaphoreHandleType)
    ensures
        m.spec_intersects(&handle_types_of(t)) == m.has(t),
{
}

} // verus!
