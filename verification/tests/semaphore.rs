use std::collections::hash_map::DefaultHasher;
use std::hash::{Hash, Hasher};
use std::sync::Arc;

use vulkano::device::{Device, DeviceExtensions, Version};
use vulkano::errors::{OomError, RequirementNotMet, RequiresOneOf, VulkanError};
use vulkano::semaphore::{
    ExternalSemaphoreHandleType, ExternalSemaphoreHandleTypes, ExternalSemaphoreInfo, Semaphore,
    SemaphoreCreateInfo, SemaphoreError,
};

fn device_with(version: Version, extensions: DeviceExtensions) -> Arc<Device> {
    Arc::new(Device::from_handle(42, version, extensions, 1))
}

fn plain_device() -> Arc<Device> {
    device_with(Version::major_minor(1, 0), DeviceExtensions::empty())
}

fn fd_device() -> Arc<Device> {
    device_with(
        Version::major_minor(1, 0),
        DeviceExtensions { khr_external_semaphore: true, khr_external_semaphore_fd: true },
    )
}

fn opaque_fd_types() -> ExternalSemaphoreHandleTypes {
    ExternalSemaphoreHandleTypes { opaque_fd: true, ..ExternalSemaphoreHandleTypes::empty() }
}

#[test]
fn semaphore_create() {
    let device = plain_device();
    let create_info: SemaphoreCreateInfo = Default::default();
    assert!(Semaphore::validate_new(&device, &create_info).is_ok());
    let sem = Semaphore::from_handle(device, 5, create_info);
    assert_eq!(sem.internal_object(), 5);
    assert!(!sem.must_put_in_pool());
}

#[test]
fn semaphore_pool() {
    let device = plain_device();
    let mut pool: Vec<u64> = Vec::new();

    assert_eq!(pool.len(), 0);
    let sem1_internal_obj = {
        // the pool is empty, so a new semaphore is made
        assert!(Semaphore::from_pool(device.clone(), &mut pool).is_none());
        let mut sem = Semaphore::from_handle(device.clone(), 11, Default::default());
        sem.put_in_pool_on_release();
        assert_eq!(pool.len(), 0);
        let obj = sem.internal_object();
        assert_eq!(sem.release(&mut pool), None);
        obj
    };

    assert_eq!(pool.len(), 1);
    let sem2 = Semaphore::from_pool(device.clone(), &mut pool).unwrap();
    assert_eq!(pool.len(), 0);
    assert_eq!(sem2.internal_object(), sem1_internal_obj);
}

#[test]
fn semaphore_export() {
    let device = fd_device();
    let create_info = SemaphoreCreateInfo { export_handle_types: opaque_fd_types(), ..Default::default() };
    assert!(Semaphore::validate_new(&device, &create_info).is_ok());
    let sem = Semaphore::from_handle(device, 3, create_info);
    assert!(sem.validate_export_fd(ExternalSemaphoreHandleType::OpaqueFd).is_ok());
}

#[test]
fn default_create_info_has_no_export_types() {
    let info = SemaphoreCreateInfo::default();
    assert!(info.export_handle_types.is_empty());
}

#[test]
fn export_types_need_vulkan_1_1_or_the_extension() {
    let create_info = SemaphoreCreateInfo { export_handle_types: opaque_fd_types(), ..Default::default() };
    let err = Semaphore::validate_new(&plain_device(), &create_info).unwrap_err();
    assert_eq!(
        err,
        SemaphoreError::RequirementNotMet {
            required_for: "`create_info.export_handle_types` is not empty",
            requires_one_of: RequiresOneOf {
                api_version: Some(Version::major_minor(1, 1)),
                features: &[],
                device_extensions: &["khr_external_semaphore"],
                instance_extensions: &[],
            },
        }
    );
    let v11 = device_with(Version::major_minor(1, 1), DeviceExtensions::empty());
    assert!(Semaphore::validate_new(&v11, &create_info).is_ok());
    let v12 = device_with(Version::major_minor(1, 2), DeviceExtensions::empty());
    assert!(Semaphore::validate_new(&v12, &create_info).is_ok());
    let ext = device_with(
        Version::major_minor(1, 0),
        DeviceExtensions { khr_external_semaphore: true, ..DeviceExtensions::empty() },
    );
    assert!(Semaphore::validate_new(&ext, &create_info).is_ok());
}

#[test]
fn export_fd_needs_the_fd_extension() {
    let device = device_with(
        Version::major_minor(1, 1),
        DeviceExtensions { khr_external_semaphore: true, ..DeviceExtensions::empty() },
    );
    let create_info = SemaphoreCreateInfo { export_handle_types: opaque_fd_types(), ..Default::default() };
    let sem = Semaphore::from_handle(device, 3, create_info);
    assert_eq!(
        sem.validate_export_fd(ExternalSemaphoreHandleType::OpaqueFd).unwrap_err(),
        SemaphoreError::RequirementNotMet {
            required_for: "`export_fd`",
            requires_one_of: RequiresOneOf {
                api_version: None,
                features: &[],
                device_extensions: &["khr_external_semaphore_fd"],
                instance_extensions: &[],
            },
        }
    );
}

#[test]
fn export_fd_needs_the_handle_type_at_creation() {
    let sem = Semaphore::from_handle(fd_device(), 3, SemaphoreCreateInfo::default());
    assert_eq!(
        sem.validate_export_fd(ExternalSemaphoreHandleType::OpaqueFd).unwrap_err(),
        SemaphoreError::HandleTypeNotSupported { handle_type: ExternalSemaphoreHandleType::OpaqueFd }
    );
}

#[test]
fn export_fd_needs_a_file_descriptor_type() {
    let create_info = SemaphoreCreateInfo {
        export_handle_types: ExternalSemaphoreHandleTypes {
            opaque_win32: true,
            ..ExternalSemaphoreHandleTypes::empty()
        },
        ..Default::default()
    };
    let sem = Semaphore::from_handle(fd_device(), 3, create_info);
    assert_eq!(
        sem.validate_export_fd(ExternalSemaphoreHandleType::OpaqueWin32).unwrap_err(),
        SemaphoreError::HandleTypeNotFd { handle_type: ExternalSemaphoreHandleType::OpaqueWin32 }
    );
}

#[test]
fn export_fd_accepts_sync_fd() {
    let create_info = SemaphoreCreateInfo {
        export_handle_types: ExternalSemaphoreHandleTypes { sync_fd: true, ..ExternalSemaphoreHandleTypes::empty() },
        ..Default::default()
    };
    let sem = Semaphore::from_handle(fd_device(), 3, create_info);
    assert!(sem.validate_export_fd(ExternalSemaphoreHandleType::SyncFd).is_ok());
    assert_eq!(
        sem.validate_export_fd(ExternalSemaphoreHandleType::OpaqueFd).unwrap_err(),
        SemaphoreError::HandleTypeNotSupported { handle_type: ExternalSemaphoreHandleType::OpaqueFd }
    );
}

#[test]
fn released_plain_semaphore_is_for_destroying() {
    let mut pool: Vec<u64> = vec![1, 2];
    let sem = Semaphore::from_handle(plain_device(), 9, Default::default());
    assert_eq!(sem.release(&mut pool), Some(9));
    assert_eq!(pool, vec![1, 2]);
}

#[test]
fn pool_gives_back_the_last_released() {
    let device = plain_device();
    let mut pool: Vec<u64> = vec![1, 2];
    let s = Semaphore::from_pool(device.clone(), &mut pool).unwrap();
    assert_eq!(s.internal_object(), 2);
    assert!(s.must_put_in_pool());
    assert!(s.export_handle_types().is_empty());
    assert_eq!(pool, vec![1]);
    assert_eq!(s.release(&mut pool), None);
    assert_eq!(pool, vec![1, 2]);
}

#[test]
fn semaphores_are_equal_by_handle_and_device() {
    let d = plain_device();
    let a = Semaphore::from_handle(d.clone(), 4, Default::default());
    let b = Semaphore::from_handle(d.clone(), 4, Default::default());
    let c = Semaphore::from_handle(d, 5, Default::default());
    let other_device = Arc::new(Device::from_handle(43, Version::major_minor(1, 0), DeviceExtensions::empty(), 1));
    let e = Semaphore::from_handle(other_device, 4, Default::default());
    assert!(a == b);
    assert!(a != c);
    assert!(a != e);
}

#[test]
fn single_handle_type_mask() {
    let m: ExternalSemaphoreHandleTypes = ExternalSemaphoreHandleType::D3D12Fence.into();
    assert!(m.d3d12_fence);
    assert!(!m.opaque_fd && !m.opaque_win32 && !m.opaque_win32_kmt && !m.sync_fd);
    assert_eq!(m.to_raw(), 0x8);
    assert!(m.intersects(&ExternalSemaphoreHandleType::D3D12Fence.into()));
    assert!(!m.intersects(&ExternalSemaphoreHandleType::SyncFd.into()));
}

#[test]
fn handle_type_bits() {
    assert_eq!(ExternalSemaphoreHandleType::OpaqueFd.to_raw(), 0x1);
    assert_eq!(ExternalSemaphoreHandleType::OpaqueWin32.to_raw(), 0x2);
    assert_eq!(ExternalSemaphoreHandleType::OpaqueWin32Kmt.to_raw(), 0x4);
    assert_eq!(ExternalSemaphoreHandleType::D3D12Fence.to_raw(), 0x8);
    assert_eq!(ExternalSemaphoreHandleType::SyncFd.to_raw(), 0x10);
    assert_eq!(ExternalSemaphoreHandleType::try_from_raw(0x10), Some(ExternalSemaphoreHandleType::SyncFd));
    assert_eq!(ExternalSemaphoreHandleType::try_from_raw(0x3), None);
}

#[test]
fn mask_bits_round_trip() {
    let m = ExternalSemaphoreHandleTypes {
        opaque_fd: true,
        opaque_win32_kmt: true,
        sync_fd: true,
        ..ExternalSemaphoreHandleTypes::empty()
    };
    assert_eq!(m.to_raw(), 0x15);
    assert_eq!(ExternalSemaphoreHandleTypes::from_raw(m.to_raw()), m);
    // unknown bits are dropped
    assert_eq!(ExternalSemaphoreHandleTypes::from_raw(0x80 | 0x2).to_raw(), 0x2);
}

#[test]
fn external_semaphore_info_for_a_handle_type() {
    let info = ExternalSemaphoreInfo::handle_type(ExternalSemaphoreHandleType::SyncFd);
    assert_eq!(info.handle_type, ExternalSemaphoreHandleType::SyncFd);
}

#[test]
fn errors_convert_into_semaphore_errors() {
    assert_eq!(SemaphoreError::from(OomError::OutOfHostMemory), SemaphoreError::OomError(OomError::OutOfHostMemory));
    assert_eq!(
        SemaphoreError::from_vulkan_error(VulkanError::OutOfDeviceMemory),
        SemaphoreError::OomError(OomError::OutOfDeviceMemory)
    );
    let req = RequirementNotMet { required_for: "x", requires_one_of: RequiresOneOf::none() };
    assert_eq!(
        SemaphoreError::from(req),
        SemaphoreError::RequirementNotMet { required_for: "x", requires_one_of: RequiresOneOf::none() }
    );
}

#[test]
fn equal_semaphores_hash_alike() {
    let hash = |s: &Semaphore| {
        let mut h = DefaultHasher::new();
        s.hash(&mut h);
        h.finish()
    };
    let d = plain_device();
    let a = Semaphore::from_handle(d.clone(), 4, Default::default());
    let b = Semaphore::from_handle(d, 4, SemaphoreCreateInfo { export_handle_types: opaque_fd_types(), ..Default::default() });
    assert!(a == b);
    assert_eq!(hash(&a), hash(&b));
}
