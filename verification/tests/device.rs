use vulkano::device::{Device, DeviceExtensions, Version};
use vulkano::errors::{DeviceMemoryError, OomError, VulkanError};

#[test]
fn versions_compare_by_major_then_minor_then_patch() {
    let v = |major, minor, patch| Version { major, minor, patch };
    assert!(v(1, 1, 0).is_at_least(&v(1, 1, 0)));
    assert!(v(1, 2, 0).is_at_least(&v(1, 1, 5)));
    assert!(v(2, 0, 0).is_at_least(&v(1, 3, 0)));
    assert!(!v(1, 0, 9).is_at_least(&v(1, 1, 0)));
    assert!(!v(1, 1, 0).is_at_least(&v(1, 1, 1)));
    assert_eq!(Version::major_minor(1, 3), v(1, 3, 0));
}

#[test]
fn device_reports_what_it_was_made_with() {
    let ext = DeviceExtensions { khr_external_semaphore: true, ..DeviceExtensions::empty() };
    let d = Device::from_handle(9, Version::major_minor(1, 2), ext, 3);
    assert_eq!(d.internal_object(), 9);
    assert_eq!(d.api_version(), Version::major_minor(1, 2));
    assert_eq!(*d.enabled_extensions(), ext);
    assert_eq!(d.memory_type_count(), 3);
}

#[test]
fn vulkan_error_codes() {
    assert_eq!(VulkanError::from_raw(-1), VulkanError::OutOfHostMemory);
    assert_eq!(VulkanError::from_raw(-2), VulkanError::OutOfDeviceMemory);
    assert_eq!(VulkanError::from_raw(-4), VulkanError::DeviceLost);
    assert_eq!(VulkanError::from_raw(-1000072003), VulkanError::InvalidExternalHandle);
    assert_eq!(VulkanError::from_raw(-13), VulkanError::Unnamed(-13));
    assert!(VulkanError::OutOfHostMemory.is_oom());
    assert!(!VulkanError::DeviceLost.is_oom());
    assert_eq!(OomError::from_vulkan_error(VulkanError::OutOfDeviceMemory), OomError::OutOfDeviceMemory);
}

#[test]
fn allocation_errors_from_driver_errors() {
    assert_eq!(
        DeviceMemoryError::from_vulkan_error(VulkanError::OutOfHostMemory),
        DeviceMemoryError::OomError(OomError::OutOfHostMemory)
    );
    assert_eq!(
        DeviceMemoryError::from_vulkan_error(VulkanError::TooManyObjects),
        DeviceMemoryError::TooManyObjects
    );
}
