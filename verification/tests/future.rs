use std::sync::Arc;

use vulkano::device::{Device, DeviceExtensions, Version};
use vulkano::future::{now, AccessCheckError, Queue, SubmitAnyBuilder};
use vulkano::image::ImageLayout;

#[test]
fn now_future_is_empty_and_knows_nothing() {
    let device = Arc::new(Device::from_handle(5, Version::major_minor(1, 0), DeviceExtensions::empty(), 1));
    let mut f = now(device);
    f.cleanup_finished();
    f.signal_finished();
    assert_eq!(f.device().internal_object(), 5);
    assert!(f.flush().is_ok());
    assert!(matches!(f.build_submission(), Ok(SubmitAnyBuilder::Empty)));
    assert!(f.queue_change_allowed());
    assert!(f.queue().is_none());
    let q = Queue { handle: 1, queue_family_index: 0 };
    assert_eq!(f.check_buffer_access(3, 0..16, true, &q), Err(AccessCheckError::Unknown));
    assert_eq!(
        f.check_image_access(4, 0..1, false, ImageLayout::General, &q),
        Err(AccessCheckError::Unknown)
    );
    assert_eq!(f.check_swapchain_image_acquired(4, true), Err(AccessCheckError::Unknown));
}
