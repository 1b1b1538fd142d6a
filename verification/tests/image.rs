use std::collections::hash_map::DefaultHasher;
use std::hash::{Hash, Hasher};
use std::sync::Arc;

use vulkano::device::{Device, DeviceExtensions, Version};
use vulkano::image::{ImageDescriptorLayouts, ImageInner, ImageLayout, Swapchain, SwapchainImage};

fn swapchain() -> Arc<Swapchain<u32>> {
    let device = Arc::new(Device::from_handle(1, Version::major_minor(1, 0), DeviceExtensions::empty(), 1));
    Arc::new(Swapchain::from_images(device, 77u32, 2, vec![100, 200, 300]))
}

#[test]
fn swapchain_image_is_the_whole_image() {
    let sc = swapchain();
    let img = SwapchainImage::from_raw(sc.clone(), 1).unwrap();
    assert_eq!(
        img.inner(),
        ImageInner { image: 200, first_layer: 0, num_layers: 2, first_mipmap_level: 0, num_mipmap_levels: 1 }
    );
    assert!(Arc::ptr_eq(img.swapchain(), &sc));
    assert_eq!(img.device().internal_object(), 1);
    assert_eq!(*sc.surface(), 77);
    assert_eq!(sc.image_count(), 3);
}

#[test]
fn swapchain_raw_image_out_of_range_is_none() {
    let sc = swapchain();
    assert_eq!(sc.raw_image(3), None);
    assert!(!sc.is_image_layout_initialized(3));
    sc.image_layout_initialized(3);
}

#[test]
fn swapchain_images_need_the_present_layout() {
    let img = SwapchainImage::from_raw(swapchain(), 0).unwrap();
    assert_eq!(img.initial_layout_requirement(), ImageLayout::PresentSrc);
    assert_eq!(img.final_layout_requirement(), ImageLayout::PresentSrc);
    assert!(img.matches_format());
    assert_eq!(
        img.descriptor_layouts(),
        Some(ImageDescriptorLayouts {
            storage_image: ImageLayout::General,
            combined_image_sampler: ImageLayout::ShaderReadOnlyOptimal,
            sampled_image: ImageLayout::ShaderReadOnlyOptimal,
            input_attachment: ImageLayout::ShaderReadOnlyOptimal,
        })
    );
}

#[test]
fn layout_initialization_is_shared_through_the_swapchain() {
    let sc = swapchain();
    let a = SwapchainImage::from_raw(sc.clone(), 2).unwrap();
    let b = SwapchainImage::from_raw(sc.clone(), 2).unwrap();
    let other = SwapchainImage::from_raw(sc.clone(), 0).unwrap();
    assert!(!a.is_layout_initialized());
    a.layout_initialized();
    assert!(a.is_layout_initialized());
    assert!(b.is_layout_initialized());
    assert!(!other.is_layout_initialized());
}

#[test]
fn swapchain_images_are_equal_by_image() {
    let sc = swapchain();
    let a = SwapchainImage::from_raw(sc.clone(), 1).unwrap();
    let b = SwapchainImage::from_raw(sc.clone(), 1).unwrap();
    let c = SwapchainImage::from_raw(sc, 0).unwrap();
    assert!(*a == *b);
    assert!(*a != *c);
}

#[test]
fn equal_swapchain_images_hash_alike() {
    let hash = |s: &SwapchainImage<u32>| {
        let mut h = DefaultHasher::new();
        s.hash(&mut h);
        h.finish()
    };
    let sc = swapchain();
    let a = SwapchainImage::from_raw(sc.clone(), 1).unwrap();
    let b = SwapchainImage::from_raw(sc, 1).unwrap();
    assert_eq!(hash(&a), hash(&b));
}

#[test]
fn swapchain_image_can_be_built_for_any_index() {
    let sc = swapchain();
    let img = SwapchainImage::from_raw(sc.clone(), 10).unwrap();
    assert!(Arc::ptr_eq(img.swapchain(), &sc));
    assert!(!img.is_layout_initialized());
    let other = SwapchainImage::from_raw(sc.clone(), 11).unwrap();
    let real = SwapchainImage::from_raw(sc, 0).unwrap();
    assert!(*img == *other);
    assert!(*img != *real);
}
