use std::sync::atomic::AtomicBool;
use std::sync::Arc;
use vstd::prelude::*;

use crate::device::{hash_u64, Device};
use crate::errors::OomError;

verus! {

/// The layout of the memory of an image.
#[derive(Clone, Copy, Debug, PartialEq, Eq, Hash)]
pub enum ImageLayout {
    Undefined,
    General,
    ColorAttachmentOptimal,
    DepthStencilAttachmentOptimal,
    DepthStencilReadOnlyOptimal,
    ShaderReadOnlyOptimal,
    TransferSrcOptimal,
    TransferDstOptimal,
    Preinitialized,
    DepthReadOnlyStencilAttachmentOptimal,
    DepthAttachmentStencilReadOnlyOptimal,
    PresentSrc,
}

/// The layouts an image must be in when it is used through each kind of descriptor.
#[derive(Clone, Copy, Debug, PartialEq, Eq, Hash)]
pub struct ImageDescriptorLayouts {
    pub storage_image: ImageLayout,
    pub combined_image_sampler: ImageLayout,
    pub sampled_image: ImageLayout,
    pub input_attachment: ImageLayout,
}

/// The part of an image that an image object stands for: the raw image handle and the
/// array layers and mipmap levels used.
#[derive(Clone, Copy, Debug, PartialEq, Eq, Hash)]
pub struct ImageInner {
    pub image: u64,
    pub first_layer: u32,
    pub num_layers: u32,
    pub first_mipmap_level: u32,
    pub num_mipmap_levels: u32,
}

/// One image of a swapchain, and whether its layout has been initialized. The flag is
/// shared by everyone who holds the swapchain.
#[derive(Debug)]
struct ImageEntry {
    image: u64,
    undefined_layout: AtomicBool,
}

/// A swapchain, as far as its images go: the device, the surface, the number of array
/// layers of each image and the images themselves.
#[derive(Debug)]
pub struct Swapchain<W> {
    device: Arc<Device>,
    surface: W,
    image_array_layers: u32,
    images: Vec<ImageEntry>,
}

/// The raw image handles of a list of entries.
spec fn image_handles(entries: Seq<ImageEntry>) -> Seq<u64> {
    entries.map_values(|e: ImageEntry| e.image)
}

impl<W> Swapchain<W> {
    /// The raw handles of the images, in order.
    pub closed spec fn spec_images(&self) -> Seq<u64> {
        image_handles(self.images@)
    }

    pub closed spec fn spec_image_array_layers(&self) -> u32 {
        self.image_array_layers
    }

    pub closed spec fn spec_device(&self) -> Device {
        *self.device
    }

    pub closed spec fn spec_surface(&self) -> W {
        self.surface
    }

    /// A swapchain over images that the driver created; every image starts with an
    /// undefined layout.
    pub fn from_images(device: Arc<Device>, surface: W, image_array_layers: u32, images: Vec<u64>) -> (r:
        Swapchain<W>)
        ensures
            r.spec_images() == images@,
            r.spec_image_array_layers() == image_array_layers,
            r.spec_device() == *device,
            r.spec_surface() == surface,
    {
        let mut entries: Vec<ImageEntry> = Vec::new();
        let mut i: usize = 0;
        while i < images.len()
            invariant
                i <= images@.len(),
                image_handles(entries@) == images@.take(i as int),
            decreases images@.len() - i,
        {
            let ghost before = entries@;
            entries.push(ImageEntry { image: images[i], undefined_layout: AtomicBool::new(true) });
            proof {
                assert(image_handles(entries@) =~= image_handles(before).push(images@[i as int]));
                assert(images@.take(i + 1) =~= images@.take(i as int).push(images@[i as int]));
            }
            i += 1;
        }
        proof {
            assert(images@.take(images@.len() as int) =~= images@);
        }
        Swapchain { device, surface, image_array_layers, images: entries }
    }

    /// The device of the swapchain.
    pub fn device(&self) -> (r: &Arc<Device>)
        ensures
            **r == self.spec_device(),
    {
        &self.device
    }

    /// The surface the swapchain presents to.
    pub fn surface(&self) -> (r: &W)
        ensures
            *r == self.spec_surface(),
    {
        &self.surface
    }

    /// The number of images.
    pub fn image_count(&self) -> (r: usize)
        ensures
            r == self.spec_images().len(),
    {
        self.images.len()
    }

    /// The entry of image `index`, if there is one.
    fn entry(&self, index: u32) -> (r: Option<&ImageEntry>)
        ensures
            match r {
                Some(e) => index < self.spec_images().len() && e.image == self.spec_images()[index as int],
                None => index >= self.spec_images().len(),
            },
    {
        let i = index as usize;
        if i < self.images.len() {
            Some(&self.images[i])
        } else {
            None
        }
    }

    /// The whole of image `index`: every array layer, the one mipmap level.
    pub fn raw_image(&self, index: u32) -> (r: Option<ImageInner>)
        ensures
            index < self.spec_images().len() ==> r == Some(swapchain_image_inner(self, index)),
            index >= self.spec_images().len() ==> r is None,
    {
        match self.entry(index) {
            Some(e) => Some(
                ImageInner {
                    image: e.image,
                    first_layer: 0,
                    num_layers: self.image_array_layers,
                    first_mipmap_level: 0,
                    num_mipmap_levels: 1,
                },
            ),
            None => None,
        }
    }

    /// Records that the layout of image `index` has been initialized. Out of range, nothing
    /// happens.
    pub fn image_layout_initialized(&self, index: u32) {
        if let Some(e) = self.entry(index) {
            e.undefined_layout.store(false, std::sync::atomic::Ordering::SeqCst);
        }
    }

    /// Whether the layout of image `index` has been initialized; `false` out of range.
    pub fn is_image_layout_initialized(&self, index: u32) -> (r: bool)
        ensures
            index >= self.spec_images().len() ==> !r,
    {
        match self.entry(index) {
            Some(e) => !e.undefined_layout.load(std::sync::atomic::Ordering::SeqCst),
            None => false,
        }
    }
}

/// Image `index` of `swapchain` as an image: every array layer, the one mipmap level.
pub open spec fn swapchain_image_inner<W>(swapchain: &Swapchain<W>, index: u32) -> ImageInner {
    ImageInner {
        image: swapchain.spec_images()[index as int],
        first_layer: 0,
        num_layers: swapchain.spec_image_array_layers(),
        first_mipmap_level: 0,
        num_mipmap_levels: 1,
    }
}

/// An image that is part of a swapchain.
///
/// Creating a `SwapchainImage` is automatically done when creating a swapchain.
///
/// A swapchain image is special in the sense that it can only be used after being acquired by
/// calling the `acquire` method on the swapchain. You have no way to know in advance which
/// swapchain image is going to be acquired, so you should keep all of them alive.
///
/// After a swapchain image has been acquired, you are free to perform all the usual operations
/// on it. When you are done you can then *present* the image (by calling the corresponding
/// method on the swapchain), which will have the effect of showing the content of the image to
/// the screen. Once an image has been presented, it can no longer be used unless it is acquired
/// again.
#[derive(Debug)]
pub struct SwapchainImage<W> {
    swapchain: Arc<Swapchain<W>>,
    image_index: u32,
}

/// What image `index` of `swapchain` stands for, if the swapchain has such an image.
pub open spec fn swapchain_image_of<W>(swapchain: &Swapchain<W>, index: u32) -> Option<ImageInner> {
    if index < swapchain.spec_images().len() {
        Some(swapchain_image_inner(swapchain, index))
    } else {
        None
    }
}

impl<W> SwapchainImage<W> {
    pub closed spec fn spec_swapchain(&self) -> Swapchain<W> {
        *self.swapchain
    }

    pub closed spec fn spec_image_index(&self) -> u32 {
        self.image_index
    }
}

impl<W> SwapchainImage<W> where W: Send + Sync {
    /// Builds a `SwapchainImage` from raw components: image `image_index` of `swapchain`.
    /// The index is not checked here; the methods that read the image need it to name one
    /// of the swapchain's images.
    ///
    /// This is an internal method that you shouldn't call.
    pub fn from_raw(swapchain: Arc<Swapchain<W>>, image_index: u32) -> (r: Result<
        Arc<SwapchainImage<W>>,
        OomError,
    >)
        ensures
            r matches Ok(img) && img.spec_swapchain() == *swapchain && img.spec_image_index()
                == image_index,
    {
        Ok(Arc::new(SwapchainImage { swapchain, image_index }))
    }

    /// Returns the swapchain this image belongs to.
    pub fn swapchain(&self) -> (r: &Arc<Swapchain<W>>)
        ensures
            **r == self.spec_swapchain(),
    {
        &self.swapchain
    }

    fn my_image(&self) -> (r: ImageInner)
        requires
            self.spec_image_index() < self.spec_swapchain().spec_images().len(),
        ensures
            r == swapchain_image_inner(&self.spec_swapchain(), self.spec_image_index()),
    {
        self.swapchain.raw_image(self.image_index).unwrap()
    }

    /// Records that the layout of the image has been initialized.
    pub fn layout_initialized(&self) {
        self.swapchain.image_layout_initialized(self.image_index);
    }

    /// Whether the layout of the image has been initialized, by this or any other holder of
    /// the swapchain.
    pub fn is_layout_initialized(&self) -> bool {
        self.swapchain.is_image_layout_initialized(self.image_index)
    }

    /// The device of the image's swapchain.
    pub fn device(&self) -> (r: &Arc<Device>)
        ensures
            **r == self.spec_swapchain().spec_device(),
    {
        self.swapchain.device()
    }

    /// The image, with the layers and levels used: the whole of image `image_index` of the
    /// swapchain.
    pub fn inner(&self) -> (r: ImageInner)
        requires
            self.spec_image_index() < self.spec_swapchain().spec_images().len(),
        ensures
            r == swapchain_image_inner(&self.spec_swapchain(), self.spec_image_index()),
    {
        self.my_image()
    }

    /// A swapchain image must be in the present layout before it is used.
    pub fn initial_layout_requirement(&self) -> (r: ImageLayout)
        ensures
            r == ImageLayout::PresentSrc,
    {
        ImageLayout::PresentSrc
    }

    /// A swapchain image must be back in the present layout after it is used.
    pub fn final_layout_requirement(&self) -> (r: ImageLayout)
        ensures
            r == ImageLayout::PresentSrc,
    {
        ImageLayout::PresentSrc
    }

    /// The layouts of the image for each kind of descriptor.
    pub fn descriptor_layouts(&self) -> (r: Option<ImageDescriptorLayouts>)
        ensures
            r == Some(
                ImageDescriptorLayouts {
                    storage_image: ImageLayout::General,
                    combined_image_sampler: ImageLayout::ShaderReadOnlyOptimal,
                    sampled_image: ImageLayout::ShaderReadOnlyOptimal,
                    input_attachment: ImageLayout::ShaderReadOnlyOptimal,
                },
            ),
    {
        Some(
            ImageDescriptorLayouts {
                storage_image: ImageLayout::General,
                combined_image_sampler: ImageLayout::ShaderReadOnlyOptimal,
                sampled_image: ImageLayout::ShaderReadOnlyOptimal,
                input_attachment: ImageLayout::ShaderReadOnlyOptimal,
            },
        )
    }

    /// Whether the content format matches the image's format; not checked for swapchain
    /// images, which always answer yes.
    pub fn matches_format(&self) -> (r: bool)
        ensures
            r,
    {
        true
    }
}

/// Two swapchain images are equal when they stand for the same part of the same image. An
/// image whose index names none of its swapchain's images stands for nothing, and equals
/// only such images.
impl<W> PartialEq for SwapchainImage<W> where W: Send + Sync {
    fn eq(&self, other: &Self) -> (r: bool)
        ensures
            self.spec_image_index() < self.spec_swapchain().spec_images().len()
                && other.spec_image_index() < other.spec_swapchain().spec_images().len() ==> (r
                <==> swapchain_image_inner(&self.spec_swapchain(), self.spec_image_index())
                == swapchain_image_inner(&other.spec_swapchain(), other.spec_image_index())),
    {
        let a = self.swapchain.raw_image(self.image_index);
        let b = other.swapchain.raw_image(other.image_index);
        match (a, b) {
            (Some(a), Some(b)) => a.image == b.image && a.first_layer == b.first_layer
                && a.num_layers == b.num_layers && a.first_mipmap_level == b.first_mipmap_level
                && a.num_mipmap_levels == b.num_mipmap_levels,
            (None, None) => true,
            _ => false,
        }
    }
}

impl<W> Eq for SwapchainImage<W> where W: Send + Sync {

}

impl<W> std::hash::Hash for SwapchainImage<W> where W: Send + Sync {
    fn hash<H: std::hash::Hasher>(&self, state: &mut H) {
        if let Some(inner) = self.swapchain.raw_image(self.image_index) {
            hash_u64(inner.image, state);
            hash_u64(inner.first_layer as u64, state);
            hash_u64(inner.num_layers as u64, state);
            hash_u64(inner.first_mipmap_level as u64, state);
            hash_u64(inner.num_mipmap_levels as u64, state);
        }
    }
}

impl<W> vstd::std_specs::cmp::PartialEqSpecImpl for SwapchainImage<W> where W: Send + Sync {
    open spec fn obeys_eq_spec() -> bool {
        true
    }

    open spec fn eq_spec(&self, other: &SwapchainImage<W>) -> bool {
        swapchain_image_of(&self.spec_swapchain(), self.spec_image_index()) == swapchain_image_of(
            &other.spec_swapchain(),
            other.spec_image_index(),
        )
    }
}

/// The raw handle of the swapchain image that `img` stands for.
pub open spec fn image_handle<W>(img: &SwapchainImage<W>) -> u64 {
    img.spec_swapchain().spec_images()[img.spec_image_index() as int]
}

/// Two swapchain images whose indices name images of their swapchains are equal exactly
/// when they stand for the same image handle with the same layers and mipmap levels, whatever
/// swapchains they come from.
pub proof fn lemma_eq_is_same_image<W: Send + Sync>(a: &SwapchainImage<W>, b: &SwapchainImage<W>)
    requires
        a.spec_image_index() < a.spec_swapchain().spec_images().len(),
        b.spec_image_index() < b.spec_swapchain().spec_images().len(),
    ensures
        vstd::std_specs::cmp::PartialEqSpec::eq_spec(a, b) <==> {
            &&& image_handle(a) == image_handle(b)
            &&& a.spec_swapchain().spec_image_array_layers() == b.spec_swapchain().spec_image_array_layers()
        },
{
}

} // verus!
