//! Host-side bookkeeping of a Vulkan binding: a first-fit sub-allocator for
//! device-memory blocks, semaphore validation and recycling, swapchain image
//! access and the "now" future.

pub mod device;
pub mod memory_pool;
pub mod errors;
pub mod semaphore;
pub mod image;
pub mod future;
