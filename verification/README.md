# vulkano (host-side bookkeeping, verified)

The parts of a Vulkan binding that decide things on the host, written in Verus with
their contracts proved:

- `src/memory_pool.rs`: a first-fit sub-allocator over blocks of device memory of one
  memory type. Every block keeps its handed-out ranges ordered and disjoint; a request goes
  to the first gap (or the end) of the first block with room, at an offset rounded up to the
  alignment; giving a range back drops it again. When no block has room, the size of the new
  block to ask the driver for is at least 8 MiB and otherwise the next power of two.
- `src/semaphore.rs`: external-semaphore handle types and masks, the checks made before a
  semaphore is created or exported into a file descriptor, and the recycling of semaphores
  through the device's pool (the one given back last is the next one taken).
- `src/image.rs`: swapchain images (which image of the swapchain they stand for, the layouts
  they need) and the swapchain's record of which images have an initialized layout.
- `src/future.rs`: the "now" future, which holds no work.
- `src/device.rs`, `src/errors.rs`: the device, memory blocks, versions and errors that the
  above read.

`app/` holds what cannot be verified: the driver calls through `ash` (creating, destroying and
exporting semaphores, allocating memory), the `parking_lot` locks that let threads share a
pool, `Drop` impls that give ranges and semaphores back, and the error messages.
