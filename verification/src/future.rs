use std::ops::Range;
use std::sync::Arc;
use vstd::prelude::*;

use crate::device::Device;
use crate::errors::OomError;
use crate::image::ImageLayout;

verus! {

/// A queue of a device: its raw handle and the queue family it belongs to.
#[derive(Debug)]
pub struct Queue {
    pub handle: u64,
    pub queue_family_index: u32,
}

/// The pipeline stages at which an earlier submission last touched a resource, as
/// `VkPipelineStageFlags` bits.
#[derive(Clone, Copy, Debug, PartialEq, Eq, Hash)]
pub struct PipelineStages(pub u64);

/// The kinds of access by which an earlier submission last touched a resource, as
/// `VkAccessFlags` bits.
#[derive(Clone, Copy, Debug, PartialEq, Eq, Hash)]
pub struct AccessFlags(pub u64);

/// Why a future could not say whether a resource may be accessed.
#[derive(Clone, Copy, Debug, PartialEq, Eq, Hash)]
pub enum AccessCheckError {
    /// Access to the resource is refused.
    Denied,
    /// The future knows nothing of the resource.
    Unknown,
}

/// Error that can happen when submitting the work of a future to a queue.
#[derive(Clone, Copy, Debug, PartialEq, Eq, Hash)]
pub enum FlushError {
    OomError(OomError),
    DeviceLost,
    SurfaceLost,
    OutOfDate,
    FullScreenExclusiveModeLost,
    Timeout,
}

/// What a future hands to a queue when it is submitted.
#[derive(Debug)]
pub enum SubmitAnyBuilder {
    /// Nothing to submit.
    Empty,
    /// Waiting on semaphores, by their raw handles.
    SemaphoresWait(Vec<u64>),
    /// Executing command buffers, by their raw handles.
    CommandBuffer(Vec<u64>),
}

/// Builds a future that represents "now".
pub fn now(device: Arc<Device>) -> (r: NowFuture)
    ensures
        r.spec_device() == *device,
{
    NowFuture { device }
}

/// A dummy future that represents "now": it holds no work, is already finished and knows
/// nothing of any resource.
pub struct NowFuture {
    device: Arc<Device>,
}

impl NowFuture {
    pub closed spec fn spec_device(&self) -> Device {
        *self.device
    }

    /// Nothing to clean up.
    pub fn cleanup_finished(&mut self)
        ensures
            final(self).spec_device() == old(self).spec_device(),
    {
    }

    /// Nothing to submit.
    pub fn build_submission(&self) -> (r: Result<SubmitAnyBuilder, FlushError>)
        ensures
            r matches Ok(SubmitAnyBuilder::Empty),
    {
        Ok(SubmitAnyBuilder::Empty)
    }

    /// Nothing to submit: flushing always succeeds.
    pub fn flush(&self) -> (r: Result<(), FlushError>)
        ensures
            r is Ok,
    {
        Ok(())
    }

    /// Nothing to signal.
    pub fn signal_finished(&self) {
    }

    /// The future may move to any queue.
    pub fn queue_change_allowed(&self) -> (r: bool)
        ensures
            r,
    {
        true
    }

    /// The future is bound to no queue.
    pub fn queue(&self) -> (r: Option<Arc<Queue>>)
        ensures
            r is None,
    {
        None
    }

    /// The future knows nothing of any buffer.
    pub fn check_buffer_access(
        &self,
        buffer: u64,
        range: Range<u64>,
        exclusive: bool,
        queue: &Queue,
    ) -> (r: Result<Option<(PipelineStages, AccessFlags)>, AccessCheckError>)
        ensures
            r == Err::<Option<(PipelineStages, AccessFlags)>, AccessCheckError>(
                AccessCheckError::Unknown,
            ),
    {
        Err(AccessCheckError::Unknown)
    }

    /// The future knows nothing of any image.
    pub fn check_image_access(
        &self,
        image: u64,
        range: Range<u64>,
        exclusive: bool,
        expected_layout: ImageLayout,
        queue: &Queue,
    ) -> (r: Result<Option<(PipelineStages, AccessFlags)>, AccessCheckError>)
        ensures
            r == Err::<Option<(PipelineStages, AccessFlags)>, AccessCheckError>(
                AccessCheckError::Unknown,
            ),
    {
        Err(AccessCheckError::Unknown)
    }

    /// The future acquired no swapchain image.
    pub fn check_swapchain_image_acquired(&self, image: u64, before: bool) -> (r: Result<
        (),
        AccessCheckError,
    >)
        ensures
            r == Err::<(), AccessCheckError>(AccessCheckError::Unknown),
    {
        Err(AccessCheckError::Unknown)
    }

    /// The device of the future.
    pub fn device(&self) -> (r: &Arc<Device>)
        ensures
            **r == self.spec_device(),
    {
        &self.device
    }
}

} // verus!
