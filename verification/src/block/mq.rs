//! The multi-queue block layer.

use crate::error::Result;
use crate::grants::Grants;
use crate::types::{ARef, URef};
pub use request::Request;
use vstd::prelude::*;

pub mod counting;
pub mod gen_disk;
pub mod laws;
pub mod request;
pub mod tag_set;

verus! {

/// The types that a block device driver associates with its requests.
pub trait RequestTypes: Sized {
    /// Data associated with a request.
    type RequestData;
}

/// What a block device driver does when a request is completed.
pub trait CompleteOperation: RequestTypes {
    /// A request may be completed.
    spec fn completable(rq: Request<Self>) -> bool;

    /// What completing a request makes of it.
    spec fn completed(rq: Request<Self>) -> Request<Self>;

    /// Called when the request is completed.
    fn complete(this: ARef<Request<Self>>, rq: &mut Request<Self>)
        requires
            this.ptr == old(rq).ptr,
            Self::completable(*old(rq)),
        ensures
            *final(rq) == Self::completed(*old(rq)),
    ;
}

/// What a block device driver implements to process requests.
pub trait Operations: CompleteOperation {
    /// Data associated with a queue.
    type QueueData;

    /// A request may be queued.
    spec fn queueable(queue_data: Self::QueueData, rq: Request<Self>) -> bool;

    /// The data of a request that was not used before.
    fn new_request_data() -> Self::RequestData;

    /// Called to queue a request with the driver. `is_last` says whether no more requests follow at
    /// once. `remote` says whether the block layer takes it on to call
    /// [`CompleteOperation::complete`] if the driver completes the request.
    fn queue_rq(
        queue_data: &mut Self::QueueData,
        rq: URef<'_, Request<Self>>,
        is_last: bool,
        remote: bool,
        grants: &mut Grants,
    ) -> Result<()>
        requires
            Self::queueable(*old(queue_data), rq.target()),
    ;

    /// Called to tell that queued requests should be submitted.
    fn commit_rqs(queue_data: &Self::QueueData);
}

} // verus!
