//! A sample service of the runtime: order management. Only the
//! service value itself lives here; its request handlers run in the
//! surrounding application.

use vstd::prelude::*;

verus! {

/// The order service.
#[derive(Debug)]
pub struct OrderService;

impl OrderService {
    /// Create the service.
    pub fn new() -> (r: Self) {
        OrderService
    }
}

impl Clone for OrderService {
    /// The service is stateless.
    fn clone(&self) -> (r: Self) {
        OrderService
    }
}

} // verus!
