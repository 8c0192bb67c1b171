//! The query planner's own state and what it hands to the planner of cube scans.
use std::sync::Arc;
use vstd::prelude::*;

verus! {

/// Plans queries over cubes. Holds what a cube scan needs at run time: the transport that
/// loads data, the metadata sent with each load request, and the configuration.
pub struct CubeQueryPlanner<T: ?Sized, M, C: ?Sized> {
    pub transport: Arc<T>,
    pub meta: M,
    pub config_obj: Arc<C>,
}

/// Plans the cube scans of one query.
pub struct CubeScanExtensionPlanner<T: ?Sized, M, C: ?Sized> {
    pub transport: Arc<T>,
    pub meta: M,
    pub config_obj: Arc<C>,
}

impl<T: ?Sized, M, C: ?Sized> CubeQueryPlanner<T, M, C> {
    /// A planner over the given transport, request metadata and configuration.
    pub fn new(transport: Arc<T>, meta: M, config_obj: Arc<C>) -> (r: Self)
        ensures
            r.transport == transport,
            r.meta == meta,
            r.config_obj == config_obj,
    {
        Self { transport, meta, config_obj }
    }
}

impl<T: ?Sized, M: Clone, C: ?Sized> CubeQueryPlanner<T, M, C> {
    /// The planner of cube scans for one query. It shares this planner's transport and
    /// configuration, and carries a clone of the request metadata.
    pub fn scan_extension_planner(&self) -> (r: CubeScanExtensionPlanner<T, M, C>)
        ensures
            r.transport == self.transport,
            cloned(self.meta, r.meta),
            r.config_obj == self.config_obj,
    {
        CubeScanExtensionPlanner {
            transport: self.transport.clone(),
            meta: self.meta.clone(),
            config_obj: self.config_obj.clone(),
        }
    }
}

} // verus!
