use cubesql::planner::CubeQueryPlanner;
use std::sync::Arc;

#[test]
fn planner_keeps_its_parts() {
    let transport: Arc<str> = Arc::from("transport");
    let planner = CubeQueryPlanner::new(transport.clone(), 7u32, Arc::new(true));
    assert!(Arc::ptr_eq(&planner.transport, &transport));
    assert_eq!(planner.meta, 7);
    assert!(*planner.config_obj);
    let scan = planner.scan_extension_planner();
    assert!(Arc::ptr_eq(&scan.transport, &transport));
    assert_eq!(scan.meta, 7);
    assert!(Arc::ptr_eq(&scan.config_obj, &planner.config_obj));
}
