use render_wgpu::rebuild_bus::RebuildBusCore;

#[test]
fn listeners_run_in_order() {
    let mut bus: RebuildBusCore<u32> = RebuildBusCore::new();
    bus.register(|t| *t *= 10);
    bus.register(|t| *t += 3);
    let mut v = 1u32;
    bus.run_all(&mut v);
    assert_eq!(v, 13);
}

#[test]
fn empty_bus_leaves_value_alone() {
    let bus: RebuildBusCore<u32> = RebuildBusCore::new();
    let mut v = 5u32;
    bus.run_all(&mut v);
    assert_eq!(v, 5);
}
