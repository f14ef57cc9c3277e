use slv_rust::handler_registry::HandlerRegistry;

#[test]
fn handlers_run_by_priority_then_registration() {
    let mut r: HandlerRegistry<&'static str> = HandlerRegistry::new();
    r.register_handler(5, "low", -1);
    r.register_handler(5, "first", 10);
    r.register_handler(5, "second", 10);
    r.register_handler(5, "middle", 0);
    r.register_global_handler("g-low", 0);
    r.register_global_handler("g-high", 3);
    let order: Vec<&str> = r.dispatch_order(5).into_iter().copied().collect();
    assert_eq!(order, vec!["g-high", "g-low", "first", "second", "middle", "low"]);
    let other: Vec<&str> = r.dispatch_order(6).into_iter().copied().collect();
    assert_eq!(other, vec!["g-high", "g-low"]);
}

#[test]
fn handler_stats_count_packets_and_handlers() {
    let mut r: HandlerRegistry<u8> = HandlerRegistry::default();
    let s = r.get_stats();
    assert_eq!((s.packet_types, s.packet_handlers, s.global_handlers), (0, 0, 0));
    r.register_handler(1, 1, 0);
    r.register_handler(1, 2, 0);
    r.register_handler(2, 3, 0);
    r.register_global_handler(4, 0);
    let s = r.get_stats();
    assert_eq!((s.packet_types, s.packet_handlers, s.global_handlers), (2, 3, 1));
}

#[test]
fn test_handler_registration() {
    let mut registry: HandlerRegistry<&'static str> = HandlerRegistry::new();

    // Register handler (RegionHandshake, message number 148, priority 100)
    registry.register_handler(148, "RegionHandshakeHandler", 100);

    let stats = registry.get_stats();
    assert_eq!(stats.packet_types, 1);
    assert_eq!(stats.packet_handlers, 1);
}
