use rift_reactor::reactor::Reactor;

#[test]
fn display_churn_quarantine_counters_increment() {
    let mut reactor = Reactor::new();
    reactor.display_topology_manager.quarantine_appeared();
    reactor.display_topology_manager.quarantine_destroyed();
    reactor.display_topology_manager.quarantine_resync();

    let stats = reactor.display_topology_manager.quarantine_stats.clone();
    assert_eq!(stats.appeared_dropped, 1);
    assert_eq!(stats.destroyed_dropped, 1);
    assert_eq!(stats.resync_dropped, 1);
}

