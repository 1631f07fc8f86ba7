use rift_reactor::ids::{frames_match, Quiet, Rect, SpaceId, TransactionId, WindowId, WindowServerId};
use rift_reactor::managers::{
    DisplayTopologyManager, QuarantineStats, Screen, SpaceManager, TransactionManager,
};
use rift_reactor::model::{NativeTabMembership, NativeTabRole, WindowFilter, WindowState};
use rift_reactor::reactor::Reactor;
use rift_reactor::store::{VecMap, VecSet};
use rift_reactor::testing::{
    create_native_tab_replacement, create_three_tab_group, make_window, replacement_tab,
    rewrite_window_server_ids_for_testing, test_reactor,
};

fn one_app_setup(space: u64, windows: u32) -> (Reactor, SpaceId) {
    let mut reactor = test_reactor();
    let space = SpaceId::new(space);
    reactor.space_manager.screens.push(Screen { frame: Rect::new(0, 0, 1000, 1000), space: Some(space) });
    reactor.app_manager.apps.insert(1);
    for idx in 1..=windows {
        reactor.handle_window_created(WindowId::new(1, idx), make_window(idx), None);
    }
    let _ = reactor.app_manager.take_requests();
    rewrite_window_server_ids_for_testing(&mut reactor, 1);
    (reactor, space)
}

#[test]
fn frames_match_allows_two_points_on_every_coordinate() {
    let a = Rect::new(0, 0, 100, 100);
    assert!(frames_match(a, a));
    assert!(frames_match(a, Rect::new(2, -2, 102, 98)));
    assert!(frames_match(Rect::new(2, -2, 102, 98), a));
    assert!(!frames_match(a, Rect::new(3, 0, 100, 100)));
    assert!(!frames_match(a, Rect::new(0, -3, 100, 100)));
    assert!(!frames_match(a, Rect::new(0, 0, 103, 100)));
    assert!(!frames_match(a, Rect::new(0, 0, 100, 97)));
    assert!(frames_match(Rect::new(i64::MIN, 0, 0, 0), Rect::new(i64::MIN + 2, 0, 0, 0)));
    assert!(!frames_match(Rect::new(i64::MIN, 0, 0, 0), Rect::new(i64::MAX, 0, 0, 0)));
}

#[test]
fn new_window_state_takes_the_reported_frame() {
    let info = make_window(3);
    let state = WindowState::from(info);
    assert_eq!(state.frame_monotonic, Rect::new(30, 30, 100, 100));
    assert_eq!(state.info, info);
    assert!(!state.is_manageable);
    assert!(!state.ignore_app_rule);
    assert_eq!(state.native_tab, None);
    assert!(!state.matches_filter(WindowFilter::Manageable));
}

#[test]
fn hidden_tabs_match_no_filter() {
    let mut state = WindowState::from(make_window(1));
    state.is_manageable = true;
    assert!(state.matches_filter(WindowFilter::Manageable));
    assert!(state.matches_filter(WindowFilter::EffectivelyManageable));

    state.ignore_app_rule = true;
    assert!(state.matches_filter(WindowFilter::Manageable));
    assert!(!state.matches_filter(WindowFilter::EffectivelyManageable));

    state.ignore_app_rule = false;
    state.native_tab = Some(NativeTabMembership { group_id: 4, role: NativeTabRole::Suppressed });
    assert!(state.is_native_tab_suppressed());
    assert!(!state.matches_filter(WindowFilter::Manageable));
    assert!(!state.matches_filter(WindowFilter::EffectivelyManageable));

    state.native_tab = Some(NativeTabMembership { group_id: 4, role: NativeTabRole::Active });
    assert!(!state.is_native_tab_suppressed());
    assert!(state.is_effectively_manageable());
}

#[test]
fn transaction_ids_count_up_and_saturate() {
    assert_eq!(TransactionId { id: 5 }.next(), TransactionId { id: 6 });
    assert_eq!(TransactionId { id: u64::MAX }.next(), TransactionId { id: u64::MAX });
}

#[test]
fn transaction_records_move_with_the_window() {
    let mut tx = TransactionManager::new();
    let ws1 = WindowServerId::new(1);
    let ws2 = WindowServerId::new(2);
    let frame = Rect::new(5, 6, 70, 80);
    assert_eq!(tx.get_last_sent_txid(ws1), TransactionId { id: 0 });
    assert_eq!(tx.generate_next_txid(ws1), TransactionId { id: 1 });

    tx.store_txid(ws1, TransactionId { id: 7 }, frame);
    assert_eq!(tx.get_last_sent_txid(ws1), TransactionId { id: 7 });
    assert_eq!(tx.generate_next_txid(ws1), TransactionId { id: 8 });
    assert_eq!(tx.get_target_frame(ws1), Some(frame));

    tx.store_txid(ws2, TransactionId { id: 2 }, Rect::new(0, 0, 1, 1));
    tx.rekey_window(ws1, ws2);
    assert_eq!(tx.get_last_sent_txid(ws2), TransactionId { id: 7 });
    assert_eq!(tx.get_target_frame(ws2), Some(frame));
    assert_eq!(tx.get_target_frame(ws1), None);

    tx.remove_for_window(ws2);
    assert_eq!(tx.get_last_sent_txid(ws2), TransactionId { id: 0 });
}

#[test]
fn quarantine_counters_saturate() {
    let mut manager = DisplayTopologyManager {
        quarantine_stats: QuarantineStats {
            appeared_dropped: u64::MAX,
            destroyed_dropped: 4,
            resync_dropped: u64::MAX - 1,
        },
    };
    manager.quarantine_appeared();
    manager.quarantine_destroyed();
    manager.quarantine_resync();
    manager.quarantine_resync();
    assert_eq!(manager.quarantine_stats.appeared_dropped, u64::MAX);
    assert_eq!(manager.quarantine_stats.destroyed_dropped, 5);
    assert_eq!(manager.quarantine_stats.resync_dropped, u64::MAX);
}

#[test]
fn vec_map_keeps_order_and_rekeys_in_place() {
    let mut map: VecMap<u32, u32> = VecMap::new();
    map.insert(1, 10);
    map.insert(2, 20);
    map.insert(1, 11);
    assert_eq!(map.entries, vec![(1, 11), (2, 20)]);
    assert_eq!(map.get(&1), Some(11));
    assert!(!map.rekey(&1, 2));
    assert!(map.rekey(&1, 3));
    assert_eq!(map.entries, vec![(3, 11), (2, 20)]);
    assert!(!map.contains_key(&1));
    assert_eq!(map.keys_with(&20), vec![2]);
    map.remove(&3);
    assert_eq!(map.entries, vec![(2, 20)]);
    assert_eq!(map.get(&3), None);
}

#[test]
fn vec_set_holds_each_element_once() {
    let mut set: VecSet<u32> = VecSet::new();
    set.insert(4);
    set.insert(9);
    set.insert(4);
    assert_eq!(set.items, vec![4, 9]);
    assert!(set.contains(&9));
    set.remove(&4);
    assert_eq!(set.items, vec![9]);
    set.clear();
    assert!(!set.contains(&9));
}

#[test]
fn best_space_is_that_of_the_screen_holding_the_centre() {
    let spaces = SpaceManager {
        screens: vec![
            Screen { frame: Rect::new(0, 0, 1000, 1000), space: None },
            Screen { frame: Rect::new(0, 0, 1000, 1000), space: Some(SpaceId::new(1)) },
            Screen { frame: Rect::new(1000, 0, 1000, 1000), space: Some(SpaceId::new(2)) },
        ],
    };
    assert_eq!(spaces.best_space_for_frame(Rect::new(850, 0, 200, 100)), Some(SpaceId::new(1)));
    assert_eq!(spaces.best_space_for_frame(Rect::new(900, 0, 200, 100)), Some(SpaceId::new(2)));
    assert_eq!(spaces.best_space_for_frame(Rect::new(3000, 0, 200, 100)), None);
}

#[test]
fn app_termination_forgets_its_native_tabs() {
    let (mut reactor, space) = one_app_setup(40, 1);
    let (first, second, third) = create_three_tab_group(&mut reactor, space);
    assert!(reactor.pid_has_native_tab_state(1));

    reactor.handle_native_tab_app_terminated(1);

    assert!(!reactor.pid_has_native_tab_state(1));
    for wid in [first, second, third] {
        assert_eq!(reactor.native_tab_manager.group_for_window(wid), None);
        assert_eq!(reactor.window_manager.windows.get(&wid).unwrap().native_tab, None);
    }
}

#[test]
fn staging_a_destroy_twice_keeps_one_record() {
    let (mut reactor, space) = one_app_setup(41, 1);
    assert!(reactor.stage_native_tab_destroy(WindowServerId::new(1), space));
    reactor.window_manager.visible_windows.insert(WindowServerId::new(1));
    assert!(reactor.stage_native_tab_destroy(WindowServerId::new(1), space));
    let pending = reactor.pending_native_tab_destroys();
    assert_eq!(pending.len(), 1);
    assert_eq!(pending[0].window_id, WindowId::new(1, 1));
    assert_eq!(pending[0].space_id, space);
    assert_eq!(pending[0].frame, Rect::new(10, 10, 100, 100));
}

#[test]
fn tab_switch_settles_the_pending_destroy() {
    let (mut reactor, space) = one_app_setup(42, 1);
    let old_wid = WindowId::new(1, 1);
    let (new_wid, replacement, replacement_ws_info) = replacement_tab(&reactor, old_wid, 2);
    assert!(create_native_tab_replacement(
        &mut reactor,
        space,
        WindowServerId::new(1),
        new_wid,
        replacement,
        replacement_ws_info,
    ));
    assert!(reactor.pending_native_tab_destroys().is_empty());
    assert!(!reactor.native_tab_manager.has_pending_destroy(1, old_wid));
    assert_eq!(
        reactor.native_tab_group_frame_for(new_wid),
        Some(Rect::new(10, 10, 100, 100))
    );
    assert!(reactor.is_native_tab_suppressed(old_wid));
    assert!(!reactor.is_native_tab_suppressed(new_wid));
}

#[test]
fn ordinary_window_destroy_is_not_held_back() {
    let (mut reactor, space) = one_app_setup(43, 2);
    let wid = WindowId::new(1, 2);
    assert!(!reactor.defer_native_tab_window_destroy(wid));
    assert!(reactor.handle_window_destroyed(wid));
    assert!(!reactor.window_manager.windows.contains_key(&wid));
    assert!(!reactor.layout_manager.layout_engine.has_window_membership(wid));
    assert_eq!(
        reactor.layout_manager.layout_engine.windows_in_active_workspace(space),
        vec![WindowId::new(1, 1)]
    );
}

#[test]
fn closing_the_tab_on_screen_promotes_the_first_remaining_member() {
    let (mut reactor, space) = one_app_setup(44, 1);
    let (first, second, third) = create_three_tab_group(&mut reactor, space);
    let group_id = reactor.native_tab_manager.group_for_window(third).unwrap();

    reactor.finalize_native_tab_window_destroy(third);

    let group = reactor.native_tab_manager.group(group_id).unwrap();
    assert_eq!(group.active, Some(first));
    assert_eq!(
        reactor.window_manager.windows.get(&first).unwrap().native_tab,
        Some(NativeTabMembership { group_id, role: NativeTabRole::Active })
    );
    assert_eq!(
        reactor.window_manager.windows.get(&second).unwrap().native_tab,
        Some(NativeTabMembership { group_id, role: NativeTabRole::Suppressed })
    );
    assert_eq!(reactor.native_tab_manager.group_for_window(third), None);
}

#[test]
fn moving_the_tab_on_screen_moves_every_member() {
    let (mut reactor, space) = one_app_setup(45, 1);
    let (first, second, third) = create_three_tab_group(&mut reactor, space);
    let moved = Rect::new(200, 150, 640, 480);
    let mut state = reactor.window_manager.windows.get(&third).unwrap();
    state.frame_monotonic = moved;
    reactor.window_manager.windows.insert(third, state);

    reactor.handle_native_tab_frame_changed(third, true);

    for wid in [first, second, third] {
        let st = reactor.window_manager.windows.get(&wid).unwrap();
        assert_eq!(st.frame_monotonic, moved);
        assert_eq!(st.info.frame, moved);
    }
    assert_eq!(reactor.native_tab_group_frame_for(first), Some(moved));
}

#[test]
fn quiet_main_window_reports_change_nothing() {
    let (mut reactor, space) = one_app_setup(46, 1);
    let (_first, second, third) = create_three_tab_group(&mut reactor, space);

    reactor.handle_native_tab_main_window_changed(1, None, Quiet::Yes);
    assert!(!reactor.native_tab_manager.transient_empty_visibility.contains(&1));
    reactor.handle_native_tab_main_window_changed(1, Some(second), Quiet::Yes);
    assert!(reactor.is_native_tab_suppressed(second));
    assert!(!reactor.is_native_tab_suppressed(third));

    reactor.handle_native_tab_main_window_changed(1, None, Quiet::No);
    assert!(reactor.native_tab_manager.transient_empty_visibility.contains(&1));
    assert!(reactor.is_native_tab_suppressed(second));
    assert!(!reactor.is_native_tab_suppressed(third));
    assert_eq!(
        reactor.layout_manager.layout_engine.windows_in_active_workspace(space),
        vec![third]
    );
}

#[test]
fn reconcile_drops_records_older_than_the_maximum_age() {
    let (mut reactor, space) = one_app_setup(47, 1);
    let wid = WindowId::new(1, 1);
    reactor.now_ms = 1000;
    assert!(reactor.stage_native_tab_destroy(WindowServerId::new(1), space));

    reactor.now_ms = 4000;
    reactor.reconcile_native_tabs_for_pid(1, &[wid]);
    assert_eq!(reactor.pending_native_tab_destroys().len(), 1);

    reactor.now_ms = 4001;
    reactor.reconcile_native_tabs_for_pid(1, &[wid]);
    assert!(reactor.pending_native_tab_destroys().is_empty());
    assert!(reactor.window_manager.windows.contains_key(&wid));
}

#[test]
fn unknown_window_server_window_is_staged_once() {
    let (mut reactor, space) = one_app_setup(48, 1);
    let frame = Rect::new(10, 10, 100, 100);
    let info = rift_reactor::ids::WindowServerInfo { id: WindowServerId::new(9), pid: 1, layer: 0, frame };
    reactor.now_ms = 10;
    assert!(!reactor.note_native_tab_appearance(WindowServerId::new(9), space, info));
    reactor.now_ms = 20;
    assert!(!reactor.note_native_tab_appearance(WindowServerId::new(9), space, info));

    let pending = reactor.native_tab_manager.pending_appearances_for_pid(1);
    assert_eq!(pending.len(), 1);
    assert_eq!(pending[0].wsid, WindowServerId::new(9));
    assert_eq!(pending[0].space, space);
    assert_eq!(pending[0].staged_at, 20);
    assert!(reactor.window_manager.visible_windows.contains(&WindowServerId::new(9)));
    assert!(!reactor.layout_manager.layout_engine.has_window_membership(WindowId::new(1, 9)));
}

#[test]
fn adoption_groups_a_hidden_same_frame_window_under_the_visible_one() {
    let (mut reactor, _space) = one_app_setup(49, 1);
    let visible = WindowId::new(1, 1);
    let hidden = WindowId::new(1, 2);
    let mut info = make_window(2);
    info.frame = reactor.window_manager.windows.get(&visible).unwrap().frame_monotonic;
    reactor.window_manager.windows.insert(hidden, WindowState::from(info));

    reactor.reconcile_native_tabs_for_pid(1, &[visible, hidden]);

    let group_id = reactor.native_tab_manager.group_for_window(visible).unwrap();
    assert_eq!(
        reactor.window_manager.windows.get(&hidden).unwrap().native_tab,
        Some(NativeTabMembership { group_id, role: NativeTabRole::Suppressed })
    );
    assert_eq!(
        reactor.window_manager.windows.get(&visible).unwrap().native_tab,
        Some(NativeTabMembership { group_id, role: NativeTabRole::Active })
    );
}

#[test]
fn group_sync_asks_every_other_member_to_move() {
    let (mut reactor, space) = one_app_setup(50, 1);
    let (first, second, third) = create_three_tab_group(&mut reactor, space);
    let _ = reactor.app_manager.take_requests();
    let moved = Rect::new(300, 200, 500, 400);
    let mut state = reactor.window_manager.windows.get(&third).unwrap();
    state.frame_monotonic = moved;
    reactor.window_manager.windows.insert(third, state);

    reactor.handle_native_tab_frame_changed(third, true);

    let moved_windows: Vec<WindowId> = reactor
        .app_manager
        .take_requests()
        .into_iter()
        .map(|(pid, request)| match request {
            rift_reactor::ids::Request::SetWindowFrame(wid, frame, _, sync) => {
                assert_eq!(pid, 1);
                assert_eq!(frame, moved);
                assert!(sync);
                wid
            }
        })
        .collect();
    assert_eq!(moved_windows, vec![first, second]);

    reactor.handle_native_tab_frame_changed(first, true);
    assert!(reactor.app_manager.take_requests().is_empty());
}

#[test]
fn clearing_stale_appearances_forgets_unmapped_window_server_windows() {
    let (mut reactor, space) = one_app_setup(51, 1);
    let info = rift_reactor::ids::WindowServerInfo {
        id: WindowServerId::new(9),
        pid: 1,
        layer: 0,
        frame: Rect::new(10, 10, 100, 100),
    };
    assert!(!reactor.note_native_tab_appearance(WindowServerId::new(9), space, info));
    reactor.window_manager.observed_window_server_ids.insert(WindowServerId::new(9));

    reactor.clear_stale_pending_native_tab_appearances_for_pid(1);

    assert!(reactor.native_tab_manager.pending_appearances_for_pid(1).is_empty());
    assert!(!reactor.window_manager.visible_windows.contains(&WindowServerId::new(9)));
    assert!(!reactor.window_manager.observed_window_server_ids.contains(&WindowServerId::new(9)));
    assert_eq!(reactor.window_server_info_manager.window_server_info.get(&WindowServerId::new(9)), None);
    assert!(reactor.window_manager.visible_windows.contains(&WindowServerId::new(1)));
}

#[test]
fn reconcile_keeps_only_destroys_of_visible_windows_with_hidden_server_windows() {
    let (mut reactor, space) = one_app_setup(52, 1);
    let wid = WindowId::new(1, 1);
    assert!(reactor.stage_native_tab_destroy(WindowServerId::new(1), space));

    reactor.reconcile_native_tabs_for_pid(1, &[wid]);
    let pending = reactor.pending_native_tab_destroys();
    assert_eq!(pending.len(), 1);
    assert_eq!(pending[0].window_id, wid);

    reactor.window_manager.visible_windows.insert(WindowServerId::new(1));
    reactor.reconcile_native_tabs_for_pid(1, &[wid]);
    assert!(reactor.pending_native_tab_destroys().is_empty());
    assert!(reactor.window_manager.windows.contains_key(&wid));
}

#[test]
fn renumbering_gives_each_window_its_index_as_server_id() {
    let (reactor, _space) = one_app_setup(53, 3);
    for idx in 1..=3 {
        let wid = WindowId::new(1, idx);
        let ws = WindowServerId::new(idx);
        assert_eq!(reactor.window_manager.windows.get(&wid).unwrap().info.sys_id, Some(ws));
        assert_eq!(reactor.window_manager.window_ids.get(&ws), Some(wid));
        assert!(reactor.window_manager.visible_windows.contains(&ws));
    }
}

#[test]
fn two_space_fixture_lays_windows_out_on_the_screen_holding_them() {
    let fixture = rift_reactor::testing::two_space_fixture();
    assert_eq!(fixture.screen2, Rect::new(1000, 0, 1000, 1000));
    let mut reactor = fixture.reactor;
    reactor.app_manager.apps.insert(1);
    let mut info = make_window(1);
    info.frame = Rect::new(1200, 100, 300, 300);
    reactor.handle_window_created(WindowId::new(1, 1), info, None);
    assert_eq!(
        reactor.layout_manager.layout_engine.windows_in_active_workspace(fixture.space2),
        vec![WindowId::new(1, 1)]
    );
    assert!(reactor.layout_manager.layout_engine.windows_in_active_workspace(fixture.space1).is_empty());
}

#[test]
fn a_matching_appearance_needs_the_window_server_window_space_and_frame() {
    let (mut reactor, space) = one_app_setup(54, 1);
    let frame = Rect::new(10, 10, 100, 100);
    let info = rift_reactor::ids::WindowServerInfo { id: WindowServerId::new(9), pid: 1, layer: 0, frame };
    assert!(!reactor.note_native_tab_appearance(WindowServerId::new(9), space, info));
    let wid = WindowId::new(1, 9);
    let mut window = make_window(9);
    window.frame = frame;
    window.sys_id = Some(WindowServerId::new(9));
    reactor.window_manager.windows.insert(wid, WindowState::from(window));

    assert!(reactor.has_matching_pending_native_tab_appearance(wid, frame));
    assert!(reactor.has_matching_pending_native_tab_appearance(wid, Rect::new(12, 8, 102, 98)));
    assert!(!reactor.has_matching_pending_native_tab_appearance(wid, Rect::new(13, 10, 100, 100)));
    assert!(!reactor.has_matching_pending_native_tab_appearance(WindowId::new(1, 1), frame));
    assert!(!reactor.has_matching_pending_native_tab_appearance(WindowId::new(1, 77), frame));
}

#[test]
fn every_membership_names_an_existing_group() {
    let (mut reactor, space) = one_app_setup(55, 1);
    let (first, second, third) = create_three_tab_group(&mut reactor, space);
    reactor.finalize_native_tab_window_destroy(third);
    reactor.finalize_native_tab_window_destroy(first);
    for wid in [first, second, third] {
        if let Some(g) = reactor.native_tab_manager.group_for_window(wid) {
            assert!(reactor.native_tab_manager.group(g).is_some());
        }
    }
    assert_eq!(reactor.native_tab_manager.group_for_window(first), None);
    let g = reactor.native_tab_manager.group_for_window(second).unwrap();
    assert_eq!(reactor.native_tab_manager.group(g).unwrap().active, Some(second));
    reactor.finalize_native_tab_window_destroy(second);
    assert_eq!(reactor.native_tab_manager.group(g), None);
}
