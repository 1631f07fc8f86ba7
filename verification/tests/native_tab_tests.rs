use rift_reactor::ids::{Pid, Quiet, Rect, Request, SpaceId, WindowId, WindowInfo, WindowServerId, WindowServerInfo};
use rift_reactor::managers::Screen;
use rift_reactor::model::NativeTabRole;
use rift_reactor::reactor::Reactor;
use rift_reactor::testing::{
    assert_has_set_window_frame_request, native_tab_switch_state_holds,
    window_removed_from_layout_holds, create_native_tab_replacement, create_three_tab_group,
    make_window, replacement_tab, rewrite_window_server_ids_for_testing, test_reactor,
};

fn window(reactor: &Reactor, wid: WindowId) -> rift_reactor::model::WindowState {
    reactor.window_manager.windows.get(&wid).expect("window should be known")
}

fn requests(reactor: &mut Reactor) -> Vec<Request> {
    reactor.app_manager.take_requests().into_iter().map(|(_, r)| r).collect()
}

fn native_tab_window_and_space_setup(space: u64, windows: u32) -> (Reactor, SpaceId) {
    let mut reactor = test_reactor();
    let space = SpaceId::new(space);
    let screen = Rect::new(0, 0, 1000, 1000);
    reactor.space_manager.screens.push(Screen { frame: screen, space: Some(space) });
    reactor.app_manager.apps.insert(1);
    for idx in 1..=windows {
        reactor.handle_window_created(WindowId::new(1, idx), make_window(idx), None);
    }
    let _ = requests(&mut reactor);
    rewrite_window_server_ids_for_testing(&mut reactor, 1);
    (reactor, space)
}

fn native_tab_test_setup(space: u64) -> (Reactor, SpaceId) {
    native_tab_window_and_space_setup(space, 1)
}

fn ws_info(id: u32, pid: Pid, frame: Rect) -> WindowServerInfo {
    WindowServerInfo { id: WindowServerId::new(id), pid, layer: 0, frame }
}

#[test]
fn native_tab_switch_rekeys_the_active_layout_slot() {
    let (mut reactor, space) = native_tab_test_setup(30);
    let old_wid = WindowId::new(1, 1);
    let (new_wid, replacement, replacement_ws_info) = replacement_tab(&reactor, old_wid, 2);
    let txid = reactor.transaction_manager.generate_next_txid(WindowServerId::new(1));
    reactor.transaction_manager.store_txid(WindowServerId::new(1), txid, replacement.frame);

    assert!(create_native_tab_replacement(
        &mut reactor,
        space,
        WindowServerId::new(1),
        new_wid,
        replacement,
        replacement_ws_info,
    ));

    assert!(native_tab_switch_state_holds(&reactor, space, old_wid, new_wid));
    assert_eq!(
        reactor.transaction_manager.get_last_sent_txid(WindowServerId::new(2)),
        txid.next()
    );
    assert_eq!(
        reactor.transaction_manager.get_target_frame(WindowServerId::new(2)),
        Some(replacement.frame)
    );
    assert_eq!(reactor.transaction_manager.get_target_frame(WindowServerId::new(1)), None);
}

#[test]
fn native_tab_switch_reconciles_when_windowserver_appears_first() {
    let (mut reactor, space) = native_tab_test_setup(31);
    let old_wid = WindowId::new(1, 1);
    let (new_wid, replacement, replacement_ws_info) = replacement_tab(&reactor, old_wid, 2);

    assert!(reactor.stage_native_tab_destroy(WindowServerId::new(1), space));
    assert!(!reactor.note_native_tab_appearance(WindowServerId::new(2), space, replacement_ws_info));
    reactor.handle_window_created(new_wid, replacement, Some(replacement_ws_info));
    reactor.reconcile_native_tabs_for_pid(1, &[old_wid, new_wid]);

    assert!(native_tab_switch_state_holds(&reactor, space, old_wid, new_wid));
}

#[test]
fn native_tab_window_created_before_destroy_is_held_out_of_layout() {
    let (mut reactor, space) = native_tab_test_setup(32);
    let old_wid = WindowId::new(1, 1);
    let (new_wid, replacement, replacement_ws_info) = replacement_tab(&reactor, old_wid, 2);

    assert!(!reactor.note_native_tab_appearance(WindowServerId::new(2), space, replacement_ws_info));
    reactor.handle_window_created(new_wid, replacement, Some(replacement_ws_info));

    assert!(!reactor.layout_manager.layout_engine.has_window_membership(new_wid));
    assert_eq!(
        reactor.layout_manager.layout_engine.windows_in_active_workspace(space),
        vec![old_wid]
    );
}

#[test]
fn native_tab_main_window_changed_rekeys_before_windowserver_destroy() {
    let (mut reactor, space) = native_tab_test_setup(33);
    let old_wid = WindowId::new(1, 1);
    let (new_wid, replacement, replacement_ws_info) = replacement_tab(&reactor, old_wid, 2);

    assert!(!reactor.note_native_tab_appearance(WindowServerId::new(2), space, replacement_ws_info));
    reactor.handle_window_created(new_wid, replacement, Some(replacement_ws_info));
    reactor.handle_native_tab_main_window_changed(1, Some(new_wid), Quiet::No);

    assert!(native_tab_switch_state_holds(&reactor, space, old_wid, new_wid));
}

#[test]
fn moving_active_native_tab_updates_suppressed_siblings() {
    let (mut reactor, space) = native_tab_test_setup(331);
    let old_wid = WindowId::new(1, 1);
    let (new_wid, replacement, replacement_ws_info) = replacement_tab(&reactor, old_wid, 2);

    assert!(create_native_tab_replacement(
        &mut reactor,
        space,
        WindowServerId::new(1),
        new_wid,
        replacement,
        replacement_ws_info,
    ));
    let _ = requests(&mut reactor);

    // The drag ends with the active tab at the moved frame.
    let mut moved_frame = window(&reactor, new_wid).frame_monotonic;
    moved_frame.x += 137;
    moved_frame.y += 41;
    let mut moved = window(&reactor, new_wid);
    moved.frame_monotonic = moved_frame;
    moved.info.frame = moved_frame;
    reactor.window_manager.windows.insert(new_wid, moved);
    reactor.handle_native_tab_frame_changed(new_wid, true);

    let final_frame = window(&reactor, new_wid).frame_monotonic;
    assert_eq!(window(&reactor, old_wid).frame_monotonic, final_frame);
    assert_eq!(window(&reactor, old_wid).info.frame, final_frame);

    let sent = requests(&mut reactor);
    assert!(sent.iter().any(|request| matches!(
        request,
        Request::SetWindowFrame(wid, frame, _, _) if *wid == old_wid && *frame == final_frame
    )));

    reactor.handle_native_tab_main_window_changed(1, Some(old_wid), Quiet::No);
    let sent = requests(&mut reactor);
    assert!(sent.iter().any(|request| matches!(
        request,
        Request::SetWindowFrame(wid, frame, _, _) if *wid == old_wid && *frame == final_frame
    )));
}

#[test]
fn requested_move_of_active_native_tab_updates_suppressed_siblings() {
    let (mut reactor, space) = native_tab_test_setup(333);
    let old_wid = WindowId::new(1, 1);
    let original_frame = window(&reactor, old_wid).frame_monotonic;
    let (new_wid, replacement, replacement_ws_info) = replacement_tab(&reactor, old_wid, 2);

    assert!(create_native_tab_replacement(
        &mut reactor,
        space,
        WindowServerId::new(1),
        new_wid,
        replacement,
        replacement_ws_info,
    ));
    let _ = requests(&mut reactor);

    let mut requested_frame = original_frame;
    requested_frame.x += 137;
    requested_frame.y += 41;
    let mut moved = window(&reactor, new_wid);
    moved.frame_monotonic = requested_frame;
    moved.info.frame = requested_frame;
    reactor.window_manager.windows.insert(new_wid, moved);
    reactor.handle_native_tab_frame_changed(new_wid, true);

    assert_eq!(window(&reactor, new_wid).frame_monotonic, requested_frame);
    assert_eq!(window(&reactor, old_wid).frame_monotonic, requested_frame);
    assert_eq!(window(&reactor, old_wid).info.frame, requested_frame);

    let sent = requests(&mut reactor);
    assert!(assert_has_set_window_frame_request(&sent, old_wid, requested_frame));
}

#[test]
fn reactivating_native_tab_retries_pending_frame_after_stale_event() {
    let (mut reactor, space) = native_tab_test_setup(334);
    let old_wid = WindowId::new(1, 1);
    let original_frame = window(&reactor, old_wid).frame_monotonic;
    let (new_wid, replacement, replacement_ws_info) = replacement_tab(&reactor, old_wid, 2);

    assert!(create_native_tab_replacement(
        &mut reactor,
        space,
        WindowServerId::new(1),
        new_wid,
        replacement,
        replacement_ws_info,
    ));
    let _ = requests(&mut reactor);

    let mut final_frame = original_frame;
    final_frame.x += 137;
    final_frame.y += 41;
    let mut moved = window(&reactor, new_wid);
    moved.frame_monotonic = final_frame;
    moved.info.frame = final_frame;
    reactor.window_manager.windows.insert(new_wid, moved);
    let group_id = window(&reactor, new_wid)
        .native_tab
        .expect("new tab should belong to a native-tab group")
        .group_id;
    let mut group = reactor.native_tab_manager.groups.get(&group_id).unwrap();
    group.canonical_frame = final_frame;
    reactor.native_tab_manager.groups.insert(group_id, group);

    assert!(reactor.activate_native_tab_replacement(new_wid, old_wid));
    let sent = requests(&mut reactor);
    assert!(assert_has_set_window_frame_request(&sent, old_wid, final_frame));

    // A stale frame report for the reactivated tab asks for the frame again.
    reactor.retry_pending_native_tab_frame_target(old_wid);
    let retry = requests(&mut reactor);
    assert!(assert_has_set_window_frame_request(&retry, old_wid, final_frame));
}

#[test]
fn reactivating_native_tab_uses_group_canonical_frame_not_stale_active_window_frame() {
    let (mut reactor, space) = native_tab_test_setup(335);
    let old_wid = WindowId::new(1, 1);
    let original_frame = window(&reactor, old_wid).frame_monotonic;
    let (new_wid, replacement, replacement_ws_info) = replacement_tab(&reactor, old_wid, 2);

    assert!(create_native_tab_replacement(
        &mut reactor,
        space,
        WindowServerId::new(1),
        new_wid,
        replacement,
        replacement_ws_info,
    ));
    let _ = requests(&mut reactor);

    let mut final_frame = original_frame;
    final_frame.x += 137;
    final_frame.y += 41;
    let group_id = window(&reactor, new_wid)
        .native_tab
        .expect("new tab should belong to a native-tab group")
        .group_id;
    let mut group = reactor.native_tab_manager.groups.get(&group_id).unwrap();
    group.canonical_frame = final_frame;
    reactor.native_tab_manager.groups.insert(group_id, group);
    let mut stale = window(&reactor, new_wid);
    stale.frame_monotonic = original_frame;
    stale.info.frame = original_frame;
    reactor.window_manager.windows.insert(new_wid, stale);

    assert!(reactor.activate_native_tab_replacement(new_wid, old_wid));
    assert_eq!(window(&reactor, old_wid).frame_monotonic, final_frame);

    let sent = requests(&mut reactor);
    assert!(assert_has_set_window_frame_request(&sent, old_wid, final_frame));
}

#[test]
fn window_created_for_suppressed_native_tab_preserves_membership() {
    let (mut reactor, space) = native_tab_test_setup(337);
    let old_wid = WindowId::new(1, 1);
    let original_frame = window(&reactor, old_wid).frame_monotonic;
    let (new_wid, replacement, replacement_ws_info) = replacement_tab(&reactor, old_wid, 2);

    assert!(create_native_tab_replacement(
        &mut reactor,
        space,
        WindowServerId::new(1),
        new_wid,
        replacement,
        replacement_ws_info,
    ));

    let mut stale_frame = original_frame;
    stale_frame.x += 504;
    let recreated_old = WindowInfo {
        frame: stale_frame,
        sys_id: Some(WindowServerId::new(1)),
        ..make_window(1)
    };
    let recreated_old_ws_info = ws_info(1, 1, stale_frame);

    reactor.handle_window_created(old_wid, recreated_old, Some(recreated_old_ws_info));

    let old_state = window(&reactor, old_wid);
    assert_eq!(
        old_state
            .native_tab
            .expect("recreated suppressed tab should stay in its native-tab group")
            .role,
        NativeTabRole::Suppressed
    );
    assert_eq!(old_state.frame_monotonic, original_frame);
    assert_eq!(
        window(&reactor, new_wid).native_tab.expect("active tab should stay grouped").role,
        NativeTabRole::Active
    );
}

#[test]
fn transient_empty_visibility_during_native_tab_switch_preserves_group_state() {
    let (mut reactor, space) = native_tab_test_setup(336);
    let old_wid = WindowId::new(1, 1);
    let (new_wid, replacement, replacement_ws_info) = replacement_tab(&reactor, old_wid, 2);

    assert!(create_native_tab_replacement(
        &mut reactor,
        space,
        WindowServerId::new(1),
        new_wid,
        replacement,
        replacement_ws_info,
    ));

    reactor.handle_native_tab_main_window_changed(1, None, Quiet::No);
    reactor.reconcile_native_tabs_for_pid(1, &[]);

    assert!(window(&reactor, old_wid).is_native_tab_suppressed());
    assert_eq!(
        window(&reactor, new_wid).native_tab.expect("new tab should remain active").role,
        NativeTabRole::Active
    );
    assert_eq!(
        reactor.layout_manager.layout_engine.windows_in_active_workspace(space),
        vec![new_wid]
    );

    reactor.handle_native_tab_main_window_changed(1, Some(old_wid), Quiet::No);

    assert_eq!(
        window(&reactor, old_wid).native_tab.expect("old tab should still belong to the group").role,
        NativeTabRole::Active
    );
    assert_eq!(
        window(&reactor, new_wid).native_tab.expect("new tab should stay grouped").role,
        NativeTabRole::Suppressed
    );
    assert_eq!(
        reactor.layout_manager.layout_engine.windows_in_active_workspace(space),
        vec![old_wid]
    );
}

#[test]
fn reconcile_native_tabs_reactivates_visible_group_member_instead_of_dissolving_group() {
    let (mut reactor, space) = native_tab_test_setup(338);
    let old_wid = WindowId::new(1, 1);
    let original_frame = window(&reactor, old_wid).frame_monotonic;
    let (new_wid, replacement, replacement_ws_info) = replacement_tab(&reactor, old_wid, 2);

    assert!(create_native_tab_replacement(
        &mut reactor,
        space,
        WindowServerId::new(1),
        new_wid,
        replacement,
        replacement_ws_info,
    ));

    assert!(reactor.stage_native_tab_destroy(WindowServerId::new(2), space));
    let mut old_state = window(&reactor, old_wid);
    old_state.info.sys_id = Some(WindowServerId::new(1));
    old_state.info.frame = original_frame;
    reactor.window_manager.windows.insert(old_wid, old_state);
    reactor.window_manager.window_ids.insert(WindowServerId::new(1), old_wid);
    reactor
        .native_tab_manager
        .stage_appearance(WindowServerId::new(1), 1, space, original_frame, reactor.now_ms);

    reactor.reconcile_native_tabs_for_pid(1, &[old_wid]);

    assert!(reactor.window_manager.windows.contains_key(&new_wid));
    assert_eq!(
        window(&reactor, old_wid).native_tab.expect("old tab should remain grouped").role,
        NativeTabRole::Active
    );
    assert_eq!(
        window(&reactor, new_wid).native_tab.expect("new tab should remain grouped").role,
        NativeTabRole::Suppressed
    );
    assert_eq!(
        reactor.layout_manager.layout_engine.windows_in_active_workspace(space),
        vec![old_wid]
    );
}

#[test]
fn removing_active_native_tab_member_promotes_a_survivor_role() {
    let (mut reactor, space) = native_tab_test_setup(339);
    let (_first, _second, third) = create_three_tab_group(&mut reactor, space);

    reactor.finalize_native_tab_window_destroy(third);

    let active_count = [WindowId::new(1, 1), WindowId::new(1, 2)]
        .into_iter()
        .filter_map(|wid| reactor.window_manager.windows.get(&wid).and_then(|window| window.native_tab))
        .filter(|membership| membership.role == NativeTabRole::Active)
        .count();
    assert_eq!(active_count, 1);
}

#[test]
fn closing_active_native_tab_rekeys_to_existing_group_member_without_pending_appearance() {
    let (mut reactor, space) = native_tab_test_setup(340);
    let (_first, second, third) = create_three_tab_group(&mut reactor, space);

    assert!(reactor.stage_native_tab_destroy(WindowServerId::new(3), space));
    assert!(!reactor.handle_window_destroyed(third));
    assert!(reactor.window_manager.windows.contains_key(&third));

    reactor.reconcile_native_tabs_for_pid(1, &[second]);

    assert!(!reactor.window_manager.windows.contains_key(&third));
    assert_eq!(
        window(&reactor, second)
            .native_tab
            .expect("existing grouped member should become active")
            .role,
        NativeTabRole::Active
    );
    assert_eq!(
        reactor.layout_manager.layout_engine.windows_in_active_workspace(space),
        vec![second]
    );
}

#[test]
fn native_tab_window_destroy_is_deferred_until_replacement_is_discovered() {
    let (mut reactor, space) = native_tab_test_setup(34);
    let old_wid = WindowId::new(1, 1);
    let old_frame = window(&reactor, old_wid).frame_monotonic;
    let replacement_ws_info = ws_info(2, 1, old_frame);

    assert!(!reactor.note_native_tab_appearance(WindowServerId::new(2), space, replacement_ws_info));
    assert!(reactor.stage_native_tab_destroy(WindowServerId::new(1), space));
    assert!(!reactor.handle_window_destroyed(old_wid));
    assert!(reactor.window_manager.windows.contains_key(&old_wid));
    assert_eq!(
        reactor.layout_manager.layout_engine.windows_in_active_workspace(space),
        vec![old_wid]
    );

    let (new_wid, replacement, _) = replacement_tab(&reactor, old_wid, 2);
    reactor.handle_window_created(new_wid, replacement, Some(replacement_ws_info));
    reactor.reconcile_native_tabs_for_pid(1, &[]);

    assert!(native_tab_switch_state_holds(&reactor, space, old_wid, new_wid));
}

#[test]
fn deferred_native_tab_destroy_finalizes_when_refresh_reports_no_visible_windows() {
    let (mut reactor, space) = native_tab_test_setup(35);

    let wid = WindowId::new(1, 1);
    assert!(reactor.stage_native_tab_destroy(WindowServerId::new(1), space));
    assert!(!reactor.handle_window_destroyed(wid));

    // The refresh finds no visible window of the application.
    reactor.reconcile_native_tabs_for_pid(1, &[]);

    assert!(window_removed_from_layout_holds(&reactor, space, wid));
}

#[test]
fn closing_last_tab_clears_stale_pending_native_tab_appearance_state() {
    let (mut reactor, space) = native_tab_test_setup(352);

    let wid = WindowId::new(1, 1);
    let frame = window(&reactor, wid).frame_monotonic;
    let phantom_wsid = WindowServerId::new(2);
    assert!(!reactor.note_native_tab_appearance(phantom_wsid, space, ws_info(2, 1, frame)));

    assert_eq!(reactor.native_tab_manager.pending_appearances_for_pid(1).len(), 1);
    assert!(reactor.window_manager.visible_windows.contains(&phantom_wsid));
    assert!(reactor.window_server_info_manager.window_server_info.contains_key(&phantom_wsid));

    assert!(reactor.stage_native_tab_destroy(WindowServerId::new(1), space));
    assert!(!reactor.handle_window_destroyed(wid));

    reactor.handle_native_tab_main_window_changed(1, None, Quiet::No);
    reactor.reconcile_native_tabs_for_pid(1, &[]);

    assert!(window_removed_from_layout_holds(&reactor, space, wid));
    assert!(
        reactor.native_tab_manager.pending_appearances_for_pid(1).is_empty(),
        "stale pending native-tab appearances should be cleared after true last-tab close"
    );
    assert!(
        !reactor.window_manager.visible_windows.contains(&phantom_wsid),
        "phantom appeared wsid should be removed from visible window cache"
    );
    assert!(
        !reactor.window_server_info_manager.window_server_info.contains_key(&phantom_wsid),
        "phantom appeared wsid should be removed from window-server info cache"
    );
}

#[test]
fn pending_native_tab_appearance_does_not_defer_regular_window_close() {
    let (mut reactor, space) = native_tab_test_setup(36);

    let wid = WindowId::new(1, 1);
    let frame = window(&reactor, wid).frame_monotonic;
    reactor.native_tab_manager.stage_appearance(WindowServerId::new(2), 1, space, frame, 0);

    assert!(reactor.handle_window_destroyed(wid));
    assert!(window_removed_from_layout_holds(&reactor, space, wid));
}

#[test]
fn main_window_changed_same_frame_visible_sibling_without_pending_appearance_stays_standalone() {
    let (mut reactor, space) = native_tab_window_and_space_setup(37, 2);

    let old_wid = WindowId::new(1, 1);
    let new_wid = WindowId::new(1, 2);
    let old_frame = window(&reactor, old_wid).frame_monotonic;
    let mut sibling = window(&reactor, new_wid);
    sibling.frame_monotonic = old_frame;
    reactor.window_manager.windows.insert(new_wid, sibling);

    reactor.handle_native_tab_main_window_changed(1, Some(new_wid), Quiet::No);

    assert!(window(&reactor, old_wid).native_tab.is_none());
    assert!(window(&reactor, new_wid).native_tab.is_none());
    let mut windows = reactor.layout_manager.layout_engine.windows_in_active_workspace(space);
    windows.sort_unstable();
    assert_eq!(windows, vec![old_wid, new_wid]);
}

#[test]
fn pending_destroy_does_not_rekey_to_existing_same_frame_sibling_without_appearance() {
    let (mut reactor, space) = native_tab_window_and_space_setup(38, 2);

    let old_wid = WindowId::new(1, 1);
    let sibling_wid = WindowId::new(1, 2);
    let old_frame = window(&reactor, old_wid).frame_monotonic;
    let mut sibling = window(&reactor, sibling_wid);
    sibling.frame_monotonic = old_frame;
    reactor.window_manager.windows.insert(sibling_wid, sibling);

    assert!(reactor.stage_native_tab_destroy(WindowServerId::new(1), space));
    assert!(!reactor.handle_window_destroyed(old_wid));
    reactor.reconcile_native_tabs_for_pid(1, &[sibling_wid]);

    assert!(!reactor.window_manager.windows.contains_key(&old_wid));
    assert!(window(&reactor, sibling_wid).native_tab.is_none());
    assert_eq!(
        reactor.layout_manager.layout_engine.windows_in_active_workspace(space),
        vec![sibling_wid]
    );
}

#[test]
fn known_same_size_window_appearance_does_not_stage_tab_signal_or_rekey() {
    let (mut reactor, space) = native_tab_window_and_space_setup(42, 2);

    let old_wid = WindowId::new(1, 1);
    let sibling_wid = WindowId::new(1, 2);
    let old_frame = window(&reactor, old_wid).frame_monotonic;
    let mut sibling = window(&reactor, sibling_wid);
    sibling.frame_monotonic = old_frame;
    reactor.window_manager.windows.insert(sibling_wid, sibling);

    assert!(!reactor.note_native_tab_appearance(WindowServerId::new(2), space, ws_info(2, 1, old_frame)));
    assert!(
        reactor.native_tab_manager.pending_appearances_for_pid(1).is_empty(),
        "known managed window appearance should not be retained as a native-tab signal"
    );

    assert!(reactor.stage_native_tab_destroy(WindowServerId::new(1), space));
    assert!(!reactor.handle_window_destroyed(old_wid));
    reactor.reconcile_native_tabs_for_pid(1, &[sibling_wid]);

    assert!(!reactor.window_manager.windows.contains_key(&old_wid));
    assert!(window(&reactor, sibling_wid).native_tab.is_none());
    assert_eq!(
        reactor.layout_manager.layout_engine.windows_in_active_workspace(space),
        vec![sibling_wid]
    );
}

#[test]
fn native_tab_discovery_before_destroy_does_not_append_new_tab_to_layout() {
    let (mut reactor, space) = native_tab_test_setup(39);

    let old_wid = WindowId::new(1, 1);
    let old_frame = window(&reactor, old_wid).frame_monotonic;
    let new_wid = WindowId::new(1, 2);
    let mut replacement = make_window(2);
    replacement.frame = old_frame;
    replacement.sys_id = Some(WindowServerId::new(2));

    assert!(!reactor.note_native_tab_appearance(WindowServerId::new(2), space, ws_info(2, 1, old_frame)));

    // Discovery of the new window, reported visible.
    reactor.handle_window_created(new_wid, replacement, None);
    reactor.reconcile_native_tabs_for_pid(1, &[new_wid]);

    assert_eq!(
        reactor.layout_manager.layout_engine.windows_in_active_workspace(space),
        vec![old_wid]
    );

    reactor.handle_native_tab_main_window_changed(1, Some(new_wid), Quiet::No);
    assert!(native_tab_switch_state_holds(&reactor, space, old_wid, new_wid));
}

#[test]
fn unmatched_window_server_destroy_still_removes_closed_window() {
    let (mut reactor, space) = native_tab_test_setup(31);

    let wid = WindowId::new(1, 1);
    assert!(reactor.stage_native_tab_destroy(WindowServerId::new(1), space));
    reactor.reconcile_native_tabs_for_pid(1, &[]);

    assert!(window_removed_from_layout_holds(&reactor, space, wid));
}
