use microclaw::display::DisplayPoint;
use microclaw::protocol::DeviceAction;
use microclaw::runtime::{RuntimeAction, RuntimeState};
use microclaw::ui::{targets_for_scene, HitTarget, Scene};

#[test]
fn boot_scene_maps_retry_button() {
    let mut state = RuntimeState::new();
    let touch = DisplayPoint { x: 150, y: 300 };
    let action = state.process_touch(touch);
    assert!(matches!(
        action,
        RuntimeAction::EmitCommand {
            action: DeviceAction::Retry,
        }
    ));
}

#[test]
fn paired_scene_maps_conversation_card() {
    assert_eq!(
        Scene::Paired.action_for_touch(DisplayPoint { x: 180, y: 150 }),
        Some(DeviceAction::OpenConversation)
    );
    assert_eq!(
        Scene::Paired.action_for_touch(DisplayPoint { x: 10, y: 10 }),
        None
    );
}

#[test]
fn conversation_and_offline_mappings_are_exposed() {
    assert_eq!(
        Scene::Conversation.action_for_touch(DisplayPoint { x: 75, y: 290 }),
        Some(DeviceAction::Mute)
    );
    assert_eq!(
        Scene::Offline.action_for_touch(DisplayPoint { x: 90, y: 268 }),
        Some(DeviceAction::Restart)
    );
}

#[test]
fn hit_table_matches_the_layout() {
    assert_eq!(
        targets_for_scene(Scene::Boot),
        vec![HitTarget { x: 126, y: 292, w: 108, h: 46, action: DeviceAction::Retry }]
    );
    assert_eq!(
        targets_for_scene(Scene::ConnectSetup),
        vec![
            HitTarget { x: 40, y: 280, w: 56, h: 56, action: DeviceAction::WifiReconnect },
            HitTarget { x: 110, y: 280, w: 140, h: 56, action: DeviceAction::Reconnect },
            HitTarget { x: 264, y: 280, w: 56, h: 56, action: DeviceAction::StatusGet },
        ]
    );
    assert_eq!(
        targets_for_scene(Scene::Paired),
        vec![
            HitTarget { x: 60, y: 130, w: 240, h: 100, action: DeviceAction::OpenConversation },
            HitTarget { x: 34, y: 250, w: 110, h: 60, action: DeviceAction::Unpair },
            HitTarget { x: 216, y: 250, w: 110, h: 60, action: DeviceAction::SyncNow },
            HitTarget { x: 122, y: 320, w: 116, h: 28, action: DeviceAction::WifiReconnect },
        ]
    );
    assert_eq!(
        targets_for_scene(Scene::Conversation),
        vec![
            HitTarget { x: 52, y: 280, w: 124, h: 54, action: DeviceAction::Mute },
            HitTarget { x: 184, y: 280, w: 124, h: 54, action: DeviceAction::EndSession },
            HitTarget { x: 108, y: 320, w: 144, h: 30, action: DeviceAction::OpenConversation },
        ]
    );
    assert_eq!(
        targets_for_scene(Scene::Settings),
        vec![HitTarget { x: 150, y: 320, w: 60, h: 30, action: DeviceAction::StatusGet }]
    );
    let offline = vec![
        HitTarget { x: 86, y: 250, w: 188, h: 64, action: DeviceAction::Restart },
        HitTarget { x: 80, y: 320, w: 200, h: 40, action: DeviceAction::Reconnect },
    ];
    assert_eq!(targets_for_scene(Scene::Error), offline);
    assert_eq!(targets_for_scene(Scene::Offline), offline);
}

#[test]
fn passive_scenes_have_no_targets() {
    for scene in [
        Scene::AgentThinking,
        Scene::AgentStreaming,
        Scene::AgentTaskProgress,
        Scene::NotificationList,
    ] {
        assert!(targets_for_scene(scene).is_empty());
        assert_eq!(scene.action_for_touch(DisplayPoint { x: 180, y: 180 }), None);
        assert_eq!(scene.action_for_touch(DisplayPoint { x: 150, y: 300 }), None);
    }
}

#[test]
fn hit_test_includes_all_four_edges() {
    let target = HitTarget { x: 126, y: 292, w: 108, h: 46, action: DeviceAction::Retry };
    assert!(target.hit(DisplayPoint { x: 126, y: 292 }));
    assert!(target.hit(DisplayPoint { x: 234, y: 338 }));
    assert!(!target.hit(DisplayPoint { x: 125, y: 292 }));
    assert!(!target.hit(DisplayPoint { x: 235, y: 338 }));
    assert!(!target.hit(DisplayPoint { x: 126, y: 291 }));
    assert!(!target.hit(DisplayPoint { x: 234, y: 339 }));
}

#[test]
fn hit_test_does_not_wrap_at_the_end_of_the_range() {
    let target = HitTarget { x: 65000, y: 65000, w: 1000, h: 1000, action: DeviceAction::Mute };
    assert!(target.hit(DisplayPoint { x: 65535, y: 65535 }));
    assert!(!target.hit(DisplayPoint { x: 0, y: 0 }));
    assert!(!target.hit(DisplayPoint { x: 64999, y: 65000 }));
}

#[test]
fn first_matching_target_wins_where_targets_overlap() {
    // In the conversation scene the mute button and the wide bottom bar
    // overlap at (120, 325): the button is declared first.
    assert_eq!(
        Scene::Conversation.action_for_touch(DisplayPoint { x: 120, y: 325 }),
        Some(DeviceAction::Mute)
    );
    // Below the buttons only the bar is left.
    assert_eq!(
        Scene::Conversation.action_for_touch(DisplayPoint { x: 120, y: 340 }),
        Some(DeviceAction::OpenConversation)
    );
    // In the offline scene the restart card ends at y = 314, the reconnect
    // bar starts at y = 320.
    assert_eq!(
        Scene::Offline.action_for_touch(DisplayPoint { x: 90, y: 314 }),
        Some(DeviceAction::Restart)
    );
    assert_eq!(Scene::Offline.action_for_touch(DisplayPoint { x: 90, y: 317 }), None);
    assert_eq!(
        Scene::Error.action_for_touch(DisplayPoint { x: 90, y: 320 }),
        Some(DeviceAction::Reconnect)
    );
}
