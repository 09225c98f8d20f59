//! Scenes and hit testing: the pure map from a scene and a touched point to
//! the action that the touch asks for.

use crate::display::DisplayPoint;
use crate::protocol::DeviceAction;
use vstd::prelude::*;

verus! {

/// The finite set of screens the device can show.
#[derive(Clone, Copy, Debug, PartialEq, Eq, Structural)]
pub enum Scene {
    Boot,
    ConnectSetup,
    Paired,
    Conversation,
    AgentThinking,
    AgentStreaming,
    AgentTaskProgress,
    Settings,
    NotificationList,
    Error,
    Offline,
}

/// An axis-aligned rectangle on the canvas and the action it stands for.
#[derive(Clone, Copy, Debug, PartialEq, Eq, Structural)]
pub struct HitTarget {
    pub x: u16,
    pub y: u16,
    pub w: u16,
    pub h: u16,
    pub action: DeviceAction,
}

impl HitTarget {
    /// Whether `p` lies in the rectangle, all four edges included.
    pub open spec fn contains(self, p: DisplayPoint) -> bool {
        self.x <= p.x <= self.x + self.w && self.y <= p.y <= self.y + self.h
    }

    pub fn hit(&self, p: DisplayPoint) -> (inside: bool)
        ensures
            inside == self.contains(p),
    {
        let right: u32 = self.x as u32 + self.w as u32;
        let bottom: u32 = self.y as u32 + self.h as u32;
        p.x >= self.x && p.x as u32 <= right && p.y >= self.y && p.y as u32 <= bottom
    }
}

/// The action of the first target in `targets` that contains `p`.
pub open spec fn first_hit(targets: Seq<HitTarget>, p: DisplayPoint) -> Option<DeviceAction>
    decreases targets.len(),
{
    if targets.len() == 0 {
        None
    } else if targets[0].contains(p) {
        Some(targets[0].action)
    } else {
        first_hit(targets.skip(1), p)
    }
}

/// The hit targets of each scene, in hit-test order.
pub open spec fn spec_targets(scene: Scene) -> Seq<HitTarget> {
    match scene {
        Scene::Boot => seq![
            HitTarget { x: 126, y: 292, w: 108, h: 46, action: DeviceAction::Retry },
        ],
        Scene::ConnectSetup => seq![
            HitTarget { x: 40, y: 280, w: 56, h: 56, action: DeviceAction::WifiReconnect },
            HitTarget { x: 110, y: 280, w: 140, h: 56, action: DeviceAction::Reconnect },
            HitTarget { x: 264, y: 280, w: 56, h: 56, action: DeviceAction::StatusGet },
        ],
        Scene::Paired => seq![
            HitTarget { x: 60, y: 130, w: 240, h: 100, action: DeviceAction::OpenConversation },
            HitTarget { x: 34, y: 250, w: 110, h: 60, action: DeviceAction::Unpair },
            HitTarget { x: 216, y: 250, w: 110, h: 60, action: DeviceAction::SyncNow },
            HitTarget { x: 122, y: 320, w: 116, h: 28, action: DeviceAction::WifiReconnect },
        ],
        Scene::Conversation => seq![
            HitTarget { x: 52, y: 280, w: 124, h: 54, action: DeviceAction::Mute },
            HitTarget { x: 184, y: 280, w: 124, h: 54, action: DeviceAction::EndSession },
            HitTarget { x: 108, y: 320, w: 144, h: 30, action: DeviceAction::OpenConversation },
        ],
        Scene::AgentThinking | Scene::AgentStreaming | Scene::AgentTaskProgress => seq![],
        Scene::Settings => seq![
            HitTarget { x: 150, y: 320, w: 60, h: 30, action: DeviceAction::StatusGet },
        ],
        Scene::NotificationList => seq![],
        Scene::Error | Scene::Offline => seq![
            HitTarget { x: 86, y: 250, w: 188, h: 64, action: DeviceAction::Restart },
            HitTarget { x: 80, y: 320, w: 200, h: 40, action: DeviceAction::Reconnect },
        ],
    }
}

/// The action that touching `p` asks for while `scene` is shown.
pub open spec fn spec_action_for_touch(scene: Scene, p: DisplayPoint) -> Option<DeviceAction> {
    first_hit(spec_targets(scene), p)
}

/// The hit targets of `scene`, in hit-test order.
pub fn targets_for_scene(scene: Scene) -> (targets: Vec<HitTarget>)
    ensures
        targets@ == spec_targets(scene),
{
    let targets = match scene {
        Scene::Boot => vec![
            HitTarget { x: 126, y: 292, w: 108, h: 46, action: DeviceAction::Retry },
        ],
        Scene::ConnectSetup => vec![
            HitTarget { x: 40, y: 280, w: 56, h: 56, action: DeviceAction::WifiReconnect },
            HitTarget { x: 110, y: 280, w: 140, h: 56, action: DeviceAction::Reconnect },
            HitTarget { x: 264, y: 280, w: 56, h: 56, action: DeviceAction::StatusGet },
        ],
        Scene::Paired => vec![
            HitTarget { x: 60, y: 130, w: 240, h: 100, action: DeviceAction::OpenConversation },
            HitTarget { x: 34, y: 250, w: 110, h: 60, action: DeviceAction::Unpair },
            HitTarget { x: 216, y: 250, w: 110, h: 60, action: DeviceAction::SyncNow },
            HitTarget { x: 122, y: 320, w: 116, h: 28, action: DeviceAction::WifiReconnect },
        ],
        Scene::Conversation => vec![
            HitTarget { x: 52, y: 280, w: 124, h: 54, action: DeviceAction::Mute },
            HitTarget { x: 184, y: 280, w: 124, h: 54, action: DeviceAction::EndSession },
            HitTarget { x: 108, y: 320, w: 144, h: 30, action: DeviceAction::OpenConversation },
        ],
        Scene::AgentThinking | Scene::AgentStreaming | Scene::AgentTaskProgress => Vec::new(),
        Scene::Settings => vec![
            HitTarget { x: 150, y: 320, w: 60, h: 30, action: DeviceAction::StatusGet },
        ],
        Scene::NotificationList => Vec::new(),
        Scene::Error | Scene::Offline => vec![
            HitTarget { x: 86, y: 250, w: 188, h: 64, action: DeviceAction::Restart },
            HitTarget { x: 80, y: 320, w: 200, h: 40, action: DeviceAction::Reconnect },
        ],
    };
    assert(targets@ =~= spec_targets(scene));
    targets
}

impl Scene {
    /// The action of the first hit target of this scene that contains
    /// `point`, in declaration order; `None` when no target contains it.
    pub fn action_for_touch(&self, point: DisplayPoint) -> (action: Option<DeviceAction>)
        ensures
            action == spec_action_for_touch(*self, point),
    {
        let targets = targets_for_scene(*self);
        let mut i: usize = 0;
        assert(targets@.skip(0) =~= targets@);
        while i < targets.len()
            invariant
                i <= targets.len(),
                targets@ == spec_targets(*self),
                first_hit(targets@, point) == first_hit(targets@.skip(i as int), point),
            decreases targets.len() - i,
        {
            let ghost rest = targets@.skip(i as int);
            assert(rest[0] == targets@[i as int]);
            assert(rest.skip(1) =~= targets@.skip(i as int + 1));
            if targets[i].hit(point) {
                return Some(targets[i].action);
            }
            i += 1;
        }
        assert(targets@.skip(i as int).len() == 0);
        None
    }
}

/// When a list of targets answers a touch, the answer is the action of the
/// first target that contains the point: the returned index is that target's.
pub proof fn first_hit_is_first_containing(targets: Seq<HitTarget>, p: DisplayPoint) -> (i: int)
    requires
        first_hit(targets, p) is Some,
    ensures
        0 <= i < targets.len(),
        targets[i].contains(p),
        first_hit(targets, p) == Some(targets[i].action),
        forall|j: int| 0 <= j < i ==> !(#[trigger] targets[j]).contains(p),
    decreases targets.len(),
{
    if targets[0].contains(p) {
        0
    } else {
        let rest = targets.skip(1);
        let k = first_hit_is_first_containing(rest, p);
        assert(targets[k + 1] == rest[k]);
        assert forall|j: int| 0 <= j < k + 1 implies !(#[trigger] targets[j]).contains(p) by {
            if j > 0 {
                assert(targets[j] == rest[j - 1]);
            }
        }
        k + 1
    }
}

/// A list of targets answers no touch exactly when none of them contains the
/// point.
pub proof fn no_hit_means_none_contains(targets: Seq<HitTarget>, p: DisplayPoint)
    ensures
        first_hit(targets, p) is None <==> forall|i: int|
            0 <= i < targets.len() ==> !(#[trigger] targets[i]).contains(p),
    decreases targets.len(),
{
    if targets.len() > 0 && !targets[0].contains(p) {
        let rest = targets.skip(1);
        no_hit_means_none_contains(rest, p);
        if first_hit(rest, p) is None {
            assert forall|i: int| 0 <= i < targets.len() implies !(#[trigger] targets[i]).contains(
                p,
            ) by {
                if i > 0 {
                    assert(targets[i] == rest[i - 1]);
                }
            }
        } else {
            let k = first_hit_is_first_containing(rest, p);
            assert(targets[k + 1] == rest[k]);
        }
    }
}

/// Scenes that show only progress or notifications answer no touch.
pub proof fn passive_scenes_ignore_touch(scene: Scene, p: DisplayPoint)
    requires
        scene == Scene::AgentThinking || scene == Scene::AgentStreaming || scene
            == Scene::AgentTaskProgress || scene == Scene::NotificationList,
    ensures
        spec_action_for_touch(scene, p) is None,
{
}

} // verus!
