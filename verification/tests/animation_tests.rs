use ironhold_core::animation::{
    AnimationCommand, AnimationController, GltfAnimations, animation_playback_system, clip_index,
    select_movement_animation,
};
use ironhold_core::hierarchy::{Hierarchy, HierarchyNode, find_player_entity};
use ironhold_core::schema::{AnimationMap, InputMap, PlayerConfig};

fn sample_animations() -> AnimationMap {
    AnimationMap {
        idle: "Idle".to_string(),
        walk: "Walk".to_string(),
        run: "Run".to_string(),
        jump_enter: "JumpEnter".to_string(),
        jump_loop: "JumpLoop".to_string(),
        jump_exit: "JumpExit".to_string(),
        death: "Death".to_string(),
        dance: "Dance".to_string(),
        crouch_idle: "CrouchIdle".to_string(),
        crouch_forward: "CrouchForward".to_string(),
        roll: "Roll".to_string(),
    }
}

fn sample_player() -> PlayerConfig {
    PlayerConfig {
        model_path: "models/player.glb#Scene0".to_string(),
        inputs: InputMap {
            forward: "W".to_string(),
            backward: "S".to_string(),
            left: "A".to_string(),
            right: "D".to_string(),
            strafe_left: "Q".to_string(),
            strafe_right: "E".to_string(),
            jump: "Space".to_string(),
            run: "ShiftLeft".to_string(),
        },
        animations: sample_animations(),
    }
}

fn gltf_with(names: &[&str]) -> GltfAnimations {
    GltfAnimations {
        named_animations: names.iter().map(|n| n.to_string()).collect(),
    }
}

/// A single node that can itself play animations.
fn leaf_tree() -> Hierarchy {
    Hierarchy {
        nodes: vec![HierarchyNode { children: Vec::new(), has_animation_player: true }],
    }
}

#[test]
fn test_controller_starts_uninitialized_on_idle() {
    let controller = AnimationController::new(&sample_player());
    assert_eq!(controller.current, "Idle");
    assert_eq!(controller.last_played, "");
    assert_eq!(controller.gltf_path, "models/player.glb");
    assert!(!controller.graph_initialized);
    assert!(controller.node_indices.is_empty());
}

#[test]
fn test_model_path_without_label_is_kept_whole() {
    let mut player = sample_player();
    player.model_path = "models/player.glb".to_string();
    let controller = AnimationController::new(&player);
    assert_eq!(controller.gltf_path, "models/player.glb");
}

#[test]
fn test_no_build_before_asset_resolves() {
    let mut controller = AnimationController::new(&sample_player());
    let tree = leaf_tree();
    let cmds = animation_playback_system(&mut controller, None, &tree, 0);
    assert!(cmds.is_empty());
    assert!(!controller.graph_initialized);
}

#[test]
fn test_graph_built_on_first_ready_tick_and_never_again() {
    let mut controller = AnimationController::new(&sample_player());
    let tree = leaf_tree();
    let gltf = gltf_with(&["Idle", "Walk", "Run"]);

    let cmds = animation_playback_system(&mut controller, Some(&gltf), &tree, 0);
    assert!(controller.graph_initialized);
    // First the graph is attached, then the pending idle request plays.
    assert_eq!(cmds.len(), 2);
    assert_eq!(cmds[0], AnimationCommand::AttachGraph { target: 0 });
    assert_eq!(cmds[1], AnimationCommand::Play { target: 0, node_index: 1 });
    let table = controller.node_indices.clone();

    // Re-observing readiness must not rebuild.
    let cmds = animation_playback_system(&mut controller, Some(&gltf), &tree, 0);
    assert!(cmds.is_empty());
    assert_eq!(controller.node_indices, table);
}

#[test]
fn test_build_waits_for_capable_sub_entity() {
    let mut controller = AnimationController::new(&sample_player());
    // The hierarchy has streamed in, but no node can play animations yet.
    let bare = Hierarchy {
        nodes: vec![HierarchyNode { children: Vec::new(), has_animation_player: false }],
    };
    let gltf = gltf_with(&["Idle"]);
    let cmds = animation_playback_system(&mut controller, Some(&gltf), &bare, 0);
    assert!(cmds.is_empty());
    assert!(!controller.graph_initialized);

    // Next tick the capable descendant exists: the build happens now.
    let tree = Hierarchy {
        nodes: vec![
            HierarchyNode { children: vec![1], has_animation_player: false },
            HierarchyNode { children: Vec::new(), has_animation_player: true },
        ],
    };
    let cmds = animation_playback_system(&mut controller, Some(&gltf), &tree, 0);
    assert!(controller.graph_initialized);
    assert_eq!(cmds[0], AnimationCommand::AttachGraph { target: 1 });
}

#[test]
fn test_playback_is_idempotent_across_ticks() {
    let mut controller = AnimationController::new(&sample_player());
    let tree = leaf_tree();
    let gltf = gltf_with(&["Idle", "Walk"]);
    let first = animation_playback_system(&mut controller, Some(&gltf), &tree, 0);
    assert_eq!(
        first.iter().filter(|c| matches!(c, AnimationCommand::Play { .. })).count(),
        1
    );
    assert_eq!(controller.last_played, "Idle");

    // The request stays "Idle": no further play command, however many
    // ticks run.
    for _ in 0..5 {
        let cmds = animation_playback_system(&mut controller, Some(&gltf), &tree, 0);
        assert!(cmds.is_empty());
    }

    // A changed request plays exactly once more.
    select_movement_animation(&mut controller, true, false);
    assert_eq!(controller.current, "Walk");
    let cmds = animation_playback_system(&mut controller, Some(&gltf), &tree, 0);
    assert_eq!(cmds, vec![AnimationCommand::Play { target: 0, node_index: 2 }]);
    let cmds = animation_playback_system(&mut controller, Some(&gltf), &tree, 0);
    assert!(cmds.is_empty());
}

#[test]
fn test_missing_clip_is_silently_inert() {
    let mut controller = AnimationController::new(&sample_player());
    let tree = leaf_tree();
    // The asset offers no "Idle" clip at all.
    let gltf = gltf_with(&["Walk", "Run"]);
    let cmds = animation_playback_system(&mut controller, Some(&gltf), &tree, 0);
    // The graph is built, but the requested clip has no entry: no play
    // command, and nothing is committed, on any number of ticks.
    assert!(controller.graph_initialized);
    assert_eq!(cmds, vec![AnimationCommand::AttachGraph { target: 0 }]);
    for _ in 0..5 {
        let cmds = animation_playback_system(&mut controller, Some(&gltf), &tree, 0);
        assert!(cmds.is_empty());
        assert_eq!(controller.last_played, "");
    }
}

#[test]
fn test_clip_indices_number_found_clips_from_one() {
    let mut controller = AnimationController::new(&sample_player());
    let tree = leaf_tree();
    // Only three of the declared names exist; declaration order decides
    // the indices, the missing names are skipped.
    let gltf = gltf_with(&["Roll", "Dance", "Walk"]);
    let _ = animation_playback_system(&mut controller, Some(&gltf), &tree, 0);
    assert_eq!(clip_index(&controller.node_indices, &"Walk".to_string()), Some(1));
    assert_eq!(clip_index(&controller.node_indices, &"Dance".to_string()), Some(2));
    assert_eq!(clip_index(&controller.node_indices, &"Roll".to_string()), Some(3));
    assert_eq!(clip_index(&controller.node_indices, &"Idle".to_string()), None);
}

#[test]
fn test_duplicate_clip_binding_keeps_later_index() {
    let mut animations = sample_animations();
    // Two roles bound to the same clip name: the later binding's index
    // wins on lookup, as it would in a keyed map.
    animations.walk = "Shared".to_string();
    animations.run = "Shared".to_string();
    let mut player = sample_player();
    player.animations = animations;
    let mut controller = AnimationController::new(&player);
    let tree = leaf_tree();
    let gltf = gltf_with(&["Shared"]);
    let _ = animation_playback_system(&mut controller, Some(&gltf), &tree, 0);
    assert_eq!(controller.node_indices.len(), 2);
    assert_eq!(clip_index(&controller.node_indices, &"Shared".to_string()), Some(2));
}

#[test]
fn test_movement_selects_idle_walk_run() {
    let mut controller = AnimationController::new(&sample_player());
    select_movement_animation(&mut controller, true, false);
    assert_eq!(controller.current, "Walk");
    select_movement_animation(&mut controller, true, true);
    assert_eq!(controller.current, "Run");
    select_movement_animation(&mut controller, false, true);
    assert_eq!(controller.current, "Idle");
}

#[test]
fn test_deep_descendant_found_regardless_of_sibling_order() {
    // The capable node sits three levels deep; every sibling along the
    // way lacks the capability.  Node 0 is the root; children indices
    // always exceed their parent's.
    let tree = Hierarchy {
        nodes: vec![
            HierarchyNode { children: vec![1, 2], has_animation_player: false },
            HierarchyNode { children: Vec::new(), has_animation_player: false },
            HierarchyNode { children: vec![3, 4], has_animation_player: false },
            HierarchyNode { children: Vec::new(), has_animation_player: false },
            HierarchyNode { children: vec![5], has_animation_player: false },
            HierarchyNode { children: Vec::new(), has_animation_player: true },
        ],
    };
    assert_eq!(find_player_entity(&tree, 0), Some(5));

    // The mirror ordering of every sibling list finds the same node.
    let mirrored = Hierarchy {
        nodes: vec![
            HierarchyNode { children: vec![2, 1], has_animation_player: false },
            HierarchyNode { children: Vec::new(), has_animation_player: false },
            HierarchyNode { children: vec![4, 3], has_animation_player: false },
            HierarchyNode { children: Vec::new(), has_animation_player: false },
            HierarchyNode { children: vec![5], has_animation_player: false },
            HierarchyNode { children: Vec::new(), has_animation_player: true },
        ],
    };
    assert_eq!(find_player_entity(&mirrored, 0), Some(5));
}

#[test]
fn test_search_prefers_depth_first_order() {
    // Two capable nodes: depth-first preorder reaches the one inside the
    // first child's subtree before the later sibling.
    let tree = Hierarchy {
        nodes: vec![
            HierarchyNode { children: vec![1, 3], has_animation_player: false },
            HierarchyNode { children: vec![2], has_animation_player: false },
            HierarchyNode { children: Vec::new(), has_animation_player: true },
            HierarchyNode { children: Vec::new(), has_animation_player: true },
        ],
    };
    assert_eq!(find_player_entity(&tree, 0), Some(2));
}

#[test]
fn test_search_without_capable_node_finds_none() {
    let tree = Hierarchy {
        nodes: vec![
            HierarchyNode { children: vec![1], has_animation_player: false },
            HierarchyNode { children: Vec::new(), has_animation_player: false },
        ],
    };
    assert_eq!(find_player_entity(&tree, 0), None);
}
