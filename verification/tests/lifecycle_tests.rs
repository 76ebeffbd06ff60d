use ironhold_core::actions::{Action, ActionQueue, UiMessage, interpret_message};
use ironhold_core::entities::{LevelEntity, build_spawn_list};
use ironhold_core::scene_manager::{
    GameContext, TickInput, action_executor_system, apply_pending_state, check_project_loaded,
    message_interpreter_system, run_tick, setup, spawn_level,
};
use ironhold_core::schema::{
    AnimationMap, AppState, GameLevel, InputMap, ModelInfo, PlayerConfig, ProjectConfig, UiAction,
    UiElement,
};

fn empty_input() -> TickInput {
    TickInput {
        messages: Vec::new(),
        project_config: None,
        ready_levels: Vec::new(),
        loaded_events: Vec::new(),
    }
}

fn sample_inputs() -> InputMap {
    InputMap {
        forward: "W".to_string(),
        backward: "S".to_string(),
        left: "A".to_string(),
        right: "D".to_string(),
        strafe_left: "Q".to_string(),
        strafe_right: "E".to_string(),
        jump: "Space".to_string(),
        run: "ShiftLeft".to_string(),
    }
}

fn sample_animations() -> AnimationMap {
    AnimationMap {
        idle: "Idle".to_string(),
        walk: "Walk".to_string(),
        run: "Run".to_string(),
        jump_enter: "JumpEnter".to_string(),
        jump_loop: "JumpLoop".to_string(),
        jump_exit: "JumpExit".to_string(),
        death: "Death".to_string(),
        dance: "Dance".to_string(),
        crouch_idle: "CrouchIdle".to_string(),
        crouch_forward: "CrouchForward".to_string(),
        roll: "Roll".to_string(),
    }
}

fn sample_level_with_player() -> GameLevel {
    GameLevel {
        models: vec![
            ModelInfo { path: "models/cube.glb".to_string() },
            ModelInfo { path: "models/tree.glb".to_string() },
        ],
        ui: vec![UiElement::Button {
            text: "Play".to_string(),
            action: UiAction::LoadScene("scenes/game.ron".to_string()),
        }],
        player: Some(PlayerConfig {
            model_path: "models/player.glb#Scene0".to_string(),
            inputs: sample_inputs(),
            animations: sample_animations(),
        }),
    }
}

#[test]
fn test_interpret_button_press() {
    let action = interpret_message(&UiMessage::ButtonPressed("scenes/a.ron".to_string()));
    assert_eq!(action, Action::LoadScene("scenes/a.ron".to_string()));
}

#[test]
fn test_queue_push_pop_is_stack_order() {
    let mut queue = ActionQueue::new();
    queue.push(Action::LoadScene("first".to_string()));
    queue.push(Action::LoadScene("second".to_string()));
    assert_eq!(queue.pop(), Some(Action::LoadScene("second".to_string())));
    assert_eq!(queue.pop(), Some(Action::LoadScene("first".to_string())));
    assert_eq!(queue.pop(), None);
}

#[test]
fn test_executor_drains_in_reverse_order() {
    let mut ctx = GameContext::new();
    let mut messages = Vec::new();
    messages.push(UiMessage::ButtonPressed("scenes/a.ron".to_string()));
    messages.push(UiMessage::ButtonPressed("scenes/b.ron".to_string()));
    messages.push(UiMessage::ButtonPressed("scenes/c.ron".to_string()));
    message_interpreter_system(&mut ctx, &messages);
    assert_eq!(ctx.action_queue.len(), 3);

    let requests = action_executor_system(&mut ctx);
    // Most recent intent first; the queue is empty after one pass.
    assert_eq!(
        requests,
        vec![
            "scenes/c.ron".to_string(),
            "scenes/b.ron".to_string(),
            "scenes/a.ron".to_string(),
        ]
    );
    assert_eq!(ctx.action_queue.len(), 0);
    // The last action executed was the earliest queued: its handle stands.
    match &ctx.level_handle {
        Some(handle) => assert_eq!(handle.0, "scenes/a.ron"),
        None => panic!("a handle must be installed"),
    }
    assert_eq!(ctx.next_state, Some(AppState::LoadingScene));
}

#[test]
fn test_executor_on_empty_queue_changes_nothing() {
    let mut ctx = GameContext::new();
    let requests = action_executor_system(&mut ctx);
    assert!(requests.is_empty());
    assert!(ctx.level_handle.is_none());
    assert_eq!(ctx.next_state, None);
}

#[test]
fn test_transition_applies_only_at_tick_boundary() {
    let mut ctx = GameContext::new();
    ctx.next_state = Some(AppState::LoadingProject);
    assert_eq!(ctx.state, AppState::Bootstrap);
    apply_pending_state(&mut ctx);
    assert_eq!(ctx.state, AppState::LoadingProject);
    assert_eq!(ctx.next_state, None);
}

#[test]
fn test_check_project_requires_loading_project_phase() {
    let mut ctx = GameContext::new();
    let _ = setup(&mut ctx, "project.ron");
    let config = ProjectConfig { initial_scene: "scenes/main.ron".to_string() };
    // Phase is still Bootstrap: the check must not fire.
    let load = check_project_loaded(&mut ctx, Some(&config));
    assert!(load.is_none());
    assert!(ctx.level_handle.is_none());

    apply_pending_state(&mut ctx);
    let load = check_project_loaded(&mut ctx, Some(&config));
    assert_eq!(load, Some("scenes/main.ron".to_string()));
}

#[test]
fn test_spawn_set_matches_descriptor() {
    let level = sample_level_with_player();
    let spawned = build_spawn_list(&level);
    assert_eq!(spawned.len(), 5);
    match &spawned[0] {
        LevelEntity::Model { path } => assert_eq!(path, "models/cube.glb"),
        _ => panic!("first entity must be the first model"),
    }
    match &spawned[1] {
        LevelEntity::Model { path } => assert_eq!(path, "models/tree.glb"),
        _ => panic!("second entity must be the second model"),
    }
    match &spawned[2] {
        LevelEntity::UiRoot { elements } => assert_eq!(elements.len(), 1),
        _ => panic!("third entity must be the UI container"),
    }
    match &spawned[3] {
        LevelEntity::Player { model_path, controller, animation } => {
            assert_eq!(model_path, "models/player.glb#Scene0");
            assert!(!controller.is_running);
            assert_eq!(animation.current, "Idle");
            assert_eq!(animation.last_played, "");
            assert_eq!(animation.gltf_path, "models/player.glb");
            assert!(!animation.graph_initialized);
            assert!(animation.node_indices.is_empty());
        },
        _ => panic!("fourth entity must be the player"),
    }
    match &spawned[4] {
        LevelEntity::Camera { follows_player } => assert!(*follows_player),
        _ => panic!("fifth entity must be the orbit camera"),
    }
}

#[test]
fn test_spawn_set_without_player_gets_default_camera() {
    let level = GameLevel { models: Vec::new(), ui: Vec::new(), player: None };
    let spawned = build_spawn_list(&level);
    assert_eq!(spawned.len(), 1);
    match &spawned[0] {
        LevelEntity::Camera { follows_player } => assert!(!*follows_player),
        _ => panic!("a static default camera must be spawned"),
    }
}

#[test]
fn test_scene_replace_is_wholesale() {
    let mut ctx = GameContext::new();
    ctx.state = AppState::LoadingScene;
    ctx.level_handle = Some(ironhold_core::schema::LevelHandle("scenes/a.ron".to_string()));
    let ready = vec![("scenes/a.ron".to_string(), sample_level_with_player())];
    let spawned = spawn_level(&mut ctx, &Vec::new(), &ready);
    assert!(spawned);
    assert_eq!(ctx.live_entities.len(), 5);
    assert_eq!(ctx.next_state, Some(AppState::InGame));

    // A later load replaces the tagged set entirely: nothing of the old
    // scene survives.
    apply_pending_state(&mut ctx);
    ctx.state = AppState::LoadingScene;
    ctx.level_handle = Some(ironhold_core::schema::LevelHandle("scenes/b.ron".to_string()));
    let empty_level = GameLevel { models: Vec::new(), ui: Vec::new(), player: None };
    let ready = vec![("scenes/b.ron".to_string(), empty_level)];
    let spawned = spawn_level(&mut ctx, &Vec::new(), &ready);
    assert!(spawned);
    assert_eq!(ctx.live_entities.len(), 1);
    match &ctx.live_entities[0] {
        LevelEntity::Camera { follows_player } => assert!(!*follows_player),
        _ => panic!("only the new scene's camera may remain tagged"),
    }
}

#[test]
fn test_spawn_suppressed_while_in_game() {
    let mut ctx = GameContext::new();
    ctx.state = AppState::InGame;
    ctx.level_handle = Some(ironhold_core::schema::LevelHandle("scenes/a.ron".to_string()));
    let ready = vec![("scenes/a.ron".to_string(), sample_level_with_player())];
    let events = vec!["scenes/a.ron".to_string()];
    let spawned = spawn_level(&mut ctx, &events, &ready);
    assert!(!spawned);
    assert!(ctx.live_entities.is_empty());
    assert_eq!(ctx.next_state, None);
}

#[test]
fn test_spawn_waits_for_readiness() {
    let mut ctx = GameContext::new();
    ctx.state = AppState::LoadingScene;
    ctx.level_handle = Some(ironhold_core::schema::LevelHandle("scenes/a.ron".to_string()));
    // Nothing resolved, no notification: the machine stalls, spawning
    // nothing, with no fault.
    let spawned = spawn_level(&mut ctx, &Vec::new(), &Vec::new());
    assert!(!spawned);
    assert_eq!(ctx.state, AppState::LoadingScene);
    assert!(ctx.live_entities.is_empty());
}

#[test]
fn test_direct_action_while_in_game_reaches_loading_scene() {
    let mut ctx = GameContext::new();
    ctx.state = AppState::InGame;
    ctx.action_queue.push(Action::LoadScene("scenes/y.ron".to_string()));
    // Even with the new scene instantly ready, the pass that executes the
    // action cannot re-spawn: the applied phase is still InGame.
    let mut input = empty_input();
    input.ready_levels.push(("scenes/y.ron".to_string(), sample_level_with_player()));
    let out = run_tick(&mut ctx, &input);
    assert!(!out.scene_replaced);
    assert_eq!(ctx.next_state, Some(AppState::LoadingScene));
    // The next executor pass has run; after the apply point the phase
    // reads LoadingScene.
    run_tick(&mut ctx, &empty_input());
    assert_eq!(ctx.state, AppState::LoadingScene);
}

#[test]
fn test_new_handle_abandons_old_load() {
    let mut ctx = GameContext::new();
    ctx.state = AppState::InGame;
    ctx.level_handle = Some(ironhold_core::schema::LevelHandle("scenes/old.ron".to_string()));
    ctx.action_queue.push(Action::LoadScene("scenes/new.ron".to_string()));
    let requests = action_executor_system(&mut ctx);
    assert_eq!(requests, vec!["scenes/new.ron".to_string()]);
    match &ctx.level_handle {
        Some(handle) => assert_eq!(handle.0, "scenes/new.ron"),
        None => panic!("the new handle must be installed"),
    }
    // A readiness notification for the abandoned path is ignored: it no
    // longer matches the installed handle.
    apply_pending_state(&mut ctx);
    let old_level = GameLevel { models: Vec::new(), ui: Vec::new(), player: None };
    let ready = vec![("scenes/old.ron".to_string(), old_level)];
    let events = vec!["scenes/old.ron".to_string()];
    let spawned = spawn_level(&mut ctx, &events, &ready);
    assert!(!spawned);
    assert!(ctx.live_entities.is_empty());
}
