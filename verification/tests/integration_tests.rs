use ironhold_core::actions::Action;
use ironhold_core::scene_manager::{GameContext, TickInput, run_tick, setup};
use ironhold_core::schema::AppState;

fn empty_input() -> TickInput {
    TickInput {
        messages: Vec::new(),
        project_config: None,
        ready_levels: Vec::new(),
        loaded_events: Vec::new(),
    }
}

#[test]
fn test_ui_button_to_load_scene_action() {
    let mut ctx = GameContext::new();

    // 1. Startup: the project descriptor's load begins.
    let load = setup(&mut ctx, "project.ron");
    assert_eq!(load, "project.ron");
    run_tick(&mut ctx, &empty_input());

    // 2. Simulate a button-press message.
    let mut input = empty_input();
    input
        .messages
        .push(ironhold_core::actions::UiMessage::ButtonPressed(
            "test_scene.ron".to_string(),
        ));

    // 3. Run systems (interpreter + executor will run).
    run_tick(&mut ctx, &input);

    // 4. Run once more to process the state transition.
    run_tick(&mut ctx, &empty_input());

    // 5. Verify side effects: the executor installed a scene handle...
    assert!(ctx.level_handle.is_some());

    // ...and the state is LoadingScene.
    assert_eq!(ctx.state, AppState::LoadingScene);
}

#[test]
fn test_action_to_state_transition() {
    let mut ctx = GameContext::new();
    let _ = setup(&mut ctx, "project.ron");

    // 1. Run once to handle startup.
    run_tick(&mut ctx, &empty_input());

    // 2. Transition to InGame.
    ctx.next_state = Some(AppState::InGame);
    run_tick(&mut ctx, &empty_input());
    assert_eq!(ctx.state, AppState::InGame);

    // 3. Manually push an action.
    ctx.action_queue
        .push(Action::LoadScene("another_scene.ron".to_string()));

    // 4. Run the executor, then let the transition apply.
    run_tick(&mut ctx, &empty_input());
    run_tick(&mut ctx, &empty_input());

    // 5. Verify the state transitioned to LoadingScene.
    assert_eq!(ctx.state, AppState::LoadingScene);
}

#[test]
fn test_button_press_installs_handle_within_two_ticks() {
    let mut ctx = GameContext::new();
    let _ = setup(&mut ctx, "project.ron");

    let mut input = empty_input();
    input
        .messages
        .push(ironhold_core::actions::UiMessage::ButtonPressed(
            "scenes/x.ron".to_string(),
        ));
    let out = run_tick(&mut ctx, &input);

    // The load begins the very tick the press is interpreted.
    assert_eq!(out.load_requests, vec!["scenes/x.ron".to_string()]);
    match &ctx.level_handle {
        Some(handle) => assert_eq!(handle.0, "scenes/x.ron"),
        None => panic!("scene handle must be installed"),
    }

    // One more tick: the requested phase applies.
    run_tick(&mut ctx, &empty_input());
    assert_eq!(ctx.state, AppState::LoadingScene);
}

#[test]
fn test_project_loaded_starts_initial_scene() {
    let mut ctx = GameContext::new();
    let _ = setup(&mut ctx, "project.ron");
    run_tick(&mut ctx, &empty_input());
    assert_eq!(ctx.state, AppState::LoadingProject);

    let mut input = empty_input();
    input.project_config = Some(ironhold_core::schema::ProjectConfig {
        initial_scene: "scenes/main.ron".to_string(),
    });
    let out = run_tick(&mut ctx, &input);

    assert_eq!(out.load_requests, vec!["scenes/main.ron".to_string()]);
    match &ctx.level_handle {
        Some(handle) => assert_eq!(handle.0, "scenes/main.ron"),
        None => panic!("initial scene handle must be installed"),
    }
    run_tick(&mut ctx, &empty_input());
    assert_eq!(ctx.state, AppState::LoadingScene);
}
