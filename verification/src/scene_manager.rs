//! The scene lifecycle: one context structure threads the phase machine,
//! the action queue, the pending handles and the live entity set through
//! the tick loop, and each tick runs the fixed pipeline
//! phase-apply, message interpretation, action execution, project check,
//! scene spawn.
//!
//! Asset loading itself is the host's work: every step that begins a load
//! reports the path in its result, and readiness is handed back in the
//! next tick's input.  A transition request made during a tick takes
//! effect at the next tick's phase-apply point, never immediately.

use vstd::prelude::*;
use crate::actions::{
    Action, ActionQueue, ActionView, UiMessage, UiMessageView, interpret_message, spec_interpret,
    spec_interpreted, spec_messages_view, spec_queue_paths,
};
use crate::entities::{LevelEntity, LevelEntityView, build_spawn_list, spec_entities_view,
    spec_spawn_set};
use crate::schema::{
    AppState, GameLevel, GameLevelView, LevelHandle, ProjectConfig, ProjectConfigHandle,
    ProjectConfigView,
};
use crate::text::spec_strings_view;

verus! {

/// The process-wide lifecycle state, threaded explicitly through the tick
/// loop.
#[derive(Debug)]
pub struct GameContext {
    /// The phase every system observes this tick.
    pub state: AppState,
    /// The phase requested for the next phase-apply point, if any.
    pub next_state: Option<AppState>,
    /// Pending intents, drained by the executor each tick.
    pub action_queue: ActionQueue,
    /// The in-flight load of the project descriptor.
    pub project_handle: Option<ProjectConfigHandle>,
    /// The in-flight or completed load of the current scene descriptor.
    /// Installing a new one abandons interest in the old one.
    pub level_handle: Option<LevelHandle>,
    /// Every entity tagged as belonging to the currently spawned scene.
    pub live_entities: Vec<LevelEntity>,
}

#[verifier::ext_equal]
pub ghost struct GameContextView {
    pub state: AppState,
    pub next_state: Option<AppState>,
    pub action_queue: Seq<ActionView>,
    pub project_handle: Option<Seq<char>>,
    pub level_handle: Option<Seq<char>>,
    pub live_entities: Seq<LevelEntityView>,
}

impl View for GameContext {
    type V = GameContextView;

    open spec fn view(&self) -> GameContextView {
        GameContextView {
            state: self.state,
            next_state: self.next_state,
            action_queue: self.action_queue@,
            project_handle: match self.project_handle {
                Some(h) => Some(h@),
                None => None,
            },
            level_handle: match self.level_handle {
                Some(h) => Some(h@),
                None => None,
            },
            live_entities: spec_entities_view(self.live_entities@),
        }
    }
}

/// What the host hands the tick: this tick's UI messages, the project
/// descriptor once its load resolved, the scene descriptors resolved so
/// far (by the path they were requested for), and the paths for which a
/// loaded-with-dependencies notification fired this tick.
pub struct TickInput {
    pub messages: Vec<UiMessage>,
    pub project_config: Option<ProjectConfig>,
    pub ready_levels: Vec<(String, GameLevel)>,
    pub loaded_events: Vec<String>,
}

#[verifier::ext_equal]
pub ghost struct TickInputView {
    pub messages: Seq<UiMessageView>,
    pub project_config: Option<ProjectConfigView>,
    pub ready_levels: Seq<(Seq<char>, GameLevelView)>,
    pub loaded_events: Seq<Seq<char>>,
}

/// The views of the resolved scene descriptors, keyed by path.
pub open spec fn spec_ready_view(rs: Seq<(String, GameLevel)>) -> Seq<(Seq<char>, GameLevelView)> {
    rs.map_values(|p: (String, GameLevel)| (p.0@, p.1@))
}

impl View for TickInput {
    type V = TickInputView;

    open spec fn view(&self) -> TickInputView {
        TickInputView {
            messages: spec_messages_view(self.messages@),
            project_config: match self.project_config {
                Some(c) => Some(c@),
                None => None,
            },
            ready_levels: spec_ready_view(self.ready_levels@),
            loaded_events: spec_strings_view(self.loaded_events@),
        }
    }
}

/// What the host must do after the tick: begin these asset loads, in
/// order, and — when the scene was replaced — despawn the old entity set
/// and spawn the context's new one.
pub struct TickOutput {
    pub load_requests: Vec<String>,
    pub scene_replaced: bool,
}

#[verifier::ext_equal]
pub ghost struct TickOutputView {
    pub load_requests: Seq<Seq<char>>,
    pub scene_replaced: bool,
}

impl View for TickOutput {
    type V = TickOutputView;

    open spec fn view(&self) -> TickOutputView {
        TickOutputView {
            load_requests: spec_strings_view(self.load_requests@),
            scene_replaced: self.scene_replaced,
        }
    }
}

/// A context as it stands before the first tick of a fresh run.
pub open spec fn spec_fresh_context() -> GameContextView {
    GameContextView {
        state: AppState::Bootstrap,
        next_state: None,
        action_queue: Seq::empty(),
        project_handle: None,
        level_handle: None,
        live_entities: Seq::empty(),
    }
}

/// A fresh run right after startup: the project descriptor's load has
/// been requested and the first phase transition is pending.
pub open spec fn spec_initial_context(project_path: Seq<char>) -> GameContextView {
    GameContextView {
        state: AppState::Bootstrap,
        next_state: Some(AppState::LoadingProject),
        action_queue: Seq::empty(),
        project_handle: Some(project_path),
        level_handle: None,
        live_entities: Seq::empty(),
    }
}

impl GameContext {
    /// An untouched context: bootstrap phase, nothing queued, nothing
    /// loading, nothing spawned.
    pub fn new() -> (r: Self)
        ensures
            r@ == spec_fresh_context(),
    {
        let r = GameContext {
            state: AppState::Bootstrap,
            next_state: None,
            action_queue: ActionQueue::new(),
            project_handle: None,
            level_handle: None,
            live_entities: Vec::new(),
        };
        proof {
            assert(r@ =~= spec_fresh_context());
        }
        r
    }
}

/// Startup: install the project descriptor's handle and request the first
/// phase transition.  The returned path is the load the host must begin;
/// the host also spawns its persistent fixtures (lighting) here.
pub fn setup(ctx: &mut GameContext, project_path: &str) -> (load: String)
    ensures
        final(ctx)@ == (GameContextView {
            project_handle: Some(project_path@),
            next_state: Some(AppState::LoadingProject),
            ..old(ctx)@
        }),
        load@ == project_path@,
{
    ctx.project_handle = Some(ProjectConfigHandle(project_path.to_owned()));
    ctx.next_state = Some(AppState::LoadingProject);
    let load = project_path.to_owned();
    proof {
        assert(ctx@ =~= (GameContextView {
            project_handle: Some(project_path@),
            next_state: Some(AppState::LoadingProject),
            ..old(ctx)@
        }));
    }
    load
}

/// The phase-apply point: a requested transition becomes the phase every
/// system observes for the rest of the tick.
pub open spec fn spec_apply_pending(s: GameContextView) -> GameContextView {
    match s.next_state {
        Some(requested) => GameContextView { state: requested, next_state: None, ..s },
        None => s,
    }
}

/// Applies the pending phase transition, if one was requested.
pub fn apply_pending_state(ctx: &mut GameContext)
    ensures
        final(ctx)@ == spec_apply_pending(old(ctx)@),
{
    match ctx.next_state {
        Some(requested) => {
            ctx.state = requested;
            ctx.next_state = None;
            proof {
                assert(ctx@ =~= spec_apply_pending(old(ctx)@));
            }
        },
        None => {},
    }
}

/// Message interpretation: each UI message becomes one action, appended
/// in arrival order.
pub open spec fn spec_message_interpreter(
    s: GameContextView,
    msgs: Seq<UiMessageView>,
) -> GameContextView {
    GameContextView { action_queue: s.action_queue + spec_interpreted(msgs), ..s }
}

/// Translates this tick's UI messages into queued actions, preserving
/// arrival order.
pub fn message_interpreter_system(ctx: &mut GameContext, messages: &Vec<UiMessage>)
    ensures
        final(ctx)@ == spec_message_interpreter(old(ctx)@, spec_messages_view(messages@)),
{
    let n = messages.len();
    let mut i: usize = 0;
    proof {
        assert(ctx@.action_queue =~= old(ctx)@.action_queue + spec_interpreted(
            spec_messages_view(messages@).take(0),
        ));
    }
    while i < n
        invariant
            n == messages@.len(),
            i <= n,
            ctx@.state == old(ctx)@.state,
            ctx@.next_state == old(ctx)@.next_state,
            ctx@.project_handle == old(ctx)@.project_handle,
            ctx@.level_handle == old(ctx)@.level_handle,
            ctx@.live_entities == old(ctx)@.live_entities,
            ctx@.action_queue == old(ctx)@.action_queue + spec_interpreted(
                spec_messages_view(messages@).take(i as int),
            ),
        decreases n - i,
    {
        let action = interpret_message(&messages[i]);
        ctx.action_queue.push(action);
        proof {
            let mv = spec_messages_view(messages@);
            assert(mv[i as int] == messages@[i as int]@);
            assert(spec_interpreted(mv.take(i + 1)) =~= spec_interpreted(mv.take(i as int)).push(
                spec_interpret(mv[i as int]),
            ));
            assert(ctx@.action_queue =~= old(ctx)@.action_queue + spec_interpreted(
                mv.take(i + 1),
            ));
        }
        i += 1;
    }
    proof {
        assert(spec_messages_view(messages@).take(n as int) =~= spec_messages_view(messages@));
        assert(ctx@ =~= spec_message_interpreter(old(ctx)@, spec_messages_view(messages@)));
    }
}

/// Action execution: the queue is drained fully, most recent intent
/// first.  Each load-scene action begins the load of its path, installs
/// it as the new pending scene handle — abandoning any prior one — and
/// requests the LoadingScene phase.
pub open spec fn spec_execute_actions(s: GameContextView) -> (GameContextView, Seq<Seq<char>>)
    decreases s.action_queue.len(),
{
    if s.action_queue.len() == 0 {
        (s, Seq::empty())
    } else {
        let action = s.action_queue.last();
        let stepped = GameContextView {
            action_queue: s.action_queue.drop_last(),
            level_handle: Some(action.path()),
            next_state: Some(AppState::LoadingScene),
            ..s
        };
        let rest = spec_execute_actions(stepped);
        (rest.0, seq![action.path()] + rest.1)
    }
}

/// Drains the queue fully, executing the most recently queued action
/// first; returns the asset loads to begin, in execution order.
pub fn action_executor_system(ctx: &mut GameContext) -> (requests: Vec<String>)
    ensures
        final(ctx)@ == spec_execute_actions(old(ctx)@).0,
        spec_strings_view(requests@) == spec_execute_actions(old(ctx)@).1,
{
    let mut requests: Vec<String> = Vec::new();
    proof {
        assert(spec_strings_view(requests@) + spec_execute_actions(ctx@).1 =~= spec_execute_actions(
            old(ctx)@,
        ).1);
    }
    while ctx.action_queue.len() > 0
        invariant
            spec_execute_actions(old(ctx)@).0 == spec_execute_actions(ctx@).0,
            spec_execute_actions(old(ctx)@).1 == spec_strings_view(requests@)
                + spec_execute_actions(ctx@).1,
        decreases ctx@.action_queue.len(),
    {
        let ghost before = ctx@;
        let ghost reqs_before = requests@;
        let popped = ctx.action_queue.pop();
        match popped {
            Some(action) => {
                match action {
                    Action::LoadScene(path) => {
                        requests.push(path.clone());
                        ctx.level_handle = Some(LevelHandle(path));
                        ctx.next_state = Some(AppState::LoadingScene);
                        proof {
                            let stepped = GameContextView {
                                action_queue: before.action_queue.drop_last(),
                                level_handle: Some(before.action_queue.last().path()),
                                next_state: Some(AppState::LoadingScene),
                                ..before
                            };
                            assert(ctx@ =~= stepped);
                            assert(spec_execute_actions(before).0 == spec_execute_actions(
                                ctx@,
                            ).0);
                            assert(spec_strings_view(requests@) =~= spec_strings_view(
                                reqs_before,
                            ).push(before.action_queue.last().path()));
                            assert(spec_strings_view(reqs_before).push(
                                before.action_queue.last().path(),
                            ) + spec_execute_actions(ctx@).1 =~= spec_strings_view(reqs_before) + (
                            seq![before.action_queue.last().path()] + spec_execute_actions(
                                ctx@,
                            ).1));
                        }
                    },
                }
            },
            None => {
                proof {
                    assert(false);
                }
            },
        }
    }
    proof {
        assert(spec_strings_view(requests@) + spec_execute_actions(ctx@).1 =~= spec_strings_view(
            requests@,
        ));
    }
    requests
}

/// Stack-order action draining: one executor pass empties the queue,
/// begins the queued loads in reverse order of arrival, and leaves the
/// earliest-queued action's path — the last one executed — as the
/// installed scene handle, with the LoadingScene phase requested.
pub proof fn lemma_actions_drain_in_reverse_order(s: GameContextView)
    ensures
        ({
            let (s1, requests) = spec_execute_actions(s);
            &&& s1.action_queue.len() == 0
            &&& requests == spec_queue_paths(s.action_queue).reverse()
            &&& s1.state == s.state
            &&& s1.project_handle == s.project_handle
            &&& s1.live_entities == s.live_entities
            &&& (s.action_queue.len() == 0 ==> s1 == s)
            &&& (s.action_queue.len() > 0 ==> s1.level_handle == Some(s.action_queue[0].path())
                && s1.next_state == Some(AppState::LoadingScene))
        }),
    decreases s.action_queue.len(),
{
    if s.action_queue.len() == 0 {
        assert(spec_queue_paths(s.action_queue).reverse() =~= Seq::<Seq<char>>::empty());
    } else {
        let action = s.action_queue.last();
        let stepped = GameContextView {
            action_queue: s.action_queue.drop_last(),
            level_handle: Some(action.path()),
            next_state: Some(AppState::LoadingScene),
            ..s
        };
        lemma_actions_drain_in_reverse_order(stepped);
        let (s1, requests) = spec_execute_actions(s);
        assert(requests == seq![action.path()] + spec_execute_actions(stepped).1);
        assert(spec_queue_paths(s.action_queue).reverse() =~= seq![action.path()]
            + spec_queue_paths(stepped.action_queue).reverse()) by {
            let full = spec_queue_paths(s.action_queue);
            let rest = spec_queue_paths(stepped.action_queue);
            assert(full.len() == s.action_queue.len());
            assert(forall|j: int|
                0 <= j < full.len() ==> full[j] == #[trigger] s.action_queue[j].path());
            assert(forall|j: int|
                0 <= j < rest.len() ==> rest[j] == #[trigger] stepped.action_queue[j].path());
        }
        if s.action_queue.len() == 1 {
            assert(stepped.action_queue.len() == 0);
            assert(s.action_queue[0] == action);
        } else {
            assert(stepped.action_queue[0] == s.action_queue[0]);
        }
    }
}

/// The project-loaded check: while the phase is LoadingProject and the
/// project descriptor has resolved, the scene it names becomes the
/// pending scene handle, its load begins, and LoadingScene is requested.
pub open spec fn spec_check_project(
    s: GameContextView,
    config: Option<ProjectConfigView>,
) -> (GameContextView, Option<Seq<char>>) {
    if s.state == AppState::LoadingProject && s.project_handle is Some {
        match config {
            Some(c) => (
                GameContextView {
                    level_handle: Some(c.initial_scene),
                    next_state: Some(AppState::LoadingScene),
                    ..s
                },
                Some(c.initial_scene),
            ),
            None => (s, None),
        }
    } else {
        (s, None)
    }
}

/// Observes the project descriptor's readiness and begins loading its
/// initial scene; the returned path, if any, is the load the host must
/// begin.  `config` is the asset store's value for the project handle,
/// when resolved.
pub fn check_project_loaded(ctx: &mut GameContext, config: Option<&ProjectConfig>) -> (load:
    Option<String>)
    ensures
        ({
            let conf = match config {
                Some(c) => Some(c@),
                None => None,
            };
            let (s1, req) = spec_check_project(old(ctx)@, conf);
            &&& final(ctx)@ == s1
            &&& (match load {
                Some(p) => req == Some(p@),
                None => req is None,
            })
        }),
{
    if !(ctx.state == AppState::LoadingProject) {
        return None;
    }
    if ctx.project_handle.is_none() {
        return None;
    }
    match config {
        Some(c) => {
            ctx.level_handle = Some(LevelHandle(c.initial_scene.clone()));
            ctx.next_state = Some(AppState::LoadingScene);
            proof {
                assert(ctx@ =~= (GameContextView {
                    level_handle: Some(c@.initial_scene),
                    next_state: Some(AppState::LoadingScene),
                    ..old(ctx)@
                }));
            }
            Some(c.initial_scene.clone())
        },
        None => None,
    }
}

/// The scene descriptor resolved for a path, if any: the first entry
/// installed for it.
pub open spec fn spec_lookup_level(
    ready: Seq<(Seq<char>, GameLevelView)>,
    path: Seq<char>,
) -> Option<GameLevelView>
    decreases ready.len(),
{
    if ready.len() == 0 {
        None
    } else if ready[0].0 == path {
        Some(ready[0].1)
    } else {
        spec_lookup_level(ready.drop_first(), path)
    }
}

/// The resolved scene descriptor for `path`, if the store holds one.
fn lookup_level<'a>(ready: &'a Vec<(String, GameLevel)>, path: &String) -> (r: Option<
    &'a GameLevel,
>)
    ensures
        ({
            let found = spec_lookup_level(spec_ready_view(ready@), path@);
            match r {
                Some(level) => found == Some(level@),
                None => found is None,
            }
        }),
{
    let ghost rv = spec_ready_view(ready@);
    let n = ready.len();
    let mut i: usize = 0;
    proof {
        assert(rv.skip(0) =~= rv);
    }
    while i < n
        invariant
            n == ready@.len(),
            i <= n,
            rv == spec_ready_view(ready@),
            spec_lookup_level(rv, path@) == spec_lookup_level(rv.skip(i as int), path@),
        decreases n - i,
    {
        proof {
            assert(rv[i as int] == (ready@[i as int].0@, ready@[i as int].1@));
            assert(rv.skip(i as int)[0] == rv[i as int]);
            assert(rv.skip(i as int).drop_first() =~= rv.skip(i + 1));
        }
        if ready[i].0 == *path {
            return Some(&ready[i].1);
        }
        i += 1;
    }
    proof {
        assert(rv.skip(n as int) =~= Seq::<(Seq<char>, GameLevelView)>::empty());
    }
    None
}

/// Whether a loaded-with-dependencies notification fired for `path` this
/// tick.
fn contains_path(events: &Vec<String>, path: &String) -> (r: bool)
    ensures
        r == spec_strings_view(events@).contains(path@),
{
    let ghost ev = spec_strings_view(events@);
    let n = events.len();
    let mut i: usize = 0;
    while i < n
        invariant
            n == events@.len(),
            i <= n,
            ev == spec_strings_view(events@),
            forall|j: int| 0 <= j < i ==> ev[j] != path@,
        decreases n - i,
    {
        proof {
            assert(ev[i as int] == events@[i as int]@);
        }
        if events[i] == *path {
            return true;
        }
        i += 1;
    }
    proof {
        if ev.contains(path@) {
            let j = choose|j: int| 0 <= j < ev.len() && ev[j] == path@;
            assert(ev[j] != path@);
        }
    }
    false
}

/// The scene-spawn decision.  The pending scene is ready when a
/// loaded-with-dependencies notification fired for it this tick, or when
/// a loading phase finds it already resolved in the store (it may have
/// been cached before the handle was installed).  A ready scene replaces
/// the live entity set wholesale — destroy, then spawn, in one
/// uninterrupted pass — and requests the InGame phase.  While the applied
/// phase is already InGame the spawn is suppressed: a fresh action
/// requests LoadingScene, so its respawn happens one tick later, and only
/// redundant readiness observations are ignored.
pub open spec fn spec_spawn_level(
    s: GameContextView,
    events: Seq<Seq<char>>,
    ready: Seq<(Seq<char>, GameLevelView)>,
) -> (GameContextView, bool) {
    match s.level_handle {
        None => (s, false),
        Some(path) => {
            let ready_now = events.contains(path) || ((s.state == AppState::LoadingScene
                || s.state == AppState::LoadingProject) && spec_lookup_level(ready, path) is Some);
            if !ready_now {
                (s, false)
            } else {
                match spec_lookup_level(ready, path) {
                    None => (s, false),
                    Some(level) => {
                        if s.state == AppState::InGame {
                            (s, false)
                        } else {
                            (
                                GameContextView {
                                    live_entities: spec_spawn_set(level),
                                    next_state: Some(AppState::InGame),
                                    ..s
                                },
                                true,
                            )
                        }
                    },
                }
            }
        },
    }
}

/// Observes scene readiness and, when due, replaces the live scene with
/// the resolved descriptor's spawn set and requests InGame.  Returns
/// whether the scene was replaced this tick.
pub fn spawn_level(
    ctx: &mut GameContext,
    loaded_events: &Vec<String>,
    ready_levels: &Vec<(String, GameLevel)>,
) -> (spawned: bool)
    ensures
        final(ctx)@ == spec_spawn_level(
            old(ctx)@,
            spec_strings_view(loaded_events@),
            spec_ready_view(ready_levels@),
        ).0,
        spawned == spec_spawn_level(
            old(ctx)@,
            spec_strings_view(loaded_events@),
            spec_ready_view(ready_levels@),
        ).1,
{
    let path: String = match &ctx.level_handle {
        None => {
            return false;
        },
        Some(handle) => handle.0.clone(),
    };
    let mut ready_now = contains_path(loaded_events, &path);
    if ctx.state == AppState::LoadingScene || ctx.state == AppState::LoadingProject {
        if lookup_level(ready_levels, &path).is_some() {
            ready_now = true;
        }
    }
    if !ready_now {
        return false;
    }
    match lookup_level(ready_levels, &path) {
        None => false,
        Some(level) => {
            if ctx.state == AppState::InGame {
                return false;
            }
            ctx.live_entities = build_spawn_list(level);
            ctx.next_state = Some(AppState::InGame);
            proof {
                assert(ctx@ =~= spec_spawn_level(
                    old(ctx)@,
                    spec_strings_view(loaded_events@),
                    spec_ready_view(ready_levels@),
                ).0);
            }
            true
        },
    }
}

/// Scene replace atomicity: whenever a spawn pass runs, the set of
/// live-tagged entities afterwards is exactly the new descriptor's spawn
/// set — nothing of the prior scene survives — and when no spawn runs the
/// live set is untouched.
pub proof fn lemma_scene_replace_atomic(
    s: GameContextView,
    events: Seq<Seq<char>>,
    ready: Seq<(Seq<char>, GameLevelView)>,
)
    ensures
        ({
            let (s1, replaced) = spec_spawn_level(s, events, ready);
            &&& (replaced ==> s.level_handle is Some && spec_lookup_level(
                ready,
                s.level_handle->Some_0,
            ) is Some && s1.live_entities == spec_spawn_set(
                spec_lookup_level(ready, s.level_handle->Some_0)->Some_0,
            ))
            &&& (!replaced ==> s1 == s)
        }),
{
}

/// One full tick of the lifecycle pipeline, in the fixed order the
/// runtime guarantees: the pending phase is applied, UI messages become
/// actions, the queue is drained, project readiness is checked, and the
/// scene spawn runs last.
pub open spec fn spec_run_tick(
    s: GameContextView,
    input: TickInputView,
) -> (GameContextView, TickOutputView) {
    let applied = spec_apply_pending(s);
    let interpreted = spec_message_interpreter(applied, input.messages);
    let (executed, requests) = spec_execute_actions(interpreted);
    let (checked, project_request) = spec_check_project(executed, input.project_config);
    let (spawned, replaced) = spec_spawn_level(checked, input.loaded_events, input.ready_levels);
    (
        spawned,
        TickOutputView {
            load_requests: requests + (match project_request {
                Some(p) => seq![p],
                None => Seq::empty(),
            }),
            scene_replaced: replaced,
        },
    )
}

/// Runs one tick: phase apply, message interpretation, action execution,
/// project check, scene spawn.  Returns the loads the host must begin and
/// whether the scene was replaced.
pub fn run_tick(ctx: &mut GameContext, input: &TickInput) -> (out: TickOutput)
    ensures
        final(ctx)@ == spec_run_tick(old(ctx)@, input@).0,
        out@ == spec_run_tick(old(ctx)@, input@).1,
{
    apply_pending_state(ctx);
    message_interpreter_system(ctx, &input.messages);
    let mut load_requests = action_executor_system(ctx);
    let ghost reqs0 = spec_strings_view(load_requests@);
    let project_request = check_project_loaded(ctx, input.project_config.as_ref());
    match project_request {
        Some(p) => {
            load_requests.push(p);
        },
        None => {},
    }
    let scene_replaced = spawn_level(ctx, &input.loaded_events, &input.ready_levels);
    let out = TickOutput { load_requests, scene_replaced };
    proof {
        let conf = match &input.project_config {
            Some(c) => Some(c@),
            None => None,
        };
        assert(out@.load_requests =~= reqs0 + (match spec_check_project(
            spec_execute_actions(
                spec_message_interpreter(spec_apply_pending(old(ctx)@), input@.messages),
            ).0,
            conf,
        ).1 {
            Some(p) => seq![p],
            None => Seq::<Seq<char>>::empty(),
        }));
        assert(out@ =~= spec_run_tick(old(ctx)@, input@).1);
    }
    out
}

/// UI to loading state, end to end: on a fresh run, a button press
/// injected in one tick installs the pending handle for its scene that
/// very tick, and from the next tick on the phase reads LoadingScene —
/// provided the project descriptor and the scene asset have not resolved
/// yet, as on a fresh run they have not.
pub proof fn lemma_button_press_reaches_loading_state(
    project_path: Seq<char>,
    scene_path: Seq<char>,
    in0: TickInputView,
    in1: TickInputView,
)
    requires
        in0.messages == seq![UiMessageView::ButtonPressed(scene_path)],
        in0.project_config is None,
        in0.loaded_events.len() == 0,
        spec_lookup_level(in0.ready_levels, scene_path) is None,
        in1.messages.len() == 0,
        in1.project_config is None,
        in1.loaded_events.len() == 0,
        spec_lookup_level(in1.ready_levels, scene_path) is None,
    ensures
        ({
            let s0 = spec_initial_context(project_path);
            let s1 = spec_run_tick(s0, in0).0;
            let s2 = spec_run_tick(s1, in1).0;
            &&& s1.level_handle == Some(scene_path)
            &&& s2.state == AppState::LoadingScene
            &&& s2.level_handle == Some(scene_path)
        }),
{
    let s0 = spec_initial_context(project_path);
    let applied0 = spec_apply_pending(s0);
    assert(applied0.state == AppState::LoadingProject);
    let interp0 = spec_message_interpreter(applied0, in0.messages);
    assert(spec_interpreted(in0.messages) =~= seq![ActionView::LoadScene(scene_path)]);
    assert(interp0.action_queue =~= seq![ActionView::LoadScene(scene_path)]);
    lemma_actions_drain_in_reverse_order(interp0);
    let executed0 = spec_execute_actions(interp0).0;
    assert(executed0.level_handle == Some(scene_path));
    assert(executed0.next_state == Some(AppState::LoadingScene));
    assert(executed0.state == AppState::LoadingProject);
    let checked0 = spec_check_project(executed0, in0.project_config).0;
    let s1 = spec_run_tick(s0, in0).0;
    assert(!in0.loaded_events.contains(scene_path));
    assert(s1 == spec_spawn_level(checked0, in0.loaded_events, in0.ready_levels).0);
    assert(s1 == checked0);
    assert(s1.level_handle == Some(scene_path));
    assert(s1.next_state == Some(AppState::LoadingScene));

    let applied1 = spec_apply_pending(s1);
    assert(applied1.state == AppState::LoadingScene);
    let interp1 = spec_message_interpreter(applied1, in1.messages);
    assert(spec_interpreted(in1.messages) =~= Seq::<ActionView>::empty());
    assert(interp1 =~= applied1);
    assert(interp1.action_queue.len() == 0);
    lemma_actions_drain_in_reverse_order(interp1);
    let executed1 = spec_execute_actions(interp1).0;
    assert(executed1 == interp1);
    let checked1 = spec_check_project(executed1, in1.project_config).0;
    assert(checked1 == executed1);
    let s2 = spec_run_tick(s1, in1).0;
    assert(!in1.loaded_events.contains(scene_path));
    assert(s2 == spec_spawn_level(checked1, in1.loaded_events, in1.ready_levels).0);
    assert(s2.state == AppState::LoadingScene);
    assert(s2.level_handle == Some(scene_path));
}

/// Direct action to transition, end to end: an action pushed straight
/// onto the queue while the phase is InGame is executed by the next
/// tick's executor pass, which installs its scene handle and requests
/// LoadingScene; the phase reads LoadingScene as soon as that request is
/// applied.  Asset readiness observed meanwhile cannot re-spawn the
/// scene: the spawn pass is suppressed while the applied phase is still
/// InGame.
pub proof fn lemma_direct_action_reaches_loading_state(s: GameContextView, input: TickInputView)
    requires
        s.state == AppState::InGame,
        s.next_state is None,
        s.action_queue.len() > 0,
        input.messages.len() == 0,
    ensures
        ({
            let (s1, out) = spec_run_tick(s, input);
            &&& s1.next_state == Some(AppState::LoadingScene)
            &&& s1.level_handle == Some(s.action_queue[0].path())
            &&& s1.live_entities == s.live_entities
            &&& spec_apply_pending(s1).state == AppState::LoadingScene
        }),
{
    let applied = spec_apply_pending(s);
    assert(applied == s);
    let interp = spec_message_interpreter(applied, input.messages);
    assert(spec_interpreted(input.messages) =~= Seq::<ActionView>::empty());
    assert(interp.action_queue =~= s.action_queue);
    lemma_actions_drain_in_reverse_order(interp);
    let executed = spec_execute_actions(interp).0;
    assert(executed.level_handle == Some(s.action_queue[0].path()));
    assert(executed.next_state == Some(AppState::LoadingScene));
    assert(executed.state == AppState::InGame);
    let checked = spec_check_project(executed, input.project_config).0;
    assert(checked == executed);
    let s1 = spec_run_tick(s, input).0;
    assert(s1 == spec_spawn_level(checked, input.loaded_events, input.ready_levels).0);
    assert(s1 == checked);
}

} // verus!
