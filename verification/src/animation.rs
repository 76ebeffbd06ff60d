//! The per-entity animation controller.
//!
//! The controller defers building its playback graph until the entity's
//! backing model asset is observed ready and a playback-capable sub-entity
//! exists in the streamed-in hierarchy; the graph is built at most once.
//! Thereafter it reconciles the requested clip against the last committed
//! one exactly once per change, and a clip name absent from the resolved
//! asset is silently inert.

use vstd::prelude::*;
use crate::hierarchy::{Hierarchy, find_player_entity, spec_first_capable};
use crate::schema::{AnimationMap, AnimationMapView, PlayerConfig};
use crate::text::{prefix_before, split_prefix};

verus! {

/// The animation clips a resolved model asset offers, by name.
#[derive(Debug, Clone)]
pub struct GltfAnimations {
    pub named_animations: Vec<String>,
}

impl View for GltfAnimations {
    type V = Seq<Seq<char>>;

    open spec fn view(&self) -> Seq<Seq<char>> {
        self.named_animations@.map_values(|s: String| s@)
    }
}

impl GltfAnimations {
    /// Whether the asset offers a clip of this name.
    pub fn has_clip(&self, name: &String) -> (r: bool)
        ensures
            r == self@.contains(name@),
    {
        let n = self.named_animations.len();
        let mut i: usize = 0;
        while i < n
            invariant
                n == self.named_animations@.len(),
                i <= n,
                forall|j: int| 0 <= j < i ==> self.named_animations@[j]@ != name@,
            decreases n - i,
        {
            if self.named_animations[i] == *name {
                proof {
                    assert(self@[i as int] == self.named_animations@[i as int]@);
                }
                return true;
            }
            i += 1;
        }
        proof {
            if self@.contains(name@) {
                let j = choose|j: int| 0 <= j < self@.len() && self@[j] == name@;
                assert(self@[j] == self.named_animations@[j]@);
            }
        }
        false
    }
}

/// A command for the host's animation runtime, addressed to a node of the
/// entity hierarchy.
#[derive(Clone, Copy, PartialEq, Eq, Structural, Debug)]
pub enum AnimationCommand {
    /// Attach the freshly built playback graph to this sub-entity.
    AttachGraph { target: usize },
    /// Start this clip on the sub-entity, looping.
    Play { target: usize, node_index: u32 },
}

/// The per-entity playback state.
#[derive(Debug, Clone)]
pub struct AnimationController {
    /// The symbolic clip-name bindings the scene declared.
    pub animations: AnimationMap,
    /// The clip currently requested.
    pub current: String,
    /// The clip last committed to the runtime player.
    pub last_played: String,
    /// The model asset the playback graph is built from.
    pub gltf_path: String,
    /// Symbolic clip name to runtime clip index, built once per model load.
    pub node_indices: Vec<(String, u32)>,
    /// Whether the graph has been built and attached.
    pub graph_initialized: bool,
}

#[verifier::ext_equal]
pub ghost struct AnimationControllerView {
    pub animations: AnimationMapView,
    pub current: Seq<char>,
    pub last_played: Seq<char>,
    pub gltf_path: Seq<char>,
    pub node_indices: Seq<(Seq<char>, u32)>,
    pub graph_initialized: bool,
}

impl View for AnimationController {
    type V = AnimationControllerView;

    open spec fn view(&self) -> AnimationControllerView {
        AnimationControllerView {
            animations: self.animations@,
            current: self.current@,
            last_played: self.last_played@,
            gltf_path: self.gltf_path@,
            node_indices: spec_table_view(self.node_indices@),
            graph_initialized: self.graph_initialized,
        }
    }
}

/// The clip names a binding table declares, in the order the graph binds
/// them.
pub open spec fn spec_clip_names(am: AnimationMapView) -> Seq<Seq<char>> {
    seq![
        am.idle,
        am.walk,
        am.run,
        am.jump_enter,
        am.jump_loop,
        am.jump_exit,
        am.death,
        am.dance,
        am.crouch_idle,
        am.crouch_forward,
        am.roll,
    ]
}

/// Whether a clip name is among those the asset offers.
pub open spec fn spec_offered(clips: Seq<Seq<char>>) -> spec_fn(Seq<char>) -> bool {
    |n: Seq<char>| clips.contains(n)
}

/// The view of an executable name-to-index table.
pub open spec fn spec_table_view(table: Seq<(String, u32)>) -> Seq<(Seq<char>, u32)> {
    table.map_values(|p: (String, u32)| (p.0@, p.1))
}

/// The views of a list of owned clip names.
pub open spec fn spec_names_view(names: Seq<String>) -> Seq<Seq<char>> {
    names.map_values(|s: String| s@)
}

/// The name-to-index table the graph build produces: the declared names
/// the asset offers, in declaration order, numbered from 1 (index 0 is the
/// graph root).  Names the asset lacks are silently skipped.
pub open spec fn spec_clip_table(names: Seq<Seq<char>>, clips: Seq<Seq<char>>) -> Seq<
    (Seq<char>, u32),
> {
    names.filter(spec_offered(clips)).map(|i: int, n: Seq<char>| (n, (i + 1) as u32))
}

/// The index a name resolves to.  A name bound twice keeps the later
/// binding, as a keyed map would.
pub open spec fn spec_table_lookup(table: Seq<(Seq<char>, u32)>, name: Seq<char>) -> Option<u32>
    decreases table.len(),
{
    if table.len() == 0 {
        None
    } else if table.last().0 == name {
        Some(table.last().1)
    } else {
        spec_table_lookup(table.drop_last(), name)
    }
}

proof fn lemma_filter_push<A>(s: Seq<A>, x: A, pred: spec_fn(A) -> bool)
    ensures
        s.push(x).filter(pred) == if pred(x) {
            s.filter(pred).push(x)
        } else {
            s.filter(pred)
        },
{
    reveal(Seq::filter);
    assert(s.push(x).drop_last() =~= s);
    assert(s.push(x).last() == x);
}

/// The clip names declared by `am`, as owned strings, in binding order.
fn collect_clip_names(am: &AnimationMap) -> (names: Vec<String>)
    ensures
        spec_names_view(names@) =~= spec_clip_names(am@),
        names@.len() == 11,
{
    let names: Vec<String> = vec![
        am.idle.clone(),
        am.walk.clone(),
        am.run.clone(),
        am.jump_enter.clone(),
        am.jump_loop.clone(),
        am.jump_exit.clone(),
        am.death.clone(),
        am.dance.clone(),
        am.crouch_idle.clone(),
        am.crouch_forward.clone(),
        am.roll.clone(),
    ];
    names
}

/// Builds the name-to-index table for the declared clip names the resolved
/// asset offers.
fn build_clip_table(am: &AnimationMap, gltf: &GltfAnimations) -> (table: Vec<(String, u32)>)
    ensures
        spec_table_view(table@) == spec_clip_table(spec_clip_names(am@), gltf@),
{
    let names = collect_clip_names(am);
    let ghost pred = spec_offered(gltf@);
    let n = names.len();
    let mut table: Vec<(String, u32)> = Vec::new();
    let mut next_index: u32 = 1;
    let mut i: usize = 0;
    proof {
        assert(spec_names_view(names@).take(0) =~= Seq::<Seq<char>>::empty());
        assert(Seq::<Seq<char>>::empty().filter(pred) =~= Seq::<Seq<char>>::empty()) by {
            reveal(Seq::filter);
        }
        assert(spec_table_view(table@) =~= spec_clip_table(spec_names_view(names@).take(0), gltf@));
    }
    while i < n
        invariant
            n == names@.len(),
            n == 11,
            i <= n,
            pred == spec_offered(gltf@),
            next_index == table@.len() + 1,
            table@.len() <= i,
            spec_names_view(names@) =~= spec_clip_names(am@),
            spec_table_view(table@) == spec_clip_table(
                spec_names_view(names@).take(i as int),
                gltf@,
            ),
        decreases n - i,
    {
        let ghost name_views = spec_names_view(names@);
        let ghost kept = name_views.take(i as int).filter(pred);
        let ghost old_table = table@;
        let ghost idx0 = next_index;
        let found = gltf.has_clip(&names[i]);
        if found {
            table.push((names[i].clone(), next_index));
            next_index += 1;
        }
        proof {
            assert(name_views[i as int] == names@[i as int]@);
            assert(name_views.take(i + 1) =~= name_views.take(i as int).push(name_views[i as int]));
            lemma_filter_push(name_views.take(i as int), name_views[i as int], pred);
            let lhs = spec_table_view(table@);
            let rhs = spec_clip_table(name_views.take(i + 1), gltf@);
            if found {
                let x = name_views[i as int];
                let kept2 = kept.push(x);
                assert(name_views.take(i + 1).filter(pred) == kept2);
                assert(table@ =~= old_table.push((names@[i as int], idx0)));
                assert(spec_table_view(table@).len() == table@.len());
                assert(spec_table_view(old_table).len() == old_table.len());
                assert(spec_clip_table(name_views.take(i as int), gltf@).len() == kept.len());
                assert(old_table.len() == kept.len());
                assert(table@.len() == old_table.len() + 1);
                assert(kept2.len() == kept.len() + 1);
                assert(rhs.len() == kept2.len());
                assert(lhs.len() == rhs.len());
                assert forall|j: int| 0 <= j < lhs.len() implies lhs[j] == rhs[j] by {
                    if j < old_table.len() {
                        assert(lhs[j] == spec_table_view(old_table)[j]);
                        assert(rhs[j] == (kept2[j], (j + 1) as u32));
                        assert(kept2[j] == kept[j]);
                        assert(spec_clip_table(name_views.take(i as int), gltf@)[j] == (
                            kept[j],
                            (j + 1) as u32,
                        ));
                    } else {
                        assert(lhs[j] == (table@[j].0@, table@[j].1));
                        assert(table@[j] == (names@[i as int], idx0));
                        assert(rhs[j] == (kept2[j], (j + 1) as u32));
                        assert(kept2[j] == x);
                    }
                }
                assert(lhs =~= rhs);
            } else {
                assert(name_views.take(i + 1).filter(pred) == kept);
                assert(lhs =~= rhs);
            }
        }
        i += 1;
    }
    proof {
        assert(spec_names_view(names@).take(n as int) =~= spec_clip_names(am@));
    }
    table
}

/// The runtime clip index `name` resolves to in the built table, or `None`
/// when the clip was missing from the source asset.
pub fn clip_index(table: &Vec<(String, u32)>, name: &String) -> (r: Option<u32>)
    ensures
        r == spec_table_lookup(spec_table_view(table@), name@),
{
    let ghost tv = spec_table_view(table@);
    let mut i = table.len();
    proof {
        assert(tv.take(table@.len() as int) =~= tv);
    }
    while i > 0
        invariant
            i <= table@.len(),
            tv == table@.map_values(|p: (String, u32)| (p.0@, p.1)),
            spec_table_lookup(tv, name@) == spec_table_lookup(tv.take(i as int), name@),
        decreases i,
    {
        i -= 1;
        proof {
            assert(tv[i as int] == (table@[i as int].0@, table@[i as int].1));
            assert(tv.take(i + 1).last() == tv[i as int]);
            assert(tv.take(i + 1).drop_last() =~= tv.take(i as int));
        }
        if table[i].0 == *name {
            return Some(table[i].1);
        }
    }
    proof {
        assert(tv.take(0) =~= Seq::<(Seq<char>, u32)>::empty());
    }
    None
}

impl AnimationController {
    /// The controller a freshly spawned player starts with: the idle clip
    /// requested, nothing committed, no graph yet.  The graph is built from
    /// the model asset itself, so any sub-asset label after `#` in the
    /// model path is cut off.
    pub fn new(config: &PlayerConfig) -> (r: Self)
        ensures
            r@.animations == config@.animations,
            r@.current == config@.animations.idle,
            r@.last_played == Seq::<char>::empty(),
            r@.gltf_path == prefix_before(config@.model_path, '#'),
            r@.node_indices == Seq::<(Seq<char>, u32)>::empty(),
            r@.graph_initialized == false,
    {
        let r = AnimationController {
            animations: config.animations.duplicate(),
            current: config.animations.idle.clone(),
            last_played: String::new(),
            gltf_path: split_prefix(config.model_path.as_str(), '#'),
            node_indices: Vec::new(),
            graph_initialized: false,
        };
        proof {
            assert(r@.node_indices =~= Seq::<(Seq<char>, u32)>::empty());
        }
        r
    }
}

/// The graph-building half of a controller tick: on the first tick the
/// resolved asset and a playback-capable sub-entity are both observed, the
/// table is built and the graph attached; otherwise nothing changes.
pub open spec fn spec_build_step(
    c: AnimationControllerView,
    gltf: Option<Seq<Seq<char>>>,
    tree: Hierarchy,
    root: int,
) -> (AnimationControllerView, Seq<AnimationCommand>) {
    if !c.graph_initialized {
        match gltf {
            Some(clips) => match spec_first_capable(tree, root) {
                Some(target) => (
                    AnimationControllerView {
                        node_indices: spec_clip_table(spec_clip_names(c.animations), clips),
                        graph_initialized: true,
                        ..c
                    },
                    seq![AnimationCommand::AttachGraph { target: target as usize }],
                ),
                None => (c, Seq::empty()),
            },
            None => (c, Seq::empty()),
        }
    } else {
        (c, Seq::empty())
    }
}

/// The playback half of a controller tick: once the graph is built, a
/// requested clip that differs from the last committed one and has an
/// entry in the table is started, looping, and committed; a missing clip
/// commits nothing.
pub open spec fn spec_play_step(
    c: AnimationControllerView,
    tree: Hierarchy,
    root: int,
) -> (AnimationControllerView, Seq<AnimationCommand>) {
    if c.graph_initialized && c.current != c.last_played {
        match spec_first_capable(tree, root) {
            Some(target) => match spec_table_lookup(c.node_indices, c.current) {
                Some(node_index) => (
                    AnimationControllerView { last_played: c.current, ..c },
                    seq![
                        AnimationCommand::Play { target: target as usize, node_index },
                    ],
                ),
                None => (c, Seq::empty()),
            },
            None => (c, Seq::empty()),
        }
    } else {
        (c, Seq::empty())
    }
}

/// One controller tick: the build step, then the playback step.
pub open spec fn spec_animation_step(
    c: AnimationControllerView,
    gltf: Option<Seq<Seq<char>>>,
    tree: Hierarchy,
    root: int,
) -> (AnimationControllerView, Seq<AnimationCommand>) {
    let (c1, build_cmds) = spec_build_step(c, gltf, tree, root);
    let (c2, play_cmds) = spec_play_step(c1, tree, root);
    (c2, build_cmds + play_cmds)
}

pub open spec fn spec_gltf_view(gltf: Option<&GltfAnimations>) -> Option<Seq<Seq<char>>> {
    match gltf {
        Some(g) => Some(g@),
        None => None,
    }
}

/// One tick of the animation controller for the entity rooted at `root`:
/// lazily builds the playback graph once asset and hierarchy allow it,
/// then reconciles the requested clip against the committed one.  Returns
/// the commands the host must apply, in order.
pub fn animation_playback_system(
    c: &mut AnimationController,
    gltf: Option<&GltfAnimations>,
    tree: &Hierarchy,
    root: usize,
) -> (cmds: Vec<AnimationCommand>)
    requires
        tree.wf(),
        root < tree.nodes@.len(),
    ensures
        final(c)@ == spec_animation_step(old(c)@, spec_gltf_view(gltf), *tree, root as int).0,
        cmds@ == spec_animation_step(old(c)@, spec_gltf_view(gltf), *tree, root as int).1,
{
    let ghost c0 = old(c)@;
    let ghost gv = spec_gltf_view(gltf);
    let mut cmds: Vec<AnimationCommand> = Vec::new();
    if !c.graph_initialized {
        if let Some(g) = gltf {
            match find_player_entity(tree, root) {
                Some(target) => {
                    c.node_indices = build_clip_table(&c.animations, g);
                    c.graph_initialized = true;
                    cmds.push(AnimationCommand::AttachGraph { target });
                },
                None => {},
            }
        }
    }
    proof {
        assert(c@ =~= spec_build_step(c0, gv, *tree, root as int).0);
        assert(cmds@ =~= spec_build_step(c0, gv, *tree, root as int).1);
    }
    let ghost c1 = c@;
    let ghost built = cmds@;
    if c.graph_initialized && !(c.current == c.last_played) {
        match find_player_entity(tree, root) {
            Some(target) => {
                match clip_index(&c.node_indices, &c.current) {
                    Some(node_index) => {
                        cmds.push(AnimationCommand::Play { target, node_index });
                        c.last_played = c.current.clone();
                    },
                    None => {},
                }
            },
            None => {},
        }
    }
    proof {
        assert(c@ =~= spec_play_step(c1, *tree, root as int).0);
        assert(cmds@ =~= built + spec_play_step(c1, *tree, root as int).1);
    }
    cmds
}

/// What one tick lets the controller observe: the clips of its model
/// asset once resolved, and the entity hierarchy as streamed in so far.
pub ghost struct AnimationTick {
    pub gltf: Option<Seq<Seq<char>>>,
    pub tree: Hierarchy,
    pub root: int,
}

/// A run of consecutive controller ticks: the final state and every
/// command issued along the way, in order.
pub open spec fn spec_run_animation(
    c: AnimationControllerView,
    ticks: Seq<AnimationTick>,
) -> (AnimationControllerView, Seq<AnimationCommand>)
    decreases ticks.len(),
{
    if ticks.len() == 0 {
        (c, Seq::empty())
    } else {
        let first = spec_animation_step(c, ticks[0].gltf, ticks[0].tree, ticks[0].root);
        let rest = spec_run_animation(first.0, ticks.drop_first());
        (rest.0, first.1 + rest.1)
    }
}

/// How many graph-attach commands a command sequence holds.
pub open spec fn spec_count_attach(cmds: Seq<AnimationCommand>) -> nat
    decreases cmds.len(),
{
    if cmds.len() == 0 {
        0
    } else {
        (if cmds[0] is AttachGraph {
            1nat
        } else {
            0nat
        }) + spec_count_attach(cmds.drop_first())
    }
}

/// How many play commands a command sequence holds.
pub open spec fn spec_count_play(cmds: Seq<AnimationCommand>) -> nat
    decreases cmds.len(),
{
    if cmds.len() == 0 {
        0
    } else {
        (if cmds[0] is Play {
            1nat
        } else {
            0nat
        }) + spec_count_play(cmds.drop_first())
    }
}

proof fn lemma_count_add(a: Seq<AnimationCommand>, b: Seq<AnimationCommand>)
    ensures
        spec_count_attach(a + b) == spec_count_attach(a) + spec_count_attach(b),
        spec_count_play(a + b) == spec_count_play(a) + spec_count_play(b),
    decreases a.len(),
{
    if a.len() == 0 {
        assert(a + b =~= b);
    } else {
        assert((a + b)[0] == a[0]);
        assert((a + b).drop_first() =~= a.drop_first() + b);
        lemma_count_add(a.drop_first(), b);
    }
}

proof fn lemma_count_single(x: AnimationCommand)
    ensures
        spec_count_attach(seq![x]) == if x is AttachGraph {
            1nat
        } else {
            0nat
        },
        spec_count_play(seq![x]) == if x is Play {
            1nat
        } else {
            0nat
        },
{
    assert(seq![x].drop_first() =~= Seq::<AnimationCommand>::empty());
    assert(spec_count_attach(Seq::<AnimationCommand>::empty()) == 0);
    assert(spec_count_play(Seq::<AnimationCommand>::empty()) == 0);
    assert(seq![x][0] == x);
}

/// What any single controller tick can and cannot do, whatever the
/// outside world hands it.
proof fn lemma_step_facts(
    c: AnimationControllerView,
    gltf: Option<Seq<Seq<char>>>,
    tree: Hierarchy,
    root: int,
)
    ensures
        ({
            let (c1, cmds) = spec_animation_step(c, gltf, tree, root);
            &&& c1.animations == c.animations
            &&& c1.current == c.current
            &&& c1.gltf_path == c.gltf_path
            &&& spec_count_attach(cmds) <= 1
            &&& spec_count_play(cmds) <= 1
            &&& (c.graph_initialized ==> c1.graph_initialized && c1.node_indices
                == c.node_indices && spec_count_attach(cmds) == 0)
            &&& (!c.graph_initialized && !c1.graph_initialized ==> c1 == c
                && spec_count_attach(cmds) == 0)
            &&& (spec_count_play(cmds) == 0 ==> c1.last_played == c.last_played)
            &&& (spec_count_play(cmds) > 0 ==> c1.last_played == c1.current)
            &&& (c.last_played == c.current ==> spec_count_play(cmds) == 0)
            &&& (c.graph_initialized && spec_table_lookup(c.node_indices, c.current) is None
                ==> c1 == c && spec_count_play(cmds) == 0 && spec_count_attach(cmds) == 0)
        }),
{
    let (cb, build_cmds) = spec_build_step(c, gltf, tree, root);
    let (c1, play_cmds) = spec_play_step(cb, tree, root);
    lemma_count_add(build_cmds, play_cmds);
    if build_cmds.len() > 0 {
        lemma_count_single(build_cmds[0]);
        assert(build_cmds =~= seq![build_cmds[0]]);
    }
    if play_cmds.len() > 0 {
        lemma_count_single(play_cmds[0]);
        assert(play_cmds =~= seq![play_cmds[0]]);
    }
}

/// At-most-one graph build: over any run of ticks, an initialized
/// controller never attaches again and keeps its lookup table, and an
/// uninitialized one attaches at most once, however often the asset is
/// re-observed ready.
pub proof fn lemma_graph_built_at_most_once(c: AnimationControllerView, ticks: Seq<AnimationTick>)
    ensures
        ({
            let (c1, cmds) = spec_run_animation(c, ticks);
            &&& spec_count_attach(cmds) <= 1
            &&& (c.graph_initialized ==> spec_count_attach(cmds) == 0 && c1.graph_initialized
                && c1.node_indices == c.node_indices)
        }),
    decreases ticks.len(),
{
    if ticks.len() > 0 {
        let first = spec_animation_step(c, ticks[0].gltf, ticks[0].tree, ticks[0].root);
        lemma_step_facts(c, ticks[0].gltf, ticks[0].tree, ticks[0].root);
        lemma_graph_built_at_most_once(first.0, ticks.drop_first());
        let rest = spec_run_animation(first.0, ticks.drop_first());
        lemma_count_add(first.1, rest.1);
    }
}

/// The build happens on exactly the first tick both the resolved asset
/// and a playback-capable sub-entity are observed: that tick attaches the
/// graph and installs the table built from the asset's clips.
pub proof fn lemma_graph_built_on_first_ready_tick(
    c: AnimationControllerView,
    clips: Seq<Seq<char>>,
    tree: Hierarchy,
    root: int,
)
    requires
        !c.graph_initialized,
        spec_first_capable(tree, root) is Some,
    ensures
        ({
            let (c1, cmds) = spec_animation_step(c, Some(clips), tree, root);
            &&& c1.graph_initialized
            &&& c1.node_indices == spec_clip_table(spec_clip_names(c.animations), clips)
            &&& spec_count_attach(cmds) == 1
        }),
{
    lemma_step_facts(c, Some(clips), tree, root);
    let (cb, build_cmds) = spec_build_step(c, Some(clips), tree, root);
    let (c1, play_cmds) = spec_play_step(cb, tree, root);
    lemma_count_add(build_cmds, play_cmds);
    lemma_count_single(build_cmds[0]);
    assert(build_cmds =~= seq![build_cmds[0]]);
    if play_cmds.len() > 0 {
        lemma_count_single(play_cmds[0]);
        assert(play_cmds =~= seq![play_cmds[0]]);
    }
}

/// Once the requested clip equals the committed one, ticks are inert for
/// playback: no play command is ever issued again until the request
/// changes.
proof fn lemma_no_play_when_committed(c: AnimationControllerView, ticks: Seq<AnimationTick>)
    requires
        c.last_played == c.current,
    ensures
        ({
            let (c1, cmds) = spec_run_animation(c, ticks);
            &&& spec_count_play(cmds) == 0
            &&& c1.current == c.current
            &&& c1.last_played == c.last_played
        }),
    decreases ticks.len(),
{
    if ticks.len() > 0 {
        let first = spec_animation_step(c, ticks[0].gltf, ticks[0].tree, ticks[0].root);
        lemma_step_facts(c, ticks[0].gltf, ticks[0].tree, ticks[0].root);
        lemma_no_play_when_committed(first.0, ticks.drop_first());
        let rest = spec_run_animation(first.0, ticks.drop_first());
        lemma_count_add(first.1, rest.1);
    }
}

/// Idempotent playback: a controller tick never changes the requested
/// clip, so across any number of consecutive ticks the request is the
/// initial one — and at most one play command is issued for it, on the
/// first tick the request both mismatches the committed clip and resolves
/// in the table.
pub proof fn lemma_playback_idempotent(c: AnimationControllerView, ticks: Seq<AnimationTick>)
    ensures
        ({
            let (c1, cmds) = spec_run_animation(c, ticks);
            &&& spec_count_play(cmds) <= 1
            &&& c1.current == c.current
        }),
    decreases ticks.len(),
{
    if ticks.len() > 0 {
        let first = spec_animation_step(c, ticks[0].gltf, ticks[0].tree, ticks[0].root);
        lemma_step_facts(c, ticks[0].gltf, ticks[0].tree, ticks[0].root);
        let rest = spec_run_animation(first.0, ticks.drop_first());
        lemma_count_add(first.1, rest.1);
        if spec_count_play(first.1) > 0 {
            lemma_no_play_when_committed(first.0, ticks.drop_first());
        } else {
            lemma_playback_idempotent(first.0, ticks.drop_first());
        }
    }
}

/// Missing-clip safety: with the graph built and the requested clip
/// absent from the table, any number of ticks issues no command at all
/// and leaves the controller exactly as it was; the mismatch is simply
/// re-checked each tick.
pub proof fn lemma_missing_clip_inert(c: AnimationControllerView, ticks: Seq<AnimationTick>)
    requires
        c.graph_initialized,
        spec_table_lookup(c.node_indices, c.current) is None,
    ensures
        ({
            let (c1, cmds) = spec_run_animation(c, ticks);
            &&& c1 == c
            &&& spec_count_play(cmds) == 0
            &&& spec_count_attach(cmds) == 0
        }),
    decreases ticks.len(),
{
    if ticks.len() > 0 {
        let first = spec_animation_step(c, ticks[0].gltf, ticks[0].tree, ticks[0].root);
        lemma_step_facts(c, ticks[0].gltf, ticks[0].tree, ticks[0].root);
        lemma_missing_clip_inert(first.0, ticks.drop_first());
        let rest = spec_run_animation(first.0, ticks.drop_first());
        lemma_count_add(first.1, rest.1);
    }
}

/// The clip the movement logic requests: idle when standing still, the
/// run clip when moving at a run, the walk clip otherwise.
pub open spec fn spec_movement_clip(am: AnimationMapView, moving: bool, running: bool) -> Seq<
    char,
> {
    if !moving {
        am.idle
    } else if running {
        am.run
    } else {
        am.walk
    }
}

/// Points the controller's requested clip at the one the movement state
/// calls for; everything else is left alone.  The commit itself happens in
/// the controller's own tick.
pub fn select_movement_animation(c: &mut AnimationController, moving: bool, running: bool)
    ensures
        final(c)@ == (AnimationControllerView {
            current: spec_movement_clip(old(c)@.animations, moving, running),
            ..old(c)@
        }),
{
    if moving {
        if running {
            if !(c.current == c.animations.run) {
                c.current = c.animations.run.clone();
            }
        } else {
            if !(c.current == c.animations.walk) {
                c.current = c.animations.walk.clone();
            }
        }
    } else {
        if !(c.current == c.animations.idle) {
            c.current = c.animations.idle.clone();
        }
    }
    proof {
        assert(c@ =~= (AnimationControllerView {
            current: spec_movement_clip(old(c)@.animations, moving, running),
            ..old(c)@
        }));
    }
}

} // verus!
