//! The entities a scene spawn pass creates, as the lifecycle logic sees
//! them: every record here stands for one runtime entity tagged as
//! belonging to the live scene, so the next load can destroy exactly that
//! set.

use vstd::prelude::*;
use crate::animation::{AnimationController, AnimationControllerView};
use crate::schema::{
    GameLevel, GameLevelView, InputMap, InputMapView, PlayerConfig, UiElement, UiElementView,
    spec_ui_view,
};
use crate::text::prefix_before;

verus! {

/// The movement state a spawned player starts with.  Speeds and other
/// tuning are host data; the logic reads only the bindings and the run
/// toggle.
#[derive(Debug, Clone)]
pub struct CharacterController {
    pub inputs: InputMap,
    pub is_running: bool,
}

pub ghost struct CharacterControllerView {
    pub inputs: InputMapView,
    pub is_running: bool,
}

impl View for CharacterController {
    type V = CharacterControllerView;

    open spec fn view(&self) -> CharacterControllerView {
        CharacterControllerView { inputs: self.inputs@, is_running: self.is_running }
    }
}

/// One entity tagged as belonging to the currently spawned scene.
#[derive(Debug, Clone)]
pub enum LevelEntity {
    /// A static model placement.
    Model { path: String },
    /// The full-screen container holding the scene's interactive elements.
    UiRoot { elements: Vec<UiElement> },
    /// The player, with movement and animation state initialized.
    Player { model_path: String, controller: CharacterController, animation: AnimationController },
    /// The scene camera: orbiting the player when one exists, static
    /// otherwise.
    Camera { follows_player: bool },
}

pub ghost enum LevelEntityView {
    Model { path: Seq<char> },
    UiRoot { elements: Seq<UiElementView> },
    Player {
        model_path: Seq<char>,
        controller: CharacterControllerView,
        animation: AnimationControllerView,
    },
    Camera { follows_player: bool },
}

impl View for LevelEntity {
    type V = LevelEntityView;

    open spec fn view(&self) -> LevelEntityView {
        match self {
            LevelEntity::Model { path } => LevelEntityView::Model { path: path@ },
            LevelEntity::UiRoot { elements } => LevelEntityView::UiRoot {
                elements: spec_ui_view(elements@),
            },
            LevelEntity::Player { model_path, controller, animation } => LevelEntityView::Player {
                model_path: model_path@,
                controller: controller@,
                animation: animation@,
            },
            LevelEntity::Camera { follows_player } => LevelEntityView::Camera {
                follows_player: *follows_player,
            },
        }
    }
}

/// The views of a list of spawned entities.
pub open spec fn spec_entities_view(es: Seq<LevelEntity>) -> Seq<LevelEntityView> {
    es.map_values(|e: LevelEntity| e@)
}

/// The animation state a freshly spawned player's controller starts in:
/// idle requested, nothing committed, graph not yet built.
pub open spec fn spec_initial_animation(p: crate::schema::PlayerConfigView)
    -> AnimationControllerView {
    AnimationControllerView {
        animations: p.animations,
        current: p.animations.idle,
        last_played: Seq::empty(),
        gltf_path: prefix_before(p.model_path, '#'),
        node_indices: Seq::empty(),
        graph_initialized: false,
    }
}

/// The entities a scene descriptor spawns, in spawn order: one per model
/// placement, the UI container when any element is declared, then either
/// the player with an orbiting camera or a static default camera.
pub open spec fn spec_spawn_set(level: GameLevelView) -> Seq<LevelEntityView> {
    level.models.map_values(|m: crate::schema::ModelInfoView| LevelEntityView::Model { path: m.path })
        + (if level.ui.len() > 0 {
        seq![LevelEntityView::UiRoot { elements: level.ui }]
    } else {
        Seq::empty()
    }) + (match level.player {
        Some(p) => seq![
            LevelEntityView::Player {
                model_path: p.model_path,
                controller: CharacterControllerView { inputs: p.inputs, is_running: false },
                animation: spec_initial_animation(p),
            },
            LevelEntityView::Camera { follows_player: true },
        ],
        None => seq![LevelEntityView::Camera { follows_player: false }],
    })
}

/// A deep copy of the declared UI elements, view for view.
fn copy_ui_elements(elements: &Vec<UiElement>) -> (r: Vec<UiElement>)
    ensures
        spec_ui_view(r@) == spec_ui_view(elements@),
{
    let n = elements.len();
    let mut r: Vec<UiElement> = Vec::new();
    let mut i: usize = 0;
    while i < n
        invariant
            n == elements@.len(),
            i <= n,
            r@.len() == i,
            forall|j: int| 0 <= j < i ==> r@[j]@ == elements@[j]@,
        decreases n - i,
    {
        r.push(elements[i].duplicate());
        i += 1;
    }
    proof {
        assert(spec_ui_view(r@) =~= spec_ui_view(elements@));
    }
    r
}

/// The spawn pass for one scene descriptor: the exact entity set the
/// descriptor declares, in spawn order.
pub fn build_spawn_list(level: &GameLevel) -> (r: Vec<LevelEntity>)
    ensures
        spec_entities_view(r@) == spec_spawn_set(level@),
{
    let mut r: Vec<LevelEntity> = Vec::new();
    let n = level.models.len();
    let mut i: usize = 0;
    while i < n
        invariant
            n == level.models@.len(),
            i <= n,
            r@.len() == i,
            forall|j: int| 0 <= j < i ==> r@[j]@ == (LevelEntityView::Model {
                path: level.models@[j]@.path,
            }),
        decreases n - i,
    {
        r.push(LevelEntity::Model { path: level.models[i].path.clone() });
        i += 1;
    }
    if level.ui.len() > 0 {
        r.push(LevelEntity::UiRoot { elements: copy_ui_elements(&level.ui) });
    }
    match &level.player {
        Some(p) => {
            r.push(LevelEntity::Player {
                model_path: p.model_path.clone(),
                controller: CharacterController { inputs: p.inputs.duplicate(), is_running: false },
                animation: AnimationController::new(p),
            });
            r.push(LevelEntity::Camera { follows_player: true });
        },
        None => {
            r.push(LevelEntity::Camera { follows_player: false });
        },
    }
    proof {
        let lhs = spec_entities_view(r@);
        let rhs = spec_spawn_set(level@);
        assert(lhs.len() == rhs.len());
        assert forall|j: int| 0 <= j < lhs.len() implies lhs[j] == rhs[j] by {
            assert(lhs[j] == r@[j]@);
            if j < n {
                assert(rhs[j] == level@.models.map_values(
                    |m: crate::schema::ModelInfoView| LevelEntityView::Model { path: m.path },
                )[j]);
                assert(level@.models[j] == level.models@[j]@);
            }
        }
        assert(lhs =~= rhs);
    }
    r
}

} // verus!
