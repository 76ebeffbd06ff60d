//! The data the engine is driven by: the project descriptor, the scene
//! descriptor and the bindings it declares for the player entity.
//!
//! Transforms, camera tuning and other rendering parameters are the host's
//! business and are not modelled here: the control logic never reads them.

use vstd::prelude::*;
use crate::text::str_eq;

verus! {

/// The authoritative phase of the application.  Requested transitions are
/// applied once per tick, never immediately.
#[derive(Clone, Copy, PartialEq, Eq, Structural, Debug, Default, Hash)]
pub enum AppState {
    #[default]
    Bootstrap,
    LoadingProject,
    LoadingScene,
    InGame,
}

/// The project descriptor: names the scene to load first.
#[derive(Debug, Clone, PartialEq, Eq)]
pub struct ProjectConfig {
    pub initial_scene: String,
}

pub ghost struct ProjectConfigView {
    pub initial_scene: Seq<char>,
}

impl View for ProjectConfig {
    type V = ProjectConfigView;

    open spec fn view(&self) -> ProjectConfigView {
        ProjectConfigView { initial_scene: self.initial_scene@ }
    }
}

/// A reference to the in-flight or completed load of the project descriptor.
/// Loads are identified by the path they were requested for.
#[derive(Debug, Clone, PartialEq, Eq)]
pub struct ProjectConfigHandle(pub String);

impl View for ProjectConfigHandle {
    type V = Seq<char>;

    open spec fn view(&self) -> Seq<char> {
        self.0@
    }
}

/// A reference to the in-flight or completed load of a scene descriptor.
/// Exactly one is current at a time; installing a new one abandons interest
/// in the completion of the old one.
#[derive(Debug, Clone, PartialEq, Eq)]
pub struct LevelHandle(pub String);

impl View for LevelHandle {
    type V = Seq<char>;

    open spec fn view(&self) -> Seq<char> {
        self.0@
    }
}

/// One static model placement of a scene.  The placement's transform is
/// host data; the lifecycle logic reads only the asset path.
#[derive(Debug, Clone, PartialEq, Eq)]
pub struct ModelInfo {
    pub path: String,
}

pub ghost struct ModelInfoView {
    pub path: Seq<char>,
}

impl View for ModelInfo {
    type V = ModelInfoView;

    open spec fn view(&self) -> ModelInfoView {
        ModelInfoView { path: self.path@ }
    }
}

/// An intent a UI element can emit when activated.
#[derive(Debug, Clone, PartialEq, Eq)]
pub enum UiAction {
    LoadScene(String),
}

pub ghost enum UiActionView {
    LoadScene(Seq<char>),
}

impl View for UiAction {
    type V = UiActionView;

    open spec fn view(&self) -> UiActionView {
        match self {
            UiAction::LoadScene(path) => UiActionView::LoadScene(path@),
        }
    }
}

impl UiAction {
    /// A deep copy whose view equals this one's.
    pub fn duplicate(&self) -> (r: Self)
        ensures
            r@ == self@,
    {
        match self {
            UiAction::LoadScene(path) => UiAction::LoadScene(path.clone()),
        }
    }
}

/// A UI element a scene declares.
#[derive(Debug, Clone, PartialEq, Eq)]
pub enum UiElement {
    Button { text: String, action: UiAction },
}

pub ghost enum UiElementView {
    Button { text: Seq<char>, action: UiActionView },
}

impl View for UiElement {
    type V = UiElementView;

    open spec fn view(&self) -> UiElementView {
        match self {
            UiElement::Button { text, action } => UiElementView::Button {
                text: text@,
                action: action@,
            },
        }
    }
}

impl UiElement {
    /// A deep copy whose view equals this one's.
    pub fn duplicate(&self) -> (r: Self)
        ensures
            r@ == self@,
    {
        match self {
            UiElement::Button { text, action } => UiElement::Button {
                text: text.clone(),
                action: action.duplicate(),
            },
        }
    }
}

/// A key the host's input facility can report.  The names below follow the
/// conventional scan-code names the descriptor format uses.
#[derive(Clone, Copy, PartialEq, Eq, Structural, Debug)]
pub enum KeyCode {
    KeyW,
    KeyA,
    KeyS,
    KeyD,
    KeyQ,
    KeyE,
    Space,
    ShiftLeft,
    ShiftRight,
}

/// The key bound to each movement role.
#[derive(Debug, Clone, PartialEq, Eq)]
pub struct InputMap {
    pub forward: String,
    pub backward: String,
    pub left: String,
    pub right: String,
    pub strafe_left: String,
    pub strafe_right: String,
    pub jump: String,
    pub run: String,
}

pub ghost struct InputMapView {
    pub forward: Seq<char>,
    pub backward: Seq<char>,
    pub left: Seq<char>,
    pub right: Seq<char>,
    pub strafe_left: Seq<char>,
    pub strafe_right: Seq<char>,
    pub jump: Seq<char>,
    pub run: Seq<char>,
}

impl View for InputMap {
    type V = InputMapView;

    open spec fn view(&self) -> InputMapView {
        InputMapView {
            forward: self.forward@,
            backward: self.backward@,
            left: self.left@,
            right: self.right@,
            strafe_left: self.strafe_left@,
            strafe_right: self.strafe_right@,
            jump: self.jump@,
            run: self.run@,
        }
    }
}

/// The key name a role is bound to, or `None` for an unknown role.
pub open spec fn spec_role_binding(m: InputMapView, name: Seq<char>) -> Option<Seq<char>> {
    if name == "forward"@ {
        Some(m.forward)
    } else if name == "backward"@ {
        Some(m.backward)
    } else if name == "left"@ {
        Some(m.left)
    } else if name == "right"@ {
        Some(m.right)
    } else if name == "strafe_left"@ {
        Some(m.strafe_left)
    } else if name == "strafe_right"@ {
        Some(m.strafe_right)
    } else if name == "jump"@ {
        Some(m.jump)
    } else if name == "run"@ {
        Some(m.run)
    } else {
        None
    }
}

/// The key a name denotes, or `None` for a name outside the supported set.
pub open spec fn spec_parse_key(s: Seq<char>) -> Option<KeyCode> {
    if s == "KeyW"@ || s == "W"@ {
        Some(KeyCode::KeyW)
    } else if s == "KeyA"@ || s == "A"@ {
        Some(KeyCode::KeyA)
    } else if s == "KeyS"@ || s == "S"@ {
        Some(KeyCode::KeyS)
    } else if s == "KeyD"@ || s == "D"@ {
        Some(KeyCode::KeyD)
    } else if s == "KeyQ"@ || s == "Q"@ {
        Some(KeyCode::KeyQ)
    } else if s == "KeyE"@ || s == "E"@ {
        Some(KeyCode::KeyE)
    } else if s == "Space"@ {
        Some(KeyCode::Space)
    } else if s == "ShiftLeft"@ {
        Some(KeyCode::ShiftLeft)
    } else if s == "ShiftRight"@ {
        Some(KeyCode::ShiftRight)
    } else {
        None
    }
}

/// The key bound to a role, resolved through `spec_parse_key`.
pub open spec fn spec_key(m: InputMapView, name: Seq<char>) -> Option<KeyCode> {
    match spec_role_binding(m, name) {
        Some(binding) => spec_parse_key(binding),
        None => None,
    }
}

impl InputMap {
    /// The key bound to the movement role `name`, or `None` when the role
    /// is unknown or its binding names no supported key.
    pub fn key(&self, name: &str) -> (r: Option<KeyCode>)
        ensures
            r == spec_key(self@, name@),
    {
        let s: &String = if str_eq(name, "forward") {
            &self.forward
        } else if str_eq(name, "backward") {
            &self.backward
        } else if str_eq(name, "left") {
            &self.left
        } else if str_eq(name, "right") {
            &self.right
        } else if str_eq(name, "strafe_left") {
            &self.strafe_left
        } else if str_eq(name, "strafe_right") {
            &self.strafe_right
        } else if str_eq(name, "jump") {
            &self.jump
        } else if str_eq(name, "run") {
            &self.run
        } else {
            return None;
        };
        Self::parse_key(s.as_str())
    }

    /// The key a name denotes, or `None` for a name outside the supported
    /// set.  Unknown names are not an error: the binding is simply inert.
    pub fn parse_key(s: &str) -> (r: Option<KeyCode>)
        ensures
            r == spec_parse_key(s@),
    {
        if str_eq(s, "KeyW") || str_eq(s, "W") {
            Some(KeyCode::KeyW)
        } else if str_eq(s, "KeyA") || str_eq(s, "A") {
            Some(KeyCode::KeyA)
        } else if str_eq(s, "KeyS") || str_eq(s, "S") {
            Some(KeyCode::KeyS)
        } else if str_eq(s, "KeyD") || str_eq(s, "D") {
            Some(KeyCode::KeyD)
        } else if str_eq(s, "KeyQ") || str_eq(s, "Q") {
            Some(KeyCode::KeyQ)
        } else if str_eq(s, "KeyE") || str_eq(s, "E") {
            Some(KeyCode::KeyE)
        } else if str_eq(s, "Space") {
            Some(KeyCode::Space)
        } else if str_eq(s, "ShiftLeft") {
            Some(KeyCode::ShiftLeft)
        } else if str_eq(s, "ShiftRight") {
            Some(KeyCode::ShiftRight)
        } else {
            None
        }
    }

    /// A deep copy whose view equals this one's.
    pub fn duplicate(&self) -> (r: Self)
        ensures
            r@ == self@,
    {
        InputMap {
            forward: self.forward.clone(),
            backward: self.backward.clone(),
            left: self.left.clone(),
            right: self.right.clone(),
            strafe_left: self.strafe_left.clone(),
            strafe_right: self.strafe_right.clone(),
            jump: self.jump.clone(),
            run: self.run.clone(),
        }
    }
}

/// The symbolic clip name bound to each animation the player can play.
#[derive(Debug, Clone, PartialEq, Eq)]
pub struct AnimationMap {
    pub idle: String,
    pub walk: String,
    pub run: String,
    pub jump_enter: String,
    pub jump_loop: String,
    pub jump_exit: String,
    pub death: String,
    pub dance: String,
    pub crouch_idle: String,
    pub crouch_forward: String,
    pub roll: String,
}

pub ghost struct AnimationMapView {
    pub idle: Seq<char>,
    pub walk: Seq<char>,
    pub run: Seq<char>,
    pub jump_enter: Seq<char>,
    pub jump_loop: Seq<char>,
    pub jump_exit: Seq<char>,
    pub death: Seq<char>,
    pub dance: Seq<char>,
    pub crouch_idle: Seq<char>,
    pub crouch_forward: Seq<char>,
    pub roll: Seq<char>,
}

impl View for AnimationMap {
    type V = AnimationMapView;

    open spec fn view(&self) -> AnimationMapView {
        AnimationMapView {
            idle: self.idle@,
            walk: self.walk@,
            run: self.run@,
            jump_enter: self.jump_enter@,
            jump_loop: self.jump_loop@,
            jump_exit: self.jump_exit@,
            death: self.death@,
            dance: self.dance@,
            crouch_idle: self.crouch_idle@,
            crouch_forward: self.crouch_forward@,
            roll: self.roll@,
        }
    }
}

impl AnimationMap {
    /// A deep copy whose view equals this one's.
    pub fn duplicate(&self) -> (r: Self)
        ensures
            r@ == self@,
    {
        AnimationMap {
            idle: self.idle.clone(),
            walk: self.walk.clone(),
            run: self.run.clone(),
            jump_enter: self.jump_enter.clone(),
            jump_loop: self.jump_loop.clone(),
            jump_exit: self.jump_exit.clone(),
            death: self.death.clone(),
            dance: self.dance.clone(),
            crouch_idle: self.crouch_idle.clone(),
            crouch_forward: self.crouch_forward.clone(),
            roll: self.roll.clone(),
        }
    }
}

/// The player a scene declares: a model to spawn, key bindings and
/// animation-clip bindings.  Spawn pose and camera tuning are host data.
#[derive(Debug, Clone, PartialEq, Eq)]
pub struct PlayerConfig {
    pub model_path: String,
    pub inputs: InputMap,
    pub animations: AnimationMap,
}

pub ghost struct PlayerConfigView {
    pub model_path: Seq<char>,
    pub inputs: InputMapView,
    pub animations: AnimationMapView,
}

impl View for PlayerConfig {
    type V = PlayerConfigView;

    open spec fn view(&self) -> PlayerConfigView {
        PlayerConfigView {
            model_path: self.model_path@,
            inputs: self.inputs@,
            animations: self.animations@,
        }
    }
}

/// The views of a list of declared UI elements.
pub open spec fn spec_ui_view(es: Seq<UiElement>) -> Seq<UiElementView> {
    es.map_values(|e: UiElement| e@)
}

/// The views of a list of model placements.
pub open spec fn spec_models_view(ms: Seq<ModelInfo>) -> Seq<ModelInfoView> {
    ms.map_values(|m: ModelInfo| m@)
}

/// A scene descriptor: an immutable snapshot of what the scene spawns.
#[derive(Debug, Clone, PartialEq, Eq)]
pub struct GameLevel {
    pub models: Vec<ModelInfo>,
    pub ui: Vec<UiElement>,
    pub player: Option<PlayerConfig>,
}

pub ghost struct GameLevelView {
    pub models: Seq<ModelInfoView>,
    pub ui: Seq<UiElementView>,
    pub player: Option<PlayerConfigView>,
}

impl View for GameLevel {
    type V = GameLevelView;

    open spec fn view(&self) -> GameLevelView {
        GameLevelView {
            models: spec_models_view(self.models@),
            ui: spec_ui_view(self.ui@),
            player: match self.player {
                Some(p) => Some(p@),
                None => None,
            },
        }
    }
}

} // verus!
