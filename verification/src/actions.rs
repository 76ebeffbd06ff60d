//! The decoupled action pipeline: UI events become queued intents, and the
//! queue is drained by the executor once per tick.

use vstd::prelude::*;

verus! {

/// A queued intent to change scene, decoupled from whatever triggered it.
#[derive(Debug, Clone, PartialEq, Eq)]
pub enum Action {
    LoadScene(String),
}

pub ghost enum ActionView {
    LoadScene(Seq<char>),
}

impl View for Action {
    type V = ActionView;

    open spec fn view(&self) -> ActionView {
        match self {
            Action::LoadScene(path) => ActionView::LoadScene(path@),
        }
    }
}

impl ActionView {
    /// The scene path an action asks to load.
    pub open spec fn path(self) -> Seq<char> {
        match self {
            ActionView::LoadScene(path) => path,
        }
    }
}

/// A UI-originated event, delivered through a single-tick channel.
#[derive(Debug, Clone, PartialEq, Eq)]
pub enum UiMessage {
    ButtonPressed(String),
}

pub ghost enum UiMessageView {
    ButtonPressed(Seq<char>),
}

impl View for UiMessage {
    type V = UiMessageView;

    open spec fn view(&self) -> UiMessageView {
        match self {
            UiMessage::ButtonPressed(path) => UiMessageView::ButtonPressed(path@),
        }
    }
}

/// The views of a list of UI messages.
pub open spec fn spec_messages_view(msgs: Seq<UiMessage>) -> Seq<UiMessageView> {
    msgs.map_values(|m: UiMessage| m@)
}

/// The scene paths a queue's actions ask for, in queue order.
pub open spec fn spec_queue_paths(q: Seq<ActionView>) -> Seq<Seq<char>> {
    q.map_values(|a: ActionView| a.path())
}

/// The zero-or-one action a UI message translates to.  Every message kind
/// currently yields one action.
pub open spec fn spec_interpret(m: UiMessageView) -> ActionView {
    match m {
        UiMessageView::ButtonPressed(path) => ActionView::LoadScene(path),
    }
}

/// The actions a whole batch of UI messages translates to, in arrival
/// order.
pub open spec fn spec_interpreted(msgs: Seq<UiMessageView>) -> Seq<ActionView> {
    msgs.map_values(|m: UiMessageView| spec_interpret(m))
}

/// The action a single UI message translates to.
pub fn interpret_message(m: &UiMessage) -> (r: Action)
    ensures
        r@ == spec_interpret(m@),
{
    match m {
        UiMessage::ButtonPressed(path) => Action::LoadScene(path.clone()),
    }
}

/// The process-wide buffer of pending intents.  Push appends; pop removes
/// the most recent entry: of several intents queued within one tick the
/// latest is executed first.
#[derive(Debug, Clone, PartialEq, Eq, Default)]
pub struct ActionQueue(pub Vec<Action>);

impl View for ActionQueue {
    type V = Seq<ActionView>;

    open spec fn view(&self) -> Seq<ActionView> {
        self.0@.map_values(|a: Action| a@)
    }
}

impl ActionQueue {
    /// An empty queue.
    pub fn new() -> (r: Self)
        ensures
            r@ == Seq::<ActionView>::empty(),
    {
        let q = ActionQueue(Vec::new());
        proof {
            assert(q@ =~= Seq::<ActionView>::empty());
        }
        q
    }

    /// Appends an intent.
    pub fn push(&mut self, action: Action)
        ensures
            final(self)@ == old(self)@.push(action@),
    {
        let ghost prev = self@;
        self.0.push(action);
        proof {
            assert(final(self)@ =~= prev.push(action@));
        }
    }

    /// Removes and returns the most recently queued intent, if any.
    pub fn pop(&mut self) -> (r: Option<Action>)
        ensures
            old(self)@.len() == 0 ==> r is None && final(self)@ == old(self)@,
            old(self)@.len() > 0 ==> {
                &&& r matches Some(a) && a@ == old(self)@.last()
                &&& final(self)@ == old(self)@.drop_last()
            },
    {
        let ghost prev = self@;
        let r = self.0.pop();
        proof {
            if prev.len() > 0 {
                assert(final(self)@ =~= prev.drop_last());
            }
        }
        r
    }

    /// How many intents are pending.
    pub fn len(&self) -> (n: usize)
        ensures
            n == self@.len(),
    {
        self.0.len()
    }
}

} // verus!
