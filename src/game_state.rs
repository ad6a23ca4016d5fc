use vstd::prelude::*;

verus! {

/// The states of the application. The active configuration is a stack of
/// them; the top one runs.
#[derive(Debug, Clone, Copy, PartialEq, Eq, Structural, Hash)]
pub enum GameState {
    GameOver,
    MainGameLoop,
    StartMenu,
    PauseMenu,
}

/// The push edges: the main loop lays the pause menu or the game-over
/// screen over itself.
pub open spec fn push_edge(from: GameState, to: GameState) -> bool {
    from == GameState::MainGameLoop && (to == GameState::PauseMenu || to == GameState::GameOver)
}

/// The replace edges: the start menu and the game-over screen lead into a
/// fresh main loop.
pub open spec fn replace_edge(from: GameState, to: GameState) -> bool {
    (from == GameState::StartMenu || from == GameState::GameOver) && to == GameState::MainGameLoop
}

/// Whether the transition table lets `to` be pushed over `from`.
pub fn can_push(from: GameState, to: GameState) -> (r: bool)
    ensures
        r == push_edge(from, to),
{
    match (from, to) {
        (GameState::MainGameLoop, GameState::PauseMenu) => true,
        (GameState::MainGameLoop, GameState::GameOver) => true,
        _ => false,
    }
}

/// Whether the transition table lets `to` replace `from`.
pub fn can_replace(from: GameState, to: GameState) -> (r: bool)
    ensures
        r == replace_edge(from, to),
{
    match (from, to) {
        (GameState::StartMenu, GameState::MainGameLoop) => true,
        (GameState::GameOver, GameState::MainGameLoop) => true,
        _ => false,
    }
}

/// A defect in the use of the state stack.
#[derive(Debug, Clone, Copy, PartialEq, Eq, Structural)]
pub enum StateError {
    /// A pop would leave no active state.
    StackEmpty,
    /// The transition table has no edge from the active state to the target.
    InvalidTransition,
}

/// The tag of an entity: the state whose exit destroys it.
#[derive(Debug, Clone, Copy, PartialEq, Eq)]
pub struct CleanUp<T> {
    pub state: T,
}

impl<T> CleanUp<T> {
    pub fn new(state: T) -> (r: Self)
        ensures
            r.state == state,
    {
        CleanUp { state }
    }
}

/// An entity that carries a [`CleanUp`] tag.
pub trait Tagged: Sized {
    spec fn tag_of(&self) -> GameState;

    fn tag_state(&self) -> (r: GameState)
        ensures
            r == self.tag_of(),
    ;
}

/// The entities that outlive the exit of `state`: those tagged otherwise.
pub open spec fn survives<T: Tagged>(state: GameState) -> spec_fn(T) -> bool {
    |x: T| x.tag_of() != state
}

/// Destroys every entity tagged with `state`, keeping the others in order.
pub fn clean_up<T: Tagged>(items: &mut Vec<T>, state: GameState)
    ensures
        final(items)@ == old(items)@.filter(survives::<T>(state)),
{
    let ghost all = items@;
    let mut kept: Vec<T> = Vec::new();
    let ghost mut i: int = 0;
    while items.len() > 0
        invariant
            0 <= i <= all.len(),
            items@ == all.subrange(i, all.len() as int),
            kept@ == all.take(i).filter(survives::<T>(state)),
        decreases items.len(),
    {
        let x = items.remove(0);
        proof {
            assert(all.take(i + 1).drop_last() =~= all.take(i));
            assert(all.take(i + 1).last() == x);
            reveal(Seq::filter);
        }
        if x.tag_state() != state {
            kept.push(x);
        }
        proof {
            i = i + 1;
            assert(items@ =~= all.subrange(i, all.len() as int));
        }
    }
    proof {
        assert(all.take(all.len() as int) =~= all);
    }
    *items = kept;
}

/// An exit of `state` keeps a sequence none of whose entities it tags.
pub proof fn lemma_clean_up_untagged<T: Tagged>(items: Seq<T>, state: GameState)
    requires
        forall|k: int| 0 <= k < items.len() ==> (#[trigger] items[k]).tag_of() != state,
    ensures
        items.filter(survives::<T>(state)) == items,
    decreases items.len(),
{
    reveal(Seq::filter);
    if items.len() > 0 {
        lemma_clean_up_untagged(items.drop_last(), state);
        assert(items.drop_last().push(items.last()) =~= items);
    }
}

/// An exit of `state` destroys a sequence all of whose entities it tags.
pub proof fn lemma_clean_up_tagged<T: Tagged>(items: Seq<T>, state: GameState)
    requires
        forall|k: int| 0 <= k < items.len() ==> (#[trigger] items[k]).tag_of() == state,
    ensures
        items.filter(survives::<T>(state)).len() == 0,
    decreases items.len(),
{
    reveal(Seq::filter);
    if items.len() > 0 {
        lemma_clean_up_tagged(items.drop_last(), state);
    }
}

/// Every entity of `items` carries the tag of a state on `stack`.
pub open spec fn tagged_in<T: Tagged>(items: Seq<T>, stack: Seq<GameState>) -> bool {
    forall|k: int| 0 <= k < items.len() ==> stack.contains(#[trigger] items[k].tag_of())
}

/// Exiting the top state of `stack` leaves only entities tagged with a state
/// below it.
pub proof fn lemma_exit_top<T: Tagged>(items: Seq<T>, stack: Seq<GameState>)
    requires
        tagged_in(items, stack),
        stack.len() > 0,
    ensures
        tagged_in(items.filter(survives::<T>(stack.last())), stack.drop_last()),
{
    let pred = survives::<T>(stack.last());
    let f = items.filter(pred);
    assert forall|k: int| 0 <= k < f.len() implies stack.drop_last().contains(
        #[trigger] f[k].tag_of(),
    ) by {
        items.lemma_filter_pred(pred, k);
        assert(f.contains(f[k]));
        items.lemma_filter_contains_rev(pred, f[k]);
        let j = choose|j: int| 0 <= j < items.len() && items[j] == f[k];
        assert(stack.contains(items[j].tag_of()));
        let i = choose|i: int| 0 <= i < stack.len() && stack[i] == f[k].tag_of();
        assert(i != stack.len() - 1);
        assert(stack.drop_last()[i] == f[k].tag_of());
    }
}

/// A push keeps every tag live.
pub proof fn lemma_push_keeps_tags<T: Tagged>(items: Seq<T>, stack: Seq<GameState>, s: GameState)
    requires
        tagged_in(items, stack),
    ensures
        tagged_in(items, stack.push(s)),
{
    assert forall|k: int| 0 <= k < items.len() implies stack.push(s).contains(
        #[trigger] items[k].tag_of(),
    ) by {
        let i = choose|i: int| 0 <= i < stack.len() && stack[i] == items[k].tag_of();
        assert(stack.push(s)[i] == items[k].tag_of());
    }
}

/// No entity carries the tag of a state on an empty stack.
pub proof fn lemma_no_live_tags<T: Tagged>(items: Seq<T>)
    requires
        tagged_in(items, Seq::<GameState>::empty()),
    ensures
        items.len() == 0,
{
    if items.len() > 0 {
        assert(Seq::<GameState>::empty().contains(items[0].tag_of()));
    }
}

} // verus!
