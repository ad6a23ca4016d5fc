use rand::Rng;
use vstd::prelude::*;

use crate::arena::{in_any_arena, in_arena, Arena, ARENA_HEIGHT, ARENA_WIDTH};
use crate::game_loop::{
    all_dead, all_snakes_dead, collect_food, collected, despawn_food, grow_snake, hits,
    kill_snake_hitting_tail, kill_snake_outside_arena, lemma_collected_len, meals, next_tail,
    next_tail_len, on_some_tail, pick_direction, same_but_dead, same_but_heading, same_but_length,
    spec_pick, steered,
    track_score, uneaten, CollectEvent, Food, SnakeHead,
};
use crate::game_state::{
    can_push, can_replace, clean_up, lemma_clean_up_tagged, lemma_clean_up_untagged,
    lemma_exit_top, lemma_no_live_tags, lemma_push_keeps_tags, push_edge, replace_edge, survives,
    tagged_in, CleanUp, GameState, StateError, Tagged,
};
use crate::primitives::{spec_add, sum_fits, unit, Direction, Position, Rec};

verus! {

/// What a non-simulation entity shows.
#[derive(Debug, Clone, Copy, PartialEq, Eq, Structural)]
pub enum WidgetKind {
    StartText,
    PausedText,
    GameOverText,
    /// A translucent sheet laid over the board.
    Shade,
    ScoreBoard,
}

/// A display entity of a state: a caption, a shade or the score board.
#[derive(Debug, Clone, Copy, PartialEq, Eq)]
pub struct Widget {
    pub id: u64,
    pub kind: WidgetKind,
    pub tag: CleanUp<GameState>,
}

impl Tagged for Widget {
    open spec fn tag_of(&self) -> GameState {
        self.tag.state
    }

    fn tag_state(&self) -> (r: GameState) {
        self.tag.state
    }
}

pub open spec fn widget(id: int, kind: WidgetKind, state: GameState) -> Widget {
    Widget { id: id as u64, kind, tag: CleanUp { state } }
}

/// The display entities that entering `s` spawns, the first with id `id`.
pub open spec fn enter_widgets(s: GameState, id: int) -> Seq<Widget> {
    match s {
        GameState::StartMenu => seq![widget(id, WidgetKind::StartText, s)],
        GameState::MainGameLoop => seq![widget(id + 2, WidgetKind::ScoreBoard, s)],
        GameState::PauseMenu => seq![
            widget(id, WidgetKind::PausedText, s),
            widget(id + 1, WidgetKind::Shade, s),
        ],
        GameState::GameOver => seq![
            widget(id, WidgetKind::GameOverText, s),
            widget(id + 1, WidgetKind::Shade, s),
        ],
    }
}

/// The number of ids that entering `s` uses.
pub open spec fn enter_ids(s: GameState) -> int {
    match s {
        GameState::StartMenu => 1,
        GameState::MainGameLoop => 3,
        GameState::PauseMenu => 2,
        GameState::GameOver => 2,
    }
}

/// The arena that entering the main loop spawns.
pub open spec fn main_arena(id: int) -> Arena {
    Arena {
        id: id as u64,
        position: Position { x: 0, y: 0 },
        rec: Rec { width: ARENA_WIDTH, height: ARENA_HEIGHT },
        tag: CleanUp { state: GameState::MainGameLoop },
    }
}

/// A snake as spawned on entering the main loop.
pub open spec fn fresh_snake(s: SnakeHead, id: int) -> bool {
    &&& s.id == id
    &&& s.position == Position { x: 0, y: 0 }
    &&& s.last_position == Position { x: 0, y: 0 }
    &&& s.direction == Direction::Right
    &&& s.heading == Direction::Right
    &&& s.tail@.len() == 0
    &&& s.length == 0
    &&& !s.dead
    &&& s.tag.state == GameState::MainGameLoop
}

/// A snake whose tail has not outgrown its length.
pub open spec fn snake_wf(s: SnakeHead) -> bool {
    s.tail@.len() <= s.length
}

/// The shapes of the stack that the transitions reach: the start menu, the
/// main loop, or the main loop under the pause menu or the game-over screen.
pub open spec fn valid_stack(stack: Seq<GameState>) -> bool {
    ||| stack == seq![GameState::StartMenu]
    ||| stack == seq![GameState::MainGameLoop]
    ||| stack == seq![GameState::MainGameLoop, GameState::PauseMenu]
    ||| stack == seq![GameState::MainGameLoop, GameState::GameOver]
}

/// What one frame hands to the simulation: the keys (confirm, pause and the
/// four directions) and whether the tick clock fired.
#[derive(Debug, Default, Clone, Copy, PartialEq, Eq, Structural)]
pub struct FrameInput {
    pub confirm: bool,
    pub pause: bool,
    pub left: bool,
    pub down: bool,
    pub up: bool,
    pub right: bool,
    pub fired: bool,
}

/// The direction that the keys of `input` ask for.
pub open spec fn requested(input: FrameInput) -> Option<Direction> {
    spec_pick(input.left, input.down, input.up, input.right)
}

/// The whole simulation: the state stack and every live entity, each tagged
/// with the state whose exit destroys it.
pub struct World {
    /// The state stack; its last entry is the active state.
    pub stack: Vec<GameState>,
    pub snakes: Vec<SnakeHead>,
    pub foods: Vec<Food>,
    pub arenas: Vec<Arena>,
    pub widgets: Vec<Widget>,
    pub score: usize,
    /// The score that the score board shows.
    pub shown_score: Option<usize>,
    /// The id that the next spawned entity gets.
    pub next_id: u64,
}

impl World {
    /// The active state.
    pub open spec fn top(&self) -> GameState {
        self.stack@.last()
    }

    /// The stack has one of the shapes that the transitions reach, every
    /// entity carries the tag of a state on it, there is at most one piece of
    /// food, and no tail is longer than its snake's length.
    pub open spec fn wf(&self) -> bool {
        &&& valid_stack(self.stack@)
        &&& self.tags_live()
        &&& self.foods@.len() <= 1
        &&& forall|j: int| 0 <= j < self.snakes@.len() ==> #[trigger] snake_wf(self.snakes@[j])
    }

    /// Every entity carries the tag of a state on the stack.
    pub open spec fn tags_live(&self) -> bool {
        &&& tagged_in(self.snakes@, self.stack@)
        &&& tagged_in(self.foods@, self.stack@)
        &&& tagged_in(self.arenas@, self.stack@)
        &&& tagged_in(self.widgets@, self.stack@)
    }

    /// Room for `n` more entity ids.
    pub open spec fn id_room(&self, n: int) -> bool {
        self.next_id + n <= u64::MAX
    }

    /// `post` is what entering `s` makes of entities `snakes`, `foods`,
    /// `arenas`, `widgets`, score `score`, shown score `shown` and next id
    /// `id`: entering the main loop spawns a snake, an arena and the score
    /// board and resets the score; entering a menu spawns its display.
    pub open spec fn entered(
        post: &World,
        s: GameState,
        snakes: Seq<SnakeHead>,
        foods: Seq<Food>,
        arenas: Seq<Arena>,
        widgets: Seq<Widget>,
        score: usize,
        shown: Option<usize>,
        id: u64,
    ) -> bool {
        &&& post.widgets@ == widgets + enter_widgets(s, id as int)
        &&& post.next_id == id + enter_ids(s)
        &&& post.foods@ == foods
        &&& if s == GameState::MainGameLoop {
            &&& post.snakes@.len() == snakes.len() + 1
            &&& post.snakes@.take(snakes.len() as int) == snakes
            &&& fresh_snake(post.snakes@.last(), id as int)
            &&& post.arenas@ == arenas.push(main_arena(id + 1))
            &&& post.score == 0
            &&& post.shown_score == Some(0usize)
        } else {
            &&& post.snakes@ == snakes
            &&& post.arenas@ == arenas
            &&& post.score == score
            &&& post.shown_score == shown
        }
    }

    /// The entities that survive the exit of `s` are kept, in order; the
    /// rest are destroyed.
    pub open spec fn cleaned(post: &World, pre: &World, s: GameState) -> bool {
        &&& post.snakes@ == pre.snakes@.filter(survives::<SnakeHead>(s))
        &&& post.foods@ == pre.foods@.filter(survives::<Food>(s))
        &&& post.arenas@ == pre.arenas@.filter(survives::<Arena>(s))
        &&& post.widgets@ == pre.widgets@.filter(survives::<Widget>(s))
        &&& post.score == pre.score
        &&& post.shown_score == pre.shown_score
        &&& post.next_id == pre.next_id
    }

    /// `post` is `pre` with `s` pushed and entered.
    pub open spec fn pushed(post: &World, pre: &World, s: GameState) -> bool {
        &&& post.stack@ == pre.stack@.push(s)
        &&& World::entered(
            post,
            s,
            pre.snakes@,
            pre.foods@,
            pre.arenas@,
            pre.widgets@,
            pre.score,
            pre.shown_score,
            pre.next_id,
        )
    }

    /// `post` is `pre` with its active state exited and popped.
    pub open spec fn popped(post: &World, pre: &World) -> bool {
        &&& post.stack@ == pre.stack@.drop_last()
        &&& World::cleaned(post, pre, pre.top())
    }

    /// `post` is `pre` with the whole stack replaced by `s`: every state on
    /// it exited, so that no entity of `pre` is left, and `s` entered.
    pub open spec fn replaced(post: &World, pre: &World, s: GameState) -> bool {
        &&& post.stack@ == seq![s]
        &&& World::entered(
            post,
            s,
            Seq::empty(),
            Seq::empty(),
            Seq::empty(),
            Seq::empty(),
            pre.score,
            pre.shown_score,
            pre.next_id,
        )
    }

    /// The room that a tick needs: ids for the new segments and the
    /// game-over display, counters that can take one more per snake, and a
    /// unit step that fits for every head.
    pub open spec fn tick_room(&self) -> bool {
        &&& self.id_room(self.snakes@.len() as int + 2)
        &&& self.score + self.snakes@.len() <= usize::MAX
        &&& forall|j: int|
            0 <= j < self.snakes@.len() ==> sum_fits(
                #[trigger] self.snakes@[j].position,
                unit(self.snakes@[j].heading),
            )
        &&& forall|j: int|
            0 <= j < self.snakes@.len() ==> #[trigger] self.snakes@[j].length
                + self.snakes@.len() <= usize::MAX
    }

    /// `post` is `pre` after one fired tick with the events `events`.
    pub open spec fn ticked_world(post: &World, pre: &World, events: Seq<CollectEvent>) -> bool {
        &&& events == collected(pre.foods@, post.snakes@)
        &&& post.snakes@.len() == pre.snakes@.len()
        &&& forall|j: int|
            0 <= j < pre.snakes@.len() ==> ticked(
                #[trigger] post.snakes@[j],
                pre.snakes@[j],
                pre.next_id + j,
                events,
                pre.arenas@,
                post.snakes@,
            )
        &&& post.foods@ == uneaten(pre.foods@, events)
        &&& post.score == pre.score + events.len()
        &&& post.arenas@ == pre.arenas@
        &&& post.shown_score == pre.shown_score
        &&& all_dead(post.snakes@) ==> post.stack@ == pre.stack@.push(GameState::GameOver)
            && post.widgets@ == pre.widgets@ + enter_widgets(
            GameState::GameOver,
            pre.next_id + pre.snakes@.len(),
        ) && post.next_id == pre.next_id + pre.snakes@.len() + 2
        &&& !all_dead(post.snakes@) ==> post.stack@ == pre.stack@ && post.widgets@
            == pre.widgets@ && post.next_id == pre.next_id + pre.snakes@.len()
    }

    /// `post` is `pre` with every snake steered by `request`.
    pub open spec fn steered_all(post: &World, pre: &World, request: Option<Direction>) -> bool {
        &&& post.snakes@.len() == pre.snakes@.len()
        &&& forall|j: int|
            0 <= j < pre.snakes@.len() ==> {
                &&& post.snakes@[j].heading == steered(
                    pre.snakes@[j].direction,
                    pre.snakes@[j].heading,
                    request,
                )
                &&& same_but_heading(
                    #[trigger] post.snakes@[j],
                    pre.snakes@[j],
                )
            }
        &&& post.stack@ == pre.stack@
        &&& post.foods@ == pre.foods@
        &&& post.arenas@ == pre.arenas@
        &&& post.widgets@ == pre.widgets@
        &&& post.score == pre.score
        &&& post.shown_score == pre.shown_score
        &&& post.next_id == pre.next_id
    }

    /// `post` is `pre` after the food spawner ran: a piece of food on a cell
    /// inside the arena where there was none, nothing otherwise.
    pub open spec fn apple_spawned(post: &World, pre: &World) -> bool {
        &&& pre.foods@.len() == 0 ==> post.foods@.len() == 1 && post.foods@[0].id
            == pre.next_id && post.foods@[0].tag.state == pre.top()
            && in_arena(main_arena(0), post.foods@[0].position) && post.next_id
            == pre.next_id + 1
        &&& pre.foods@.len() != 0 ==> post.foods@ == pre.foods@ && post.next_id
            == pre.next_id
        &&& post.stack@ == pre.stack@
        &&& post.snakes@ == pre.snakes@
        &&& post.arenas@ == pre.arenas@
        &&& post.widgets@ == pre.widgets@
        &&& post.score == pre.score
        &&& post.shown_score == pre.shown_score
    }

    /// `post` is `pre` after one frame of the main loop, through `a` (every
    /// snake steered by the keys), `b` (one tick with the events `events`
    /// where the clock fired, else `a` itself) and `c` (the food spawner run
    /// where the main loop is still active): the pause key then pushes the
    /// pause menu.
    pub open spec fn main_frame(
        post: &World,
        pre: &World,
        input: FrameInput,
        a: World,
        b: World,
        c: World,
        events: Seq<CollectEvent>,
    ) -> bool {
        &&& World::steered_all(&a, pre, requested(input))
        &&& if input.fired {
            World::ticked_world(&b, &a, events)
        } else {
            World::same(&b, &a)
        }
        &&& if b.top() == GameState::MainGameLoop {
            &&& World::apple_spawned(&c, &b)
            &&& input.pause ==> World::pushed(post, &c, GameState::PauseMenu)
            &&& !input.pause ==> World::same(post, &c)
        } else {
            World::same(post, &b)
        }
    }

    /// The room that a frame needs: ids for a tick, a piece of food and the
    /// pause display, and, where a tick may run, counters with room for it
    /// and a step that fits for every head once the keys have steered it.
    pub open spec fn frame_room(&self, input: FrameInput) -> bool {
        &&& self.id_room(self.snakes@.len() as int + 5)
        &&& self.top() == GameState::MainGameLoop && input.fired ==> {
            &&& self.score + self.snakes@.len() <= usize::MAX
            &&& forall|j: int|
                0 <= j < self.snakes@.len() ==> #[trigger] self.snakes@[j].length
                    + self.snakes@.len() <= usize::MAX
            &&& forall|j: int|
                0 <= j < self.snakes@.len() ==> sum_fits(
                    #[trigger] self.snakes@[j].position,
                    unit(
                        steered(
                            self.snakes@[j].direction,
                            self.snakes@[j].heading,
                            requested(input),
                        ),
                    ),
                )
        }
    }

    /// All fields of `a` and `b` agree.
    pub open spec fn same(a: &World, b: &World) -> bool {
        &&& a.stack@ == b.stack@
        &&& a.snakes@ == b.snakes@
        &&& a.foods@ == b.foods@
        &&& a.arenas@ == b.arenas@
        &&& a.widgets@ == b.widgets@
        &&& a.score == b.score
        &&& a.shown_score == b.shown_score
        &&& a.next_id == b.next_id
    }

    /// Runs the enter systems of `s`.
    fn enter(&mut self, s: GameState)
        requires
            old(self).id_room(enter_ids(s)),
        ensures
            World::entered(
                final(self),
                s,
                old(self).snakes@,
                old(self).foods@,
                old(self).arenas@,
                old(self).widgets@,
                old(self).score,
                old(self).shown_score,
                old(self).next_id,
            ),
            final(self).stack@ == old(self).stack@,
            forall|j: int|
                0 <= j < old(self).snakes@.len() ==> #[trigger] final(self).snakes@[j]
                    == old(self).snakes@[j],
    {
        let id = self.next_id;
        match s {
            GameState::StartMenu => {
                self.widgets.push(
                    Widget { id, kind: WidgetKind::StartText, tag: CleanUp::new(s) },
                );
                self.next_id = id + 1;
            },
            GameState::MainGameLoop => {
                self.spawn_snake(id);
                self.next_id = id + 1;
                self.spawn_arena();
                self.widgets.push(
                    Widget { id: id + 2, kind: WidgetKind::ScoreBoard, tag: CleanUp::new(s) },
                );
                self.reset_score();
                self.next_id = id + 3;
            },
            GameState::PauseMenu => {
                self.widgets.push(
                    Widget { id, kind: WidgetKind::PausedText, tag: CleanUp::new(s) },
                );
                self.widgets.push(
                    Widget { id: id + 1, kind: WidgetKind::Shade, tag: CleanUp::new(s) },
                );
                self.next_id = id + 2;
            },
            GameState::GameOver => {
                self.widgets.push(
                    Widget { id, kind: WidgetKind::GameOverText, tag: CleanUp::new(s) },
                );
                self.widgets.push(
                    Widget { id: id + 1, kind: WidgetKind::Shade, tag: CleanUp::new(s) },
                );
                self.next_id = id + 2;
            },
        }
        assert(self.widgets@ =~= old(self).widgets@ + enter_widgets(s, id as int));
        assert(self.snakes@.take(old(self).snakes@.len() as int) =~= old(self).snakes@);
    }

    fn spawn_snake(&mut self, id: u64)
        ensures
            final(self).snakes@.len() == old(self).snakes@.len() + 1,
            final(self).snakes@.take(old(self).snakes@.len() as int) == old(self).snakes@,
            fresh_snake(final(self).snakes@.last(), id as int),
            final(self).stack@ == old(self).stack@,
            final(self).foods@ == old(self).foods@,
            final(self).arenas@ == old(self).arenas@,
            final(self).widgets@ == old(self).widgets@,
            final(self).score == old(self).score,
            final(self).shown_score == old(self).shown_score,
            final(self).next_id == old(self).next_id,
    {
        self.snakes.push(SnakeHead::new(id, Position { x: 0, y: 0 }));
        assert(self.snakes@.take(old(self).snakes@.len() as int) =~= old(self).snakes@);
    }

    /// Spawns the arena, with the next id: a box of the arena's size centred
    /// on the origin, destroyed when the main loop exits.
    pub fn spawn_arena(&mut self)
        requires
            old(self).id_room(1),
        ensures
            old(self).wf() && old(self).top() == GameState::MainGameLoop ==> final(self).wf(),
            final(self).arenas@ == old(self).arenas@.push(main_arena(old(self).next_id as int)),
            final(self).next_id == old(self).next_id + 1,
            final(self).stack@ == old(self).stack@,
            final(self).snakes@ == old(self).snakes@,
            final(self).foods@ == old(self).foods@,
            final(self).widgets@ == old(self).widgets@,
            final(self).score == old(self).score,
            final(self).shown_score == old(self).shown_score,
    {
        let id = self.next_id;
        self.arenas.push(
            Arena {
                id,
                position: Position { x: 0, y: 0 },
                rec: Rec { width: ARENA_WIDTH, height: ARENA_HEIGHT },
                tag: CleanUp::new(GameState::MainGameLoop),
            },
        );
        self.next_id = id + 1;
        proof {
            if old(self).wf() && old(self).top() == GameState::MainGameLoop {
                let st = self.stack@;
                assert(st.contains(GameState::MainGameLoop)) by {
                    assert(st[st.len() - 1] == GameState::MainGameLoop);
                }
                assert forall|k: int| 0 <= k < self.arenas@.len() implies st.contains(
                    #[trigger] self.arenas@[k].tag_of(),
                ) by {
                    if k < old(self).arenas@.len() {
                        assert(self.arenas@[k] == old(self).arenas@[k]);
                    }
                }
            }
        }
    }

    /// Resets the score to 0; the score board shows it from its spawn.
    fn reset_score(&mut self)
        ensures
            final(self).score == 0,
            final(self).shown_score == Some(0usize),
            final(self).stack@ == old(self).stack@,
            final(self).snakes@ == old(self).snakes@,
            final(self).foods@ == old(self).foods@,
            final(self).arenas@ == old(self).arenas@,
            final(self).widgets@ == old(self).widgets@,
            final(self).next_id == old(self).next_id,
    {
        self.score = 0;
        self.shown_score = Some(0);
    }

    /// Runs the exit systems of `s`: destroys every entity tagged with it.
    fn exit(&mut self, s: GameState)
        ensures
            World::cleaned(final(self), old(self), s),
            final(self).stack@ == old(self).stack@,
    {
        clean_up(&mut self.snakes, s);
        clean_up(&mut self.foods, s);
        clean_up(&mut self.arenas, s);
        clean_up(&mut self.widgets, s);
    }
}

/// Relies on rand's `Rng::gen_range` over the thread-local generator: a value
/// drawn from the half-open range `low..high`.
#[verifier::external_body]
fn random_coordinate(low: i32, high: i32) -> (r: i32)
    requires
        low < high,
    ensures
        low <= r < high,
{
    rand::thread_rng().gen_range(low..high)
}

/// `post` is `pre` after one fired tick of movement, a grown segment taking
/// the id `fresh`.
pub open spec fn moved(post: SnakeHead, pre: SnakeHead, fresh: int) -> bool {
    &&& post.position == spec_add(pre.position, unit(pre.heading))
    &&& post.last_position == pre.position
    &&& post.direction == pre.heading
    &&& post.heading == pre.heading
    &&& post.tail@ == next_tail(pre.tail@, pre.position, pre.length as int, fresh as u64)
    &&& post.tail@.len() == next_tail_len(pre.tail@.len(), pre.length as nat)
    &&& post.id == pre.id
    &&& post.length == pre.length
    &&& post.dead == pre.dead
    &&& post.tag == pre.tag
}

/// `post` is `pre` after a whole tick: moved, grown by its meals among
/// `events`, and dead where it was, where no arena in `arenas` holds its new
/// head cell, or where a tail segment of a snake of `all` stands on it.
pub open spec fn ticked(
    post: SnakeHead,
    pre: SnakeHead,
    fresh: int,
    events: Seq<CollectEvent>,
    arenas: Seq<Arena>,
    all: Seq<SnakeHead>,
) -> bool {
    &&& post.position == spec_add(pre.position, unit(pre.heading))
    &&& post.last_position == pre.position
    &&& post.direction == pre.heading
    &&& post.heading == pre.heading
    &&& post.tail@ == next_tail(pre.tail@, pre.position, pre.length as int, fresh as u64)
    &&& post.id == pre.id
    &&& post.tag == pre.tag
    &&& post.length == pre.length + meals(events, pre.id)
    &&& post.dead == (pre.dead || !in_any_arena(arenas, post.position) || on_some_tail(
        all,
        post.position,
    ))
}

proof fn lemma_uneaten_len(foods: Seq<Food>, events: Seq<CollectEvent>)
    ensures
        uneaten(foods, events).len() <= foods.len(),
    decreases foods.len(),
{
    if foods.len() > 0 {
        lemma_uneaten_len(foods.drop_last(), events);
    }
}

proof fn lemma_uneaten_tags(foods: Seq<Food>, events: Seq<CollectEvent>, stack: Seq<GameState>)
    requires
        tagged_in(foods, stack),
    ensures
        tagged_in(uneaten(foods, events), stack),
    decreases foods.len(),
{
    if foods.len() > 0 {
        let rest = foods.drop_last();
        assert(tagged_in(rest, stack)) by {
            assert forall|k: int| 0 <= k < rest.len() implies stack.contains(#[trigger] rest[k].tag_of()) by {
                assert(rest[k] == foods[k]);
            }
        }
        lemma_uneaten_tags(rest, events, stack);
        assert(stack.contains(foods[foods.len() - 1].tag_of()));
    }
}

/// Snakes in `a` and `b` agree where detection looks: ids and head cells.
pub open spec fn same_heads(a: Seq<SnakeHead>, b: Seq<SnakeHead>) -> bool {
    &&& a.len() == b.len()
    &&& forall|j: int| 0 <= j < a.len() ==> #[trigger] a[j].id == b[j].id && a[j].position == b[j].position
}

/// Snakes in `a` and `b` have the same tails.
pub open spec fn same_tails(a: Seq<SnakeHead>, b: Seq<SnakeHead>) -> bool {
    &&& a.len() == b.len()
    &&& forall|j: int| 0 <= j < a.len() ==> #[trigger] a[j].tail@ == b[j].tail@
}

proof fn lemma_hits_heads(food: Food, a: Seq<SnakeHead>, b: Seq<SnakeHead>)
    requires
        same_heads(a, b),
    ensures
        hits(food, a) == hits(food, b),
    decreases a.len(),
{
    if a.len() > 0 {
        assert(same_heads(a.drop_last(), b.drop_last()));
        lemma_hits_heads(food, a.drop_last(), b.drop_last());
        assert(a.last().id == b.last().id && a.last().position == b.last().position);
    }
}

proof fn lemma_collected_heads(foods: Seq<Food>, a: Seq<SnakeHead>, b: Seq<SnakeHead>)
    requires
        same_heads(a, b),
    ensures
        collected(foods, a) == collected(foods, b),
    decreases foods.len(),
{
    if foods.len() > 0 {
        lemma_collected_heads(foods.drop_last(), a, b);
        lemma_hits_heads(foods.last(), a, b);
    }
}

proof fn lemma_tails(a: Seq<SnakeHead>, b: Seq<SnakeHead>, p: Position)
    requires
        same_tails(a, b),
    ensures
        on_some_tail(a, p) == on_some_tail(b, p),
{
    if on_some_tail(a, p) {
        let (j, k) = choose|j: int, k: int|
            0 <= j < a.len() && 0 <= k < a[j].tail@.len() && #[trigger] a[j].tail@[k].position == p;
        assert(b[j].tail@[k].position == p);
    }
    if on_some_tail(b, p) {
        let (j, k) = choose|j: int, k: int|
            0 <= j < b.len() && 0 <= k < b[j].tail@.len() && #[trigger] b[j].tail@[k].position == p;
        assert(a[j].tail@[k].position == p);
    }
}

/// Entering `s`, which is on `post`'s stack, keeps every tag live.
proof fn lemma_entered_tags(
    post: &World,
    s: GameState,
    snakes: Seq<SnakeHead>,
    foods: Seq<Food>,
    arenas: Seq<Arena>,
    widgets: Seq<Widget>,
    score: usize,
    shown: Option<usize>,
    id: u64,
)
    requires
        World::entered(post, s, snakes, foods, arenas, widgets, score, shown, id),
        post.stack@.contains(s),
        tagged_in(snakes, post.stack@),
        tagged_in(foods, post.stack@),
        tagged_in(arenas, post.stack@),
        tagged_in(widgets, post.stack@),
    ensures
        post.tags_live(),
{
    let st = post.stack@;
    let added = enter_widgets(s, id as int);
    assert forall|k: int| 0 <= k < post.widgets@.len() implies st.contains(
        #[trigger] post.widgets@[k].tag_of(),
    ) by {
        if k < widgets.len() {
            assert(post.widgets@[k] == widgets[k]);
        } else {
            assert(post.widgets@[k] == added[k - widgets.len()]);
        }
    }
    if s == GameState::MainGameLoop {
        assert forall|k: int| 0 <= k < post.snakes@.len() implies st.contains(
            #[trigger] post.snakes@[k].tag_of(),
        ) by {
            if k < snakes.len() {
                assert(post.snakes@[k] == post.snakes@.take(snakes.len() as int)[k]);
            }
        }
        assert forall|k: int| 0 <= k < post.arenas@.len() implies st.contains(
            #[trigger] post.arenas@[k].tag_of(),
        ) by {
            if k < arenas.len() {
                assert(post.arenas@[k] == arenas[k]);
            }
        }
    }
}

/// Entering a state keeps at most one piece of food and every tail within
/// its length.
proof fn lemma_entered_wf(
    post: &World,
    s: GameState,
    snakes: Seq<SnakeHead>,
    foods: Seq<Food>,
    arenas: Seq<Arena>,
    widgets: Seq<Widget>,
    score: usize,
    shown: Option<usize>,
    id: u64,
)
    requires
        World::entered(post, s, snakes, foods, arenas, widgets, score, shown, id),
        forall|j: int| 0 <= j < snakes.len() ==> #[trigger] snake_wf(snakes[j]),
    ensures
        forall|j: int| 0 <= j < post.snakes@.len() ==> #[trigger] snake_wf(post.snakes@[j]),
{
    if s == GameState::MainGameLoop {
        assert forall|j: int| 0 <= j < post.snakes@.len() implies #[trigger] snake_wf(post.snakes@[j]) by {
            if j < snakes.len() {
                assert(post.snakes@[j] == post.snakes@.take(snakes.len() as int)[j]);
            }
        }
    }
}

proof fn lemma_filter_wf(snakes: Seq<SnakeHead>, s: GameState)
    requires
        forall|j: int| 0 <= j < snakes.len() ==> #[trigger] snake_wf(snakes[j]),
    ensures
        forall|j: int|
            0 <= j < snakes.filter(survives::<SnakeHead>(s)).len() ==> #[trigger] snake_wf(
                snakes.filter(survives::<SnakeHead>(s))[j],
            ),
{
    let f = snakes.filter(survives::<SnakeHead>(s));
    assert forall|j: int| 0 <= j < f.len() implies #[trigger] snake_wf(f[j]) by {
        assert(f.contains(f[j]));
        snakes.lemma_filter_contains_rev(survives::<SnakeHead>(s), f[j]);
    }
}

impl World {
    /// A world in the start menu: the stack holds the start menu alone, whose
    /// caption is spawned; nothing else exists and the score is 0.
    pub fn new() -> (r: World)
        ensures
            r.wf(),
            r.stack@ == seq![GameState::StartMenu],
            r.snakes@.len() == 0,
            r.foods@.len() == 0,
            r.arenas@.len() == 0,
            r.widgets@ == enter_widgets(GameState::StartMenu, 0),
            r.score == 0,
            r.shown_score == Some(0usize),
            r.next_id == 1,
    {
        let mut w = World {
            stack: Vec::new(),
            snakes: Vec::new(),
            foods: Vec::new(),
            arenas: Vec::new(),
            widgets: Vec::new(),
            score: 0,
            shown_score: Some(0),
            next_id: 0,
        };
        w.stack.push(GameState::StartMenu);
        proof {
            assert(w.stack@[0] == GameState::StartMenu);
        }
        w.enter(GameState::StartMenu);
        proof {
            lemma_entered_tags(&w, GameState::StartMenu, Seq::empty(), Seq::empty(), Seq::empty(), Seq::empty(), 0, Some(0usize), 0);
        }
        assert(w.stack@ =~= seq![GameState::StartMenu]);
        assert(w.widgets@ =~= enter_widgets(GameState::StartMenu, 0));
        w
    }

    /// The active state.
    pub fn current(&self) -> (r: GameState)
        requires
            self.wf(),
        ensures
            r == self.top(),
    {
        self.stack[self.stack.len() - 1]
    }

    /// Pushes `s` over the active state, which keeps its entities, and enters
    /// `s`. Fails, changing nothing, where the transition table has no edge
    /// from the active state to `s`.
    pub fn push(&mut self, s: GameState) -> (r: Result<(), StateError>)
        requires
            old(self).wf(),
            old(self).id_room(enter_ids(s)),
        ensures
            final(self).wf(),
            r is Ok <==> push_edge(old(self).top(), s),
            r is Err ==> r == Err::<(), StateError>(StateError::InvalidTransition) && World::same(
                final(self),
                old(self),
            ),
            r is Ok ==> World::pushed(final(self), old(self), s),
    {
        let top = self.current();
        if !can_push(top, s) {
            return Err(StateError::InvalidTransition);
        }
        self.stack.push(s);
        proof {
            assert(self.stack@ =~= seq![GameState::MainGameLoop, s]);
            lemma_push_keeps_tags(old(self).snakes@, old(self).stack@, s);
            lemma_push_keeps_tags(old(self).foods@, old(self).stack@, s);
            lemma_push_keeps_tags(old(self).arenas@, old(self).stack@, s);
            lemma_push_keeps_tags(old(self).widgets@, old(self).stack@, s);
        }
        self.enter(s);
        proof {
            lemma_entered_tags(self, s, old(self).snakes@, old(self).foods@, old(self).arenas@, old(self).widgets@, old(self).score, old(self).shown_score, old(self).next_id);
            lemma_entered_wf(self, s, old(self).snakes@, old(self).foods@, old(self).arenas@, old(self).widgets@, old(self).score, old(self).shown_score, old(self).next_id);
        }
        Ok(())
    }

    /// Pops the active state, destroying its entities; the state below
    /// resumes without entering again. Fails, changing nothing, where that
    /// would leave no active state.
    pub fn pop(&mut self) -> (r: Result<(), StateError>)
        requires
            old(self).wf(),
        ensures
            final(self).wf(),
            r is Ok <==> old(self).stack@.len() > 1,
            r is Err ==> r == Err::<(), StateError>(StateError::StackEmpty) && World::same(
                final(self),
                old(self),
            ),
            r is Ok ==> World::popped(final(self), old(self)),
    {
        if self.stack.len() <= 1 {
            return Err(StateError::StackEmpty);
        }
        let top = self.current();
        self.exit(top);
        self.stack.pop();
        proof {
            lemma_filter_wf(old(self).snakes@, top);
            old(self).foods@.lemma_filter_len(survives::<Food>(top));
            lemma_exit_top(old(self).snakes@, old(self).stack@);
            lemma_exit_top(old(self).foods@, old(self).stack@);
            lemma_exit_top(old(self).arenas@, old(self).stack@);
            lemma_exit_top(old(self).widgets@, old(self).stack@);
            assert(self.stack@ =~= seq![GameState::MainGameLoop]);
        }
        Ok(())
    }

    /// Replaces the whole stack with `s`: exits every state on it from the
    /// top down, destroying all of their entities, then pushes `s` and
    /// enters it. Fails, changing nothing, where the transition table has no
    /// replace edge from the active state to `s`.
    pub fn replace(&mut self, s: GameState) -> (r: Result<(), StateError>)
        requires
            old(self).wf(),
            old(self).id_room(enter_ids(s)),
        ensures
            final(self).wf(),
            r is Ok <==> replace_edge(old(self).top(), s),
            r is Err ==> r == Err::<(), StateError>(StateError::InvalidTransition) && World::same(
                final(self),
                old(self),
            ),
            r is Ok ==> World::replaced(final(self), old(self), s),
    {
        let top = self.current();
        if !can_replace(top, s) {
            return Err(StateError::InvalidTransition);
        }
        self.collapse();
        self.stack.push(s);
        proof {
            assert(self.stack@ =~= seq![s]);
            assert(self.stack@[0] == s);
            assert(self.snakes@ =~= Seq::<SnakeHead>::empty());
            assert(self.foods@ =~= Seq::<Food>::empty());
            assert(self.arenas@ =~= Seq::<Arena>::empty());
            assert(self.widgets@ =~= Seq::<Widget>::empty());
        }
        self.enter(s);
        proof {
            lemma_entered_tags(self, s, Seq::empty(), Seq::empty(), Seq::empty(), Seq::empty(), old(self).score, old(self).shown_score, old(self).next_id);
            lemma_entered_wf(self, s, Seq::empty(), Seq::empty(), Seq::empty(), Seq::empty(), old(self).score, old(self).shown_score, old(self).next_id);
        }
        Ok(())
    }

    /// Exits every state on the stack, from the top down, and empties it.
    /// As every entity is tagged with one of them, none is left.
    fn collapse(&mut self)
        requires
            old(self).tags_live(),
        ensures
            final(self).stack@.len() == 0,
            final(self).snakes@.len() == 0,
            final(self).foods@.len() == 0,
            final(self).arenas@.len() == 0,
            final(self).widgets@.len() == 0,
            final(self).score == old(self).score,
            final(self).shown_score == old(self).shown_score,
            final(self).next_id == old(self).next_id,
    {
        while self.stack.len() > 0
            invariant
                self.tags_live(),
                self.score == old(self).score,
                self.shown_score == old(self).shown_score,
                self.next_id == old(self).next_id,
            decreases self.stack@.len(),
        {
            let top = self.stack[self.stack.len() - 1];
            let ghost pre = *self;
            self.exit(top);
            proof {
                lemma_exit_top(pre.snakes@, pre.stack@);
                lemma_exit_top(pre.foods@, pre.stack@);
                lemma_exit_top(pre.arenas@, pre.stack@);
                lemma_exit_top(pre.widgets@, pre.stack@);
            }
            self.stack.pop();
        }
        proof {
            assert(self.stack@ =~= Seq::<GameState>::empty());
            lemma_no_live_tags(self.snakes@);
            lemma_no_live_tags(self.foods@);
            lemma_no_live_tags(self.arenas@);
            lemma_no_live_tags(self.widgets@);
        }
    }

    /// Steers every snake: each buffers `request` (or, with none, its
    /// committed direction) as its heading unless that reverses it.
    pub fn snake_controls(&mut self, request: Option<Direction>)
        requires
            old(self).wf(),
        ensures
            final(self).wf(),
            World::steered_all(final(self), old(self), request),
    {
        let mut j: usize = 0;
        while j < self.snakes.len()
            invariant
                0 <= j <= self.snakes@.len(),
                self.snakes@.len() == old(self).snakes@.len(),
                forall|m: int|
                    0 <= m < j ==> {
                        &&& self.snakes@[m].heading == steered(
                            old(self).snakes@[m].direction,
                            old(self).snakes@[m].heading,
                            request,
                        )
                        &&& same_but_heading(
                            #[trigger] self.snakes@[m],
                            old(self).snakes@[m],
                        )
                    },
                forall|m: int|
                    j <= m < self.snakes@.len() ==> #[trigger] self.snakes@[m]
                        == old(self).snakes@[m],
                self.stack@ == old(self).stack@,
                self.foods@ == old(self).foods@,
                self.arenas@ == old(self).arenas@,
                self.widgets@ == old(self).widgets@,
                self.score == old(self).score,
                self.shown_score == old(self).shown_score,
                self.next_id == old(self).next_id,
            decreases self.snakes@.len() - j,
        {
            let ghost prev = self.snakes@;
            self.snakes[j].snake_controls(request);
            assert(forall|m: int| 0 <= m < self.snakes@.len() && m != j ==> self.snakes@[m] == prev[m]);
            j += 1;
        }
        proof {
            assert forall|m: int| 0 <= m < self.snakes@.len() implies #[trigger] snake_wf(self.snakes@[m]) by {
                assert(snake_wf(old(self).snakes@[m]));
            }
            assert forall|m: int| 0 <= m < self.snakes@.len() implies self.stack@.contains(
                #[trigger] self.snakes@[m].tag_of(),
            ) by {
                assert(old(self).stack@.contains(old(self).snakes@[m].tag_of()));
            }
        }
    }

    /// Spawns a piece of food on `p`, tagged with the active state, where
    /// there is none; returns whether it did.
    pub fn spawn_food_at(&mut self, p: Position) -> (spawned: bool)
        requires
            old(self).wf(),
            old(self).id_room(1),
        ensures
            final(self).wf(),
            spawned == (old(self).foods@.len() == 0),
            spawned ==> final(self).foods@ == seq![
                Food { id: old(self).next_id, position: p, tag: CleanUp { state: old(self).top() } },
            ] && final(self).next_id == old(self).next_id + 1,
            !spawned ==> final(self).foods@ == old(self).foods@ && final(self).next_id
                == old(self).next_id,
            final(self).stack@ == old(self).stack@,
            final(self).snakes@ == old(self).snakes@,
            final(self).arenas@ == old(self).arenas@,
            final(self).widgets@ == old(self).widgets@,
            final(self).score == old(self).score,
            final(self).shown_score == old(self).shown_score,
    {
        if self.foods.len() == 0 {
            let id = self.next_id;
            let state = self.current();
            self.foods.push(Food { id, position: p, tag: CleanUp::new(state) });
            self.next_id = id + 1;
            assert(self.foods@ =~= seq![Food { id, position: p, tag: CleanUp { state } }]);
            true
        } else {
            false
        }
    }

    /// Spawns a piece of food on a random cell inside the arena where there
    /// is none; returns whether it did. The cell may lie under a snake.
    pub fn spawn_apple(&mut self) -> (spawned: bool)
        requires
            old(self).wf(),
            old(self).id_room(1),
        ensures
            final(self).wf(),
            spawned == (old(self).foods@.len() == 0),
            World::apple_spawned(final(self), old(self)),
    {
        if self.foods.len() == 0 {
            let half_width: i32 = (ARENA_WIDTH - 1) / 2;
            let half_height: i32 = (ARENA_HEIGHT - 1) / 2;
            let x = random_coordinate(-half_width, half_width + 1);
            let y = random_coordinate(-half_height, half_height + 1);
            self.spawn_food_at(Position { x, y })
        } else {
            false
        }
    }

    /// The movement stage: each snake moves one cell and drags its tail; the
    /// snake at index `j` gives a new segment, if any, the id `next_id + j`.
    fn move_snakes(&mut self)
        requires
            old(self).wf(),
            old(self).id_room(old(self).snakes@.len() as int),
            forall|j: int| 0 <= j < old(self).snakes@.len() ==> sum_fits(
                #[trigger] old(self).snakes@[j].position,
                unit(old(self).snakes@[j].heading),
            ),
        ensures
            final(self).wf(),
            final(self).snakes@.len() == old(self).snakes@.len(),
            forall|j: int|
                0 <= j < old(self).snakes@.len() ==> moved(
                    #[trigger] final(self).snakes@[j],
                    old(self).snakes@[j],
                    old(self).next_id + j,
                ),
            final(self).next_id == old(self).next_id + old(self).snakes@.len(),
            final(self).stack@ == old(self).stack@,
            final(self).foods@ == old(self).foods@,
            final(self).arenas@ == old(self).arenas@,
            final(self).widgets@ == old(self).widgets@,
            final(self).score == old(self).score,
            final(self).shown_score == old(self).shown_score,
    {
        let first = self.next_id;
        let mut j: usize = 0;
        while j < self.snakes.len()
            invariant
                0 <= j <= self.snakes@.len(),
                first == old(self).next_id,
                first + self.snakes@.len() <= u64::MAX,
                self.snakes@.len() == old(self).snakes@.len(),
                forall|m: int|
                    0 <= m < j ==> moved(#[trigger] self.snakes@[m], old(self).snakes@[m], first + m),
                forall|m: int|
                    j <= m < self.snakes@.len() ==> #[trigger] self.snakes@[m]
                        == old(self).snakes@[m],
                forall|m: int| 0 <= m < old(self).snakes@.len() ==> sum_fits(
                    #[trigger] old(self).snakes@[m].position,
                    unit(old(self).snakes@[m].heading),
                ),
                forall|m: int| 0 <= m < old(self).snakes@.len() ==> #[trigger] snake_wf(old(self).snakes@[m]),
                self.stack@ == old(self).stack@,
                self.foods@ == old(self).foods@,
                self.arenas@ == old(self).arenas@,
                self.widgets@ == old(self).widgets@,
                self.score == old(self).score,
                self.shown_score == old(self).shown_score,
                self.next_id == old(self).next_id,
            decreases self.snakes@.len() - j,
        {
            let ghost prev = self.snakes@;
            assert(self.snakes@[j as int] == old(self).snakes@[j as int]);
            self.snakes[j].advance(first + j as u64);
            assert(forall|m: int| 0 <= m < self.snakes@.len() && m != j ==> self.snakes@[m] == prev[m]);
            j += 1;
        }
        self.next_id = first + self.snakes.len() as u64;
        proof {
            assert forall|m: int| 0 <= m < self.snakes@.len() implies #[trigger] snake_wf(self.snakes@[m]) by {
                assert(snake_wf(old(self).snakes@[m]));
                assert(moved(self.snakes@[m], old(self).snakes@[m], first + m));
            }
            assert forall|m: int| 0 <= m < self.snakes@.len() implies self.stack@.contains(
                #[trigger] self.snakes@[m].tag_of(),
            ) by {
                assert(moved(self.snakes@[m], old(self).snakes@[m], first + m));
                assert(old(self).stack@.contains(old(self).snakes@[m].tag_of()));
            }
        }
    }


    /// The state check: where every snake is dead (or there is none),
    /// pushes the game-over screen over the main loop. Returns whether it
    /// did.
    pub fn game_over(&mut self) -> (over: bool)
        requires
            old(self).wf(),
            old(self).top() == GameState::MainGameLoop,
            old(self).id_room(2),
        ensures
            final(self).wf(),
            over == all_dead(old(self).snakes@),
            over ==> final(self).stack@ == old(self).stack@.push(GameState::GameOver)
                && final(self).widgets@ == old(self).widgets@ + enter_widgets(
                GameState::GameOver,
                old(self).next_id as int,
            ) && final(self).next_id == old(self).next_id + 2,
            !over ==> final(self).stack@ == old(self).stack@ && final(self).widgets@
                == old(self).widgets@ && final(self).next_id == old(self).next_id,
            final(self).snakes@ == old(self).snakes@,
            final(self).foods@ == old(self).foods@,
            final(self).arenas@ == old(self).arenas@,
            final(self).score == old(self).score,
            final(self).shown_score == old(self).shown_score,
    {
        if all_snakes_dead(&self.snakes) {
            let r = self.push(GameState::GameOver);
            proof {
                assert(r is Ok);
            }
            true
        } else {
            false
        }
    }

    /// One fired tick of the main loop: movement, then detection of snakes
    /// on food, then despawn, growth and score from those events, then the
    /// wall and tail checks on the new cells, then the state check. Returns
    /// the events of the tick.
    pub fn tick(&mut self) -> (events: Vec<CollectEvent>)
        requires
            old(self).wf(),
            old(self).top() == GameState::MainGameLoop,
            old(self).tick_room(),
        ensures
            final(self).wf(),
            World::ticked_world(final(self), old(self), events@),
    {
        self.move_snakes();
        let ghost moved_snakes = self.snakes@;
        let events = collect_food(&self.foods, &self.snakes);
        proof {
            lemma_collected_len(self.foods@, self.snakes@);
            let f = self.foods@.len();
            let n = self.snakes@.len();
            assert(f * n <= n) by (nonlinear_arith)
                requires
                    f <= 1,
            ;
            lemma_uneaten_len(self.foods@, events@);
            lemma_uneaten_tags(self.foods@, events@, self.stack@);
        }
        despawn_food(&mut self.foods, &events);
        grow_snake(&mut self.snakes, &events);
        let ghost grown = self.snakes@;
        track_score(&mut self.score, &events);
        kill_snake_outside_arena(&mut self.snakes, &self.arenas);
        let ghost walled = self.snakes@;
        kill_snake_hitting_tail(&mut self.snakes);
        let ghost killed = self.snakes@;
        proof {
            assert forall|j: int| 0 <= j < killed.len() implies #[trigger] killed[j].id == moved_snakes[j].id
                && killed[j].position == moved_snakes[j].position && killed[j].tail@ == walled[j].tail@
                && killed[j].length == grown[j].length by {
                assert(same_but_dead(killed[j], walled[j]));
                assert(same_but_dead(walled[j], grown[j]));
                assert(same_but_length(grown[j], moved_snakes[j]));
            }
            assert(same_heads(moved_snakes, killed));
            lemma_collected_heads(old(self).foods@, moved_snakes, killed);
            assert(same_tails(walled, killed));
            assert forall|j: int| 0 <= j < killed.len() implies #[trigger] snake_wf(killed[j]) by {
                assert(snake_wf(moved_snakes[j]));
            }
            assert forall|j: int| 0 <= j < killed.len() implies ticked(
                #[trigger] killed[j],
                old(self).snakes@[j],
                old(self).next_id + j,
                events@,
                old(self).arenas@,
                killed,
            ) by {
                lemma_tails(walled, killed, killed[j].position);
                assert(moved(moved_snakes[j], old(self).snakes@[j], old(self).next_id + j));
            }
            assert forall|j: int| 0 <= j < killed.len() implies self.stack@.contains(
                #[trigger] killed[j].tag_of(),
            ) by {
                assert(self.stack@.contains(moved_snakes[j].tag_of()));
            }
        }
        self.game_over();
        events
    }


    /// The start menu's system: on `confirm`, replaces the start menu with
    /// the main loop.
    pub fn start_game(&mut self, confirm: bool)
        requires
            old(self).wf(),
            old(self).top() == GameState::StartMenu,
            old(self).id_room(3),
        ensures
            final(self).wf(),
            confirm ==> World::replaced(final(self), old(self), GameState::MainGameLoop),
            !confirm ==> World::same(final(self), old(self)),
    {
        if confirm {
            let r = self.replace(GameState::MainGameLoop);
            assert(r is Ok);
        }
    }

    /// The main loop's pause system: on `pressed`, pushes the pause menu.
    pub fn pause_game(&mut self, pressed: bool)
        requires
            old(self).wf(),
            old(self).top() == GameState::MainGameLoop,
            old(self).id_room(2),
        ensures
            final(self).wf(),
            pressed ==> World::pushed(final(self), old(self), GameState::PauseMenu),
            !pressed ==> World::same(final(self), old(self)),
    {
        if pressed {
            let r = self.push(GameState::PauseMenu);
            assert(r is Ok);
        }
    }

    /// The pause menu's system: on `pressed`, pops back to the state below.
    pub fn resume(&mut self, pressed: bool)
        requires
            old(self).wf(),
            old(self).top() == GameState::PauseMenu,
            old(self).stack@.len() > 1,
        ensures
            final(self).wf(),
            pressed ==> World::popped(final(self), old(self)),
            !pressed ==> World::same(final(self), old(self)),
    {
        if pressed {
            let r = self.pop();
            assert(r is Ok);
        }
    }

    /// The game-over screen's system: on `confirm`, replaces it with a fresh
    /// main loop.
    pub fn restart_game(&mut self, confirm: bool)
        requires
            old(self).wf(),
            old(self).top() == GameState::GameOver,
            old(self).id_room(3),
        ensures
            final(self).wf(),
            confirm ==> World::replaced(final(self), old(self), GameState::MainGameLoop),
            !confirm ==> World::same(final(self), old(self)),
    {
        if confirm {
            let r = self.replace(GameState::MainGameLoop);
            assert(r is Ok);
        }
    }

    /// Brings the score board up to date: returns the score to show where it
    /// differs from the one shown, and `None` where nothing changed.
    pub fn update_score_board(&mut self) -> (r: Option<usize>)
        ensures
            final(self).shown_score == Some(old(self).score),
            r == (if old(self).shown_score == Some(old(self).score) {
                None
            } else {
                Some(old(self).score)
            }),
            final(self).stack@ == old(self).stack@,
            final(self).snakes@ == old(self).snakes@,
            final(self).foods@ == old(self).foods@,
            final(self).arenas@ == old(self).arenas@,
            final(self).widgets@ == old(self).widgets@,
            final(self).score == old(self).score,
            final(self).next_id == old(self).next_id,
    {
        if self.shown_score == Some(self.score) {
            None
        } else {
            self.shown_score = Some(self.score);
            Some(self.score)
        }
    }

    /// One frame: hands the keys and the clock to the active state. The
    /// start menu and the game-over screen start a fresh main loop on
    /// confirm, the pause menu resumes on confirm, and the main loop steers
    /// the snakes, ticks where the clock fired, then (if still active) runs
    /// the food spawner and the pause key.
    pub fn frame(&mut self, input: FrameInput)
        requires
            old(self).wf(),
            old(self).frame_room(input),
        ensures
            final(self).wf(),
            old(self).top() != GameState::MainGameLoop && !input.confirm ==> World::same(
                final(self),
                old(self),
            ),
            old(self).top() == GameState::StartMenu && input.confirm ==> World::replaced(
                final(self),
                old(self),
                GameState::MainGameLoop,
            ),
            old(self).top() == GameState::GameOver && input.confirm ==> World::replaced(
                final(self),
                old(self),
                GameState::MainGameLoop,
            ),
            old(self).top() == GameState::PauseMenu && input.confirm ==> World::popped(
                final(self),
                old(self),
            ),
            old(self).top() == GameState::MainGameLoop ==> exists|
                a: World,
                b: World,
                c: World,
                events: Seq<CollectEvent>,
            | #[trigger] World::main_frame(final(self), old(self), input, a, b, c, events),
    {
        let top = self.current();
        match top {
            GameState::StartMenu => self.start_game(input.confirm),
            GameState::PauseMenu => self.resume(input.confirm),
            GameState::GameOver => self.restart_game(input.confirm),
            GameState::MainGameLoop => {
                let request = pick_direction(input.left, input.down, input.up, input.right);
                self.snake_controls(request);
                let ghost a = *self;
                let ghost mut events = Seq::<CollectEvent>::empty();
                if input.fired {
                    proof {
                        assert forall|j: int| 0 <= j < self.snakes@.len() implies sum_fits(
                            #[trigger] self.snakes@[j].position,
                            unit(self.snakes@[j].heading),
                        ) by {
                            assert(same_but_heading(self.snakes@[j], old(self).snakes@[j]));
                        }
                        assert forall|j: int| 0 <= j < self.snakes@.len() implies #[trigger] self.snakes@[j].length
                            + self.snakes@.len() <= usize::MAX by {
                            assert(same_but_heading(self.snakes@[j], old(self).snakes@[j]));
                        }
                    }
                    let ev = self.tick();
                    proof {
                        events = ev@;
                    }
                }
                let ghost b = *self;
                let ghost mut c = *self;
                if self.current() == GameState::MainGameLoop {
                    self.spawn_apple();
                    proof {
                        c = *self;
                    }
                    self.pause_game(input.pause);
                }
                assert(World::main_frame(self, old(self), input, a, b, c, events));
            },
        }
    }

}

/// Pausing and resuming gives the main loop back as it was: pushing the
/// pause menu onto `pre` (giving `mid`) keeps every entity and spawns the
/// pause display, and popping it again (giving `post`) destroys that display
/// and leaves the stack, the snakes, the food, the arenas, the display
/// entities and the score as in `pre`.
pub proof fn lemma_pause_resume(pre: &World, mid: &World, post: &World)
    requires
        pre.wf(),
        pre.top() == GameState::MainGameLoop,
        World::pushed(mid, pre, GameState::PauseMenu),
        World::popped(post, mid),
    ensures
        mid.snakes@ == pre.snakes@,
        mid.score == pre.score,
        mid.widgets@ == pre.widgets@ + enter_widgets(GameState::PauseMenu, pre.next_id as int),
        post.stack@ == pre.stack@,
        post.snakes@ == pre.snakes@,
        post.foods@ == pre.foods@,
        post.arenas@ == pre.arenas@,
        post.widgets@ == pre.widgets@,
        post.score == pre.score,
        post.shown_score == pre.shown_score,
{
    let s = GameState::PauseMenu;
    assert(pre.stack@ == seq![GameState::MainGameLoop]);
    assert(!pre.stack@.contains(s));
    assert(mid.top() == s);
    assert(mid.stack@.drop_last() =~= pre.stack@);
    lemma_clean_up_untagged(pre.snakes@, s);
    lemma_clean_up_untagged(pre.foods@, s);
    lemma_clean_up_untagged(pre.arenas@, s);
    lemma_clean_up_untagged(pre.widgets@, s);
    let added = enter_widgets(s, pre.next_id as int);
    lemma_clean_up_tagged(added, s);
    Seq::filter_distributes_over_add(pre.widgets@, added, survives::<Widget>(s));
    assert(pre.widgets@ + added.filter(survives::<Widget>(s)) =~= pre.widgets@);
}

} // verus!
