use std::collections::VecDeque;
use vstd::prelude::*;

use crate::arena::{in_any_arena, inside_any, Arena};
use crate::game_state::{CleanUp, GameState, Tagged};
use crate::primitives::{spec_add, spec_opposite, sum_fits, unit, Direction, Position};

verus! {

/// A tail segment: an inert carrier of a position. The queue that holds it
/// decides its place in the body.
#[derive(Debug, Clone, Copy, PartialEq, Eq, Structural)]
pub struct Segment {
    pub id: u64,
    pub position: Position,
}

/// A snake: its head position and the state that drives its movement.
pub struct SnakeHead {
    pub id: u64,
    pub position: Position,
    /// The direction of the most recent move.
    pub direction: Direction,
    /// The buffered heading, committed at the next tick.
    pub heading: Direction,
    /// Front is the segment farthest from the head, back the nearest.
    pub tail: VecDeque<Segment>,
    /// The number of segments the tail grows towards.
    pub length: usize,
    /// The head's position before its most recent move.
    pub last_position: Position,
    pub dead: bool,
    pub tag: CleanUp<GameState>,
}

/// A piece of food.
#[derive(Debug, Clone, Copy, PartialEq, Eq)]
pub struct Food {
    pub id: u64,
    pub position: Position,
    pub tag: CleanUp<GameState>,
}

/// The record that a snake's head stands on a piece of food.
#[derive(Debug, Clone, Copy, PartialEq, Eq, Structural)]
pub struct CollectEvent {
    pub food: u64,
    pub snake: u64,
}

impl SnakeHead {
    /// A fresh snake at `position`, heading right, with no tail and length 0.
    pub fn new(id: u64, position: Position) -> (r: Self)
        ensures
            r.id == id,
            r.position == position,
            r.last_position == position,
            r.direction == Direction::Right,
            r.heading == Direction::Right,
            r.tail@.len() == 0,
            r.length == 0,
            !r.dead,
            r.tag.state == GameState::MainGameLoop,
    {
        SnakeHead {
            id,
            position,
            direction: Direction::Right,
            heading: Direction::Right,
            tail: VecDeque::new(),
            length: 0,
            last_position: position,
            dead: false,
            tag: CleanUp::new(GameState::MainGameLoop),
        }
    }
}

/// Everything but the heading is the same in `a` and `b`.
pub open spec fn same_but_heading(a: SnakeHead, b: SnakeHead) -> bool {
    &&& a.id == b.id
    &&& a.position == b.position
    &&& a.direction == b.direction
    &&& a.tail@ == b.tail@
    &&& a.length == b.length
    &&& a.last_position == b.last_position
    &&& a.dead == b.dead
    &&& a.tag == b.tag
}

/// Everything but the length is the same in `a` and `b`.
pub open spec fn same_but_length(a: SnakeHead, b: SnakeHead) -> bool {
    &&& a.id == b.id
    &&& a.position == b.position
    &&& a.direction == b.direction
    &&& a.heading == b.heading
    &&& a.tail@ == b.tail@
    &&& a.last_position == b.last_position
    &&& a.dead == b.dead
    &&& a.tag == b.tag
}

/// Everything but the dead flag is the same in `a` and `b`.
pub open spec fn same_but_dead(a: SnakeHead, b: SnakeHead) -> bool {
    &&& a.id == b.id
    &&& a.position == b.position
    &&& a.direction == b.direction
    &&& a.heading == b.heading
    &&& a.tail@ == b.tail@
    &&& a.length == b.length
    &&& a.last_position == b.last_position
    &&& a.tag == b.tag
}

/// The tail after the rotation of one tick: the front segment moves to the
/// back and takes the head's previous position `at`.
pub open spec fn rotated(tail: Seq<Segment>, at: Position) -> Seq<Segment> {
    if tail.len() == 0 {
        tail
    } else {
        tail.drop_first().push(Segment { id: tail[0].id, position: at })
    }
}

/// The cell that the rotation frees: the old position of the front segment,
/// or `at` itself when the tail is empty.
pub open spec fn freed(tail: Seq<Segment>, at: Position) -> Position {
    if tail.len() == 0 {
        at
    } else {
        tail[0].position
    }
}

/// The tail after one tick: rotated, then grown at the front by a segment
/// `fresh` on the freed cell while it is shorter than `length`.
pub open spec fn next_tail(tail: Seq<Segment>, at: Position, length: int, fresh: u64) -> Seq<
    Segment,
> {
    let r = rotated(tail, at);
    if length > r.len() {
        seq![Segment { id: fresh, position: freed(tail, at) }] + r
    } else {
        r
    }
}

/// The tail length after one tick: one more, up to `length`.
pub open spec fn next_tail_len(len: nat, length: nat) -> nat {
    if len < length {
        len + 1
    } else {
        len
    }
}

/// The heading after a request: the requested direction (or, with none, the
/// committed one), unless it reverses the committed direction, in which case
/// the heading stays as it was.
pub open spec fn steered(direction: Direction, heading: Direction, request: Option<Direction>) -> Direction {
    let dir = match request {
        Some(d) => d,
        None => direction,
    };
    if dir != spec_opposite(direction) {
        dir
    } else {
        heading
    }
}

/// The direction asked for by the pressed keys, checked in the order Left,
/// Down, Up, Right; the first pressed one wins.
pub open spec fn spec_pick(left: bool, down: bool, up: bool, right: bool) -> Option<Direction> {
    if left {
        Some(Direction::Left)
    } else if down {
        Some(Direction::Down)
    } else if up {
        Some(Direction::Up)
    } else if right {
        Some(Direction::Right)
    } else {
        None
    }
}

pub fn pick_direction(left: bool, down: bool, up: bool, right: bool) -> (r: Option<Direction>)
    ensures
        r == spec_pick(left, down, up, right),
{
    if left {
        Some(Direction::Left)
    } else if down {
        Some(Direction::Down)
    } else if up {
        Some(Direction::Up)
    } else if right {
        Some(Direction::Right)
    } else {
        None
    }
}

impl SnakeHead {
    /// Buffers a requested direction as the heading; a reversal of the
    /// committed direction is ignored.
    pub fn snake_controls(&mut self, request: Option<Direction>)
        ensures
            final(self).heading == steered(old(self).direction, old(self).heading, request),
            same_but_heading(*final(self), *old(self)),
    {
        let dir = match request {
            Some(d) => d,
            None => self.direction,
        };
        if dir != self.direction.opposite() {
            self.heading = dir;
        }
    }

    /// One fired tick: commits the heading, moves the head one cell, rotates
    /// the tail behind it and grows the tail by one segment with id `fresh`
    /// while it is shorter than `length`. Returns whether it grew.
    pub fn advance(&mut self, fresh: u64) -> (grew: bool)
        requires
            sum_fits(old(self).position, unit(old(self).heading)),
        ensures
            final(self).last_position == old(self).position,
            final(self).position == spec_add(old(self).position, unit(old(self).heading)),
            final(self).direction == old(self).heading,
            final(self).heading == old(self).heading,
            final(self).tail@ == next_tail(
                old(self).tail@,
                old(self).position,
                old(self).length as int,
                fresh,
            ),
            final(self).tail@.len() == next_tail_len(
                old(self).tail@.len(),
                old(self).length as nat,
            ),
            grew == (old(self).length > old(self).tail@.len()),
            final(self).id == old(self).id,
            final(self).length == old(self).length,
            final(self).dead == old(self).dead,
            final(self).tag == old(self).tag,
    {
        let at = self.position;
        self.last_position = at;
        let step = Position::from(self.heading);
        self.position.add_assign(step);
        self.direction = self.heading;
        let ghost tail0 = self.tail@;
        let mut last_position = at;
        if let Some(seg) = self.tail.pop_front() {
            last_position = seg.position;
            self.tail.push_back(Segment { id: seg.id, position: at });
            assert(self.tail@ =~= rotated(tail0, at));
        } else {
            assert(self.tail@ =~= rotated(tail0, at));
        }
        if self.length > self.tail.len() {
            self.tail.push_front(Segment { id: fresh, position: last_position });
            true
        } else {
            false
        }
    }
}

/// The events of one piece of food: one for each snake whose head stands on
/// it, in the snakes' order.
pub open spec fn hits(food: Food, snakes: Seq<SnakeHead>) -> Seq<CollectEvent>
    decreases snakes.len(),
{
    if snakes.len() == 0 {
        seq![]
    } else {
        let rest = hits(food, snakes.drop_last());
        if snakes.last().position == food.position {
            rest.push(CollectEvent { food: food.id, snake: snakes.last().id })
        } else {
            rest
        }
    }
}

/// The events of one tick: for each piece of food in order, its hits.
pub open spec fn collected(foods: Seq<Food>, snakes: Seq<SnakeHead>) -> Seq<CollectEvent>
    decreases foods.len(),
{
    if foods.len() == 0 {
        seq![]
    } else {
        collected(foods.drop_last(), snakes) + hits(foods.last(), snakes)
    }
}

/// Whether some event names the food `id`.
pub open spec fn names_food(events: Seq<CollectEvent>, id: u64) -> bool {
    exists|k: int| 0 <= k < events.len() && events[k].food == id
}

/// The food that no event names, in its order.
pub open spec fn uneaten(foods: Seq<Food>, events: Seq<CollectEvent>) -> Seq<Food>
    decreases foods.len(),
{
    if foods.len() == 0 {
        seq![]
    } else {
        let rest = uneaten(foods.drop_last(), events);
        if names_food(events, foods.last().id) {
            rest
        } else {
            rest.push(foods.last())
        }
    }
}

/// The number of events that name the snake `id`.
pub open spec fn meals(events: Seq<CollectEvent>, id: u64) -> nat
    decreases events.len(),
{
    if events.len() == 0 {
        0
    } else {
        meals(events.drop_last(), id) + if events.last().snake == id {
            1nat
        } else {
            0nat
        }
    }
}

/// Whether the cell `p` is held by some tail segment of some snake.
pub open spec fn on_some_tail(snakes: Seq<SnakeHead>, p: Position) -> bool {
    exists|j: int, k: int|
        0 <= j < snakes.len() && 0 <= k < snakes[j].tail@.len() && #[trigger] snakes[j].tail@[k].position == p
}

/// Every snake is dead (true of no snakes at all).
pub open spec fn all_dead(snakes: Seq<SnakeHead>) -> bool {
    forall|j: int| 0 <= j < snakes.len() ==> #[trigger] snakes[j].dead
}

pub proof fn lemma_hits_len(food: Food, snakes: Seq<SnakeHead>)
    ensures
        hits(food, snakes).len() <= snakes.len(),
    decreases snakes.len(),
{
    if snakes.len() > 0 {
        lemma_hits_len(food, snakes.drop_last());
    }
}

pub proof fn lemma_collected_len(foods: Seq<Food>, snakes: Seq<SnakeHead>)
    ensures
        collected(foods, snakes).len() <= foods.len() * snakes.len(),
    decreases foods.len(),
{
    if foods.len() > 0 {
        lemma_collected_len(foods.drop_last(), snakes);
        lemma_hits_len(foods.last(), snakes);
        assert(foods.len() * snakes.len() == (foods.len() - 1) * snakes.len() + snakes.len())
            by (nonlinear_arith);
    }
}

pub proof fn lemma_meals_len(events: Seq<CollectEvent>, id: u64)
    ensures
        meals(events, id) <= events.len(),
    decreases events.len(),
{
    if events.len() > 0 {
        lemma_meals_len(events.drop_last(), id);
    }
}

/// Detection: one event for each pair of a piece of food and a snake whose
/// head stands exactly on it, food by food, snake by snake.
pub fn collect_food(foods: &Vec<Food>, snakes: &Vec<SnakeHead>) -> (events: Vec<CollectEvent>)
    ensures
        events@ == collected(foods@, snakes@),
{
    let mut events: Vec<CollectEvent> = Vec::new();
    let mut i: usize = 0;
    while i < foods.len()
        invariant
            0 <= i <= foods.len(),
            events@ == collected(foods@.take(i as int), snakes@),
        decreases foods.len() - i,
    {
        let food = foods[i];
        let mut j: usize = 0;
        while j < snakes.len()
            invariant
                0 <= j <= snakes.len(),
                i < foods.len(),
                food == foods@[i as int],
                events@ == collected(foods@.take(i as int), snakes@) + hits(
                    food,
                    snakes@.take(j as int),
                ),
            decreases snakes.len() - j,
        {
            proof {
                assert(snakes@.take(j + 1).drop_last() =~= snakes@.take(j as int));
            }
            if snakes[j].position == food.position {
                events.push(CollectEvent { food: food.id, snake: snakes[j].id });
            }
            j += 1;
        }
        proof {
            assert(snakes@.take(snakes@.len() as int) =~= snakes@);
            assert(foods@.take(i + 1).drop_last() =~= foods@.take(i as int));
        }
        i += 1;
    }
    proof {
        assert(foods@.take(foods@.len() as int) =~= foods@);
    }
    events
}

/// Whether some event names the food `id`.
pub fn is_collected(events: &Vec<CollectEvent>, id: u64) -> (r: bool)
    ensures
        r == names_food(events@, id),
{
    let mut k: usize = 0;
    while k < events.len()
        invariant
            0 <= k <= events.len(),
            forall|m: int| 0 <= m < k ==> events@[m].food != id,
        decreases events.len() - k,
    {
        if events[k].food == id {
            return true;
        }
        k += 1;
    }
    false
}

/// Despawns every piece of food that an event names.
pub fn despawn_food(foods: &mut Vec<Food>, events: &Vec<CollectEvent>)
    ensures
        final(foods)@ == uneaten(old(foods)@, events@),
{
    let mut kept: Vec<Food> = Vec::new();
    let mut i: usize = 0;
    while i < foods.len()
        invariant
            0 <= i <= foods.len(),
            foods@ == old(foods)@,
            kept@ == uneaten(foods@.take(i as int), events@),
        decreases foods.len() - i,
    {
        proof {
            assert(foods@.take(i + 1).drop_last() =~= foods@.take(i as int));
        }
        let food = foods[i];
        if !is_collected(events, food.id) {
            kept.push(food);
        }
        i += 1;
    }
    proof {
        assert(foods@.take(foods@.len() as int) =~= foods@);
    }
    *foods = kept;
}

/// The number of events that name the snake `id`.
pub fn count_meals(events: &Vec<CollectEvent>, id: u64) -> (r: usize)
    ensures
        r == meals(events@, id),
{
    let mut n: usize = 0;
    let mut k: usize = 0;
    while k < events.len()
        invariant
            0 <= k <= events.len(),
            n == meals(events@.take(k as int), id),
            n <= k,
        decreases events.len() - k,
    {
        proof {
            assert(events@.take(k + 1).drop_last() =~= events@.take(k as int));
        }
        if events[k].snake == id {
            n += 1;
        }
        k += 1;
    }
    proof {
        assert(events@.take(events@.len() as int) =~= events@);
    }
    n
}

/// Grows each snake by one unit of length for each event that names it.
pub fn grow_snake(snakes: &mut Vec<SnakeHead>, events: &Vec<CollectEvent>)
    requires
        forall|j: int|
            0 <= j < old(snakes)@.len() ==> #[trigger] old(snakes)@[j].length + events@.len()
                <= usize::MAX,
    ensures
        final(snakes)@.len() == old(snakes)@.len(),
        forall|j: int|
            0 <= j < old(snakes)@.len() ==> {
                &&& #[trigger] final(snakes)@[j].length == old(snakes)@[j].length + meals(
                    events@,
                    old(snakes)@[j].id,
                )
                &&& same_but_length(final(snakes)@[j], old(snakes)@[j])
            },
{
    let mut j: usize = 0;
    while j < snakes.len()
        invariant
            0 <= j <= snakes.len(),
            snakes@.len() == old(snakes)@.len(),
            forall|m: int|
                0 <= m < old(snakes)@.len() ==> #[trigger] old(snakes)@[m].length + events@.len()
                    <= usize::MAX,
            forall|m: int|
                0 <= m < j ==> {
                    &&& snakes@[m].length == old(snakes)@[m].length + meals(
                        events@,
                        old(snakes)@[m].id,
                    )
                    &&& same_but_length(#[trigger] snakes@[m], old(snakes)@[m])
                },
            forall|m: int| j <= m < snakes@.len() ==> #[trigger] snakes@[m] == old(snakes)@[m],
        decreases snakes.len() - j,
    {
        let ghost prev = snakes@;
        let n = count_meals(events, snakes[j].id);
        proof {
            lemma_meals_len(events@, snakes@[j as int].id);
        }
        snakes[j].length = snakes[j].length + n;
        assert(forall|m: int| 0 <= m < snakes@.len() && m != j ==> snakes@[m] == prev[m]);
        j += 1;
    }
}

/// Adds the number of events to the score.
pub fn track_score(score: &mut usize, events: &Vec<CollectEvent>)
    requires
        *old(score) + events@.len() <= usize::MAX,
    ensures
        *final(score) == *old(score) + events@.len(),
{
    *score = *score + events.len();
}

/// Whether some tail segment of some snake stands exactly on `p`.
pub fn hits_tail(snakes: &Vec<SnakeHead>, p: Position) -> (r: bool)
    ensures
        r == on_some_tail(snakes@, p),
{
    let mut j: usize = 0;
    while j < snakes.len()
        invariant
            0 <= j <= snakes.len(),
            forall|a: int, b: int|
                0 <= a < j && 0 <= b < snakes@[a].tail@.len() ==> #[trigger] snakes@[a].tail@[b].position
                    != p,
        decreases snakes.len() - j,
    {
        let mut k: usize = 0;
        while k < snakes[j].tail.len()
            invariant
                0 <= j < snakes.len(),
                0 <= k <= snakes@[j as int].tail@.len(),
                forall|a: int, b: int|
                    0 <= a < j && 0 <= b < snakes@[a].tail@.len() ==> #[trigger] snakes@[a].tail@[b].position
                        != p,
                forall|b: int| 0 <= b < k ==> #[trigger] snakes@[j as int].tail@[b].position != p,
            decreases snakes@[j as int].tail@.len() - k,
        {
            if snakes[j].tail[k].position == p {
                return true;
            }
            k += 1;
        }
        j += 1;
    }
    false
}

/// Marks dead each snake whose head stands exactly on a tail segment; no
/// snake is brought back.
pub fn kill_snake_hitting_tail(snakes: &mut Vec<SnakeHead>)
    ensures
        final(snakes)@.len() == old(snakes)@.len(),
        forall|j: int|
            0 <= j < old(snakes)@.len() ==> {
                &&& final(snakes)@[j].dead == (old(snakes)@[j].dead || on_some_tail(
                    old(snakes)@,
                    old(snakes)@[j].position,
                ))
                &&& same_but_dead(#[trigger] final(snakes)@[j], old(snakes)@[j])
            },
{
    let ghost before = snakes@;
    let mut hit: Vec<bool> = Vec::new();
    let mut j: usize = 0;
    while j < snakes.len()
        invariant
            0 <= j <= snakes.len(),
            snakes@ == before,
            hit@.len() == j,
            forall|m: int| 0 <= m < j ==> #[trigger] hit@[m] == on_some_tail(before, before[m].position),
        decreases snakes.len() - j,
    {
        let h = hits_tail(snakes, snakes[j].position);
        hit.push(h);
        j += 1;
    }
    let mut j: usize = 0;
    while j < snakes.len()
        invariant
            0 <= j <= snakes.len(),
            snakes@.len() == before.len(),
            hit@.len() == before.len(),
            forall|m: int| 0 <= m < before.len() ==> #[trigger] hit@[m] == on_some_tail(before, before[m].position),
            forall|m: int|
                0 <= m < j ==> {
                    &&& snakes@[m].dead == (before[m].dead || hit@[m])
                    &&& same_but_dead(#[trigger] snakes@[m], before[m])
                },
            forall|m: int| j <= m < snakes@.len() ==> #[trigger] snakes@[m] == before[m],
        decreases snakes.len() - j,
    {
        let ghost prev = snakes@;
        if hit[j] {
            snakes[j].dead = true;
        }
        assert(forall|m: int| 0 <= m < snakes@.len() && m != j ==> snakes@[m] == prev[m]);
        j += 1;
    }
}

/// Whether every snake is dead; true when there are none.
pub fn all_snakes_dead(snakes: &Vec<SnakeHead>) -> (r: bool)
    ensures
        r == all_dead(snakes@),
{
    let mut j: usize = 0;
    while j < snakes.len()
        invariant
            0 <= j <= snakes.len(),
            forall|m: int| 0 <= m < j ==> #[trigger] snakes@[m].dead,
        decreases snakes.len() - j,
    {
        if !snakes[j].dead {
            return false;
        }
        j += 1;
    }
    true
}

/// Marks dead each snake whose head no arena holds; no snake is brought
/// back.
pub fn kill_snake_outside_arena(snakes: &mut Vec<SnakeHead>, arenas: &Vec<Arena>)
    ensures
        final(snakes)@.len() == old(snakes)@.len(),
        forall|j: int|
            0 <= j < old(snakes)@.len() ==> {
                &&& final(snakes)@[j].dead == (old(snakes)@[j].dead || !in_any_arena(
                    arenas@,
                    old(snakes)@[j].position,
                ))
                &&& same_but_dead(#[trigger] final(snakes)@[j], old(snakes)@[j])
            },
{
    let mut j: usize = 0;
    while j < snakes.len()
        invariant
            0 <= j <= snakes.len(),
            snakes@.len() == old(snakes)@.len(),
            forall|m: int|
                0 <= m < j ==> {
                    &&& snakes@[m].dead == (old(snakes)@[m].dead || !in_any_arena(
                        arenas@,
                        old(snakes)@[m].position,
                    ))
                    &&& same_but_dead(#[trigger] snakes@[m], old(snakes)@[m])
                },
            forall|m: int| j <= m < snakes@.len() ==> #[trigger] snakes@[m] == old(snakes)@[m],
        decreases snakes.len() - j,
    {
        let ghost prev = snakes@;
        if !inside_any(arenas, snakes[j].position) {
            snakes[j].dead = true;
        }
        assert(forall|m: int| 0 <= m < snakes@.len() && m != j ==> snakes@[m] == prev[m]);
        j += 1;
    }
}

impl Tagged for SnakeHead {
    open spec fn tag_of(&self) -> GameState {
        self.tag.state
    }

    fn tag_state(&self) -> (r: GameState) {
        self.tag.state
    }
}

impl Tagged for Food {
    open spec fn tag_of(&self) -> GameState {
        self.tag.state
    }

    fn tag_state(&self) -> (r: GameState) {
        self.tag.state
    }
}

/// A request to reverse the committed direction leaves the heading as it
/// was. So where the heading is the committed direction `D` (as after every
/// tick), a request for the opposite of `D` followed by a tick keeps the
/// committed direction at `D`: `pre` is the snake before the request, `mid`
/// after it, `post` after the tick.
pub proof fn lemma_no_reversal(pre: SnakeHead, mid: SnakeHead, post: SnakeHead)
    requires
        pre.heading == pre.direction,
        mid.heading == steered(pre.direction, pre.heading, Some(spec_opposite(pre.direction))),
        same_but_heading(mid, pre),
        post.direction == mid.heading,
    ensures
        post.direction == pre.direction,
        forall|d: Direction, h: Direction| #[trigger] steered(d, h, Some(spec_opposite(d))) == h,
{
    assert forall|d: Direction, h: Direction| #[trigger] steered(d, h, Some(spec_opposite(d))) == h by {
        crate::primitives::lemma_opposite_involutive(d);
    }
}

/// The tail length after `ticks` ticks at a fixed `length`, from `len`.
pub open spec fn tail_len_after(len: nat, length: nat, ticks: nat) -> nat
    decreases ticks,
{
    if ticks == 0 {
        len
    } else {
        next_tail_len(tail_len_after(len, length, (ticks - 1) as nat), length)
    }
}

/// From a tail of `len <= length` segments, each tick adds one segment
/// until the tail reaches `length`, where it stays: after `ticks` ticks it
/// holds `min(length, len + ticks)` segments.
pub proof fn lemma_tail_growth(len: nat, length: nat, ticks: nat)
    requires
        len <= length,
    ensures
        tail_len_after(len, length, ticks) == if len + ticks < length {
            len + ticks
        } else {
            length
        },
    decreases ticks,
{
    if ticks > 0 {
        lemma_tail_growth(len, length, (ticks - 1) as nat);
    }
}

/// The tail length over a run of ticks: where `snakes[i + 1]` is
/// `snakes[i]` after one tick of `advance` at a fixed length `n`, starting
/// from `len0 <= n` segments, after `k` ticks the tail holds
/// `min(n, len0 + k)` segments, and so stays at `n` once it got there.
pub proof fn lemma_ticks_tail_len(snakes: Seq<SnakeHead>, n: nat, k: int)
    requires
        snakes.len() > 0,
        0 <= k < snakes.len(),
        snakes[0].tail@.len() <= n,
        forall|i: int| 0 <= i < snakes.len() ==> (#[trigger] snakes[i]).length == n,
        forall|i: int|
            0 <= i < snakes.len() - 1 ==> #[trigger] snakes[i + 1].tail@.len() == next_tail_len(
                snakes[i].tail@.len(),
                snakes[i].length as nat,
            ),
    ensures
        snakes[k].tail@.len() == tail_len_after(snakes[0].tail@.len(), n, k as nat),
        snakes[k].tail@.len() == if snakes[0].tail@.len() + k < n {
            snakes[0].tail@.len() + k
        } else {
            n as int
        },
    decreases k,
{
    if k > 0 {
        lemma_ticks_tail_len(snakes, n, k - 1);
        assert(snakes[(k - 1) + 1].tail@.len() == next_tail_len(
            snakes[k - 1].tail@.len(),
            snakes[k - 1].length as nat,
        ));
    }
    lemma_tail_growth(snakes[0].tail@.len(), n, k as nat);
}

} // verus!
