use vstd::prelude::*;

use crate::game_state::{CleanUp, GameState, Tagged};
use crate::primitives::{abs, rec_contains, Position, Rec};

verus! {

pub const ARENA_WIDTH: i32 = 21;

pub const ARENA_HEIGHT: i32 = 21;

/// The margin, in grid units, that the view keeps around the arena.
pub const ARENA_BUFFER: i32 = 4;

/// A playing field: a box centred on `position`.
#[derive(Debug, Clone, Copy, PartialEq, Eq)]
pub struct Arena {
    pub id: u64,
    pub position: Position,
    pub rec: Rec,
    pub tag: CleanUp<GameState>,
}

/// `p` lies strictly inside the arena's box, measured from its centre.
pub open spec fn in_arena(a: Arena, p: Position) -> bool {
    2 * abs(p.x - a.position.x) < a.rec.width && 2 * abs(p.y - a.position.y) < a.rec.height
}

/// Some arena holds `p`.
pub open spec fn in_any_arena(arenas: Seq<Arena>, p: Position) -> bool {
    exists|k: int| 0 <= k < arenas.len() && #[trigger] in_arena(arenas[k], p)
}

impl Arena {
    /// Whether `p` lies strictly inside this arena.
    pub fn holds(&self, p: Position) -> (r: bool)
        ensures
            r == in_arena(*self, p),
    {
        let dx: i64 = p.x as i64 - self.position.x as i64;
        let dy: i64 = p.y as i64 - self.position.y as i64;
        if dx < i32::MIN as i64 || dx > i32::MAX as i64 || dy < i32::MIN as i64 || dy
            > i32::MAX as i64 {
            // a box of `i32` extent holds no offset beyond the `i32` range
            return false;
        }
        let rel = Position { x: dx as i32, y: dy as i32 };
        let r = self.rec.contains(rel);
        assert(rec_contains(self.rec, rel) == in_arena(*self, p));
        r
    }
}

/// Whether some arena holds `p`.
pub fn inside_any(arenas: &Vec<Arena>, p: Position) -> (r: bool)
    ensures
        r == in_any_arena(arenas@, p),
{
    let mut k: usize = 0;
    while k < arenas.len()
        invariant
            0 <= k <= arenas.len(),
            forall|m: int| 0 <= m < k ==> !#[trigger] in_arena(arenas@[m], p),
        decreases arenas.len() - k,
    {
        if arenas[k].holds(p) {
            return true;
        }
        k += 1;
    }
    false
}

impl Tagged for Arena {
    open spec fn tag_of(&self) -> GameState {
        self.tag.state
    }

    fn tag_state(&self) -> (r: GameState) {
        self.tag.state
    }
}

} // verus!
