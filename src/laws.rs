use vstd::prelude::*;

use crate::cell::{cell_index, cell_of_index, lemma_cell_of_index, lemma_index_in_board, GameState};
use crate::snake::{ticked, Snake};
use crate::world::{count_free, is_nth_free};

verus! {

/// Every board slot is occupied exactly when its index is in the snake's
/// index cache.
pub open spec fn occupancy_matches(s: Snake) -> bool {
    forall|k: int|
        0 <= k < s.world_spec().board_spec().len() ==> (#[trigger] s.world_spec().board_spec()[k]
            <==> s.cells_spec().contains(k as usize))
}

/// No reward cell is placed on a cell of the snake's body.
pub open spec fn reward_off_body(s: Snake) -> bool {
    s.world_spec().reward_spec() matches Some(c) ==> !s.cells_spec().contains(
        cell_index(c, s.world_spec().width_spec() as int) as usize,
    )
}

/// In every well-formed snake, which every operation keeps well formed, each
/// entry of the index cache is the board index of the body cell at the same
/// position.
pub proof fn lemma_index_sync(s: Snake)
    requires
        s.wf(),
    ensures
        s.cells_spec().len() == s.body_spec().len(),
        forall|i: int|
            0 <= i < s.body_spec().len() ==> #[trigger] s.cells_spec()[i] == cell_index(
                s.body_spec()[i],
                s.world_spec().width_spec() as int,
            ),
{
}

/// A tick of a running game that ends without a collision keeps the board
/// in step with the body: a slot is occupied exactly when a body cell lies on
/// it. No two body cells share a slot afterwards either, provided that the
/// reward cell was off the body before the tick.
pub proof fn lemma_tick_keeps_occupancy(s: Snake, t: Snake, draw: int)
    requires
        s.wf(),
        s.state_spec() == GameState::Running,
        occupancy_matches(s),
        s.cells_spec().no_duplicates(),
        ticked(s, t, draw),
        t.state_spec() == GameState::Running,
    ensures
        occupancy_matches(t),
        reward_off_body(s) ==> t.cells_spec().no_duplicates(),
{
    let w = s.world_spec();
    let width = w.width_spec() as int;
    let height = w.height_spec() as int;
    let len = s.body_spec().len() as int;
    let head = s.next_head(s.direction_spec());
    let grow = w.reward_spec() == Some(head);
    lemma_index_in_board(head, width, height);
    lemma_index_in_board(s.body_spec().last(), width, height);
    let n = cell_index(head, width);
    let tail = s.cells_spec()[len - 1] as int;
    let sc = s.cells_spec();
    let tc = t.cells_spec();
    assert(tc.len() == if grow { len + 1 } else { len });
    assert(tc[0] as int == n);
    assert forall|j: int| 1 <= j < len implies #[trigger] tc[j] == sc[j - 1] by {
        assert(t.body_spec()[j] == s.body_spec()[j - 1]);
    }
    if grow {
        assert(tc[len] == sc[len - 1]);
    }
    // The new head's slot was free once the tail left: it is the tail's slot
    // or no body cell lies on it.
    assert(n == tail || !sc.contains(n as usize));
    assert forall|k: int| 0 <= k < t.world_spec().board_spec().len() implies (
    #[trigger] t.world_spec().board_spec()[k] <==> tc.contains(k as usize)) by {
        if k == n {
            assert(tc[0] == k as usize);
        } else if k == tail {
            if grow {
                assert(tc[len] == k as usize);
            } else {
                assert forall|j: int| 0 <= j < tc.len() implies tc[j] != k as usize by {
                    if j >= 1 {
                        assert(tc[j] == sc[j - 1]);
                    }
                }
            }
        } else {
            if w.board_spec()[k] {
                let j = choose|j: int| 0 <= j < len && sc[j] == k as usize;
                assert(j != len - 1);
                assert(tc[j + 1] == sc[j]);
            }
            if tc.contains(k as usize) {
                let j = choose|j: int| 0 <= j < tc.len() && tc[j] == k as usize;
                assert(j >= 1);
                if j < len {
                    assert(tc[j] == sc[j - 1]);
                }
            }
        }
    }
    if reward_off_body(s) {
        if grow {
            assert(sc[len - 1] as int != n) by {
                assert(!sc.contains(n as usize));
            }
        }
        lemma_moved_cells_distinct(sc, tc, len, n, grow);
    }
}

/// The index cache after a tick without a collision has no two equal entries
/// when the new head's slot is not the old tail's on growth.
proof fn lemma_moved_cells_distinct(sc: Seq<usize>, tc: Seq<usize>, len: int, n: int, grow: bool)
    requires
        sc.len() == len >= 1,
        sc.no_duplicates(),
        n == sc[len - 1] || !sc.contains(n as usize),
        grow ==> sc[len - 1] as int != n,
        tc.len() == if grow { len + 1 } else { len },
        tc[0] as int == n,
        forall|j: int| 1 <= j < len ==> #[trigger] tc[j] == sc[j - 1],
        grow ==> tc[len] == sc[len - 1],
    ensures
        tc.no_duplicates(),
{
    assert forall|i: int, j: int|
        0 <= i < tc.len() && 0 <= j < tc.len() && i != j implies tc[i] != tc[j] by {
        if i >= 1 && i < len {
            assert(tc[i] == sc[i - 1]);
        }
        if j >= 1 && j < len {
            assert(tc[j] == sc[j - 1]);
        }
    }
}

/// A running snake whose next head cell is one of its body cells other than
/// the tail, which moves away on that tick, loses on that tick.
pub proof fn lemma_collision_loses(s: Snake, t: Snake, draw: int, j: int)
    requires
        s.wf(),
        s.state_spec() == GameState::Running,
        occupancy_matches(s),
        s.cells_spec().no_duplicates(),
        0 <= j < s.body_spec().len() - 1,
        s.body_spec()[j] == s.next_head(s.direction_spec()),
        ticked(s, t, draw),
    ensures
        t.state_spec() == GameState::Lost,
{
    let w = s.world_spec();
    let width = w.width_spec() as int;
    let len = s.body_spec().len() as int;
    let sc = s.cells_spec();
    lemma_index_in_board(s.body_spec()[j], width, w.height_spec() as int);
    lemma_index_in_board(s.body_spec()[len - 1], width, w.height_spec() as int);
    let idx = sc[j] as int;
    assert(idx == cell_index(s.body_spec()[j], width));
    assert(sc.contains(sc[j]));
    assert(w.board_spec()[idx]);
    assert(sc[j] != sc[len - 1]);
    assert(sc[len - 1] as int == cell_index(s.body_spec().last(), width));
    assert(w.board_spec().update(sc[len - 1] as int, false)[idx]);
}

/// Once the game is lost, a tick changes nothing: the body, the board and
/// the status stay as they are.
pub proof fn lemma_lost_is_final(s: Snake, t: Snake, draw: int)
    requires
        s.state_spec() == GameState::Lost,
        ticked(s, t, draw),
    ensures
        t == s,
{
}

/// When the next head cell is the reward cell, the snake grows by exactly
/// one cell on that tick, and the reward cell drawn anew lies on a cell that
/// was free when it was drawn.
pub proof fn lemma_growth(s: Snake, t: Snake, draw: int)
    requires
        s.wf(),
        s.state_spec() == GameState::Running,
        s.world_spec().reward_spec() == Some(s.next_head(s.direction_spec())),
        ticked(s, t, draw),
    ensures
        t.body_spec().len() == s.body_spec().len() + 1,
        t.world_spec().reward_spec() matches Some(c) ==> !s.world_spec().board_spec()[cell_index(
            c,
            s.world_spec().width_spec() as int,
        )],
{
    let w = s.world_spec();
    let b = w.board_spec();
    let width = w.width_spec() as int;
    if t.world_spec().reward_spec() is Some {
        let m = count_free(b) as int;
        let k = choose|k: int|
            #[trigger] is_nth_free(b, k, draw % m) && t.world_spec().reward_spec() == Some(
                cell_of_index(k, width),
            );
        lemma_cell_of_index(k, width, w.height_spec() as int);
    }
}

} // verus!
