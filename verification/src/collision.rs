//! What a collision pass does, stated over plain values, and what follows
//! from that statement.
//!
//! Shots are taken in the order in which the player holds them. A shot that
//! shares its cell with an invader removes the first such invader and is
//! itself used up; any other shot stays.

use vstd::prelude::*;
use crate::invaders::{first_at, is_first_at, occupied, struck, Invader};
use crate::player::shot_at;
use crate::shot::ShotView;

verus! {

/// The shots and invaders that are left after a collision pass.
pub struct Outcome {
    /// The shots that hit nothing, in their old order.
    pub shots: Seq<ShotView>,
    /// The invaders that were not hit, in their old order.
    pub army: Seq<Invader>,
}

/// One shot meets what earlier shots have left of the swarm.
pub open spec fn resolve_one(before: Outcome, shot: ShotView) -> Outcome {
    if occupied(before.army, shot.x as int, shot.y as int) {
        Outcome { shots: before.shots, army: struck(before.army, shot.x as int, shot.y as int) }
    } else {
        Outcome { shots: before.shots.push(shot), army: before.army }
    }
}

/// The outcome of a collision pass of `shots` against `army`.
pub open spec fn resolved(shots: Seq<ShotView>, army: Seq<Invader>) -> Outcome
    decreases shots.len(),
{
    if shots.len() == 0 {
        Outcome { shots: Seq::empty(), army }
    } else {
        resolve_one(resolved(shots.drop_last(), army), shots.last())
    }
}

/// Among the invaders in one cell there is a first one.
pub proof fn lemma_first_exists(army: Seq<Invader>, w: int, x: int, y: int)
    requires
        0 <= w < army.len(),
        army[w].x == x,
        army[w].y == y,
    ensures
        occupied(army, x, y),
        is_first_at(army, first_at(army, x, y), x, y),
    decreases w,
{
    if exists|j: int| 0 <= j < w && (#[trigger] army[j]).x == x && army[j].y == y {
        let j = choose|j: int| 0 <= j < w && (#[trigger] army[j]).x == x && army[j].y == y;
        lemma_first_exists(army, j, x, y);
    } else {
        assert(is_first_at(army, w, x, y));
    }
}

/// A hit removes exactly one invader, the first in the cell; every other
/// invader stays, and none is added.
pub proof fn lemma_struck(army: Seq<Invader>, x: int, y: int)
    requires
        occupied(army, x, y),
    ensures
        struck(army, x, y).len() + 1 == army.len(),
        is_first_at(army, first_at(army, x, y), x, y),
        forall|i: int|
            0 <= i < struck(army, x, y).len() ==> army.contains(#[trigger] struck(army, x, y)[i]),
        forall|i: int|
            0 <= i < army.len() && i != first_at(army, x, y) ==> struck(army, x, y).contains(
                #[trigger] army[i],
            ),
{
    let w = choose|i: int| 0 <= i < army.len() && (#[trigger] army[i]).x == x && army[i].y == y;
    lemma_first_exists(army, w, x, y);
    let c = first_at(army, x, y);
    let rest = struck(army, x, y);
    assert(rest == army.remove(c));
    army.remove_ensures(c);
    assert forall|i: int| 0 <= i < rest.len() implies army.contains(#[trigger] rest[i]) by {
        if i < c {
            assert(rest[i] == army[i]);
        } else {
            assert(rest[i] == army[i + 1]);
        }
    }
    assert forall|i: int| 0 <= i < army.len() && i != c implies rest.contains(#[trigger] army[i]) by {
        if i < c {
            assert(rest[i] == army[i]);
        } else {
            assert(rest[i - 1] == army[i]);
        }
    }
}

/// A pass in which no shot shares a cell with an invader changes nothing. In
/// particular a pass with no shots, or with no invaders, changes nothing.
pub proof fn lemma_no_hit_no_change(shots: Seq<ShotView>, army: Seq<Invader>)
    requires
        forall|i: int| 0 <= i < shots.len() ==> !occupied(army, (#[trigger] shots[i]).x as int, shots[i].y as int),
    ensures
        resolved(shots, army) == (Outcome { shots, army }),
    decreases shots.len(),
{
    if shots.len() > 0 {
        let front = shots.drop_last();
        assert forall|i: int| 0 <= i < front.len() implies !occupied(
            army,
            (#[trigger] front[i]).x as int,
            front[i].y as int,
        ) by {
            assert(front[i] == shots[i]);
        }
        lemma_no_hit_no_change(front, army);
        assert(shots.last() == shots[shots.len() - 1]);
        assert(front.push(shots.last()) =~= shots);
    } else {
        assert(shots =~= Seq::empty());
    }
}

/// With no shots or no invaders a collision pass is a no-op.
pub proof fn lemma_nothing_to_resolve(shots: Seq<ShotView>, army: Seq<Invader>)
    requires
        shots.len() == 0 || army.len() == 0,
    ensures
        resolved(shots, army) == (Outcome { shots, army }),
{
    lemma_no_hit_no_change(shots, army);
}

/// What holds after every collision pass: nothing is added on either side; as
/// many shots as invaders are gone; and no shot that is left shares a cell with
/// an invader that is left.
pub proof fn lemma_resolved(shots: Seq<ShotView>, army: Seq<Invader>)
    ensures
        resolved(shots, army).shots.len() <= shots.len(),
        resolved(shots, army).army.len() <= army.len(),
        shots.len() - resolved(shots, army).shots.len() == army.len() - resolved(shots, army).army.len(),
        forall|i: int|
            0 <= i < resolved(shots, army).shots.len() ==> shots.contains(
                #[trigger] resolved(shots, army).shots[i],
            ),
        forall|j: int|
            0 <= j < resolved(shots, army).army.len() ==> army.contains(
                #[trigger] resolved(shots, army).army[j],
            ),
        forall|i: int, j: int|
            0 <= i < resolved(shots, army).shots.len() && 0 <= j < resolved(shots, army).army.len()
                ==> !(#[trigger] resolved(shots, army).shots[i]).is_at(
                (#[trigger] resolved(shots, army).army[j]).x as int,
                resolved(shots, army).army[j].y as int,
            ),
    decreases shots.len(),
{
    if shots.len() > 0 {
        let front = shots.drop_last();
        let shot = shots.last();
        let before = resolved(front, army);
        let after = resolved(shots, army);
        lemma_resolved(front, army);
        assert(after == resolve_one(before, shot));
        assert forall|i: int| 0 <= i < before.shots.len() implies shots.contains(
            #[trigger] before.shots[i],
        ) by {
            let k = choose|k: int| 0 <= k < front.len() && front[k] == before.shots[i];
            assert(shots[k] == front[k]);
        }
        assert(shots[shots.len() - 1] == shot);
        if occupied(before.army, shot.x as int, shot.y as int) {
            lemma_struck(before.army, shot.x as int, shot.y as int);
            assert forall|j: int| 0 <= j < after.army.len() implies army.contains(
                #[trigger] after.army[j],
            ) && before.army.contains(after.army[j]) by {
                let k = choose|k: int| 0 <= k < before.army.len() && before.army[k] == after.army[j];
                assert(army.contains(before.army[k]));
            }
            assert forall|i: int, j: int|
                0 <= i < after.shots.len() && 0 <= j < after.army.len() implies !(
            #[trigger] after.shots[i]).is_at((#[trigger] after.army[j]).x as int, after.army[j].y as int) by {
                let k = choose|k: int| 0 <= k < before.army.len() && before.army[k] == after.army[j];
                assert(!before.shots[i].is_at(before.army[k].x as int, before.army[k].y as int));
            }
        } else {
            assert forall|i: int| 0 <= i < after.shots.len() implies shots.contains(
                #[trigger] after.shots[i],
            ) by {
                if i < before.shots.len() {
                    assert(after.shots[i] == before.shots[i]);
                }
            }
            assert forall|i: int, j: int|
                0 <= i < after.shots.len() && 0 <= j < after.army.len() implies !(
            #[trigger] after.shots[i]).is_at((#[trigger] after.army[j]).x as int, after.army[j].y as int) by {
                if i < before.shots.len() {
                    assert(after.shots[i] == before.shots[i]);
                }
            }
        }
    }
}

/// A pass uses up a shot exactly when some shot shares a cell with an invader.
pub proof fn lemma_hit_iff_overlap(shots: Seq<ShotView>, army: Seq<Invader>)
    ensures
        resolved(shots, army).shots.len() < shots.len() <==> exists|i: int|
            0 <= i < shots.len() && occupied(army, (#[trigger] shots[i]).x as int, shots[i].y as int),
    decreases shots.len(),
{
    lemma_resolved(shots, army);
    if exists|i: int|
        0 <= i < shots.len() && occupied(army, (#[trigger] shots[i]).x as int, shots[i].y as int) {
        let i = choose|i: int|
            0 <= i < shots.len() && occupied(army, (#[trigger] shots[i]).x as int, shots[i].y as int);
        let front = shots.drop_last();
        lemma_resolved(front, army);
        lemma_hit_iff_overlap(front, army);
        if i < front.len() {
            assert(front[i] == shots[i]);
        } else {
            assert(shots.last() == shots[i]);
            if resolved(front, army).shots.len() == front.len() {
                if exists|k: int|
                    0 <= k < front.len() && occupied(army, (#[trigger] front[k]).x as int, front[k].y as int) {
                } else {
                    lemma_no_hit_no_change(front, army);
                }
            }
        }
    } else {
        lemma_no_hit_no_change(shots, army);
    }
}

/// A shot in whose cell no invader stood is still there after the pass.
pub proof fn lemma_miss_keeps_shot(shots: Seq<ShotView>, army: Seq<Invader>, i: int)
    requires
        0 <= i < shots.len(),
        !occupied(army, shots[i].x as int, shots[i].y as int),
    ensures
        resolved(shots, army).shots.contains(shots[i]),
    decreases shots.len(),
{
    let front = shots.drop_last();
    let before = resolved(front, army);
    let after = resolved(shots, army);
    lemma_resolved(front, army);
    if i < front.len() {
        assert(front[i] == shots[i]);
        lemma_miss_keeps_shot(front, army, i);
        let k = choose|k: int| 0 <= k < before.shots.len() && before.shots[k] == shots[i];
        assert(after.shots[k] == shots[i]);
    } else {
        let shot = shots.last();
        assert(shot == shots[i]);
        if occupied(before.army, shot.x as int, shot.y as int) {
            let j = choose|j: int|
                0 <= j < before.army.len() && (#[trigger] before.army[j]).x == shot.x && before.army[j].y
                    == shot.y;
            assert(army.contains(before.army[j]));
            let l = choose|l: int| 0 <= l < army.len() && army[l] == before.army[j];
            assert(army[l].x == shot.x && army[l].y == shot.y);
        }
        assert(after.shots[before.shots.len() as int] == shot);
    }
}

/// An invader in whose cell no shot was is still there after the pass.
pub proof fn lemma_miss_keeps_invader(shots: Seq<ShotView>, army: Seq<Invader>, j: int)
    requires
        0 <= j < army.len(),
        !shot_at(shots, army[j].x as int, army[j].y as int),
    ensures
        resolved(shots, army).army.contains(army[j]),
    decreases shots.len(),
{
    if shots.len() == 0 {
        assert(resolved(shots, army).army[j] == army[j]);
    } else {
        let front = shots.drop_last();
        let shot = shots.last();
        let before = resolved(front, army);
        assert forall|i: int| 0 <= i < front.len() implies !(#[trigger] front[i]).is_at(
            army[j].x as int,
            army[j].y as int,
        ) by {
            assert(front[i] == shots[i]);
        }
        lemma_miss_keeps_invader(front, army, j);
        assert(shots[shots.len() - 1] == shot);
        assert(!shot.is_at(army[j].x as int, army[j].y as int));
        let k = choose|k: int| 0 <= k < before.army.len() && before.army[k] == army[j];
        if occupied(before.army, shot.x as int, shot.y as int) {
            lemma_struck(before.army, shot.x as int, shot.y as int);
            assert(k != first_at(before.army, shot.x as int, shot.y as int));
            assert(struck(before.army, shot.x as int, shot.y as int).contains(before.army[k]));
        }
    }
}

/// The test that an invader is in column `x`, row `y`, as a function.
pub open spec fn invader_in(x: int, y: int) -> spec_fn(Invader) -> bool {
    |i: Invader| i.x == x && i.y == y
}

/// The test that a shot is in column `x`, row `y`, as a function.
pub open spec fn shot_in(x: int, y: int) -> spec_fn(ShotView) -> bool {
    |s: ShotView| s.is_at(x, y)
}

/// How many invaders of `army` are in column `x`, row `y`.
pub open spec fn invaders_in(army: Seq<Invader>, x: int, y: int) -> nat {
    army.filter(invader_in(x, y)).len()
}

/// How many shots of `shots` are in column `x`, row `y`.
pub open spec fn shots_in(shots: Seq<ShotView>, x: int, y: int) -> nat {
    shots.filter(shot_in(x, y)).len()
}

/// The smaller of two numbers.
pub open spec fn least(a: nat, b: nat) -> nat {
    if a <= b {
        a
    } else {
        b
    }
}

/// A cell is occupied exactly if at least one invader is counted in it.
pub proof fn lemma_occupied_iff_counted(army: Seq<Invader>, x: int, y: int)
    ensures
        occupied(army, x, y) <==> invaders_in(army, x, y) > 0,
{
    let there = army.filter(invader_in(x, y));
    if occupied(army, x, y) {
        let i = choose|i: int| 0 <= i < army.len() && (#[trigger] army[i]).x == x && army[i].y == y;
        army.lemma_filter_contains(invader_in(x, y), i);
    }
    if there.len() > 0 {
        army.lemma_filter_pred(invader_in(x, y), 0);
        assert(there.contains(there[0]));
        army.lemma_filter_contains_rev(invader_in(x, y), there[0]);
        let i = choose|i: int| 0 <= i < army.len() && army[i] == there[0];
        assert(army[i].x == x && army[i].y == y);
    }
}

/// A hit in a cell takes one invader out of that cell's count and leaves the
/// count of every other cell as it was.
pub proof fn lemma_struck_count(army: Seq<Invader>, x: int, y: int, cx: int, cy: int)
    requires
        occupied(army, x, y),
    ensures
        invaders_in(struck(army, x, y), cx, cy) + (if cx == x && cy == y {
            1nat
        } else {
            0nat
        }) == invaders_in(army, cx, cy),
{
    lemma_struck(army, x, y);
    let k = first_at(army, x, y);
    let test = invader_in(cx, cy);
    let head = army.subrange(0, k);
    let tail = army.subrange(k + 1, army.len() as int);
    let one = Seq::<Invader>::empty().push(army[k]);
    assert(army =~= head + one + tail);
    assert(struck(army, x, y) =~= head + tail);
    Seq::filter_distributes_over_add(head + one, tail, test);
    Seq::filter_distributes_over_add(head, one, test);
    Seq::filter_distributes_over_add(head, tail, test);
    Seq::<Invader>::empty().lemma_filter_push(army[k], test);
    Seq::<Invader>::empty().lemma_filter_len(test);
}

/// What a collision pass does to every single cell: as many shots and as many
/// invaders leave the cell as the smaller of the two counts in it. So a lone
/// shot and a lone invader in one cell are both gone afterwards, and a cell
/// that held only shots or only invaders keeps them all.
pub proof fn lemma_resolved_by_cell(shots: Seq<ShotView>, army: Seq<Invader>, x: int, y: int)
    ensures
        shots_in(resolved(shots, army).shots, x, y) + least(
            shots_in(shots, x, y),
            invaders_in(army, x, y),
        ) == shots_in(shots, x, y),
        invaders_in(resolved(shots, army).army, x, y) + least(
            shots_in(shots, x, y),
            invaders_in(army, x, y),
        ) == invaders_in(army, x, y),
    decreases shots.len(),
{
    if shots.len() == 0 {
        shots.lemma_filter_len(shot_in(x, y));
        assert(resolved(shots, army).shots =~= shots);
    } else {
        let front = shots.drop_last();
        let shot = shots.last();
        let before = resolved(front, army);
        lemma_resolved_by_cell(front, army, x, y);
        assert(shots =~= front.push(shot));
        front.lemma_filter_push(shot, shot_in(x, y));
        lemma_occupied_iff_counted(before.army, shot.x as int, shot.y as int);
        if occupied(before.army, shot.x as int, shot.y as int) {
            lemma_struck_count(before.army, shot.x as int, shot.y as int, x, y);
        } else {
            before.shots.lemma_filter_push(shot, shot_in(x, y));
        }
    }
}

} // verus!
