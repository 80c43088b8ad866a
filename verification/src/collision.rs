//! The two collision passes of a tick: the rope against every enemy, and
//! every enemy against every other.

use vstd::prelude::*;
use crate::enemy::{all_enemies_wf, enemy_models, resolved_pair, Enemy, EnemyModel};
use crate::rope::Rope;
use crate::vec2::Vector;

verus! {

/// How near the centre of an enemy may come to a point of the rope: half
/// the rope's thickness plus the enemy's radius.
pub open spec fn rope_reach(thickness: int, radius: int) -> int {
    thickness / 2 + radius
}

/// The enemy after it has been pushed away from the first `k` points of the
/// rope, one after the other.
pub open spec fn pushed_from_points(
    e: EnemyModel,
    points: Seq<Vector>,
    k: nat,
    thickness: int,
) -> EnemyModel
    decreases k,
{
    if k == 0 {
        e
    } else {
        let prior = pushed_from_points(e, points, (k - 1) as nat, thickness);
        prior.pushed_from(points[k - 1], rope_reach(thickness, prior.radius))
    }
}

/// The enemies after each has been pushed away from every point of the
/// rope, from the anchor outward.
pub open spec fn pushed_from_rope(
    enemies: Seq<EnemyModel>,
    points: Seq<Vector>,
    thickness: int,
) -> Seq<EnemyModel> {
    Seq::new(
        enemies.len(),
        |j: int| pushed_from_points(enemies[j], points, points.len(), thickness),
    )
}

/// The enemies after the overlap of the `i`-th and the `j`-th has been
/// resolved.
pub open spec fn resolved_at(enemies: Seq<EnemyModel>, i: int, j: int) -> Seq<EnemyModel> {
    let pair = resolved_pair(enemies[i], enemies[j]);
    enemies.update(i, pair.0).update(j, pair.1)
}

/// The enemies after the `i`-th has been resolved against its next `k`
/// successors, the nearest first.
pub open spec fn resolved_row(enemies: Seq<EnemyModel>, i: int, k: nat) -> Seq<EnemyModel>
    decreases k,
{
    if k == 0 {
        enemies
    } else {
        resolved_at(resolved_row(enemies, i, (k - 1) as nat), i, i + k)
    }
}

/// The enemies after each of the first `n` has been resolved against all
/// its successors, the first enemy first.
pub open spec fn resolved_rows(enemies: Seq<EnemyModel>, n: nat) -> Seq<EnemyModel>
    decreases n,
{
    if n == 0 {
        enemies
    } else {
        resolved_row(resolved_rows(enemies, (n - 1) as nat), n - 1, (enemies.len() - n) as nat)
    }
}

/// The enemies after every pair has been resolved once, in the order
/// (0, 1), (0, 2), .., (1, 2), .. of their places.
pub open spec fn resolved_all(enemies: Seq<EnemyModel>) -> Seq<EnemyModel> {
    resolved_rows(enemies, enemies.len())
}

/// Each enemy of `after` differs from the one in its place in `before` in
/// its position at most: the two sequences are as long, radius for radius
/// and previous position for previous position the same.
pub open spec fn only_moved(after: Seq<EnemyModel>, before: Seq<EnemyModel>) -> bool {
    &&& after.len() == before.len()
    &&& forall|j: int| 0 <= j < before.len() ==> (#[trigger] after[j]).only_moved(before[j])
}

/// Pushing an enemy away from points changes its position at most.
pub proof fn lemma_pushed_only_moved(e: EnemyModel, points: Seq<Vector>, k: nat, thickness: int)
    ensures
        pushed_from_points(e, points, k, thickness).only_moved(e),
    decreases k,
{
    if k > 0 {
        lemma_pushed_only_moved(e, points, (k - 1) as nat, thickness);
    }
}

/// The rope's pushes change no more of the enemies than their positions.
pub proof fn lemma_pushed_from_rope_only_moved(
    enemies: Seq<EnemyModel>,
    points: Seq<Vector>,
    thickness: int,
)
    ensures
        only_moved(pushed_from_rope(enemies, points, thickness), enemies),
{
    assert forall|j: int| 0 <= j < enemies.len() implies (#[trigger] pushed_from_rope(
        enemies,
        points,
        thickness,
    )[j]).only_moved(enemies[j]) by {
        lemma_pushed_only_moved(enemies[j], points, points.len(), thickness);
    }
}

/// Resolving the `i`-th enemy against its next `k` successors changes no
/// more of the enemies than their positions.
pub proof fn lemma_resolved_row_only_moved(enemies: Seq<EnemyModel>, i: int, k: nat)
    requires
        0 <= i,
        i + k < enemies.len(),
    ensures
        only_moved(resolved_row(enemies, i, k), enemies),
    decreases k,
{
    if k > 0 {
        lemma_resolved_row_only_moved(enemies, i, (k - 1) as nat);
    }
}

/// Resolving each of the first `n` enemies against all its successors
/// changes no more of the enemies than their positions.
pub proof fn lemma_resolved_rows_only_moved(enemies: Seq<EnemyModel>, n: nat)
    requires
        n <= enemies.len(),
    ensures
        only_moved(resolved_rows(enemies, n), enemies),
    decreases n,
{
    if n > 0 {
        lemma_resolved_rows_only_moved(enemies, (n - 1) as nat);
        let before = resolved_rows(enemies, (n - 1) as nat);
        lemma_resolved_row_only_moved(before, n - 1, (enemies.len() - n) as nat);
    }
}

/// Pushes every enemy out of every point of the rope that it overlaps, one
/// point after the other from the anchor outward.  The rope is not moved,
/// and only the position of an enemy is corrected: where it was one step
/// ago is left as it is.
pub fn rope_collisions(rope: &Rope, enemies: &mut Vec<Enemy>)
    requires
        rope.wf(),
        all_enemies_wf(enemy_models(old(enemies)@)),
    ensures
        all_enemies_wf(enemy_models(final(enemies)@)),
        enemy_models(final(enemies)@) == pushed_from_rope(
            enemy_models(old(enemies)@),
            rope@.points,
            rope@.thickness,
        ),
        only_moved(enemy_models(final(enemies)@), enemy_models(old(enemies)@)),
{
    let ghost before = enemy_models(enemies@);
    let points: usize = rope.len();
    let count: usize = enemies.len();
    let half: i64 = rope.thickness() / 2;
    let mut i: usize = 0;
    while i < points
        invariant
            0 <= i <= points,
            points == rope@.points.len(),
            rope.wf(),
            half == rope@.thickness / 2,
            enemies@.len() == count,
            before.len() == count,
            all_enemies_wf(enemy_models(enemies@)),
            forall|j: int|
                0 <= j < count ==> (#[trigger] enemy_models(enemies@)[j]) == pushed_from_points(
                    before[j],
                    rope@.points,
                    i as nat,
                    rope@.thickness,
                ),
        decreases points - i,
    {
        let point = rope.point(i);
        let mut j: usize = 0;
        while j < count
            invariant
                0 <= j <= count,
                0 <= i < points,
                points == rope@.points.len(),
                rope.wf(),
                half == rope@.thickness / 2,
                point@ == rope@.points[i as int],
                point@.in_world(),
                enemies@.len() == count,
                before.len() == count,
                all_enemies_wf(enemy_models(enemies@)),
                forall|m: int|
                    0 <= m < j ==> (#[trigger] enemy_models(enemies@)[m]) == pushed_from_points(
                        before[m],
                        rope@.points,
                        (i + 1) as nat,
                        rope@.thickness,
                    ),
                forall|m: int|
                    j <= m < count ==> (#[trigger] enemy_models(enemies@)[m])
                        == pushed_from_points(before[m], rope@.points, i as nat, rope@.thickness),
            decreases count - j,
        {
            let ghost models_before = enemy_models(enemies@);
            let mut enemy: Enemy = enemies[j];
            assert(enemy@ == models_before[j as int]);
            assert(models_before[j as int].wf());
            enemy.push_from(point, half + enemy.radius());
            enemies[j] = enemy;
            proof {
                assert(enemy_models(enemies@) =~= models_before.update(j as int, enemy@));
            }
            j += 1;
        }
        i += 1;
    }
    proof {
        assert(enemy_models(enemies@) =~= pushed_from_rope(
            before,
            rope@.points,
            rope@.thickness,
        ));
        lemma_pushed_from_rope_only_moved(before, rope@.points, rope@.thickness);
    }
}

/// Resolves the overlap of every pair of enemies once, in the order
/// (0, 1), (0, 2), .., (1, 2), .. of their places.
pub fn enemy_collisions(enemies: &mut Vec<Enemy>)
    requires
        all_enemies_wf(enemy_models(old(enemies)@)),
    ensures
        all_enemies_wf(enemy_models(final(enemies)@)),
        enemy_models(final(enemies)@) == resolved_all(enemy_models(old(enemies)@)),
        only_moved(enemy_models(final(enemies)@), enemy_models(old(enemies)@)),
{
    let ghost before = enemy_models(enemies@);
    proof {
        lemma_resolved_rows_only_moved(before, before.len());
    }
    let count: usize = enemies.len();
    let mut i: usize = 0;
    while i < count
        invariant
            0 <= i <= count,
            enemies@.len() == count,
            before.len() == count,
            all_enemies_wf(enemy_models(enemies@)),
            enemy_models(enemies@) == resolved_rows(before, i as nat),
        decreases count - i,
    {
        let ghost row_start = enemy_models(enemies@);
        let mut j: usize = i + 1;
        while j < count
            invariant
                0 <= i < j <= count,
                enemies@.len() == count,
                row_start.len() == count,
                all_enemies_wf(enemy_models(enemies@)),
                enemy_models(enemies@) == resolved_row(row_start, i as int, (j - i - 1) as nat),
            decreases count - j,
        {
            let ghost models_before = enemy_models(enemies@);
            let mut a: Enemy = enemies[i];
            let mut b: Enemy = enemies[j];
            assert(a@ == models_before[i as int] && b@ == models_before[j as int]);
            assert(models_before[i as int].wf() && models_before[j as int].wf());
            Enemy::resolve_pair(&mut a, &mut b);
            enemies[i] = a;
            enemies[j] = b;
            proof {
                assert(enemy_models(enemies@) =~= resolved_at(
                    models_before,
                    i as int,
                    j as int,
                ));
            }
            j += 1;
        }
        i += 1;
    }
}

} // verus!
