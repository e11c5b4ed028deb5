//! Turning one tick's contacts into damage and into the list of projectiles
//! to remove.

use std::collections::HashMap;
use vstd::prelude::*;
use crate::collision::{CollisionPair, LiveBullet};

verus! {

broadcast use vstd::std_specs::hash::group_hash_axioms;

/// Health left after a hit: the difference, held at zero.
pub open spec fn health_after(points: int, amount: int) -> int {
    if points - amount > 0 {
        points - amount
    } else {
        0
    }
}

/// Health left after `hits` hits of `amount` each, one after the other.
pub open spec fn health_after_hits(points: int, amount: int, hits: nat) -> int
    decreases hits,
{
    if hits == 0 {
        points
    } else {
        health_after(health_after_hits(points, amount, (hits - 1) as nat), amount)
    }
}

/// The other end of a contact, seen from `entity`; `None` where the contact
/// does not involve it.
pub open spec fn partner(pair: CollisionPair, entity: u64) -> Option<u64> {
    if pair.first == entity {
        Some(pair.second)
    } else if pair.second == entity {
        Some(pair.first)
    } else {
        None
    }
}

/// The contact is a hit of the projectile on `target`: it joins the two,
/// and the target is not the projectile's source.
pub open spec fn strikes(live: LiveBullet, pair: CollisionPair, target: u64) -> bool {
    partner(pair, live.entity) == Some(target) && target != live.bullet.source
}

/// The contact is a hit of the projectile on something, damageable or not.
pub open spec fn is_hit(live: LiveBullet, pair: CollisionPair) -> bool {
    match partner(pair, live.entity) {
        Some(other) => other != live.bullet.source,
        None => false,
    }
}

/// The projectile registered at least one hit among the contacts.
pub open spec fn struck(live: LiveBullet, pairs: Seq<CollisionPair>) -> bool {
    exists|j: int| 0 <= j < pairs.len() && is_hit(live, #[trigger] pairs[j])
}

/// Damage that one projectile deals to `target` over the contacts: its full
/// damage for each contact that is a hit on the target.
pub open spec fn damage_from(live: LiveBullet, pairs: Seq<CollisionPair>, target: u64) -> nat
    decreases pairs.len(),
{
    if pairs.len() == 0 {
        0
    } else {
        damage_from(live, pairs.drop_last(), target) + if strikes(live, pairs.last(), target) {
            live.bullet.damage as nat
        } else {
            0
        }
    }
}

/// Damage that all the projectiles together deal to `target` in one tick.
pub open spec fn damage_taken(
    bullets: Seq<LiveBullet>,
    pairs: Seq<CollisionPair>,
    target: u64,
) -> nat
    decreases bullets.len(),
{
    if bullets.len() == 0 {
        0
    } else {
        damage_taken(bullets.drop_last(), pairs, target) + damage_from(
            bullets.last(),
            pairs,
            target,
        )
    }
}

/// The projectiles to remove after a tick: those that registered a hit,
/// each named once, in the order of the live projectiles.
pub open spec fn despawn_list(bullets: Seq<LiveBullet>, pairs: Seq<CollisionPair>) -> Seq<u64>
    decreases bullets.len(),
{
    if bullets.len() == 0 {
        Seq::empty()
    } else if struck(bullets.last(), pairs) {
        despawn_list(bullets.drop_last(), pairs).push(bullets.last().entity)
    } else {
        despawn_list(bullets.drop_last(), pairs)
    }
}

/// How often `entity` is named in a list.
pub open spec fn occurrences(list: Seq<u64>, entity: u64) -> nat
    decreases list.len(),
{
    if list.len() == 0 {
        0
    } else {
        occurrences(list.drop_last(), entity) + if list.last() == entity {
            1nat
        } else {
            0nat
        }
    }
}

/// No two live projectiles share an identifier.
pub open spec fn distinct_entities(bullets: Seq<LiveBullet>) -> bool {
    forall|i: int, j: int|
        0 <= i < j < bullets.len() ==> (#[trigger] bullets[i]).entity != (
        #[trigger] bullets[j]).entity
}

/// Takes `amount` from `points`, stopping at zero.
pub fn apply_damage(points: u16, amount: u16) -> (left: u16)
    ensures
        left == health_after(points as int, amount as int),
        left <= points,
{
    points.saturating_sub(amount)
}

/// The other end of a contact seen from `entity`, if the contact involves it.
pub fn other_end(pair: &CollisionPair, entity: u64) -> (other: Option<u64>)
    ensures
        other == partner(*pair, entity),
{
    if pair.first == entity {
        Some(pair.second)
    } else if pair.second == entity {
        Some(pair.first)
    } else {
        None
    }
}

/// Resolves one tick's contacts. Every contact of a live projectile with
/// anything but its source is a hit: a target that has health loses the
/// projectile's damage, held at zero, and the projectile is marked. An
/// entity without health counts as a hit all the same. The marked
/// projectiles come back, each once, for the caller to remove; health
/// entries are neither added nor dropped.
pub fn handle_bullet_collisions(
    bullets: &Vec<LiveBullet>,
    collisions: &Vec<CollisionPair>,
    healths: &mut HashMap<u64, u16>,
) -> (despawned: Vec<u64>)
    ensures
        final(healths)@.dom() == old(healths)@.dom(),
        forall|e: u64|
            old(healths)@.contains_key(e) ==> (#[trigger] final(healths)@[e]) as int
                == health_after(
                old(healths)@[e] as int,
                damage_taken(bullets@, collisions@, e) as int,
            ) && final(healths)@[e] <= old(healths)@[e],
        despawned@ == despawn_list(bullets@, collisions@),
{
    let mut despawned: Vec<u64> = Vec::new();
    let mut i: usize = 0;
    while i < bullets.len()
        invariant
            0 <= i <= bullets@.len(),
            healths@.dom() == old(healths)@.dom(),
            forall|e: u64|
                old(healths)@.contains_key(e) ==> (#[trigger] healths@[e]) as int == health_after(
                    old(healths)@[e] as int,
                    damage_taken(bullets@.take(i as int), collisions@, e) as int,
                ),
            despawned@ == despawn_list(bullets@.take(i as int), collisions@),
        decreases bullets@.len() - i,
    {
        let live = bullets[i];
        let ghost before = bullets@.take(i as int);
        let mut hit = false;
        let mut j: usize = 0;
        while j < collisions.len()
            invariant
                0 <= j <= collisions@.len(),
                0 <= i < bullets@.len(),
                live == bullets@[i as int],
                before == bullets@.take(i as int),
                healths@.dom() == old(healths)@.dom(),
                forall|e: u64|
                    old(healths)@.contains_key(e) ==> (#[trigger] healths@[e]) as int == health_after(
                        old(healths)@[e] as int,
                        (damage_taken(before, collisions@, e) + damage_from(
                            live,
                            collisions@.take(j as int),
                            e,
                        )) as int,
                    ),
                hit == struck(live, collisions@.take(j as int)),
            decreases collisions@.len() - j,
        {
            let ghost seen = collisions@.take(j as int);
            let ghost seen_next = collisions@.take(j + 1);
            proof {
                assert(seen_next.drop_last() =~= seen);
                assert(seen_next.last() == collisions@[j as int]);
            }
            let ghost was_hit = hit;
            match other_end(&collisions[j], live.entity) {
                Some(other) => {
                    if other != live.bullet.source {
                        let current = match healths.get(&other) {
                            Some(points) => Some(*points),
                            None => None,
                        };
                        if let Some(points) = current {
                            healths.insert(other, apply_damage(points, live.bullet.damage));
                        }
                        hit = true;
                    }
                },
                None => {},
            }
            proof {
                let pair = collisions@[j as int];
                if is_hit(live, pair) {
                    assert(is_hit(live, seen_next[j as int]));
                } else {
                    if struck(live, seen_next) {
                        let k = choose|k: int|
                            0 <= k < seen_next.len() && is_hit(live, #[trigger] seen_next[k]);
                        assert(seen[k] == seen_next[k]);
                    }
                }
                if was_hit {
                    let k = choose|k: int| 0 <= k < seen.len() && is_hit(live, #[trigger] seen[k]);
                    assert(seen_next[k] == seen[k]);
                }
                assert(healths@.dom() =~= old(healths)@.dom());
            }
            j = j + 1;
        }
        if hit {
            despawned.push(live.entity);
        }
        proof {
            let upto = bullets@.take(i + 1);
            assert(upto.drop_last() =~= before);
            assert(upto.last() == live);
            assert(collisions@.take(collisions@.len() as int) =~= collisions@);
        }
        i = i + 1;
    }
    proof {
        assert(bullets@.take(bullets@.len() as int) =~= bullets@);
    }
    despawned
}

/// Damage saturation: a hit leaves the difference or zero, never less; a
/// run of equal hits leaves what one hit of their sum would leave, so it
/// reaches zero once the sum covers the health, and zero stays zero.
pub proof fn lemma_damage_saturates(points: int, amount: int, hits: nat)
    requires
        points >= 0,
        amount >= 0,
    ensures
        health_after(points, amount) >= 0,
        health_after(points, amount) == if points >= amount {
            points - amount
        } else {
            0
        },
        health_after(0, amount) == 0,
        health_after_hits(points, amount, hits) == health_after(points, hits * amount),
        hits * amount >= points ==> health_after_hits(points, amount, hits) == 0,
        health_after_hits(points, amount, hits) == 0 ==> health_after_hits(
            points,
            amount,
            hits + 1,
        ) == 0,
    decreases hits,
{
    reveal_with_fuel(health_after_hits, 2);
    if hits > 0 {
        let fewer = (hits - 1) as nat;
        lemma_damage_saturates(points, amount, fewer);
        assert(hits * amount == fewer * amount + amount) by (nonlinear_arith)
            requires
                fewer == hits - 1,
        ;
        assert(fewer * amount >= 0) by (nonlinear_arith)
            requires
                amount >= 0,
        ;
    } else {
        assert(hits * amount == 0) by (nonlinear_arith)
            requires
                hits == 0,
        ;
    }
}

/// Two hits in a row leave what one hit of their sum leaves, so damage
/// from several projectiles in one tick is neither divided nor ranked.
pub proof fn lemma_hits_add_up(points: int, first: int, second: int)
    requires
        points >= 0,
        first >= 0,
        second >= 0,
    ensures
        health_after(health_after(points, first), second) == health_after(points, first + second),
{
}

/// Damage adds up over the live projectiles, so the order in which they
/// are looked at does not matter: two runs of projectiles, one after the
/// other, deal to every target the sum of what each run deals, whichever
/// comes first.
pub proof fn lemma_damage_ignores_order(
    first: Seq<LiveBullet>,
    second: Seq<LiveBullet>,
    pairs: Seq<CollisionPair>,
    target: u64,
)
    ensures
        damage_taken(first + second, pairs, target) == damage_taken(first, pairs, target)
            + damage_taken(second, pairs, target),
        damage_taken(first + second, pairs, target) == damage_taken(second + first, pairs, target),
{
    lemma_damage_adds_up(first, second, pairs, target);
    lemma_damage_adds_up(second, first, pairs, target);
}

proof fn lemma_damage_adds_up(
    first: Seq<LiveBullet>,
    second: Seq<LiveBullet>,
    pairs: Seq<CollisionPair>,
    target: u64,
)
    ensures
        damage_taken(first + second, pairs, target) == damage_taken(first, pairs, target)
            + damage_taken(second, pairs, target),
    decreases second.len(),
{
    if second.len() == 0 {
        assert(first + second =~= first);
    } else {
        let all = first + second;
        assert(all.drop_last() =~= first + second.drop_last());
        assert(all.last() == second.last());
        lemma_damage_adds_up(first, second.drop_last(), pairs, target);
    }
}

/// A projectile deals no damage to its own source, whatever contacts the
/// physics engine reports, and a contact with the source alone is no hit.
pub proof fn lemma_source_unharmed(live: LiveBullet, pairs: Seq<CollisionPair>)
    ensures
        damage_from(live, pairs, live.bullet.source) == 0,
        (forall|j: int|
            0 <= j < pairs.len() ==> partner(#[trigger] pairs[j], live.entity) == Some(
                live.bullet.source,
            ) || partner(pairs[j], live.entity) == None::<u64>) ==> !struck(live, pairs),
    decreases pairs.len(),
{
    if pairs.len() > 0 {
        lemma_source_unharmed(live, pairs.drop_last());
    }
}

/// With distinct identifiers, the list of projectiles to remove names an
/// entity once if a live projectile with that identifier registered a hit,
/// and not at all otherwise.
proof fn lemma_despawn_occurrences(
    bullets: Seq<LiveBullet>,
    pairs: Seq<CollisionPair>,
    entity: u64,
)
    requires
        distinct_entities(bullets),
    ensures
        occurrences(despawn_list(bullets, pairs), entity) == (if exists|k: int|
            0 <= k < bullets.len() && (#[trigger] bullets[k]).entity == entity && struck(
                bullets[k],
                pairs,
            ) {
            1nat
        } else {
            0nat
        }),
    decreases bullets.len(),
{
    if bullets.len() > 0 {
        let front = bullets.drop_last();
        let last = bullets.last();
        assert(distinct_entities(front)) by {
            assert forall|i: int, j: int| 0 <= i < j < front.len() implies (#[trigger] front[i]).entity
                != (#[trigger] front[j]).entity by {
                assert(front[i] == bullets[i]);
                assert(front[j] == bullets[j]);
            }
        }
        lemma_despawn_occurrences(front, pairs, entity);
        let in_front = exists|k: int|
            0 <= k < front.len() && (#[trigger] front[k]).entity == entity && struck(
                front[k],
                pairs,
            );
        let in_all = exists|k: int|
            0 <= k < bullets.len() && (#[trigger] bullets[k]).entity == entity && struck(
                bullets[k],
                pairs,
            );
        let rest = despawn_list(front, pairs);
        if in_front {
            let k = choose|k: int|
                0 <= k < front.len() && (#[trigger] front[k]).entity == entity && struck(
                    front[k],
                    pairs,
                );
            assert(bullets[k] == front[k]);
            assert(bullets[k].entity != bullets[bullets.len() - 1].entity);
            assert(in_all);
        }
        if in_all && !in_front {
            let k = choose|k: int|
                0 <= k < bullets.len() && (#[trigger] bullets[k]).entity == entity && struck(
                    bullets[k],
                    pairs,
                );
            if k < front.len() {
                assert(front[k] == bullets[k]);
            }
        }
        if struck(last, pairs) {
            assert(rest.push(last.entity).drop_last() =~= rest);
            assert(rest.push(last.entity).last() == last.entity);
            if last.entity == entity {
                assert(bullets[bullets.len() - 1] == last);
                assert(in_all);
            }
        }
    }
}

/// Single despawn: with distinct identifiers, a live projectile that
/// registered a hit, on however many targets, is named exactly once in the
/// list of projectiles to remove, and one that registered none is not
/// named at all.
pub proof fn lemma_single_despawn(bullets: Seq<LiveBullet>, pairs: Seq<CollisionPair>, i: int)
    requires
        distinct_entities(bullets),
        0 <= i < bullets.len(),
    ensures
        occurrences(despawn_list(bullets, pairs), bullets[i].entity) == (if struck(
            bullets[i],
            pairs,
        ) {
            1nat
        } else {
            0nat
        }),
{
    let entity = bullets[i].entity;
    lemma_despawn_occurrences(bullets, pairs, entity);
    if exists|k: int|
        0 <= k < bullets.len() && (#[trigger] bullets[k]).entity == entity && struck(
            bullets[k],
            pairs,
        ) {
        let k = choose|k: int|
            0 <= k < bullets.len() && (#[trigger] bullets[k]).entity == entity && struck(
                bullets[k],
                pairs,
            );
        assert(k == i) by {
            if k < i {
                assert(bullets[k].entity != bullets[i].entity);
            } else if i < k {
                assert(bullets[i].entity != bullets[k].entity);
            }
        }
    }
}

} // verus!
