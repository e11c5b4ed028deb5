//! Cooldown-gated firing: which actors shoot this tick, and what they shoot.

use vstd::prelude::*;
use crate::collision::Bullet;
use crate::cooldown::{Cooldown, CooldownTimer};

verus! {

/// Damage of every projectile an actor fires.
pub const BULLET_DAMAGE: u16 = 10;

/// Time between two shots of the player, in nanoseconds.
pub const DEFAULT_PLAYER_ATTACK_COOLDOWN: u64 = 650_000_000;

/// An actor that can fire, with the countdown it alone owns.
#[derive(Clone, Copy, Debug)]
pub struct Attacker {
    pub entity: u64,
    pub cooldown: CooldownTimer,
}

/// An attacker as numbers.
pub struct AttackerModel {
    pub entity: u64,
    pub cooldown: Cooldown,
}

impl View for Attacker {
    type V = AttackerModel;

    open spec fn view(&self) -> AttackerModel {
        AttackerModel { entity: self.entity, cooldown: self.cooldown@ }
    }
}

impl Attacker {
    /// An attacker whose countdown of the given duration has just started.
    pub fn new(entity: u64, duration: u64) -> (attacker: Self)
        ensures
            attacker@ == (AttackerModel {
                entity,
                cooldown: Cooldown { duration: duration as nat, elapsed: 0 },
            }),
    {
        Attacker { entity, cooldown: CooldownTimer::new(duration) }
    }
}

/// The attackers of a list, each as numbers.
pub open spec fn roster(attackers: Seq<Attacker>) -> Seq<AttackerModel> {
    Seq::new(attackers.len(), |i: int| attackers[i]@)
}

/// Every countdown of the roster, `delta` nanoseconds later.
pub open spec fn ticked(roster: Seq<AttackerModel>, delta: nat) -> Seq<AttackerModel> {
    Seq::new(
        roster.len(),
        |i: int|
            AttackerModel { entity: roster[i].entity, cooldown: roster[i].cooldown.advanced(delta) },
    )
}

/// The roster after every attacker has tried to fire: those that were
/// ready start their countdown over, the others are as before.
pub open spec fn after_attack(roster: Seq<AttackerModel>) -> Seq<AttackerModel> {
    Seq::new(
        roster.len(),
        |i: int|
            AttackerModel { entity: roster[i].entity, cooldown: roster[i].cooldown.attempted() },
    )
}

/// The projectile that an attacker fires.
pub open spec fn shot_of(attacker: AttackerModel) -> Bullet {
    Bullet { source: attacker.entity, damage: BULLET_DAMAGE }
}

/// The projectiles fired when every attacker of the roster tries to fire:
/// one for each that is ready, in the order of the roster.
pub open spec fn shots(roster: Seq<AttackerModel>) -> Seq<Bullet>
    decreases roster.len(),
{
    if roster.len() == 0 {
        Seq::empty()
    } else if roster.last().cooldown.ready() {
        shots(roster.drop_last()).push(shot_of(roster.last()))
    } else {
        shots(roster.drop_last())
    }
}

/// Advances every attack cooldown by the frame's `delta` nanoseconds.
pub fn tick_attack_cooldown_timers(delta: u64, attackers: &mut Vec<Attacker>)
    ensures
        final(attackers)@.len() == old(attackers)@.len(),
        roster(final(attackers)@) == ticked(roster(old(attackers)@), delta as nat),
{
    let n: usize = attackers.len();
    let mut i: usize = 0;
    while i < n
        invariant
            0 <= i <= n,
            n == attackers@.len(),
            n == old(attackers)@.len(),
            forall|k: int|
                0 <= k < i ==> (#[trigger] attackers@[k])@ == ticked(
                    roster(old(attackers)@),
                    delta as nat,
                )[k],
            forall|k: int| i <= k < n ==> attackers@[k] == old(attackers)@[k],
        decreases n - i,
    {
        let mut attacker = attackers[i];
        attacker.cooldown.tick(delta);
        attackers.set(i, attacker);
        i = i + 1;
    }
    assert(roster(attackers@) =~= ticked(roster(old(attackers)@), delta as nat));
}

/// Lets every attacker try to fire. One whose cooldown is ready fires one
/// projectile, with itself as the source, and its cooldown starts over in
/// the same step; one that is not ready does nothing. The projectiles come
/// back for the caller to bring to life.
pub fn attack(attackers: &mut Vec<Attacker>) -> (spawned: Vec<Bullet>)
    ensures
        final(attackers)@.len() == old(attackers)@.len(),
        roster(final(attackers)@) == after_attack(roster(old(attackers)@)),
        spawned@ == shots(roster(old(attackers)@)),
{
    let ghost start = roster(old(attackers)@);
    let mut spawned: Vec<Bullet> = Vec::new();
    let n: usize = attackers.len();
    let mut i: usize = 0;
    while i < n
        invariant
            0 <= i <= n,
            n == attackers@.len(),
            n == old(attackers)@.len(),
            start == roster(old(attackers)@),
            forall|k: int| 0 <= k < i ==> (#[trigger] attackers@[k])@ == after_attack(start)[k],
            forall|k: int| i <= k < n ==> attackers@[k] == old(attackers)@[k],
            spawned@ == shots(start.take(i as int)),
        decreases n - i,
    {
        let mut attacker = attackers[i];
        proof {
            assert(start.take(i + 1).drop_last() =~= start.take(i as int));
            assert(start.take(i + 1).last() == attacker@);
        }
        if attacker.cooldown.finished() {
            spawned.push(Bullet { source: attacker.entity, damage: BULLET_DAMAGE });
            attacker.cooldown.reset();
            attackers.set(i, attacker);
        }
        i = i + 1;
    }
    proof {
        assert(start.take(n as int) =~= start);
        assert(roster(attackers@) =~= after_attack(start));
    }
    spawned
}

/// Every projectile fired names a ready attacker of the roster as its
/// source and carries the fixed damage, and no attacker fires twice in one
/// attempt: there are at most as many projectiles as attackers.
pub proof fn lemma_shots_come_from_ready_attackers(roster: Seq<AttackerModel>, j: int)
    requires
        0 <= j < shots(roster).len(),
    ensures
        shots(roster).len() <= roster.len(),
        shots(roster)[j].damage == BULLET_DAMAGE,
        exists|i: int|
            0 <= i < roster.len() && (#[trigger] roster[i]).cooldown.ready() && roster[i].entity
                == shots(roster)[j].source,
    decreases roster.len(),
{
    if roster.len() > 0 {
        let front = roster.drop_last();
        lemma_shots_bounded(front);
        if j < shots(front).len() {
            lemma_shots_come_from_ready_attackers(front, j);
            let i = choose|i: int|
                0 <= i < front.len() && (#[trigger] front[i]).cooldown.ready() && front[i].entity
                    == shots(front)[j].source;
            assert(roster[i] == front[i]);
        } else {
            assert(roster[roster.len() - 1] == roster.last());
        }
    }
}

/// There are at most as many projectiles as attackers.
pub proof fn lemma_shots_bounded(roster: Seq<AttackerModel>)
    ensures
        shots(roster).len() <= roster.len(),
    decreases roster.len(),
{
    if roster.len() > 0 {
        lemma_shots_bounded(roster.drop_last());
    }
}

/// A second round of attempts right after the first fires nothing, as long
/// as every cooldown has a positive duration.
pub proof fn lemma_no_second_volley(roster: Seq<AttackerModel>)
    requires
        forall|i: int| 0 <= i < roster.len() ==> (#[trigger] roster[i]).cooldown.duration > 0,
    ensures
        shots(after_attack(roster)).len() == 0,
    decreases roster.len(),
{
    if roster.len() > 0 {
        let front = roster.drop_last();
        assert forall|i: int| 0 <= i < front.len() implies (#[trigger] front[i]).cooldown.duration
            > 0 by {
            assert(front[i] == roster[i]);
        }
        lemma_no_second_volley(front);
        assert(after_attack(roster).drop_last() =~= after_attack(front));
        assert(roster[roster.len() - 1].cooldown.duration > 0);
    }
}

/// Cooldown gating for one attacker: fired when ready, it fires one
/// projectile; tried again after `gap` nanoseconds, it fires a second one
/// exactly when the gap is at least its cooldown's duration.
pub proof fn lemma_one_attacker_is_gated(attacker: AttackerModel, gap: nat)
    requires
        attacker.cooldown.wf(),
        attacker.cooldown.ready(),
    ensures
        shots(seq![attacker]) == seq![shot_of(attacker)],
        shots(ticked(after_attack(seq![attacker]), gap)) == (if gap >= attacker.cooldown.duration {
            seq![shot_of(attacker)]
        } else {
            Seq::<Bullet>::empty()
        }),
{
    reveal_with_fuel(shots, 2);
    let alone = seq![attacker];
    assert(alone.drop_last() =~= Seq::<AttackerModel>::empty());
    assert(alone.last() == attacker);
    assert(shots(alone) =~= seq![shot_of(attacker)]);
    let later = ticked(after_attack(alone), gap);
    assert(later.drop_last() =~= Seq::<AttackerModel>::empty());
    assert(later.last().entity == attacker.entity);
    assert(later.last().cooldown == attacker.cooldown.attempted().advanced(gap));
    if gap >= attacker.cooldown.duration {
        assert(shots(later) =~= seq![shot_of(attacker)]);
    } else {
        assert(shots(later) =~= Seq::<Bullet>::empty());
    }
}

} // verus!
