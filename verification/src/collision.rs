//! Which contacts the physics engine may report: a projectile never touches
//! the actor that fired it.

use vstd::prelude::*;

verus! {

/// What makes an entity a projectile: who fired it and how hard it hits.
/// The source is set when the projectile is made and only ever compared.
#[derive(Clone, Copy, Debug, PartialEq, Eq, Structural)]
pub struct Bullet {
    pub source: u64,
    pub damage: u16,
}

/// A projectile that is alive this tick, with its own identifier.
#[derive(Clone, Copy, Debug, PartialEq, Eq, Structural)]
pub struct LiveBullet {
    pub entity: u64,
    pub bullet: Bullet,
}

/// Two entities that the physics engine found touching. The order of the
/// two says nothing.
#[derive(Clone, Copy, Debug, PartialEq, Eq, Structural)]
pub struct CollisionPair {
    pub first: u64,
    pub second: u64,
}

/// `projectile` is a live projectile and `actor` is its source.
pub open spec fn fired_by(bullets: Seq<LiveBullet>, projectile: u64, actor: u64) -> bool {
    exists|i: int|
        0 <= i < bullets.len() && (#[trigger] bullets[i]).entity == projectile
            && bullets[i].bullet.source == actor
}

/// `entity` is one of the live projectiles.
pub open spec fn is_projectile(bullets: Seq<LiveBullet>, entity: u64) -> bool {
    exists|i: int| 0 <= i < bullets.len() && (#[trigger] bullets[i]).entity == entity
}

/// A contact goes ahead unless one side is a projectile and the other side
/// is the source of that projectile.
pub open spec fn contact_allowed(bullets: Seq<LiveBullet>, collider1: u64, collider2: u64) -> bool {
    !fired_by(bullets, collider1, collider2) && !fired_by(bullets, collider2, collider1)
}

/// The contact filter handed to the physics engine, over the projectiles
/// that are alive.
pub struct BulletCollisionHooks {
    pub bullets: Vec<LiveBullet>,
}

impl BulletCollisionHooks {
    /// A filter over the given live projectiles.
    pub fn new(bullets: Vec<LiveBullet>) -> (hooks: Self)
        ensures
            hooks.bullets@ == bullets@,
    {
        BulletCollisionHooks { bullets }
    }

    /// Whether the contact between the two colliders may go ahead. It reads
    /// the projectiles and changes nothing.
    pub fn filter_pairs(&self, collider1: u64, collider2: u64) -> (allowed: bool)
        ensures
            allowed == contact_allowed(self.bullets@, collider1, collider2),
    {
        let n: usize = self.bullets.len();
        let mut i: usize = 0;
        while i < n
            invariant
                n == self.bullets@.len(),
                0 <= i <= n,
                forall|k: int|
                    0 <= k < i ==> !((#[trigger] self.bullets@[k]).entity == collider1
                        && self.bullets@[k].bullet.source == collider2),
                forall|k: int|
                    0 <= k < i ==> !((#[trigger] self.bullets@[k]).entity == collider2
                        && self.bullets@[k].bullet.source == collider1),
            decreases n - i,
        {
            let live = self.bullets[i];
            if live.entity == collider1 && live.bullet.source == collider2 {
                return false;
            }
            if live.entity == collider2 && live.bullet.source == collider1 {
                return false;
            }
            i = i + 1;
        }
        true
    }
}

/// Self-exclusion: for every live projectile, the contact with its own
/// source is suppressed, whichever side each of the two stands on.
pub proof fn lemma_self_exclusion(bullets: Seq<LiveBullet>, i: int)
    requires
        0 <= i < bullets.len(),
    ensures
        !contact_allowed(bullets, bullets[i].entity, bullets[i].bullet.source),
        !contact_allowed(bullets, bullets[i].bullet.source, bullets[i].entity),
{
    assert(fired_by(bullets, bullets[i].entity, bullets[i].bullet.source));
}

/// The filter holds from the moment a projectile is alive: once a new
/// projectile stands among the live ones, its contact with its source is
/// suppressed, and every contact suppressed before still is.
pub proof fn lemma_excluded_from_spawn(
    bullets: Seq<LiveBullet>,
    spawned: LiveBullet,
    collider1: u64,
    collider2: u64,
)
    ensures
        !contact_allowed(bullets.push(spawned), spawned.entity, spawned.bullet.source),
        !contact_allowed(bullets, collider1, collider2) ==> !contact_allowed(
            bullets.push(spawned),
            collider1,
            collider2,
        ),
{
    let grown = bullets.push(spawned);
    assert(grown[bullets.len() as int] == spawned);
    assert(fired_by(grown, spawned.entity, spawned.bullet.source));
    if fired_by(bullets, collider1, collider2) {
        let k = choose|k: int|
            0 <= k < bullets.len() && (#[trigger] bullets[k]).entity == collider1
                && bullets[k].bullet.source == collider2;
        assert(grown[k] == bullets[k]);
    }
    if fired_by(bullets, collider2, collider1) {
        let k = choose|k: int|
            0 <= k < bullets.len() && (#[trigger] bullets[k]).entity == collider2
                && bullets[k].bullet.source == collider1;
        assert(grown[k] == bullets[k]);
    }
}

/// The filter does not care which collider is named first, and it lets
/// every contact pass in which neither side is a projectile.
pub proof fn lemma_filter_is_symmetric(bullets: Seq<LiveBullet>, collider1: u64, collider2: u64)
    ensures
        contact_allowed(bullets, collider1, collider2) == contact_allowed(
            bullets,
            collider2,
            collider1,
        ),
        !is_projectile(bullets, collider1) && !is_projectile(bullets, collider2)
            ==> contact_allowed(bullets, collider1, collider2),
{
}

} // verus!
