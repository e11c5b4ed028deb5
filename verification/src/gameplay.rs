//! One frame of the game: what the player asked for, and the combat systems
//! in the order in which a frame runs them.

use std::collections::HashMap;
use vstd::prelude::*;
use crate::collision::{Bullet, CollisionPair, LiveBullet};
use crate::cooldown::Cooldown;
use crate::damage::{damage_taken, despawn_list, handle_bullet_collisions, health_after};
use crate::physics::PhysicsClock;
use crate::spawner::{
    after_attack,
    attack,
    roster,
    shots,
    tick_attack_cooldown_timers,
    ticked,
    Attacker,
    AttackerModel,
    DEFAULT_PLAYER_ATTACK_COOLDOWN,
};

verus! {

broadcast use vstd::std_specs::hash::group_hash_axioms;

/// Health of the player when the game starts.
pub const STARTING_PLAYER_HEALTH: u16 = 100;

/// What the player can ask for.
#[derive(Clone, Copy, Debug, PartialEq, Eq, Hash, Structural)]
pub enum GameplayAction {
    Pause,
    CloseMenu,
    Jump,
    MoveLeft,
    MoveRight,
    Attack,
}

/// What one frame of combat asks the engine to do.
pub struct FrameEffects {
    /// Projectiles to bring to life, each with its source and damage.
    pub spawned: Vec<Bullet>,
    /// Projectiles to remove, each named once.
    pub despawned: Vec<u64>,
}

/// Whether `action` is among the actions of this frame.
pub fn requested(actions: &Vec<GameplayAction>, action: GameplayAction) -> (found: bool)
    ensures
        found == actions@.contains(action),
{
    let mut i: usize = 0;
    while i < actions.len()
        invariant
            0 <= i <= actions@.len(),
            forall|k: int| 0 <= k < i ==> actions@[k] != action,
        decreases actions@.len() - i,
    {
        if actions[i] == action {
            return true;
        }
        i = i + 1;
    }
    false
}

/// Whether the pause menu is open after this frame's actions: `Pause`
/// opens a closed menu, `CloseMenu` closes an open one, and nothing else
/// touches it. One key may ask for both, and then toggles the menu.
pub open spec fn menu_after(actions: Seq<GameplayAction>, menu_open: bool) -> bool {
    if menu_open {
        !actions.contains(GameplayAction::CloseMenu)
    } else {
        actions.contains(GameplayAction::Pause)
    }
}

/// Applies this frame's actions to the pause menu.
pub fn update_menu(actions: &Vec<GameplayAction>, menu_open: bool) -> (open: bool)
    ensures
        open == menu_after(actions@, menu_open),
{
    if menu_open {
        !requested(actions, GameplayAction::CloseMenu)
    } else {
        requested(actions, GameplayAction::Pause)
    }
}

/// Puts the player into the game: a cooldown of the default duration with
/// nothing elapsed, so the first shot has to wait, and full health. Any
/// earlier health entry of the same entity is replaced.
pub fn spawn_gameplay_screen(
    player: u64,
    attackers: &mut Vec<Attacker>,
    healths: &mut HashMap<u64, u16>,
)
    ensures
        final(attackers)@.len() == old(attackers)@.len() + 1,
        roster(final(attackers)@) == roster(old(attackers)@).push(
            AttackerModel {
                entity: player,
                cooldown: Cooldown { duration: DEFAULT_PLAYER_ATTACK_COOLDOWN as nat, elapsed: 0 },
            },
        ),
        final(healths)@ == old(healths)@.insert(player, STARTING_PLAYER_HEALTH),
{
    attackers.push(Attacker::new(player, DEFAULT_PLAYER_ATTACK_COOLDOWN));
    healths.insert(player, STARTING_PLAYER_HEALTH);
    assert(roster(attackers@) =~= roster(old(attackers)@).push(
        AttackerModel {
            entity: player,
            cooldown: Cooldown { duration: DEFAULT_PLAYER_ATTACK_COOLDOWN as nat, elapsed: 0 },
        },
    ));
}

/// The roster after one running frame: every cooldown advanced, and then,
/// if an attack was asked for, every attacker has tried to fire.
pub open spec fn roster_after_frame(
    start: Seq<AttackerModel>,
    delta: nat,
    fire: bool,
) -> Seq<AttackerModel> {
    if fire {
        after_attack(ticked(start, delta))
    } else {
        ticked(start, delta)
    }
}

/// The projectiles fired in one running frame. Cooldowns advance before
/// readiness is looked at, so a cooldown that runs out in this frame fires
/// in this frame.
pub open spec fn shots_in_frame(start: Seq<AttackerModel>, delta: nat, fire: bool) -> Seq<Bullet> {
    if fire {
        shots(ticked(start, delta))
    } else {
        Seq::empty()
    }
}

/// Runs the combat systems of one frame, in order: cooldowns advance by
/// `delta`, then attackers fire if `Attack` is among the actions, then the
/// contacts that the physics engine reported are resolved. While the clock
/// is paused none of this happens, however long the frame was.
pub fn plugin(
    physics_time: &PhysicsClock,
    delta: u64,
    actions: &Vec<GameplayAction>,
    attackers: &mut Vec<Attacker>,
    bullets: &Vec<LiveBullet>,
    collisions: &Vec<CollisionPair>,
    healths: &mut HashMap<u64, u16>,
) -> (effects: FrameEffects)
    ensures
        physics_time.paused ==> {
            &&& final(attackers)@ == old(attackers)@
            &&& final(healths)@ == old(healths)@
            &&& effects.spawned@.len() == 0
            &&& effects.despawned@.len() == 0
        },
        !physics_time.paused ==> {
            &&& roster(final(attackers)@) == roster_after_frame(
                roster(old(attackers)@),
                delta as nat,
                actions@.contains(GameplayAction::Attack),
            )
            &&& effects.spawned@ == shots_in_frame(
                roster(old(attackers)@),
                delta as nat,
                actions@.contains(GameplayAction::Attack),
            )
            &&& final(healths)@.dom() == old(healths)@.dom()
            &&& forall|e: u64|
                old(healths)@.contains_key(e) ==> (#[trigger] final(healths)@[e]) as int
                    == health_after(
                    old(healths)@[e] as int,
                    damage_taken(bullets@, collisions@, e) as int,
                )
            &&& effects.despawned@ == despawn_list(bullets@, collisions@)
        },
{
    if physics_time.is_paused() {
        return FrameEffects { spawned: Vec::new(), despawned: Vec::new() };
    }
    tick_attack_cooldown_timers(delta, attackers);
    let spawned = if requested(actions, GameplayAction::Attack) {
        attack(attackers)
    } else {
        Vec::new()
    };
    let despawned = handle_bullet_collisions(bullets, collisions, healths);
    FrameEffects { spawned, despawned }
}

} // verus!
