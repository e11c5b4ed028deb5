use std::collections::HashMap;

use arena_combat::collision::{Bullet, BulletCollisionHooks, CollisionPair, LiveBullet};
use arena_combat::gameplay::{
    plugin, requested, spawn_gameplay_screen, update_menu, GameplayAction, STARTING_PLAYER_HEALTH,
};
use arena_combat::physics::{pause_physics, unpause_physics, PhysicsClock};
use arena_combat::spawner::Attacker;

const MS: u64 = 1_000_000;

#[test]
fn player_starts_with_full_health_and_a_fresh_cooldown() {
    let mut attackers: Vec<Attacker> = Vec::new();
    let mut healths: HashMap<u64, u16> = HashMap::new();
    spawn_gameplay_screen(7, &mut attackers, &mut healths);
    assert_eq!(STARTING_PLAYER_HEALTH, 100);
    assert_eq!(healths.get(&7), Some(&100));
    assert_eq!(healths.len(), 1);
    assert_eq!(attackers.len(), 1);
    assert_eq!(attackers[0].entity, 7);
    assert_eq!(attackers[0].cooldown.duration(), 650 * MS);
    assert_eq!(attackers[0].cooldown.elapsed(), 0);
    assert!(!attackers[0].cooldown.finished());
}

#[test]
fn requested_finds_an_action() {
    let actions = vec![GameplayAction::Jump, GameplayAction::Attack];
    assert!(requested(&actions, GameplayAction::Attack));
    assert!(requested(&actions, GameplayAction::Jump));
    assert!(!requested(&actions, GameplayAction::Pause));
    assert!(!requested(&Vec::new(), GameplayAction::Attack));
}

#[test]
fn menu_opens_and_closes() {
    assert!(update_menu(&vec![GameplayAction::Pause], false));
    assert!(!update_menu(&vec![GameplayAction::CloseMenu], false));
    assert!(!update_menu(&vec![GameplayAction::Attack], false));
    assert!(!update_menu(&vec![GameplayAction::CloseMenu], true));
    assert!(update_menu(&vec![GameplayAction::Pause], true));
    assert!(update_menu(&Vec::new(), true));
    // one key bound to both toggles the menu
    let both = vec![GameplayAction::Pause, GameplayAction::CloseMenu];
    assert!(update_menu(&both, false));
    assert!(!update_menu(&both, true));
}

#[test]
fn clock_follows_the_menu() {
    let mut clock = PhysicsClock::new();
    assert!(!clock.is_paused());
    arena_combat::physics::plugin(&mut clock, false, true);
    assert!(clock.is_paused());
    arena_combat::physics::plugin(&mut clock, true, true);
    assert!(clock.is_paused());
    arena_combat::physics::plugin(&mut clock, true, false);
    assert!(!clock.is_paused());
    arena_combat::physics::plugin(&mut clock, false, false);
    assert!(!clock.is_paused());
}

#[test]
fn pause_and_unpause() {
    let mut clock = PhysicsClock::new();
    pause_physics(&mut clock);
    assert!(clock.paused);
    pause_physics(&mut clock);
    assert!(clock.paused);
    unpause_physics(&mut clock);
    assert!(!clock.paused);
    unpause_physics(&mut clock);
    assert!(!clock.paused);
}

#[test]
fn paused_frame_is_inert() {
    let mut clock = PhysicsClock::new();
    pause_physics(&mut clock);
    let mut attackers = vec![Attacker::new(1, 0), Attacker::new(2, 650 * MS)];
    let mut healths: HashMap<u64, u16> = HashMap::new();
    healths.insert(3, 100);
    let bullets = vec![LiveBullet { entity: 10, bullet: Bullet { source: 1, damage: 10 } }];
    let collisions = vec![CollisionPair { first: 10, second: 3 }];
    let effects = plugin(
        &clock,
        3_600_000 * MS,
        &vec![GameplayAction::Attack],
        &mut attackers,
        &bullets,
        &collisions,
        &mut healths,
    );
    assert_eq!(effects.spawned.len(), 0);
    assert_eq!(effects.despawned.len(), 0);
    assert_eq!(healths.get(&3), Some(&100));
    assert_eq!(attackers[0].cooldown.elapsed(), 0);
    assert_eq!(attackers[1].cooldown.elapsed(), 0);
    assert!(!attackers[1].cooldown.finished());
}

#[test]
fn running_frame_ticks_fires_and_resolves() {
    let clock = PhysicsClock::new();
    let mut attackers = vec![Attacker::new(1, 650 * MS), Attacker::new(2, 900 * MS)];
    let mut healths: HashMap<u64, u16> = HashMap::new();
    healths.insert(1, 100);
    healths.insert(3, 100);
    let bullets = vec![
        LiveBullet { entity: 10, bullet: Bullet { source: 1, damage: 10 } },
        LiveBullet { entity: 11, bullet: Bullet { source: 1, damage: 10 } },
    ];
    let collisions =
        vec![CollisionPair { first: 10, second: 3 }, CollisionPair { first: 1, second: 11 }];
    // the cooldown of the first attacker runs out in this very frame
    let effects = plugin(
        &clock,
        650 * MS,
        &vec![GameplayAction::MoveLeft, GameplayAction::Attack],
        &mut attackers,
        &bullets,
        &collisions,
        &mut healths,
    );
    assert_eq!(effects.spawned, vec![Bullet { source: 1, damage: 10 }]);
    assert_eq!(effects.despawned, vec![10]);
    assert_eq!(healths.get(&3), Some(&90));
    assert_eq!(healths.get(&1), Some(&100));
    assert_eq!(attackers[0].cooldown.elapsed(), 0);
    assert_eq!(attackers[1].cooldown.elapsed(), 650 * MS);
}

#[test]
fn running_frame_without_attack_only_ticks() {
    let clock = PhysicsClock::new();
    let mut attackers = vec![Attacker::new(1, 650 * MS)];
    let mut healths: HashMap<u64, u16> = HashMap::new();
    let effects = plugin(
        &clock,
        700 * MS,
        &vec![GameplayAction::Jump],
        &mut attackers,
        &Vec::new(),
        &Vec::new(),
        &mut healths,
    );
    assert_eq!(effects.spawned.len(), 0);
    assert_eq!(effects.despawned.len(), 0);
    assert!(attackers[0].cooldown.finished());
    assert_eq!(attackers[0].cooldown.elapsed(), 650 * MS);
}

#[test]
fn game_resumes_where_it_paused() {
    let mut clock = PhysicsClock::new();
    let mut attackers: Vec<Attacker> = Vec::new();
    let mut healths: HashMap<u64, u16> = HashMap::new();
    spawn_gameplay_screen(1, &mut attackers, &mut healths);
    let none: Vec<LiveBullet> = Vec::new();
    let quiet: Vec<CollisionPair> = Vec::new();
    let fire = vec![GameplayAction::Attack];
    let mut spawned: usize = 0;
    spawned += plugin(&clock, 400 * MS, &fire, &mut attackers, &none, &quiet, &mut healths).spawned.len();
    pause_physics(&mut clock);
    spawned += plugin(&clock, 5_000 * MS, &fire, &mut attackers, &none, &quiet, &mut healths).spawned.len();
    assert_eq!(attackers[0].cooldown.elapsed(), 400 * MS);
    unpause_physics(&mut clock);
    spawned += plugin(&clock, 249 * MS, &fire, &mut attackers, &none, &quiet, &mut healths).spawned.len();
    assert_eq!(spawned, 0);
    spawned += plugin(&clock, MS, &fire, &mut attackers, &none, &quiet, &mut healths).spawned.len();
    assert_eq!(spawned, 1);
}

#[test]
fn spawned_projectile_is_filtered_from_its_source_at_once() {
    let clock = PhysicsClock::new();
    let mut attackers = vec![Attacker::new(1, 0)];
    let mut healths: HashMap<u64, u16> = HashMap::new();
    healths.insert(1, 100);
    let effects = plugin(
        &clock,
        16 * MS,
        &vec![GameplayAction::Attack],
        &mut attackers,
        &Vec::new(),
        &Vec::new(),
        &mut healths,
    );
    assert_eq!(effects.spawned.len(), 1);
    let born = LiveBullet { entity: 50, bullet: effects.spawned[0] };
    let hooks = BulletCollisionHooks::new(vec![born]);
    assert!(!hooks.filter_pairs(50, 1));
    assert!(!hooks.filter_pairs(1, 50));
    // and should the engine report the contact all the same, it does no harm
    let bullets = vec![born];
    let collisions = vec![CollisionPair { first: 1, second: 50 }];
    let effects = plugin(&clock, 16 * MS, &Vec::new(), &mut attackers, &bullets, &collisions, &mut healths);
    assert_eq!(effects.despawned.len(), 0);
    assert_eq!(healths.get(&1), Some(&100));
}
