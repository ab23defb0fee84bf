use blockworld::mob::{Mob, JUMP_COOLDOWN_FRAMES, MOB_MAX_HEALTH, SWORD_DAMAGE};

#[test]
fn new_mob_is_alive() {
    let m = Mob::new();
    assert_eq!(m.health, MOB_MAX_HEALTH);
    assert!(m.is_alive);
    assert_eq!(m.jump_cooldown, 0);
}

#[test]
fn four_sword_strikes_kill() {
    let mut m = Mob::new();
    for _ in 0..3 {
        m.take_damage(SWORD_DAMAGE);
        assert!(m.is_alive);
    }
    assert_eq!(m.health, 1);
    m.take_damage(SWORD_DAMAGE);
    assert!(!m.is_alive);
    assert_eq!(m.health, -2);
}

#[test]
fn exact_damage_to_zero_kills() {
    let mut m = Mob::new();
    m.take_damage(10);
    assert_eq!(m.health, 0);
    assert!(!m.is_alive);
}

#[test]
fn healing_does_not_revive() {
    let mut m = Mob::new();
    m.take_damage(20);
    assert!(!m.is_alive);
    m.take_damage(-50);
    assert_eq!(m.health, 40);
    assert!(!m.is_alive);
}

#[test]
fn leap_every_145_grounded_frames() {
    let mut m = Mob::new();
    for _ in 0..JUMP_COOLDOWN_FRAMES {
        assert!(!m.tick_jump_cooldown());
    }
    assert_eq!(m.jump_cooldown, 144);
    assert!(m.tick_jump_cooldown());
    assert_eq!(m.jump_cooldown, 0);
    let leaps = (0..290).filter(|_| m.tick_jump_cooldown()).count();
    assert_eq!(leaps, 2);
    assert_eq!(m.jump_cooldown, 0);
}
