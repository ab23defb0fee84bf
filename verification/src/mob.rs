use vstd::prelude::*;

verus! {

/// Health a mob starts with.
pub const MOB_MAX_HEALTH: i32 = 10;
/// A grounded mob leaps once this many grounded frames have passed.
pub const JUMP_COOLDOWN_FRAMES: usize = 144;
/// Damage dealt by one sword strike.
pub const SWORD_DAMAGE: i32 = 3;

/// The integer state of a mob: its health, whether it lives, and how many
/// grounded frames have passed since its last leap.
pub struct Mob {
    pub health: i32,
    pub is_alive: bool,
    pub jump_cooldown: usize,
}

impl Mob {
    /// The mob after taking `amount` damage: health drops by `amount`, and
    /// a mob whose health is then 0 or less dies.
    pub open spec fn damaged(self, amount: int) -> Mob {
        let h = (self.health - amount) as i32;
        Mob { health: h, is_alive: if h <= 0 { false } else { self.is_alive }, jump_cooldown: self.jump_cooldown }
    }

    /// The mob after one grounded frame, and whether it leaps on it: the
    /// count of grounded frames goes up by one and, past
    /// `JUMP_COOLDOWN_FRAMES`, starts over from 0 with a leap.
    pub open spec fn ticked(self) -> (Mob, bool) {
        let c = self.jump_cooldown + 1;
        if c > JUMP_COOLDOWN_FRAMES {
            (Mob { jump_cooldown: 0, ..self }, true)
        } else {
            (Mob { jump_cooldown: c as usize, ..self }, false)
        }
    }

    /// A new living mob with full health that has not waited yet.
    pub fn new() -> (m: Mob)
        ensures
            m.health == MOB_MAX_HEALTH,
            m.is_alive,
            m.jump_cooldown == 0,
    {
        Mob { health: MOB_MAX_HEALTH, is_alive: true, jump_cooldown: 0 }
    }

    /// Lowers health by `amount`; the mob dies when its health reaches 0 or less.
    pub fn take_damage(&mut self, amount: i32)
        requires
            i32::MIN <= old(self).health - amount <= i32::MAX,
        ensures
            *final(self) == old(self).damaged(amount as int),
    {
        self.health = self.health - amount;
        if self.health <= 0 {
            self.is_alive = false;
        }
    }

    /// Counts one grounded frame; returns whether the mob leaps now, which
    /// happens when the count passes `JUMP_COOLDOWN_FRAMES` and starts over.
    pub fn tick_jump_cooldown(&mut self) -> (leap: bool)
        requires
            old(self).jump_cooldown < usize::MAX,
        ensures
            (*final(self), leap) == old(self).ticked(),
    {
        self.jump_cooldown = self.jump_cooldown + 1;
        if self.jump_cooldown > JUMP_COOLDOWN_FRAMES {
            self.jump_cooldown = 0;
            true
        } else {
            false
        }
    }
}

/// Damage never brings a dead mob back, whatever its sign.
pub proof fn lemma_death_is_final(m: Mob, amount: int)
    requires
        !m.is_alive,
    ensures
        !m.damaged(amount).is_alive,
{
}

/// A living mob always has positive health: damage keeps this so.
pub proof fn lemma_alive_has_health(m: Mob, amount: int)
    requires
        m.is_alive ==> m.health > 0,
        i32::MIN <= m.health - amount <= i32::MAX,
    ensures
        m.damaged(amount).is_alive ==> m.damaged(amount).health > 0,
{
}

/// Positive damage lowers a living mob's health, and kills it exactly when
/// the damage is at least its health.
pub proof fn lemma_damage_kills_at_health(m: Mob, amount: int)
    requires
        m.is_alive,
        0 < amount,
        i32::MIN <= m.health - amount <= i32::MAX,
    ensures
        m.damaged(amount).health < m.health,
        m.damaged(amount).is_alive <==> amount < m.health,
{
}

/// The mob after `k` grounded frames.
pub open spec fn ticked_n(m: Mob, k: nat) -> Mob
    decreases k,
{
    if k == 0 {
        m
    } else {
        ticked_n(m, (k - 1) as nat).ticked().0
    }
}

/// The grounded-frame count stays within 0..=`JUMP_COOLDOWN_FRAMES`, runs
/// with period `JUMP_COOLDOWN_FRAMES + 1`, and a leap comes exactly on the
/// frames where it starts over.
pub proof fn lemma_cooldown_cycle(m: Mob, k: nat)
    requires
        m.jump_cooldown <= JUMP_COOLDOWN_FRAMES,
    ensures
        ticked_n(m, k).jump_cooldown == (m.jump_cooldown + k) % (JUMP_COOLDOWN_FRAMES + 1),
        k > 0 ==> (ticked_n(m, (k - 1) as nat).ticked().1 <==> (m.jump_cooldown + k) % (JUMP_COOLDOWN_FRAMES + 1) == 0),
    decreases k,
{
    if k > 0 {
        lemma_cooldown_cycle(m, (k - 1) as nat);
        let p = (m.jump_cooldown + k - 1) % 145;
        vstd::arithmetic::div_mod::lemma_add_mod_noop(m.jump_cooldown + k - 1, 1, 145);
        vstd::arithmetic::div_mod::lemma_small_mod(1, 145);
        if p + 1 < 145 {
            vstd::arithmetic::div_mod::lemma_small_mod((p + 1) as nat, 145);
        } else {
            vstd::arithmetic::div_mod::lemma_mod_self_0(145);
        }
    }
}

} // verus!
