use vstd::prelude::*;
use crate::combat::{AttackDice, CombatantBundle, Defense, HitPoints, MaxHitPoints, Strength};

verus! {

/// A player's stored stats, without the store's identifier.
pub struct PlayerDbNoID {
    pub name: String,
    pub hp: i32,
    pub max_hp: i32,
    pub defense: i32,
    pub strength: i32,
}

impl PlayerDbNoID {
    /// The record of a player with the given name and combat stats.
    pub fn from_stats(name: String, hp: HitPoints, max_hp: MaxHitPoints, defense: Defense, strength: Strength) -> (r: PlayerDbNoID)
        ensures
            r.name == name,
            r.hp == hp.0,
            r.max_hp == max_hp.0,
            r.defense == defense.0,
            r.strength == strength.0,
    {
        PlayerDbNoID { name, hp: hp.0, max_hp: max_hp.0, defense: defense.0, strength: strength.0 }
    }

    /// The combat stats of a stored player, with the given dice.
    pub fn combatant_bundle(&self, attack_dice: AttackDice) -> (r: CombatantBundle)
        ensures
            r == (CombatantBundle {
                hp: HitPoints(self.hp),
                max_hp: MaxHitPoints(self.max_hp),
                defense: Defense(self.defense),
                strength: Strength(self.strength),
                attack_dice,
            }),
    {
        CombatantBundle {
            hp: HitPoints(self.hp),
            max_hp: MaxHitPoints(self.max_hp),
            defense: Defense(self.defense),
            strength: Strength(self.strength),
            attack_dice,
        }
    }
}

/// A player's stored inventory, without the store's identifier.
#[derive(Clone, Copy, Debug, PartialEq, Eq, Structural)]
pub struct InventoryDbNoID {
    pub gold: i32,
}

/// How far weapon generation has come, in percent.
#[derive(Clone, Copy, Debug, PartialEq, Eq, Structural)]
pub struct WeaponGenerationProgress(pub u8);

impl WeaponGenerationProgress {
    /// Each finished tick of the loading timer adds one percent, up to 100.
    pub fn update_loading_bar(&mut self, tick_finished: bool)
        ensures
            final(self).0 == if tick_finished && old(self).0 < 100 {
                old(self).0 + 1
            } else {
                old(self).0 as int
            },
    {
        if tick_finished && self.0 < 100 {
            self.0 = self.0 + 1;
        }
    }
}

/// Whether the generated weapon has been handed to the store.
#[derive(Clone, Copy, Debug, PartialEq, Eq, Structural)]
pub struct SavedWeapon(pub bool);

impl SavedWeapon {
    /// Marks the weapon saved; true only for the first call, the one that
    /// should save it.
    pub fn claim_save(&mut self) -> (r: bool)
        ensures
            r == !old(self).0,
            final(self).0,
    {
        if self.0 {
            return false;
        }
        self.0 = true;
        true
    }
}

} // verus!
