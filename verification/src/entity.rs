//! Entities of the level: the player and the monsters, with their combat
//! statistics and what becomes of them when they die.

use crate::colors::Color;
use crate::colors::dark_red;
use vstd::prelude::*;
use vstd::string::StringExecFns;

verus! {

/// What happens to an entity when its hit points run out.
#[derive(Clone, Copy, Debug, PartialEq, Eq, Structural)]
pub enum DeathCallback {
    Player,
    Monster,
}

/// The combat statistics of an entity.
#[derive(Clone, Copy, Debug, PartialEq, Eq, Structural)]
pub struct Fighter {
    pub max_hp: i32,
    pub hp: i32,
    pub defense: i32,
    pub power: i32,
    pub on_death: DeathCallback,
}

/// Marks an entity that acts on its own.
#[derive(Clone, Copy, Debug, PartialEq, Eq, Structural)]
pub struct Ai;

/// Anything that stands on the level.
#[derive(Debug)]
pub struct Object {
    pub name: String,
    pub glyph: char,
    pub color: Color,
    pub position: (i32, i32),
    pub blocks: bool,
    pub alive: bool,
    pub fighter: Option<Fighter>,
    pub ai: Option<Ai>,
}

/// The glyph of a corpse.
pub const CORPSE_GLYPH: char = '%';

/// The text put in front of a dead monster's name.
pub open spec fn remains_prefix() -> Seq<char> {
    "remains of "@
}

/// An entity as a mathematical value: its fields, with the name as a sequence
/// of characters.
pub struct ObjectView {
    pub name: Seq<char>,
    pub glyph: char,
    pub color: Color,
    pub position: (i32, i32),
    pub blocks: bool,
    pub alive: bool,
    pub fighter: Option<Fighter>,
    pub ai: Option<Ai>,
}

impl ObjectView {
    /// While the entity lives, its hit points are positive and at most their
    /// maximum.
    pub open spec fn wf(self) -> bool {
        self.alive ==> (self.fighter matches Some(f) ==> 0 < f.hp <= f.max_hp)
    }

    /// The attack strength of the entity; zero if it cannot fight.
    pub open spec fn power(self) -> int {
        match self.fighter {
            Some(f) => f.power as int,
            None => 0,
        }
    }

    /// The armor of the entity; zero if it cannot fight.
    pub open spec fn defense(self) -> int {
        match self.fighter {
            Some(f) => f.defense as int,
            None => 0,
        }
    }

    /// The hit points that one attack of the entity takes from `target`: its
    /// power less the target's defense, and never less than zero.
    pub open spec fn damage_to(self, target: ObjectView) -> int {
        if self.power() > target.defense() {
            self.power() - target.defense()
        } else {
            0
        }
    }

    /// The entity after the death transform of `kind`. Both kinds turn it into a
    /// dark red corpse glyph; a monster moreover stops blocking, loses its
    /// combat statistics and its behaviour, and is renamed.
    pub open spec fn dead(self, kind: DeathCallback) -> ObjectView {
        match kind {
            DeathCallback::Player => ObjectView { glyph: CORPSE_GLYPH, color: dark_red(), ..self },
            DeathCallback::Monster => ObjectView {
                glyph: CORPSE_GLYPH,
                color: dark_red(),
                blocks: false,
                fighter: None,
                ai: None,
                name: remains_prefix() + self.name,
                ..self
            },
        }
    }

    /// The entity after it was dealt `damage` hit points.
    ///
    /// Only a positive amount dealt to a living fighter has any effect: it is
    /// taken from the hit points, and if they drop to zero or below, the entity
    /// dies and undergoes its death transform.
    pub open spec fn damaged(self, damage: int) -> ObjectView
        recommends
            self.wf(),
            damage <= i32::MAX,
    {
        match self.fighter {
            Some(f) if damage > 0 && self.alive => {
                let hp = (f.hp - damage) as i32;
                let hurt = ObjectView { fighter: Some(Fighter { hp, ..f }), ..self };
                if hp <= 0 {
                    (ObjectView { alive: false, ..hurt }).dead(f.on_death)
                } else {
                    hurt
                }
            },
            _ => self,
        }
    }

    /// The death that `damage` hit points bring to the entity: the kind of its
    /// death transform if the damage kills it, nothing if it survives, takes no
    /// damage or is dead already.
    pub open spec fn death_by(self, damage: int) -> Option<DeathCallback> {
        match self.fighter {
            Some(f) if damage > 0 && self.alive && f.hp - damage <= 0 => Some(f.on_death),
            _ => None,
        }
    }

    /// The entity after it was dealt each of `damages` in turn.
    pub open spec fn damaged_all(self, damages: Seq<int>) -> ObjectView
        decreases damages.len(),
    {
        if damages.len() == 0 {
            self
        } else {
            self.damaged_all(damages.drop_last()).damaged(damages.last())
        }
    }
}

/// A blow brings death exactly when it turns a living entity into a dead
/// one, and the death is of the kind that the entity's statistics name.
pub proof fn lemma_death_by(o: ObjectView, damage: int)
    requires
        o.wf(),
        damage <= i32::MAX,
    ensures
        o.death_by(damage) is Some <==> o.alive && !o.damaged(damage).alive,
        o.death_by(damage) matches Some(kind) ==> o.fighter matches Some(f) && kind == f.on_death,
{
    match o.fighter {
        Some(f) => {
            match f.on_death {
                DeathCallback::Player => {},
                DeathCallback::Monster => {},
            }
        },
        None => {},
    }
}

/// Damage never heals: after any series of blows, an entity that still has
/// hit points has no more of them than before, and it is still consistent.
pub proof fn lemma_hp_never_rises(o: ObjectView, damages: Seq<int>)
    requires
        o.wf(),
        forall|k: int| 0 <= k < damages.len() ==> damages[k] <= i32::MAX,
    ensures
        o.damaged_all(damages).wf(),
        o.damaged_all(damages).fighter matches Some(after) ==> (o.fighter matches Some(before)
            && after.hp <= before.hp),
        o.damaged_all(damages).alive ==> o.alive,
    decreases damages.len(),
{
    if damages.len() > 0 {
        lemma_hp_never_rises(o, damages.drop_last());
    }
}

/// The dead take no damage: whatever is dealt to an entity that is not alive
/// leaves every field of it as it was.
pub proof fn lemma_dead_is_unchanged(o: ObjectView, damages: Seq<int>)
    requires
        !o.alive,
    ensures
        o.damaged_all(damages) == o,
    decreases damages.len(),
{
    if damages.len() > 0 {
        lemma_dead_is_unchanged(o, damages.drop_last());
    }
}

/// Death happens once: the blow that takes the last hit points of a living
/// fighter applies its death transform to it, and no later blow changes what
/// is left.
pub proof fn lemma_death_fires_once(o: ObjectView, damage: int, later: Seq<int>)
    requires
        o.wf(),
        o.alive,
        o.fighter is Some,
        0 < damage <= i32::MAX,
        o.fighter->0.hp <= damage,
    ensures
        !o.damaged(damage).alive,
        o.damaged(damage) == (ObjectView {
            alive: false,
            fighter: Some(Fighter { hp: (o.fighter->0.hp - damage) as i32, ..o.fighter->0 }),
            ..o
        }).dead(o.fighter->0.on_death),
        o.damaged(damage).damaged_all(later) == o.damaged(damage),
{
    let f = o.fighter->0;
    match f.on_death {
        DeathCallback::Player => {},
        DeathCallback::Monster => {},
    }
    lemma_dead_is_unchanged(o.damaged(damage), later);
}

impl View for Object {
    type V = ObjectView;

    /// The entity's fields, with the name as a sequence of characters.
    open spec fn view(&self) -> ObjectView {
        ObjectView {
            name: self.name@,
            glyph: self.glyph,
            color: self.color,
            position: self.position,
            blocks: self.blocks,
            alive: self.alive,
            fighter: self.fighter,
            ai: self.ai,
        }
    }
}

fn player_death(player: &mut Object)
    ensures
        final(player)@ == old(player)@.dead(DeathCallback::Player),
{
    player.glyph = CORPSE_GLYPH;
    player.color = dark_red();
}

fn monster_death(monster: &mut Object)
    ensures
        final(monster)@ == old(monster)@.dead(DeathCallback::Monster),
{
    monster.glyph = CORPSE_GLYPH;
    monster.color = dark_red();
    monster.blocks = false;
    monster.fighter = None;
    monster.ai = None;
    let name = String::from_str("remains of ").concat(monster.name.as_str());
    monster.name = name;
}

impl DeathCallback {
    /// Applies the death transform of this kind to `object`.
    pub fn callback(self, object: &mut Object)
        ensures
            final(object)@ == old(object)@.dead(self),
    {
        match self {
            DeathCallback::Player => player_death(object),
            DeathCallback::Monster => monster_death(object),
        }
    }
}

impl Object {
    /// A living, blocking entity that can neither fight nor act on its own.
    pub fn new(name: &str, glyph: char, color: Color, position: (i32, i32)) -> (object: Object)
        ensures
            object@ == (ObjectView {
                name: name@,
                glyph,
                color,
                position,
                blocks: true,
                alive: true,
                fighter: None,
                ai: None,
            }),
    {
        Object {
            name: String::from_str(name),
            glyph: glyph,
            color: color,
            position: position,
            blocks: true,
            alive: true,
            fighter: None,
            ai: None,
        }
    }

    /// Puts the entity on `pos`.
    pub fn move_to(&mut self, pos: (i32, i32))
        ensures
            final(self)@ == (ObjectView { position: pos, ..old(self)@ }),
    {
        self.position = pos;
    }

    /// Deals `damage` hit points to the entity.
    pub fn take_damage(&mut self, damage: i32)
        requires
            old(self)@.wf(),
        ensures
            final(self)@ == old(self)@.damaged(damage as int),
            final(self)@.wf(),
    {
        if damage > 0 && self.alive {
            match self.fighter {
                Some(fighter) => {
                    let hp = fighter.hp - damage;
                    self.fighter = Some(
                        Fighter {
                            max_hp: fighter.max_hp,
                            hp: hp,
                            defense: fighter.defense,
                            power: fighter.power,
                            on_death: fighter.on_death,
                        },
                    );
                    if hp <= 0 {
                        self.alive = false;
                        fighter.on_death.callback(self);
                    }
                },
                None => {},
            }
        }
    }

    /// The hit points that one attack of this entity takes from `target`.
    pub fn damage_to(&self, target: &Object) -> (damage: i32)
        requires
            self@.damage_to(target@) <= i32::MAX,
        ensures
            damage == self@.damage_to(target@),
    {
        let power = match self.fighter {
            Some(f) => f.power,
            None => 0,
        };
        let defense = match target.fighter {
            Some(f) => f.defense,
            None => 0,
        };
        if power > defense {
            power - defense
        } else {
            0
        }
    }

    /// The death that `damage` hit points would bring to this entity, if any.
    pub fn death_by(&self, damage: i32) -> (death: Option<DeathCallback>)
        ensures
            death == self@.death_by(damage as int),
    {
        match self.fighter {
            Some(f) => {
                if damage > 0 && self.alive && f.hp <= damage {
                    Some(f.on_death)
                } else {
                    None
                }
            },
            None => None,
        }
    }

    /// Attacks `target`, dealing it the damage that this entity's power does
    /// against the target's defense. The attacker itself does not change.
    pub fn attack(&mut self, target: &mut Object)
        requires
            old(target)@.wf(),
            old(self)@.damage_to(old(target)@) <= i32::MAX,
        ensures
            *final(self) == *old(self),
            final(target)@ == old(target)@.damaged(old(self)@.damage_to(old(target)@)),
            final(target)@.wf(),
            old(self)@.power() <= old(target)@.defense() ==> final(target)@ == old(target)@,
    {
        let damage = self.damage_to(target);
        if damage > 0 {
            target.take_damage(damage);
        }
    }
}

} // verus!
