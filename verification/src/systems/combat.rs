//! Attacks land: each one costs its victim a hit point.

use vstd::prelude::*;
use crate::components::{EntityId, Health, WantsToAttack};

verus! {

/// An attack message: the entity that carries it, and the attack.
#[derive(Clone, Copy, Debug, PartialEq, Eq, Structural)]
pub struct AttackMessage {
    pub messenger: EntityId,
    pub intent: WantsToAttack,
}

/// The hit points of every entity and the entities to remove, after the first `n` attacks.
pub open spec fn combat_upto(attacks: Seq<AttackMessage>, health: Seq<Option<Health>>, n: int) -> (Seq<Option<Health>>, Seq<EntityId>)
    decreases n,
{
    if n <= 0 {
        (health, Seq::empty())
    } else {
        let (h, removed) = combat_upto(attacks, health, n - 1);
        let a = attacks[n - 1];
        let v = a.intent.victim as int;
        match h[v] {
            Some(hp) => {
                let hit = Health { current: (hp.current - 1) as i32, max: hp.max };
                let removed2 = if hit.current < 1 { removed.push(a.intent.victim) } else { removed };
                (h.update(v, Some(hit)), removed2.push(a.messenger))
            },
            None => (h, removed.push(a.messenger)),
        }
    }
}

/// How many of the first `n` attacks strike `victim`.
pub open spec fn hits_on(attacks: Seq<AttackMessage>, victim: EntityId, n: int) -> int
    decreases n,
{
    if n <= 0 {
        0
    } else {
        hits_on(attacks, victim, n - 1) + if attacks[n - 1].intent.victim == victim { 1int } else { 0int }
    }
}

/// Each attack takes exactly one hit point from a victim that has hit points, and nothing
/// from one that has none; the maximum never changes.
pub proof fn lemma_combat_hit_points(attacks: Seq<AttackMessage>, health: Seq<Option<Health>>, n: int, v: EntityId)
    requires
        0 <= n <= attacks.len(),
        forall|k: int| 0 <= k < attacks.len() ==> (#[trigger] attacks[k]).intent.victim < health.len(),
        forall|e: int| 0 <= e < health.len() ==> (#[trigger] health[e] matches Some(hp) ==> hp.current >= i32::MIN + attacks.len()),
        0 <= v < health.len(),
    ensures
        combat_upto(attacks, health, n).0.len() == health.len(),
        health[v as int] is None ==> combat_upto(attacks, health, n).0[v as int] is None,
        health[v as int] matches Some(hp) ==> combat_upto(attacks, health, n).0[v as int] == Some(Health {
            current: (hp.current - hits_on(attacks, v, n)) as i32,
            max: hp.max,
        }),
        0 <= hits_on(attacks, v, n) <= n,
    decreases n,
{
    if n > 0 {
        lemma_combat_hit_points(attacks, health, n - 1, v);
        let a = attacks[n - 1];
        let w = a.intent.victim;
        lemma_combat_hit_points(attacks, health, n - 1, w);
        let h = combat_upto(attacks, health, n - 1).0;
        if let Some(hp) = health[v as int] {
            let before = hits_on(attacks, v, n - 1);
            assert(hp.current - before >= i32::MIN + 1);
            assert(h[v as int] == Some(Health { current: (hp.current - before) as i32, max: hp.max }));
            if w == v {
                assert(hits_on(attacks, v, n) == before + 1);
            } else {
                assert(hits_on(attacks, v, n) == before);
            }
        }
    }
}

/// Applies the attacks in order: each takes a hit point from its victim, if the victim has
/// hit points, and the victim is removed whenever that leaves it below one; every attack
/// message is removed once handled. Returns the entities to remove, in order.
pub fn combat(attacks: &Vec<AttackMessage>, health: &mut Vec<Option<Health>>) -> (removed: Vec<EntityId>)
    requires
        forall|k: int| 0 <= k < attacks.len() ==> (#[trigger] attacks@[k]).intent.victim < old(health).len(),
        forall|e: int| 0 <= e < old(health).len() ==> (#[trigger] old(health)@[e] matches Some(hp) ==> hp.current >= i32::MIN + attacks.len()),
    ensures
        (final(health)@, removed@) == combat_upto(attacks@, old(health)@, attacks.len() as int),
        forall|v: EntityId| v < old(health).len() ==> (#[trigger] old(health)@[v as int] matches Some(hp) ==> final(health)@[v as int] == Some(Health {
            current: (hp.current - hits_on(attacks@, v, attacks.len() as int)) as i32,
            max: hp.max,
        })),
{
    let mut removed: Vec<EntityId> = Vec::new();
    let mut i: usize = 0;
    while i < attacks.len()
        invariant
            i <= attacks.len(),
            forall|k: int| 0 <= k < attacks.len() ==> (#[trigger] attacks@[k]).intent.victim < old(health).len(),
            forall|e: int| 0 <= e < old(health).len() ==> (#[trigger] old(health)@[e] matches Some(hp) ==> hp.current >= i32::MIN + attacks.len()),
            (health@, removed@) == combat_upto(attacks@, old(health)@, i as int),
        decreases attacks.len() - i,
    {
        let a = attacks[i];
        let victim = a.intent.victim;
        proof {
            lemma_combat_hit_points(attacks@, old(health)@, i as int, victim);
        }
        match health[victim] {
            Some(hp) => {
                let hit = Health { current: hp.current - 1, max: hp.max };
                health.set(victim, Some(hit));
                if hit.current < 1 {
                    removed.push(victim);
                }
            },
            None => {},
        }
        removed.push(a.messenger);
        i = i + 1;
    }
    proof {
        assert forall|v: EntityId| v < old(health).len() implies (#[trigger] old(health)@[v as int] matches Some(hp) ==> health@[v as int] == Some(Health {
            current: (hp.current - hits_on(attacks@, v, attacks.len() as int)) as i32,
            max: hp.max,
        })) by {
            lemma_combat_hit_points(attacks@, old(health)@, attacks.len() as int, v);
        }
    }
    removed
}

} // verus!
