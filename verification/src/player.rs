//! The player's health and the collisions between the player and baddies.
//!
//! Entities are named by the `u64` bits of their ECS identifiers.
use vstd::prelude::*;

verus! {

/// The player's counters.
#[derive(Clone, Copy, Debug, PartialEq, Eq, Structural)]
pub struct Player {
    /// Hit points left.
    pub hp: u8,
    /// Experience needed for the next level.
    pub xp_to_level: u32,
}

impl Default for Player {
    fn default() -> (r: Self)
        ensures
            r.hp == 0,
            r.xp_to_level == 0,
    {
        Player { hp: 0, xp_to_level: 0 }
    }
}

impl Player {
    /// The player as the game spawns it: 10 hit points, 10 experience to level.
    pub fn new() -> (p: Self)
        ensures
            p.hp == 10,
            p.xp_to_level == 10,
    {
        Player { hp: 10, xp_to_level: 10 }
    }
}

/// Hit points left after `n` hits, one point each, never below zero.
pub open spec fn damaged(hp: nat, n: nat) -> nat {
    if hp >= n {
        (hp - n) as nat
    } else {
        0
    }
}

/// One hit: the player loses a hit point if it has any left.
pub fn damage_player(player: &mut Player)
    ensures
        final(player).hp == damaged(old(player).hp as nat, 1),
        old(player).hp > 0 ==> final(player).hp == old(player).hp - 1,
        old(player).hp == 0 ==> final(player).hp == 0,
        final(player).xp_to_level == old(player).xp_to_level,
{
    if player.hp > 0 {
        player.hp = player.hp - 1;
    }
}

/// The baddie that a contact between two entities makes the player hit: none
/// unless the player is one of the two; else the first of the two that is a
/// baddie, if any.
pub open spec fn contact_hit(player: u64, baddies: Seq<u64>, contact: (u64, u64)) -> Option<u64> {
    if contact.0 == player || contact.1 == player {
        if baddies.contains(contact.0) {
            Some(contact.0)
        } else if baddies.contains(contact.1) {
            Some(contact.1)
        } else {
            None
        }
    } else {
        None
    }
}

/// The baddies hit by the player over a sequence of contacts, in order, one
/// entry per hit.
pub open spec fn hits(player: u64, baddies: Seq<u64>, contacts: Seq<(u64, u64)>) -> Seq<u64>
    decreases contacts.len(),
{
    if contacts.len() == 0 {
        Seq::empty()
    } else {
        let earlier = hits(player, baddies, contacts.drop_last());
        match contact_hit(player, baddies, contacts.last()) {
            Some(b) => earlier.push(b),
            None => earlier,
        }
    }
}

fn contains_entity(entities: &Vec<u64>, entity: u64) -> (r: bool)
    ensures
        r == entities@.contains(entity),
{
    let mut i: usize = 0;
    while i < entities.len()
        invariant
            i <= entities.len(),
            forall|j: int| 0 <= j < i ==> entities@[j] != entity,
        decreases entities.len() - i,
    {
        if entities[i] == entity {
            return true;
        }
        i = i + 1;
    }
    false
}

/// Handles the contacts of one frame: each contact between the player and a
/// baddie costs the player a hit point and sends that baddie away. Returns the
/// baddies to despawn, in the order of the contacts (a baddie hit twice is
/// listed twice).
pub fn player_baddie_collision_handler(
    player: &mut Player,
    player_entity: u64,
    baddies: &Vec<u64>,
    contacts: &Vec<(u64, u64)>,
) -> (despawn: Vec<u64>)
    ensures
        despawn@ == hits(player_entity, baddies@, contacts@),
        final(player).hp == damaged(old(player).hp as nat, despawn@.len()),
        final(player).hp <= old(player).hp,
        final(player).xp_to_level == old(player).xp_to_level,
{
    let mut despawn: Vec<u64> = Vec::new();
    let mut i: usize = 0;
    while i < contacts.len()
        invariant
            i <= contacts.len(),
            despawn@ == hits(player_entity, baddies@, contacts@.take(i as int)),
            player.hp == damaged(old(player).hp as nat, despawn@.len()),
            player.xp_to_level == old(player).xp_to_level,
        decreases contacts.len() - i,
    {
        let (e1, e2) = contacts[i];
        assert(contacts@.take(i + 1).drop_last() =~= contacts@.take(i as int));
        assert(contacts@.take(i + 1).last() == contacts@[i as int]);
        if e1 == player_entity || e2 == player_entity {
            let hit: Option<u64> = if contains_entity(baddies, e1) {
                Some(e1)
            } else if contains_entity(baddies, e2) {
                Some(e2)
            } else {
                None
            };
            if let Some(baddie) = hit {
                damage_player(player);
                despawn.push(baddie);
            }
        }
        i = i + 1;
    }
    assert(contacts@.take(contacts.len() as int) =~= contacts@);
    despawn
}

proof fn lemma_hits_append(player: u64, baddies: Seq<u64>, a: Seq<(u64, u64)>, b: Seq<(u64, u64)>)
    ensures
        hits(player, baddies, a + b) == hits(player, baddies, a) + hits(player, baddies, b),
    decreases b.len(),
{
    if b.len() == 0 {
        assert(a + b =~= a);
        assert(hits(player, baddies, a) + hits(player, baddies, b) =~= hits(player, baddies, a));
    } else {
        lemma_hits_append(player, baddies, a, b.drop_last());
        assert((a + b).drop_last() =~= a + b.drop_last());
        assert((a + b).last() == b.last());
        match contact_hit(player, baddies, b.last()) {
            Some(x) => {
                assert(hits(player, baddies, a + b) =~= hits(player, baddies, a) + hits(
                    player,
                    baddies,
                    b,
                ));
            },
            None => {},
        }
    }
}

/// Handling the contacts of a frame in two batches, one after the other, does
/// the same as handling them all at once: the despawn lists concatenate, and
/// the player ends with the same hit points.
pub proof fn lemma_collisions_compose(
    player: u64,
    baddies: Seq<u64>,
    first: Seq<(u64, u64)>,
    second: Seq<(u64, u64)>,
    hp: nat,
)
    ensures
        hits(player, baddies, first + second) == hits(player, baddies, first) + hits(
            player,
            baddies,
            second,
        ),
        damaged(damaged(hp, hits(player, baddies, first).len()), hits(player, baddies, second).len())
            == damaged(hp, hits(player, baddies, first + second).len()),
{
    lemma_hits_append(player, baddies, first, second);
}

/// Contacts that do not involve the player never hurt it and send no baddie
/// away.
pub proof fn lemma_bystander_contacts_are_harmless(
    player: u64,
    baddies: Seq<u64>,
    contacts: Seq<(u64, u64)>,
)
    requires
        forall|i: int|
            0 <= i < contacts.len() ==> #[trigger] contacts[i].0 != player && contacts[i].1
                != player,
    ensures
        hits(player, baddies, contacts) == Seq::<u64>::empty(),
    decreases contacts.len(),
{
    if contacts.len() > 0 {
        let rest = contacts.drop_last();
        assert forall|i: int| 0 <= i < rest.len() implies #[trigger] rest[i].0 != player
            && rest[i].1 != player by {
            assert(rest[i] == contacts[i]);
        }
        lemma_bystander_contacts_are_harmless(player, baddies, rest);
        assert(contacts.last() == contacts[contacts.len() - 1]);
    }
}

/// Hits cost hit points one at a time: no hit costs nothing, one hit costs
/// exactly one point while there is one and nothing at zero, and taking hits
/// in two rounds costs what taking them all at once costs.
pub proof fn lemma_hits_cost_one_point_each(hp: nat, a: nat, b: nat)
    ensures
        damaged(hp, 0) == hp,
        hp > 0 ==> damaged(hp, 1) + 1 == hp,
        damaged(0, 1) == 0,
        damaged(damaged(hp, a), b) == damaged(hp, a + b),
        damaged(hp, a) <= hp,
        a <= hp ==> damaged(hp, a) + a == hp,
        a >= hp ==> damaged(hp, a) == 0,
{
}

proof fn lemma_hits_are_baddies_in_order(player: u64, baddies: Seq<u64>, contacts: Seq<(u64, u64)>)
    ensures
        hits(player, baddies, contacts) == contacts.filter(
            |c: (u64, u64)|
                (c.0 == player || c.1 == player) && (baddies.contains(c.0) || baddies.contains(
                    c.1,
                )),
        ).map_values(
            |c: (u64, u64)|
                if baddies.contains(c.0) {
                    c.0
                } else {
                    c.1
                },
        ),
    decreases contacts.len(),
{
    reveal_with_fuel(Seq::<_>::filter, 1);
    if contacts.len() > 0 {
        lemma_hits_are_baddies_in_order(player, baddies, contacts.drop_last());
        let pred = |c: (u64, u64)|
            (c.0 == player || c.1 == player) && (baddies.contains(c.0) || baddies.contains(c.1));
        let f = |c: (u64, u64)|
            if baddies.contains(c.0) {
                c.0
            } else {
                c.1
            };
        let earlier = contacts.drop_last().filter(pred);
        if pred(contacts.last()) {
            assert(contacts.filter(pred) == earlier.push(contacts.last()));
            assert(earlier.push(contacts.last()).map_values(f) =~= earlier.map_values(f).push(
                f(contacts.last()),
            ));
        } else {
            assert(contacts.filter(pred) == earlier);
        }
    }
}

/// What a frame's contacts do, stated over the contacts themselves: the
/// despawn list has one entry for each contact between the player and some
/// baddie, in the order of the contacts, and that entry is the first entity of
/// the contact if it is a baddie, else the second. Every entry is a baddie, and
/// there are never more entries than contacts.
pub proof fn lemma_hits_follow_contacts(
    player: u64,
    baddies: Seq<u64>,
    contacts: Seq<(u64, u64)>,
)
    ensures
        hits(player, baddies, contacts) == contacts.filter(
            |c: (u64, u64)|
                (c.0 == player || c.1 == player) && (baddies.contains(c.0) || baddies.contains(
                    c.1,
                )),
        ).map_values(
            |c: (u64, u64)|
                if baddies.contains(c.0) {
                    c.0
                } else {
                    c.1
                },
        ),
        forall|i: int|
            0 <= i < hits(player, baddies, contacts).len() ==> baddies.contains(
                #[trigger] hits(player, baddies, contacts)[i],
            ),
        hits(player, baddies, contacts).len() <= contacts.len(),
{
    lemma_hits_are_baddies_in_order(player, baddies, contacts);
    let pred = |c: (u64, u64)|
        (c.0 == player || c.1 == player) && (baddies.contains(c.0) || baddies.contains(c.1));
    let f = |c: (u64, u64)|
        if baddies.contains(c.0) {
            c.0
        } else {
            c.1
        };
    let kept = contacts.filter(pred);
    broadcast use vstd::seq_lib::group_filter_ensures;

    assert forall|i: int| 0 <= i < kept.map_values(f).len() implies baddies.contains(
        #[trigger] kept.map_values(f)[i],
    ) by {
        assert(pred(kept[i]));
    }
    contacts.lemma_filter_len(pred);
}

/// A single contact between the player and an entity that sits anywhere in the
/// baddie list is one hit on that entity, whatever the order of the list.
pub proof fn lemma_contact_with_listed_baddie_is_a_hit(
    player: u64,
    baddies: Seq<u64>,
    other: u64,
    k: int,
)
    requires
        0 <= k < baddies.len(),
        baddies[k] == other,
        forall|j: int| 0 <= j < baddies.len() ==> baddies[j] != player,
    ensures
        hits(player, baddies, seq![(player, other)]) == seq![other],
        hits(player, baddies, seq![(other, player)]) == seq![other],
{
    assert(baddies.contains(other));
    assert(!baddies.contains(player));
    let a: Seq<(u64, u64)> = seq![(player, other)];
    let b: Seq<(u64, u64)> = seq![(other, player)];
    assert(a.drop_last() =~= Seq::<(u64, u64)>::empty());
    assert(b.drop_last() =~= Seq::<(u64, u64)>::empty());
    assert(hits(player, baddies, a.drop_last()) == Seq::<u64>::empty());
    assert(hits(player, baddies, b.drop_last()) == Seq::<u64>::empty());
    assert(a.last() == (player, other));
    assert(b.last() == (other, player));
    assert(contact_hit(player, baddies, (player, other)) == Some(other));
    assert(contact_hit(player, baddies, (other, player)) == Some(other));
    assert(Seq::<u64>::empty().push(other) =~= seq![other]);
}

/// The order of the baddie list does not matter: two lists with the same
/// members give the same hits for any contacts.
pub proof fn lemma_baddie_order_irrelevant(
    player: u64,
    baddies1: Seq<u64>,
    baddies2: Seq<u64>,
    contacts: Seq<(u64, u64)>,
)
    requires
        forall|e: u64| baddies1.contains(e) <==> baddies2.contains(e),
    ensures
        hits(player, baddies1, contacts) == hits(player, baddies2, contacts),
    decreases contacts.len(),
{
    if contacts.len() > 0 {
        lemma_baddie_order_irrelevant(player, baddies1, baddies2, contacts.drop_last());
        let c = contacts.last();
        assert(baddies1.contains(c.0) == baddies2.contains(c.0));
        assert(baddies1.contains(c.1) == baddies2.contains(c.1));
    }
}

} // verus!
