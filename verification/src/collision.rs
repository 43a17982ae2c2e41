//! Which laser strikes which target in one tick.

use vstd::prelude::*;
use crate::entity::{Enemy, Laser, Owner, Ship};
use crate::geometry::{overlap, overlaps, Point, Scale, SpriteSize};

verus! {

/// The laser's box and the given box overlap, each taken at its own scale.
pub open spec fn collides(laser: Laser, pos: Point, size: SpriteSize, scale: Scale) -> bool {
    overlaps(laser.pos, laser.size.scaled_spec(laser.scale), pos, size.scaled_spec(scale))
}

/// A laser of the player overlaps the enemy.
pub open spec fn strikes(laser: Laser, enemy: Enemy) -> bool {
    laser.owner == Owner::FromPlayer && collides(laser, enemy.pos, enemy.size, enemy.scale)
}

/// A laser of an enemy overlaps the ship.
pub open spec fn wounds(laser: Laser, ship: Ship) -> bool {
    laser.owner == Owner::FromEnemy && collides(laser, ship.pos, ship.size, ship.scale)
}

/// Some laser before `laser` has taken the enemy `enemy`.
pub open spec fn claimed(targets: Seq<Option<usize>>, laser: int, enemy: int) -> bool {
    exists|k: int| 0 <= k < laser && k < targets.len() && #[trigger] targets[k] == Some(enemy as usize)
}

/// The laser `laser` has the target that is its due: the first enemy that
/// it strikes and that no earlier laser has taken, or none if there is no
/// such enemy.
pub open spec fn row_resolved(
    lasers: Seq<Laser>,
    enemies: Seq<Enemy>,
    targets: Seq<Option<usize>>,
    laser: int,
) -> bool {
    match targets[laser] {
        Some(enemy) => {
            &&& enemy < enemies.len()
            &&& strikes(lasers[laser], enemies[enemy as int])
            &&& !claimed(targets, laser, enemy as int)
            &&& forall|f: int|
                0 <= f < enemy ==> claimed(targets, laser, f) || !strikes(
                    lasers[laser],
                    #[trigger] enemies[f],
                )
        },
        None => forall|f: int|
            0 <= f < enemies.len() ==> claimed(targets, laser, f) || !strikes(
                lasers[laser],
                #[trigger] enemies[f],
            ),
    }
}

/// `targets` names, for each laser in turn, the enemy it destroys.
pub open spec fn resolved(lasers: Seq<Laser>, enemies: Seq<Enemy>, targets: Seq<Option<usize>>) -> bool {
    &&& targets.len() == lasers.len()
    &&& forall|l: int| 0 <= l < lasers.len() ==> #[trigger] row_resolved(lasers, enemies, targets, l)
}

/// The outcome of matching lasers against enemies: for each laser the enemy
/// it destroys, and for each enemy whether it is destroyed.
pub struct Resolution {
    pub targets: Vec<Option<usize>>,
    pub struck: Vec<bool>,
}

/// Computes `strikes`.
pub fn laser_strikes(laser: &Laser, enemy: &Enemy) -> (out: bool)
    ensures
        out == strikes(*laser, *enemy),
{
    match laser.owner {
        Owner::FromPlayer => overlap(
            laser.pos,
            laser.size.scaled(laser.scale),
            enemy.pos,
            enemy.size.scaled(enemy.scale),
        ).is_some(),
        Owner::FromEnemy => false,
    }
}

/// Computes `wounds`.
pub fn laser_wounds(laser: &Laser, ship: &Ship) -> (out: bool)
    ensures
        out == wounds(*laser, *ship),
{
    match laser.owner {
        Owner::FromEnemy => overlap(
            laser.pos,
            laser.size.scaled(laser.scale),
            ship.pos,
            ship.size.scaled(ship.scale),
        ).is_some(),
        Owner::FromPlayer => false,
    }
}

/// Matches the player's lasers against the enemies. Each laser, in turn,
/// takes the first enemy that it overlaps and that no laser before it has
/// taken; so no enemy is taken twice, and no laser takes two.
pub fn resolve_laser_hits(lasers: &Vec<Laser>, enemies: &Vec<Enemy>) -> (out: Resolution)
    ensures
        resolved(lasers@, enemies@, out.targets@),
        out.struck@.len() == enemies@.len(),
        forall|e: int|
            0 <= e < enemies@.len() ==> #[trigger] out.struck@[e] == claimed(
                out.targets@,
                lasers@.len() as int,
                e,
            ),
{
    let mut struck: Vec<bool> = Vec::new();
    let mut e: usize = 0;
    while e < enemies.len()
        invariant
            e <= enemies@.len(),
            struck@.len() == e,
            forall|f: int| 0 <= f < e ==> !(#[trigger] struck@[f]),
        decreases enemies@.len() - e,
    {
        struck.push(false);
        e = e + 1;
    }
    let mut targets: Vec<Option<usize>> = Vec::new();
    let mut i: usize = 0;
    while i < lasers.len()
        invariant
            i <= lasers@.len(),
            targets@.len() == i,
            struck@.len() == enemies@.len(),
            forall|f: int|
                0 <= f < enemies@.len() ==> #[trigger] struck@[f] == claimed(targets@, i as int, f),
            forall|l: int| 0 <= l < i ==> #[trigger] row_resolved(lasers@, enemies@, targets@, l),
        decreases lasers@.len() - i,
    {
        let mut j: usize = 0;
        while j < enemies.len() && (struck[j] || !laser_strikes(&lasers[i], &enemies[j]))
            invariant
                j <= enemies@.len(),
                i < lasers@.len(),
                struck@.len() == enemies@.len(),
                forall|f: int|
                    0 <= f < j ==> struck@[f] || !strikes(lasers@[i as int], #[trigger] enemies@[f]),
            decreases enemies@.len() - j,
        {
            j = j + 1;
        }
        let ghost before = targets@;
        let ghost struck_before = struck@;
        if j < enemies.len() {
            targets.push(Some(j));
            struck.set(j, true);
        } else {
            targets.push(None);
        }
        proof {
            let after = targets@;
            assert forall|l: int, f: int| 0 <= l <= i implies claimed(after, l, f) == claimed(
                before,
                l,
                f,
            ) by {
                if claimed(after, l, f) {
                    let k = choose|k: int|
                        0 <= k < l && k < after.len() && #[trigger] after[k] == Some(f as usize);
                    assert(before[k] == Some(f as usize));
                }
                if claimed(before, l, f) {
                    let k = choose|k: int|
                        0 <= k < l && k < before.len() && #[trigger] before[k] == Some(f as usize);
                    assert(after[k] == Some(f as usize));
                }
            }
            assert forall|l: int| 0 <= l < i implies #[trigger] row_resolved(
                lasers@,
                enemies@,
                after,
                l,
            ) by {
                assert(row_resolved(lasers@, enemies@, before, l));
                assert(after[l] == before[l]);
            }
            assert(row_resolved(lasers@, enemies@, after, i as int)) by {
                assert forall|f: int| 0 <= f < j implies claimed(after, i as int, f) || !strikes(
                    lasers@[i as int],
                    #[trigger] enemies@[f],
                ) by {
                    assert(struck_before[f] == claimed(before, i as int, f));
                }
                if j < enemies@.len() {
                    assert(struck_before[j as int] == claimed(before, i as int, j as int));
                }
            }
            assert forall|f: int| 0 <= f < enemies@.len() implies #[trigger] struck@[f] == claimed(
                after,
                i + 1,
                f,
            ) by {
                assert(struck_before[f] == claimed(before, i as int, f));
                assert(claimed(after, i as int, f) == claimed(before, i as int, f));
                if claimed(after, i as int, f) {
                    let k = choose|k: int|
                        0 <= k < i && k < after.len() && #[trigger] after[k] == Some(f as usize);
                    assert(after[k] == Some(f as usize));
                }
                if after[i as int] == Some(f as usize) {
                    assert(claimed(after, i + 1, f));
                }
                if claimed(after, i + 1, f) {
                    let k = choose|k: int|
                        0 <= k < i + 1 && k < after.len() && #[trigger] after[k] == Some(f as usize);
                    if k < i {
                        assert(claimed(after, i as int, f));
                    }
                }
            }
        }
        i = i + 1;
    }
    Resolution { targets, struck }
}

/// Finds the first laser of an enemy that overlaps the ship. One hit is
/// enough, so the lasers behind it are not looked at.
pub fn first_hit(lasers: &Vec<Laser>, ship: &Ship) -> (out: Option<usize>)
    ensures
        match out {
            Some(l) => l < lasers@.len() && wounds(lasers@[l as int], *ship) && forall|k: int|
                0 <= k < l ==> !wounds(#[trigger] lasers@[k], *ship),
            None => forall|k: int| 0 <= k < lasers@.len() ==> !wounds(#[trigger] lasers@[k], *ship),
        },
{
    let mut l: usize = 0;
    while l < lasers.len() && !laser_wounds(&lasers[l], ship)
        invariant
            l <= lasers@.len(),
            forall|k: int| 0 <= k < l ==> !wounds(#[trigger] lasers@[k], *ship),
        decreases lasers@.len() - l,
    {
        l = l + 1;
    }
    if l < lasers.len() {
        Some(l)
    } else {
        None
    }
}

/// No enemy is destroyed by two lasers: two lasers that both have a
/// target have different ones. And a target is an enemy that its laser strikes.
pub proof fn no_target_struck_twice(
    lasers: Seq<Laser>,
    enemies: Seq<Enemy>,
    targets: Seq<Option<usize>>,
    first: int,
    second: int,
)
    requires
        resolved(lasers, enemies, targets),
        0 <= first < second < lasers.len(),
        targets[first].is_some(),
    ensures
        targets[first] != targets[second],
        targets[first].unwrap() < enemies.len(),
        strikes(lasers[first], enemies[targets[first].unwrap() as int]),
{
    assert(row_resolved(lasers, enemies, targets, first));
    assert(row_resolved(lasers, enemies, targets, second));
    if targets[second] == targets[first] {
        let enemy = targets[second].unwrap();
        assert(targets[first] == Some(enemy as int as usize));
        assert(claimed(targets, second, enemy as int));
    }
}

proof fn lemma_claims_agree(
    one: Seq<Option<usize>>,
    other: Seq<Option<usize>>,
    laser: int,
    enemy: int,
)
    requires
        one.len() == other.len(),
        forall|k: int| 0 <= k < laser && k < one.len() ==> one[k] == other[k],
        claimed(one, laser, enemy),
    ensures
        claimed(other, laser, enemy),
{
    let k = choose|k: int| 0 <= k < laser && k < one.len() && #[trigger] one[k] == Some(enemy as usize);
    assert(other[k] == Some(enemy as usize));
}

proof fn lemma_rows_agree(
    lasers: Seq<Laser>,
    enemies: Seq<Enemy>,
    one: Seq<Option<usize>>,
    other: Seq<Option<usize>>,
    upto: int,
)
    requires
        resolved(lasers, enemies, one),
        resolved(lasers, enemies, other),
        0 <= upto <= lasers.len(),
    ensures
        forall|k: int| 0 <= k < upto ==> one[k] == other[k],
    decreases upto,
{
    if upto > 0 {
        lemma_rows_agree(lasers, enemies, one, other, upto - 1);
        let l = upto - 1;
        assert(row_resolved(lasers, enemies, one, l));
        assert(row_resolved(lasers, enemies, other, l));
        assert forall|e: int| claimed(one, l, e) == claimed(other, l, e) by {
            if claimed(one, l, e) {
                lemma_claims_agree(one, other, l, e);
            }
            if claimed(other, l, e) {
                lemma_claims_agree(other, one, l, e);
            }
        }
        match (one[l], other[l]) {
            (Some(a), Some(b)) => {
                if a < b {
                    assert(claimed(other, l, a as int) || !strikes(lasers[l], enemies[a as int]));
                } else if b < a {
                    assert(claimed(one, l, b as int) || !strikes(lasers[l], enemies[b as int]));
                }
            },
            (Some(a), None) => {
                assert(claimed(other, l, a as int) || !strikes(lasers[l], enemies[a as int]));
            },
            (None, Some(b)) => {
                assert(claimed(one, l, b as int) || !strikes(lasers[l], enemies[b as int]));
            },
            (None, None) => {},
        }
    }
}

/// The lasers and the enemies of a tick settle who destroys whom: any two
/// matchings that `resolved` admits are the same.
pub proof fn resolution_is_unique(
    lasers: Seq<Laser>,
    enemies: Seq<Enemy>,
    one: Seq<Option<usize>>,
    other: Seq<Option<usize>>,
)
    requires
        resolved(lasers, enemies, one),
        resolved(lasers, enemies, other),
    ensures
        one == other,
{
    lemma_rows_agree(lasers, enemies, one, other, lasers.len() as int);
    assert(one =~= other);
}

} // verus!
