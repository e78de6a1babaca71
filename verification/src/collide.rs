//! Collisions: which circles overlap, who dies of it, and what it scores.

use vstd::prelude::*;
use crate::actor::Actor;
use crate::game::{GameView, MainState, lemma_survivors_alive, pruned, survivors};
use crate::vector::lemma_square_bound;

verus! {

/// The circles of `a` and `b` overlap: their centres are nearer to each other
/// than the sum of their radii. Circles that just touch do not overlap.
pub open spec fn overlaps(a: Actor, b: Actor) -> bool {
    let reach = a.bbox_size + b.bbox_size;
    reach > 0 && a.pos.dist2_spec(b.pos) < reach * reach
}

/// The number of actors of `others` that overlap `a`.
pub open spec fn count_overlaps(a: Actor, others: Seq<Actor>) -> int
    decreases others.len(),
{
    if others.len() == 0 {
        0
    } else {
        count_overlaps(a, others.drop_last()) + (if overlaps(a, others.last()) {
            1int
        } else {
            0int
        })
    }
}

/// `a` after meeting `others`: dead if any of them overlaps it.
pub open spec fn struck(a: Actor, others: Seq<Actor>) -> Actor {
    if count_overlaps(a, others) > 0 {
        a.slain()
    } else {
        a
    }
}

/// Each actor of `s` after meeting `others`.
pub open spec fn struck_all(s: Seq<Actor>, others: Seq<Actor>) -> Seq<Actor> {
    Seq::new(s.len(), |i: int| struck(s[i], others))
}

/// The number of pairs of one actor of `s` and one of `others` that overlap.
pub open spec fn total_hits(s: Seq<Actor>, others: Seq<Actor>) -> int
    decreases s.len(),
{
    if s.len() == 0 {
        0
    } else {
        total_hits(s.drop_last(), others) + count_overlaps(s.last(), others)
    }
}

/// The number of actors of `s` that some actor of `others` overlaps.
pub open spec fn count_struck(s: Seq<Actor>, others: Seq<Actor>) -> int
    decreases s.len(),
{
    if s.len() == 0 {
        0
    } else {
        count_struck(s.drop_last(), others) + (if count_overlaps(s.last(), others) > 0 {
            1int
        } else {
            0int
        })
    }
}

/// The game after its collisions. A rock on the player kills the player; a
/// shot on a rock kills both and scores a point for the pair; the player on a
/// wormhole kills the wormhole. Nobody moves, so the dead still collide.
pub open spec fn collided(g: GameView) -> GameView {
    GameView {
        player: struck(g.player, g.rocks),
        rocks: struck_all(g.rocks, g.shots),
        shots: struck_all(g.shots, g.rocks),
        wormhole: struck_all(g.wormhole, seq![g.player]),
        score: g.score + total_hits(g.rocks, g.shots),
        ..g
    }
}

/// Every actor of `s` can be tested for collisions.
pub open spec fn all_collidable(s: Seq<Actor>) -> bool {
    forall|i: int| 0 <= i < s.len() ==> (#[trigger] s[i]).collidable()
}

/// The collisions of `g` can be computed without overflow.
pub open spec fn can_collide(g: GameView) -> bool {
    &&& g.player.collidable()
    &&& all_collidable(g.rocks)
    &&& all_collidable(g.shots)
    &&& all_collidable(g.wormhole)
    &&& g.rocks.len() * g.shots.len() <= i32::MAX
    &&& g.score + g.rocks.len() * g.shots.len() <= i32::MAX
}

/// Collision strictness: circles whose centres are exactly the sum of their
/// radii apart do not overlap, circles that are nearer do, and the test does
/// not depend on the order of the two.
pub proof fn lemma_collision_strict(a: Actor, b: Actor)
    requires
        a.bbox_size + b.bbox_size > 0,
    ensures
        a.pos.dist2_spec(b.pos) == (a.bbox_size + b.bbox_size) * (a.bbox_size + b.bbox_size)
            ==> !overlaps(a, b),
        a.pos.dist2_spec(b.pos) < (a.bbox_size + b.bbox_size) * (a.bbox_size + b.bbox_size)
            ==> overlaps(a, b),
        overlaps(a, b) == overlaps(b, a),
{
    lemma_overlap_symmetric(a, b);
}

/// Overlap does not depend on the order of the two.
pub proof fn lemma_overlap_symmetric(a: Actor, b: Actor)
    ensures
        overlaps(a, b) == overlaps(b, a),
{
    let dx = a.pos.x - b.pos.x;
    let dy = a.pos.y - b.pos.y;
    assert((-dx) * (-dx) == dx * dx && (-dy) * (-dy) == dy * dy) by (nonlinear_arith);
    assert(b.pos.x - a.pos.x == -dx && b.pos.y - a.pos.y == -dy);
}

/// An actor overlaps between none and all of the others.
pub proof fn lemma_count_bounds(a: Actor, others: Seq<Actor>)
    ensures
        0 <= count_overlaps(a, others) <= others.len(),
    decreases others.len(),
{
    if others.len() > 0 {
        lemma_count_bounds(a, others.drop_last());
    }
}

/// Whoever overlaps one of the others is counted.
pub proof fn lemma_count_witness(a: Actor, others: Seq<Actor>, j: int)
    requires
        0 <= j < others.len(),
        overlaps(a, others[j]),
    ensures
        count_overlaps(a, others) > 0,
    decreases others.len(),
{
    lemma_count_bounds(a, others.drop_last());
    if j < others.len() - 1 {
        lemma_count_witness(a, others.drop_last(), j);
    }
}

/// The pairs that overlap are between none and all.
pub proof fn lemma_total_bounds(s: Seq<Actor>, others: Seq<Actor>)
    ensures
        0 <= total_hits(s, others) <= s.len() * others.len(),
        0 <= count_struck(s, others) <= total_hits(s, others),
    decreases s.len(),
{
    if s.len() > 0 {
        lemma_total_bounds(s.drop_last(), others);
        lemma_count_bounds(s.last(), others);
        assert((s.len() - 1) * others.len() + others.len() == s.len() * others.len())
            by (nonlinear_arith);
    } else {
        assert(0 * others.len() == 0) by (nonlinear_arith);
    }
}

/// Being struck changes neither place nor size, so it changes no overlap.
pub proof fn lemma_count_ignores_strikes(a: Actor, s: Seq<Actor>, others: Seq<Actor>)
    ensures
        count_overlaps(a, struck_all(s, others)) == count_overlaps(a, s),
    decreases s.len(),
{
    if s.len() > 0 {
        lemma_count_ignores_strikes(a, s.drop_last(), others);
        assert(struck_all(s, others).drop_last() =~= struck_all(s.drop_last(), others));
    }
}

/// Where no actor of `s` is overlapped twice, as many pairs overlap as
/// actors of `s` are struck.
pub proof fn lemma_single_hits(s: Seq<Actor>, others: Seq<Actor>)
    requires
        forall|i: int| 0 <= i < s.len() ==> count_overlaps(#[trigger] s[i], others) <= 1,
    ensures
        total_hits(s, others) == count_struck(s, others),
    decreases s.len(),
{
    if s.len() > 0 {
        let rest = s.drop_last();
        assert forall|i: int| 0 <= i < rest.len() implies count_overlaps(
            #[trigger] rest[i],
            others,
        ) <= 1 by {
            assert(rest[i] == s[i]);
        }
        lemma_single_hits(rest, others);
        lemma_count_bounds(s.last(), others);
        assert(s.last() == s[s.len() - 1]);
    }
}

/// A collection with a dead actor in it loses at least that one when pruned.
pub proof fn lemma_dead_are_dropped(s: Seq<Actor>, i: int)
    requires
        0 <= i < s.len(),
        !s[i].alive(),
    ensures
        survivors(s).len() < s.len(),
    decreases s.len(),
{
    lemma_survivors_alive(s.drop_last());
    if i < s.len() - 1 {
        lemma_dead_are_dropped(s.drop_last(), i);
    }
}

/// A shot on a rock destroys both: a rock and a shot that overlap are both
/// dead after the collisions, whichever of the two is asked first, the pair
/// scores, and the pruning that follows drops at least one rock and one shot.
pub proof fn lemma_shot_rock_destruction(g: GameView, i: int, j: int)
    requires
        0 <= i < g.rocks.len(),
        0 <= j < g.shots.len(),
        overlaps(g.rocks[i], g.shots[j]),
    ensures
        overlaps(g.shots[j], g.rocks[i]),
        collided(g).rocks[i].life == 0,
        collided(g).shots[j].life == 0,
        collided(g).score >= g.score + 1,
        pruned(collided(g)).rocks.len() < g.rocks.len(),
        pruned(collided(g)).shots.len() < g.shots.len(),
{
    lemma_overlap_symmetric(g.rocks[i], g.shots[j]);
    lemma_count_witness(g.rocks[i], g.shots, j);
    lemma_count_witness(g.shots[j], g.rocks, i);
    lemma_dead_are_dropped(collided(g).rocks, i);
    lemma_dead_are_dropped(collided(g).shots, j);
    lemma_struck_scores(g.rocks, g.shots, i);
}

/// A struck actor accounts for at least one overlapping pair.
pub proof fn lemma_struck_scores(s: Seq<Actor>, others: Seq<Actor>, i: int)
    requires
        0 <= i < s.len(),
        count_overlaps(s[i], others) > 0,
    ensures
        total_hits(s, others) >= 1,
    decreases s.len(),
{
    lemma_total_bounds(s.drop_last(), others);
    lemma_count_bounds(s.last(), others);
    if i < s.len() - 1 {
        lemma_struck_scores(s.drop_last(), others, i);
    }
}

/// Where no rock is hit by two shots at once, the score grows by exactly one
/// for each rock destroyed.
pub proof fn lemma_one_point_per_rock(g: GameView)
    requires
        forall|i: int| 0 <= i < g.rocks.len() ==> count_overlaps(#[trigger] g.rocks[i], g.shots) <= 1,
    ensures
        collided(g).score == g.score + count_struck(g.rocks, g.shots),
{
    lemma_single_hits(g.rocks, g.shots);
}

/// Whether the circles of `a` and `b` overlap.
pub fn collides(a: &Actor, b: &Actor) -> (hit: bool)
    requires
        a.collidable(),
        b.collidable(),
    ensures
        hit == overlaps(*a, *b),
{
    let reach: i64 = a.bbox_size + b.bbox_size;
    if reach <= 0 {
        return false;
    }
    proof {
        lemma_square_bound(reach as int, 2_000_000_000);
    }
    a.pos.dist2(b.pos) < reach * reach
}

/// The number of actors of `others` that overlap `a`.
pub fn count_hits(a: &Actor, others: &Vec<Actor>) -> (n: usize)
    requires
        a.collidable(),
        all_collidable(others@),
    ensures
        n == count_overlaps(*a, others@),
        n <= others@.len(),
{
    let mut n: usize = 0;
    let mut j: usize = 0;
    while j < others.len()
        invariant
            0 <= j <= others@.len(),
            a.collidable(),
            all_collidable(others@),
            n == count_overlaps(*a, others@.take(j as int)),
            n <= j,
        decreases others@.len() - j,
    {
        proof {
            let next = others@.take(j as int + 1);
            assert(next.drop_last() =~= others@.take(j as int));
            assert(next.last() == others@[j as int]);
        }
        if collides(a, &others[j]) {
            n = n + 1;
        }
        j = j + 1;
    }
    proof {
        assert(others@.take(others@.len() as int) =~= others@);
    }
    n
}

/// Kills every actor of `v` that an actor of `others` overlaps, and counts
/// the overlapping pairs.
pub fn strike_all(v: &mut Vec<Actor>, others: &Vec<Actor>) -> (hits: usize)
    requires
        all_collidable(old(v)@),
        all_collidable(others@),
        old(v)@.len() * others@.len() <= usize::MAX,
    ensures
        final(v)@ == struck_all(old(v)@, others@),
        hits == total_hits(old(v)@, others@),
        all_collidable(final(v)@),
{
    let mut hits: usize = 0;
    let n = v.len();
    let mut i: usize = 0;
    while i < n
        invariant
            0 <= i <= n,
            n == v@.len(),
            n == old(v)@.len(),
            all_collidable(others@),
            n * others@.len() <= usize::MAX,
            forall|k: int| 0 <= k < i ==> #[trigger] v@[k] == struck(old(v)@[k], others@),
            forall|k: int| i <= k < n ==> #[trigger] v@[k] == old(v)@[k],
            forall|k: int| 0 <= k < n ==> (#[trigger] old(v)@[k]).collidable(),
            hits == total_hits(old(v)@.take(i as int), others@),
        decreases n - i,
    {
        let a = v[i];
        assert(a == old(v)@[i as int]);
        let c = count_hits(&a, others);
        proof {
            let next = old(v)@.take(i as int + 1);
            assert(next.drop_last() =~= old(v)@.take(i as int));
            assert(next.last() == a);
            lemma_total_bounds(next, others@);
            assert(next.len() * others@.len() <= n * others@.len()) by (nonlinear_arith)
                requires
                    next.len() <= n,
                    others@.len() >= 0,
            ;
        }
        if c > 0 {
            let mut dead = a;
            dead.life = 0;
            v.set(i, dead);
        }
        hits = hits + c;
        i = i + 1;
    }
    proof {
        assert(old(v)@.take(n as int) =~= old(v)@);
        assert(v@ =~= struck_all(old(v)@, others@));
    }
    hits
}

impl MainState {
    /// Resolves the collisions of the frame and returns the number of shots
    /// that hit a rock, pair by pair: each is a point, and a sound to play.
    pub fn handle_collisions(&mut self) -> (hits: i32)
        requires
            can_collide(old(self)@),
        ensures
            final(self)@ == collided(old(self)@),
            hits == total_hits(old(self)@.rocks, old(self)@.shots),
            hits >= 0,
    {
        let ghost g = self@;
        proof {
            lemma_total_bounds(g.rocks, g.shots);
        }
        if count_hits(&self.player, &self.rocks) > 0 {
            self.player.life = 0;
        }
        let hits = strike_all(&mut self.rocks, &self.shots);
        proof {
            assert forall|k: int| 0 <= k < g.shots.len() implies struck(
                #[trigger] g.shots[k],
                self.rocks@,
            ) == struck(g.shots[k], g.rocks) by {
                lemma_count_ignores_strikes(g.shots[k], g.rocks, g.shots);
            }
            assert(g.shots.len() * g.rocks.len() == g.rocks.len() * g.shots.len())
                by (nonlinear_arith);
        }
        let _ = strike_all(&mut self.shots, &self.rocks);
        assert(self.shots@ =~= struck_all(g.shots, g.rocks));
        let mut player_alone: Vec<Actor> = Vec::new();
        player_alone.push(self.player);
        let wormholes: usize = self.wormhole.len();
        proof {
            assert(player_alone@ =~= seq![self.player]);
            assert forall|k: int| 0 <= k < g.wormhole.len() implies struck(
                #[trigger] g.wormhole[k],
                seq![self.player],
            ) == struck(g.wormhole[k], seq![g.player]) by {
                lemma_player_overlap(g.wormhole[k], g.player, self.player);
            }
            assert(self.wormhole@.len() * player_alone@.len() == wormholes) by (nonlinear_arith)
                requires
                    self.wormhole@.len() == wormholes,
                    player_alone@.len() == 1,
            ;
        }
        let _ = strike_all(&mut self.wormhole, &player_alone);
        assert(self.wormhole@ =~= struck_all(g.wormhole, seq![g.player]));
        self.score = self.score + hits as i32;
        hits as i32
    }
}

/// Whether the player lives does not change what it overlaps.
proof fn lemma_player_overlap(a: Actor, p: Actor, q: Actor)
    requires
        q.pos == p.pos,
        q.bbox_size == p.bbox_size,
    ensures
        count_overlaps(a, seq![q]) == count_overlaps(a, seq![p]),
{
    assert(seq![q].drop_last() =~= Seq::<Actor>::empty());
    assert(seq![p].drop_last() =~= Seq::<Actor>::empty());
    assert(seq![q].last() == q);
    assert(seq![p].last() == p);
    assert(count_overlaps(a, Seq::<Actor>::empty()) == 0);
}

} // verus!
