//! Pellets: food that the player drops and that falls until a fish eats it
//! or it leaves the playfield.

use vstd::prelude::*;
use crate::geometry::{Point, Position, COORD_MAX};
use crate::rules::{Rules, SPEED_MAX};

verus! {

/// Identity of a pellet: pellets are numbered in the order in which they are
/// spawned, and a number is never used twice.
pub type PelletId = u64;

/// The mathematical value of a [`Pellet`].
pub struct PelletView {
    pub id: nat,
    pub at: Point,
}

#[derive(Clone, Copy, Debug, PartialEq, Eq)]
pub struct Pellet {
    pub id: PelletId,
    pub position: Position,
}

impl View for Pellet {
    type V = PelletView;

    open spec fn view(&self) -> PelletView {
        PelletView { id: self.id as nat, at: self.position@ }
    }
}

/// The views of a sequence of pellets, in the same order.
pub open spec fn pellet_views(pellets: Seq<Pellet>) -> Seq<PelletView> {
    Seq::new(pellets.len(), |i: int| pellets[i]@)
}

/// The pellet `p` after falling by `drop`.
pub open spec fn lowered(p: PelletView, drop: int) -> PelletView {
    PelletView { at: Point { y: p.at.y - drop, ..p.at }, ..p }
}

/// Every pellet of `pellets` after falling by `drop`.
pub open spec fn lowered_all(pellets: Seq<PelletView>, drop: int) -> Seq<PelletView> {
    Seq::new(pellets.len(), |i: int| lowered(pellets[i], drop))
}

/// Holds of the pellets at height `floor` or above.
pub open spec fn above(floor: int) -> spec_fn(PelletView) -> bool {
    |p: PelletView| p.at.y >= floor
}

/// Holds of the pellets whose identity is not `id`.
pub open spec fn other_than(id: nat) -> spec_fn(PelletView) -> bool {
    |p: PelletView| p.id != id
}

/// The mathematical value of [`Pellets`]: the live pellets, oldest first, and
/// the identity that the next pellet will get.
pub struct PelletsView {
    pub items: Seq<PelletView>,
    pub next_id: nat,
}

impl PelletsView {
    /// Identities grow along the sequence and lie below the next one to hand out.
    pub open spec fn ordered(self) -> bool {
        &&& forall|i: int, j: int|
            0 <= i < j < self.items.len() ==> #[trigger] self.items[i].id < #[trigger] self.items[j].id
        &&& forall|i: int| 0 <= i < self.items.len() ==> (#[trigger] self.items[i]).id < self.next_id
        &&& self.next_id <= u64::MAX
    }

    /// Ordered, and every pellet lies within the coordinate range.
    pub open spec fn wf(self) -> bool {
        &&& self.ordered()
        &&& forall|i: int| 0 <= i < self.items.len() ==> (#[trigger] self.items[i]).at.in_range()
    }

    /// Whether an identity is left for one more pellet.
    pub open spec fn has_room(self) -> bool {
        self.next_id < u64::MAX
    }

    /// Whether a pellet with this identity is live.
    pub open spec fn contains(self, id: nat) -> bool {
        exists|i: int| 0 <= i < self.items.len() && (#[trigger] self.items[i]).id == id
    }

    /// With one more pellet at `at`, if an identity is left for it.
    pub open spec fn spawned(self, at: Point) -> PelletsView {
        if self.has_room() {
            PelletsView {
                items: self.items.push(PelletView { id: self.next_id, at }),
                next_id: self.next_id + 1,
            }
        } else {
            self
        }
    }

    /// With every pellet lower by `drop`.
    pub open spec fn fallen(self, drop: int) -> PelletsView {
        PelletsView { items: lowered_all(self.items, drop), ..self }
    }

    /// Without the pellets below `floor`.
    pub open spec fn pruned(self, floor: int) -> PelletsView {
        PelletsView { items: self.items.filter(above(floor)), ..self }
    }

    /// Without the pellet `id`.
    pub open spec fn without(self, id: nat) -> PelletsView {
        PelletsView { items: self.items.filter(other_than(id)), ..self }
    }

    /// After `rounds` steps without fish: each step lowers the pellets by `drop`
    /// and then prunes those below `floor`.
    pub open spec fn after_rounds(self, drop: int, floor: int, rounds: nat) -> PelletsView
        decreases rounds,
    {
        if rounds == 0 {
            self
        } else {
            self.after_rounds(drop, floor, (rounds - 1) as nat).fallen(drop).pruned(floor)
        }
    }
}

/// The live pellets, oldest first.
#[derive(Clone, Debug, PartialEq, Eq)]
pub struct Pellets {
    pub items: Vec<Pellet>,
    pub next_id: PelletId,
}

impl View for Pellets {
    type V = PelletsView;

    open spec fn view(&self) -> PelletsView {
        PelletsView { items: pellet_views(self.items@), next_id: self.next_id as nat }
    }
}

impl Pellets {
    /// No pellets, and every identity still to hand out.
    pub fn new() -> (pellets: Pellets)
        ensures
            pellets@ == (PelletsView { items: Seq::empty(), next_id: 0 }),
            pellets@.wf(),
    {
        let pellets = Pellets { items: Vec::new(), next_id: 0 };
        assert(pellets@.items =~= Seq::empty());
        pellets
    }

    /// Whether the pellets are in order and within the coordinate range.
    pub fn is_valid(&self) -> (ok: bool)
        ensures
            ok == self@.wf(),
    {
        let n: usize = self.items.len();
        let mut i: usize = 0;
        while i < n
            invariant
                i <= n,
                n == self.items@.len(),
                forall|j: int| 0 <= j < i ==> (#[trigger] self@.items[j]).at.in_range(),
                forall|j: int| 0 <= j < i ==> (#[trigger] self@.items[j]).id < self@.next_id,
                forall|j: int, k: int|
                    0 <= j < k < i ==> #[trigger] self@.items[j].id < #[trigger] self@.items[k].id,
            decreases n - i,
        {
            let p: Pellet = self.items[i];
            assert(self@.items[i as int] == p@);
            if !p.position.in_range() || p.id >= self.next_id {
                return false;
            }
            if i > 0 {
                let q: Pellet = self.items[i - 1];
                assert(self@.items[i as int - 1] == q@);
                if q.id >= p.id {
                    return false;
                }
            }
            i = i + 1;
        }
        true
    }

    /// Creates a pellet at `position` and returns its identity; `None`, and
    /// nothing changes, once every identity has been handed out.
    pub fn spawn(&mut self, position: Position) -> (id: Option<PelletId>)
        ensures
            final(self)@ == old(self)@.spawned(position@),
            id == if old(self)@.has_room() { Some(old(self).next_id) } else { None },
            old(self)@.wf() && position@.in_range() ==> final(self)@.wf(),
    {
        if self.next_id == u64::MAX {
            return None;
        }
        let id: PelletId = self.next_id;
        self.items.push(Pellet { id, position });
        self.next_id = id + 1;
        assert(self@.items =~= old(self)@.items.push(PelletView { id: id as nat, at: position@ }));
        Some(id)
    }

    /// Lowers every pellet by the fall speed, `dt` steps' worth.
    pub fn advance_all(&mut self, dt: u32, rules: &Rules)
        requires
            old(self)@.wf(),
            rules.wf(),
        ensures
            final(self)@ == old(self)@.fallen(dt * rules.fall_speed),
            final(self)@.ordered(),
    {
        assert(0 <= dt * rules.fall_speed <= u32::MAX * SPEED_MAX) by (nonlinear_arith)
            requires
                0 <= dt <= u32::MAX,
                0 <= rules.fall_speed <= SPEED_MAX,
        ;
        let drop: i64 = (dt as i64) * rules.fall_speed;
        let n: usize = self.items.len();
        let mut i: usize = 0;
        while i < n
            invariant
                i <= n,
                n == self.items@.len(),
                n == old(self).items@.len(),
                self.next_id == old(self).next_id,
                old(self)@.wf(),
                0 <= drop <= u32::MAX * SPEED_MAX,
                forall|j: int|
                    0 <= j < i ==> (#[trigger] self.items@[j])@ == lowered(
                        old(self).items@[j]@,
                        drop as int,
                    ),
                forall|j: int| i <= j < n ==> #[trigger] self.items@[j] == old(self).items@[j],
            decreases n - i,
        {
            let p: Pellet = self.items[i];
            assert(old(self)@.items[i as int].at.in_range());
            let q: Pellet = Pellet {
                id: p.id,
                position: Position { x: p.position.x, y: p.position.y - drop },
            };
            self.items.set(i, q);
            i = i + 1;
        }
        assert(self@.items =~= old(self)@.fallen(drop as int).items);
    }

    /// Removes the pellets that have fallen below the floor.
    pub fn prune_out_of_bounds(&mut self, rules: &Rules)
        ensures
            final(self)@ == old(self)@.pruned(rules.floor as int),
    {
        let floor: i64 = rules.floor;
        let n: usize = self.items.len();
        let mut kept: Vec<Pellet> = Vec::new();
        let mut i: usize = 0;
        while i < n
            invariant
                i <= n,
                n == self.items@.len(),
                self == old(self),
                pellet_views(kept@) == pellet_views(self.items@).take(i as int).filter(above(floor as int)),
            decreases n - i,
        {
            let p: Pellet = self.items[i];
            proof {
                let all = pellet_views(self.items@);
                assert(all.take(i as int + 1) =~= all.take(i as int).push(p@));
                all.take(i as int).lemma_filter_push(p@, above(floor as int));
            }
            if p.position.y >= floor {
                kept.push(p);
            }
            i = i + 1;
        }
        assert(pellet_views(self.items@).take(n as int) =~= pellet_views(self.items@));
        self.items = kept;
    }

    /// Removes the pellet `id`, and says whether it was there.
    pub fn despawn(&mut self, id: PelletId) -> (found: bool)
        ensures
            final(self)@ == old(self)@.without(id as nat),
            found == old(self)@.contains(id as nat),
    {
        let n: usize = self.items.len();
        let mut kept: Vec<Pellet> = Vec::new();
        let mut found: bool = false;
        let mut i: usize = 0;
        while i < n
            invariant
                i <= n,
                n == self.items@.len(),
                self == old(self),
                pellet_views(kept@) == pellet_views(self.items@).take(i as int).filter(
                    other_than(id as nat),
                ),
                found == (exists|j: int| 0 <= j < i && (#[trigger] self@.items[j]).id == id),
            decreases n - i,
        {
            let p: Pellet = self.items[i];
            proof {
                let all = pellet_views(self.items@);
                assert(all.take(i as int + 1) =~= all.take(i as int).push(p@));
                all.take(i as int).lemma_filter_push(p@, other_than(id as nat));
                assert(self@.items[i as int].id == p.id);
            }
            if p.id != id {
                kept.push(p);
            } else {
                found = true;
            }
            i = i + 1;
        }
        assert(pellet_views(self.items@).take(n as int) =~= pellet_views(self.items@));
        self.items = kept;
        found
    }
}

proof fn lemma_filter_keeps_all(s: Seq<PelletView>, pred: spec_fn(PelletView) -> bool)
    requires
        forall|i: int| 0 <= i < s.len() ==> pred(#[trigger] s[i]),
    ensures
        s.filter(pred) == s,
    decreases s.len(),
{
    reveal(Seq::filter);
    if s.len() > 0 {
        lemma_filter_keeps_all(s.drop_last(), pred);
    }
}

proof fn lemma_filter_twice(s: Seq<PelletView>, a: int, b: int)
    requires
        a <= b,
    ensures
        s.filter(above(a)).filter(above(b)) == s.filter(above(b)),
    decreases s.len(),
{
    reveal(Seq::filter);
    if s.len() > 0 {
        let front = s.drop_last();
        lemma_filter_twice(front, a, b);
        if above(a)(s.last()) {
            front.filter(above(a)).lemma_filter_push(s.last(), above(b));
        }
    }
}

proof fn lemma_filter_of_lowered(s: Seq<PelletView>, drop: int, floor: int)
    ensures
        lowered_all(s, drop).filter(above(floor)) == lowered_all(s.filter(above(floor + drop)), drop),
    decreases s.len(),
{
    reveal(Seq::filter);
    if s.len() > 0 {
        let front = s.drop_last();
        lemma_filter_of_lowered(front, drop, floor);
        assert(lowered_all(s, drop) =~= lowered_all(front, drop).push(lowered(s.last(), drop)));
        lowered_all(front, drop).lemma_filter_push(lowered(s.last(), drop), above(floor));
    }
}

/// Where no two live pellets share an identity, despawning a live pellet takes
/// out that pellet and leaves the others in their order.
pub proof fn despawn_removes_one(pellets: PelletsView, i: int)
    requires
        pellets.ordered(),
        0 <= i < pellets.items.len(),
    ensures
        pellets.without(pellets.items[i].id).items == pellets.items.remove(i),
        pellets.without(pellets.items[i].id).ordered(),
        !pellets.without(pellets.items[i].id).contains(pellets.items[i].id),
    decreases pellets.items.len(),
{
    reveal(Seq::filter);
    let s = pellets.items;
    let id = s[i].id;
    let front = s.drop_last();
    if i == s.len() - 1 {
        lemma_filter_keeps_all(front, other_than(id));
    } else {
        let shorter = PelletsView { items: front, ..pellets };
        despawn_removes_one(shorter, i);
    }
    let rest = s.remove(i);
    assert forall|a: int, b: int| 0 <= a < b < rest.len() implies #[trigger] rest[a].id
        < #[trigger] rest[b].id by {}
    assert forall|a: int| 0 <= a < rest.len() implies (#[trigger] rest[a]).id != id && rest[a].id
        < pellets.next_id by {}
}

/// Despawning an identity that no live pellet has changes nothing.
pub proof fn despawn_of_absent_changes_nothing(pellets: PelletsView, id: nat)
    requires
        !pellets.contains(id),
    ensures
        pellets.without(id) == pellets,
{
    lemma_filter_keeps_all(pellets.items, other_than(id));
}

/// Falling and pruning keep the pellets in order, and within the coordinate
/// range where they were so before.
pub proof fn fall_and_prune_keep_order(pellets: PelletsView, drop: int, floor: int)
    requires
        pellets.ordered(),
        drop >= 0,
    ensures
        pellets.fallen(drop).ordered(),
        pellets.pruned(floor).ordered(),
        pellets.wf() && -COORD_MAX <= floor ==> pellets.fallen(drop).pruned(floor).wf(),
        pellets.wf() ==> pellets.pruned(floor).wf(),
    decreases pellets.items.len(),
{
    reveal(Seq::filter);
    lemma_pruned_is_ordered(pellets, floor);
    lemma_pruned_is_ordered(pellets.fallen(drop), floor);
    if pellets.wf() {
        lemma_pruned_members(pellets, floor);
        if -COORD_MAX <= floor {
            let low = pellets.fallen(drop);
            lemma_pruned_members(low, floor);
        }
    }
}

proof fn lemma_pruned_members(pellets: PelletsView, floor: int)
    ensures
        forall|a: int|
            0 <= a < pellets.pruned(floor).items.len() ==> {
                &&& (#[trigger] pellets.pruned(floor).items[a]).at.y >= floor
                &&& exists|k: int|
                    0 <= k < pellets.items.len() && pellets.items[k] == pellets.pruned(floor).items[a]
            },
{
    let s = pellets.items;
    let t = pellets.pruned(floor).items;
    assert forall|a: int| 0 <= a < t.len() implies {
        &&& (#[trigger] t[a]).at.y >= floor
        &&& exists|k: int| 0 <= k < s.len() && s[k] == t[a]
    } by {
        s.lemma_filter_contains_rev(above(floor), t[a]);
    }
}

proof fn lemma_pruned_is_ordered(pellets: PelletsView, floor: int)
    requires
        pellets.ordered(),
    ensures
        pellets.pruned(floor).ordered(),
    decreases pellets.items.len(),
{
    reveal(Seq::filter);
    let s = pellets.items;
    if s.len() > 0 {
        let front = s.drop_last();
        let shorter = PelletsView { items: front, ..pellets };
        lemma_pruned_is_ordered(shorter, floor);
        lemma_pruned_members(shorter, floor);
        let t = shorter.pruned(floor).items;
        let u = pellets.pruned(floor).items;
        assert forall|a: int, b: int| 0 <= a < b < u.len() implies #[trigger] u[a].id
            < #[trigger] u[b].id by {}
    }
}

/// After one step or more without fish, the pellets left are those that are
/// still at the floor or above after falling all the way, each lower by the
/// distance fallen.
pub proof fn rounds_in_closed_form(pellets: PelletsView, drop: int, floor: int, rounds: nat)
    requires
        drop >= 0,
        rounds >= 1,
    ensures
        pellets.after_rounds(drop, floor, rounds).items == lowered_all(
            pellets.items.filter(above(floor + rounds * drop)),
            rounds * drop,
        ),
        pellets.after_rounds(drop, floor, rounds).next_id == pellets.next_id,
    decreases rounds,
{
    let s = pellets.items;
    if rounds == 1 {
        assert(pellets.after_rounds(drop, floor, 0) == pellets);
        lemma_filter_of_lowered(s, drop, floor);
    } else {
        let before = (rounds - 1) as nat;
        rounds_in_closed_form(pellets, drop, floor, before);
        let kept = s.filter(above(floor + before * drop));
        assert(rounds * drop == before * drop + drop) by (nonlinear_arith)
            requires
                before == rounds - 1,
        ;
        assert(0 <= before * drop) by (nonlinear_arith)
            requires
                before >= 0,
                drop >= 0,
        ;
        assert(lowered_all(lowered_all(kept, before * drop), drop) =~= lowered_all(kept, rounds * drop));
        lemma_filter_of_lowered(kept, rounds * drop, floor);
        lemma_filter_twice(s, floor + before * drop, floor + rounds * drop);
    }
}

/// A pellet at height `y` is still live after `rounds` steps without fish, one
/// or more, exactly if `y - rounds * drop` is not below the floor.
pub proof fn pellet_lives_while_above_floor(
    pellets: PelletsView,
    i: int,
    drop: int,
    floor: int,
    rounds: nat,
)
    requires
        pellets.ordered(),
        0 <= i < pellets.items.len(),
        drop >= 0,
        rounds >= 1,
    ensures
        pellets.after_rounds(drop, floor, rounds).contains(pellets.items[i].id) <==> pellets.items[i].at.y
            - rounds * drop >= floor,
{
    let s = pellets.items;
    let id = s[i].id;
    let limit = floor + rounds * drop;
    let kept = s.filter(above(limit));
    let left = pellets.after_rounds(drop, floor, rounds);
    rounds_in_closed_form(pellets, drop, floor, rounds);
    if s[i].at.y - rounds * drop >= floor {
        assert(kept.contains(s[i]));
        let k = choose|k: int| 0 <= k < kept.len() && kept[k] == s[i];
        assert(left.items[k].id == id);
    } else {
        if left.contains(id) {
            let k = choose|k: int| 0 <= k < left.items.len() && (#[trigger] left.items[k]).id == id;
            s.lemma_filter_contains_rev(above(limit), kept[k]);
        }
    }
}

/// A pellet that starts above the floor, at a height from which the floor is
/// not reached in a whole number of steps, is live for
/// `ceil((y - floor) / drop) - 1` steps and is pruned by the next one.
pub proof fn pellet_is_pruned_on_time(pellets: PelletsView, i: int, drop: int, floor: int)
    requires
        pellets.ordered(),
        0 <= i < pellets.items.len(),
        drop > 0,
        pellets.items[i].at.y > floor,
        (pellets.items[i].at.y - floor) % drop != 0,
    ensures
        ({
            let due = (pellets.items[i].at.y - floor + drop - 1) / drop;
            &&& due >= 1
            &&& !pellets.after_rounds(drop, floor, due as nat).contains(pellets.items[i].id)
            &&& forall|n: nat|
                1 <= n < due ==> #[trigger] pellets.after_rounds(drop, floor, n).contains(
                    pellets.items[i].id,
                )
        }),
{
    let height = pellets.items[i].at.y - floor;
    let due = (height + drop - 1) / drop;
    let whole = height / drop;
    vstd::arithmetic::div_mod::lemma_fundamental_div_mod(height, drop);
    let rest = height % drop;
    assert(height + drop - 1 == (whole + 1) * drop + (rest - 1)) by (nonlinear_arith)
        requires
            height == drop * whole + rest,
    ;
    vstd::arithmetic::div_mod::lemma_fundamental_div_mod_converse_div(
        height + drop - 1,
        drop,
        whole + 1,
        rest - 1,
    );
    assert(due * drop > height) by (nonlinear_arith)
        requires
            due == whole + 1,
            height == drop * whole + rest,
            rest < drop,
    ;
    pellet_lives_while_above_floor(pellets, i, drop, floor, due as nat);
    assert forall|n: nat| 1 <= n < due implies #[trigger] pellets.after_rounds(drop, floor, n).contains(
        pellets.items[i].id,
    ) by {
        pellet_lives_while_above_floor(pellets, i, drop, floor, n);
        assert(n * drop <= height) by (nonlinear_arith)
            requires
                n <= whole,
                drop > 0,
                height == drop * whole + rest,
                rest >= 0,
        ;
    }
}

} // verus!
