//! The whole playfield and the order in which one step updates it: pellets
//! fall and are pruned, then every fish is updated, then the plants, and the
//! player's input comes last.

use vstd::prelude::*;
use crate::fish::{Fish, FishState, FishVariant, FishView};
use crate::geometry::Position;
use crate::pellet::{PelletId, Pellets, PelletsView};
use crate::player::{InputEvent, Player, PlayerView};
use crate::prop::{Prop, PropFamily, PropView};
use crate::rules::Rules;
use crate::timer::{TimerMode, TimerView};

verus! {

/// What the level asks to be placed when a session starts.
#[derive(Clone, Copy, Debug, PartialEq, Eq)]
pub enum SpawnCommand {
    Fish { at: Position, variant: FishVariant },
    Prop { at: Position, family: PropFamily },
    Player { at: Position },
}

/// The mathematical value of a [`Hit`].
pub struct HitView {
    pub fish: nat,
    pub pellet: nat,
}

/// A fish has begun to eat a pellet: the cue for the sound of a hit.
#[derive(Clone, Copy, Debug, PartialEq, Eq)]
pub struct Hit {
    pub fish: u64,
    pub pellet: PelletId,
}

impl View for Hit {
    type V = HitView;

    open spec fn view(&self) -> HitView {
        HitView { fish: self.fish as nat, pellet: self.pellet as nat }
    }
}

/// What one step gives the audio layer to play: a hit for each fish that has
/// begun to eat, in the order of the fish, and the pellet that the player has
/// dropped, if any.
#[derive(Clone, Debug, PartialEq, Eq)]
pub struct TickReport {
    pub hits: Vec<Hit>,
    pub spawned: Option<PelletId>,
}

pub open spec fn fish_views(fish: Seq<Fish>) -> Seq<FishView> {
    Seq::new(fish.len(), |i: int| fish[i]@)
}

pub open spec fn prop_views(props: Seq<Prop>) -> Seq<PropView> {
    Seq::new(props.len(), |i: int| props[i]@)
}

pub open spec fn hit_views(hits: Seq<Hit>) -> Seq<HitView> {
    Seq::new(hits.len(), |i: int| hits[i]@)
}

pub open spec fn id_view(id: Option<PelletId>) -> Option<nat> {
    match id {
        Some(id) => Some(id as nat),
        None => None,
    }
}

pub open spec fn player_view(player: Option<Player>) -> Option<PlayerView> {
    match player {
        Some(p) => Some(p@),
        None => None,
    }
}

/// What the fish leave behind when they have been updated in their order.
pub struct Feeding {
    pub fish: Seq<FishView>,
    pub pellets: PelletsView,
    pub hits: Seq<HitView>,
}

/// Updates the fish one after the other, each among the pellets that the fish
/// before it have left.
pub open spec fn feed(fish: Seq<FishView>, pellets: PelletsView, elapsed: nat, rules: Rules) -> Feeding
    decreases fish.len(),
{
    if fish.len() == 0 {
        Feeding { fish: Seq::empty(), pellets, hits: Seq::empty() }
    } else {
        let before = feed(fish.drop_last(), pellets, elapsed, rules);
        let last = fish.last().updated(before.pellets, elapsed, rules);
        Feeding {
            fish: before.fish.push(last.fish),
            pellets: last.pellets,
            hits: match last.eaten {
                Some(pellet) => before.hits.push(HitView { fish: fish.last().id, pellet }),
                None => before.hits,
            },
        }
    }
}

/// The mathematical value of a [`World`].
pub struct WorldView {
    pub rules: Rules,
    pub fish: Seq<FishView>,
    pub pellets: PelletsView,
    pub props: Seq<PropView>,
    pub player: Option<PlayerView>,
}

impl WorldView {
    /// The rules are well-formed, so is everything on the playfield, and the fish
    /// are numbered by their place.
    pub open spec fn wf(self) -> bool {
        &&& self.rules.wf()
        &&& forall|i: int| 0 <= i < self.fish.len() ==> (#[trigger] self.fish[i]).wf()
        &&& forall|i: int| 0 <= i < self.fish.len() ==> (#[trigger] self.fish[i]).id == i
        &&& self.pellets.wf()
        &&& forall|i: int| 0 <= i < self.props.len() ==> (#[trigger] self.props[i]).wf()
        &&& self.player matches Some(p) ==> p.wf()
    }

    /// The empty playfield under the same rules.
    pub open spec fn cleared(self) -> WorldView {
        WorldView {
            rules: self.rules,
            fish: Seq::empty(),
            pellets: PelletsView { items: Seq::empty(), next_id: 0 },
            props: Seq::empty(),
            player: None,
        }
    }

    /// Whether `command` can be carried out: a plant always, a fish where it lies
    /// within the coordinate range, a player where it lies within the coordinate
    /// range and the playfield has no player yet.
    pub open spec fn accepts(self, command: SpawnCommand) -> bool {
        match command {
            SpawnCommand::Fish { at, .. } => at@.in_range(),
            SpawnCommand::Prop { .. } => true,
            SpawnCommand::Player { at } => at@.in_range() && self.player is None,
        }
    }

    /// The playfield with what `command` asks for; unchanged where the command
    /// cannot be carried out.
    ///
    /// A fish starts idle and gets the next number. A plant starts on its first
    /// frame. The first player placed stays the only one.
    pub open spec fn placed(self, command: SpawnCommand) -> WorldView {
        match command {
            SpawnCommand::Fish { at, variant } => if self.accepts(command) {
                WorldView {
                    fish: self.fish.push(
                        FishView {
                            id: self.fish.len(),
                            at: at@,
                            state: FishState::Idle,
                            eating: TimerView {
                                duration: self.rules.eating_time as nat,
                                elapsed: 0,
                                mode: TimerMode::Once,
                            },
                            variant,
                        },
                    ),
                    ..self
                }
            } else {
                self
            },
            SpawnCommand::Prop { at, family } => WorldView {
                props: self.props.push(
                    PropView {
                        at: at@,
                        family,
                        frame: 0,
                        cycle: TimerView {
                            duration: self.rules.prop_period as nat,
                            elapsed: 0,
                            mode: TimerMode::Once,
                        },
                    },
                ),
                ..self
            },
            SpawnCommand::Player { at } => if self.accepts(command) {
                WorldView {
                    player: Some(
                        PlayerView {
                            at: at@,
                            cooldown: TimerView {
                                duration: self.rules.spawn_cooldown as nat,
                                elapsed: 0,
                                mode: TimerMode::Once,
                            },
                        },
                    ),
                    ..self
                }
            } else {
                self
            },
        }
    }

    /// The playfield with what the commands ask for, in their order.
    pub open spec fn placed_all(self, commands: Seq<SpawnCommand>) -> WorldView
        decreases commands.len(),
    {
        if commands.len() == 0 {
            self
        } else {
            self.placed_all(commands.drop_last()).placed(commands.last())
        }
    }

    /// The playfield at the start of a session: cleared, then filled as the
    /// commands ask.
    pub open spec fn started(self, commands: Seq<SpawnCommand>) -> WorldView {
        self.cleared().placed_all(commands)
    }

    /// First part of a step: every pellet falls by the fall speed, and those below
    /// the floor go.
    pub open spec fn pellets_advanced(self) -> WorldView {
        WorldView {
            pellets: self.pellets.fallen(self.rules.fall_speed as int).pruned(self.rules.floor as int),
            ..self
        }
    }

    /// What the fish do in a step that comes `elapsed` nanoseconds after the last.
    pub open spec fn feeding(self, elapsed: nat) -> Feeding {
        feed(self.fish, self.pellets, elapsed, self.rules)
    }

    /// Second part of a step: the fish are updated in their order.
    pub open spec fn fish_updated(self, elapsed: nat) -> WorldView {
        WorldView { fish: self.feeding(elapsed).fish, pellets: self.feeding(elapsed).pellets, ..self }
    }

    /// Third part of a step: the plants are animated.
    pub open spec fn props_animated(self, elapsed: nat) -> WorldView {
        WorldView {
            props: Seq::new(self.props.len(), |i: int| self.props[i].animated(elapsed)),
            ..self
        }
    }

    /// The pellet that the player drops in the last part of a step, if any.
    pub open spec fn dropped(self, elapsed: nat, events: Seq<InputEvent>) -> Option<nat> {
        match self.player {
            Some(p) => p.controlled(self.pellets, elapsed, events, self.rules).spawned,
            None => None,
        }
    }

    /// Last part of a step: the player's input is handled. Without a player the
    /// events are ignored.
    pub open spec fn player_controlled(self, elapsed: nat, events: Seq<InputEvent>) -> WorldView {
        match self.player {
            Some(p) => WorldView {
                player: Some(p.controlled(self.pellets, elapsed, events, self.rules).player),
                pellets: p.controlled(self.pellets, elapsed, events, self.rules).pellets,
                ..self
            },
            None => self,
        }
    }

    /// The playfield as the fish find it in a step: after the pellets have fallen.
    pub open spec fn before_fish(self) -> WorldView {
        self.pellets_advanced()
    }

    /// The playfield as the player finds it in a step: after pellets, fish and
    /// plants.
    pub open spec fn before_player(self, elapsed: nat) -> WorldView {
        self.pellets_advanced().fish_updated(elapsed).props_animated(elapsed)
    }

    /// The playfield after one step, `elapsed` nanoseconds after the last one, in
    /// which `events` came in.
    pub open spec fn ticked(self, elapsed: nat, events: Seq<InputEvent>) -> WorldView {
        self.before_player(elapsed).player_controlled(elapsed, events)
    }

    /// The playfield after `steps` steps, each `elapsed` nanoseconds after the one
    /// before and each with the events `events`.
    pub open spec fn ticked_times(self, elapsed: nat, events: Seq<InputEvent>, steps: nat) -> WorldView
        decreases steps,
    {
        if steps == 0 {
            self
        } else {
            self.ticked_times(elapsed, events, (steps - 1) as nat).ticked(elapsed, events)
        }
    }

    /// The hits of that step.
    pub open spec fn tick_hits(self, elapsed: nat) -> Seq<HitView> {
        self.before_fish().feeding(elapsed).hits
    }

    /// The pellet dropped in that step.
    pub open spec fn tick_drop(self, elapsed: nat, events: Seq<InputEvent>) -> Option<nat> {
        self.before_player(elapsed).dropped(elapsed, events)
    }
}

/// The playfield of one session.
#[derive(Clone, Debug, PartialEq, Eq)]
pub struct World {
    pub rules: Rules,
    /// The fish, in the order in which they were placed.
    pub fish: Vec<Fish>,
    pub pellets: Pellets,
    pub props: Vec<Prop>,
    pub player: Option<Player>,
}

impl View for World {
    type V = WorldView;

    open spec fn view(&self) -> WorldView {
        WorldView {
            rules: self.rules,
            fish: fish_views(self.fish@),
            pellets: self.pellets@,
            props: prop_views(self.props@),
            player: player_view(self.player),
        }
    }
}

impl World {
    /// An empty playfield under `rules`.
    pub fn new(rules: Rules) -> (world: World)
        ensures
            world@.rules == rules,
            world@ == world@.cleared(),
            rules.wf() ==> world@.wf(),
    {
        let world = World {
            rules,
            fish: Vec::new(),
            pellets: Pellets::new(),
            props: Vec::new(),
            player: None,
        };
        assert(world@.fish =~= Seq::empty());
        assert(world@.props =~= Seq::empty());
        world
    }

    /// Whether the playfield is well-formed.
    pub fn is_valid(&self) -> (ok: bool)
        ensures
            ok == self@.wf(),
    {
        if !self.rules.is_valid() || !self.pellets.is_valid() {
            return false;
        }
        match self.player {
            Some(p) => {
                if !p.is_valid() {
                    return false;
                }
            },
            None => {},
        }
        let n: usize = self.fish.len();
        let mut i: usize = 0;
        while i < n
            invariant
                i <= n,
                n == self.fish@.len(),
                forall|j: int| 0 <= j < i ==> (#[trigger] self@.fish[j]).wf() && self@.fish[j].id == j,
            decreases n - i,
        {
            let fish: Fish = self.fish[i];
            assert(self@.fish[i as int] == fish@);
            if !fish.is_valid() || fish.id != i as u64 {
                return false;
            }
            i = i + 1;
        }
        let m: usize = self.props.len();
        let mut k: usize = 0;
        while k < m
            invariant
                k <= m,
                m == self.props@.len(),
                forall|j: int| 0 <= j < k ==> (#[trigger] self@.props[j]).wf(),
            decreases m - k,
        {
            let prop: Prop = self.props[k];
            assert(self@.props[k as int] == prop@);
            if !prop.is_valid() {
                return false;
            }
            k = k + 1;
        }
        true
    }

    /// Ends the session: everything leaves the playfield.
    pub fn end(&mut self)
        ensures
            final(self)@ == old(self)@.cleared(),
            old(self)@.rules.wf() ==> final(self)@.wf(),
    {
        self.fish = Vec::new();
        self.pellets = Pellets::new();
        self.props = Vec::new();
        self.player = None;
        assert(self@.fish =~= Seq::empty());
        assert(self@.props =~= Seq::empty());
    }

    /// Places what `command` asks for, and says whether it could.
    pub fn place(&mut self, command: SpawnCommand) -> (done: bool)
        ensures
            final(self)@ == old(self)@.placed(command),
            done == old(self)@.accepts(command),
            old(self)@.wf() ==> final(self)@.wf(),
    {
        match command {
            SpawnCommand::Fish { at, variant } => {
                if at.in_range() {
                    let id: u64 = self.fish.len() as u64;
                    let fish = Fish::new(id, at, variant, &self.rules);
                    self.fish.push(fish);
                    assert(self@.fish =~= old(self)@.fish.push(fish@));
                    true
                } else {
                    false
                }
            },
            SpawnCommand::Prop { at, family } => {
                let prop = Prop::new(at, family, &self.rules);
                self.props.push(prop);
                assert(self@.props =~= old(self)@.props.push(prop@));
                true
            },
            SpawnCommand::Player { at } => {
                if at.in_range() && self.player.is_none() {
                    self.player = Some(Player::new(at, &self.rules));
                    true
                } else {
                    false
                }
            },
        }
    }

    /// Starts a session: clears the playfield and places what the level asks for.
    pub fn start(&mut self, commands: &Vec<SpawnCommand>)
        ensures
            final(self)@ == old(self)@.started(commands@),
            old(self)@.rules.wf() ==> final(self)@.wf(),
    {
        self.end();
        let n: usize = commands.len();
        let mut i: usize = 0;
        while i < n
            invariant
                i <= n,
                n == commands@.len(),
                self@ == old(self)@.cleared().placed_all(commands@.take(i as int)),
                old(self)@.rules.wf() ==> self@.wf(),
            decreases n - i,
        {
            proof {
                assert(commands@.take(i as int + 1).drop_last() =~= commands@.take(i as int));
            }
            self.place(commands[i]);
            i = i + 1;
        }
        assert(commands@.take(n as int) =~= commands@);
    }

    /// Lets every pellet fall by one step and removes those below the floor.
    pub fn advance_pellets(&mut self)
        requires
            old(self)@.wf(),
        ensures
            final(self)@ == old(self)@.pellets_advanced(),
            final(self)@.wf(),
    {
        let rules: Rules = self.rules;
        self.pellets.advance_all(1, &rules);
        self.pellets.prune_out_of_bounds(&rules);
        proof {
            crate::pellet::fall_and_prune_keep_order(
                old(self)@.pellets,
                rules.fall_speed as int,
                rules.floor as int,
            );
        }
    }

    /// Updates every fish, in the order of the fish, and returns the hits.
    pub fn update_fish(&mut self, elapsed: u64) -> (hits: Vec<Hit>)
        requires
            old(self)@.wf(),
        ensures
            final(self)@ == old(self)@.fish_updated(elapsed as nat),
            hit_views(hits@) == old(self)@.feeding(elapsed as nat).hits,
            final(self)@.wf(),
    {
        let rules: Rules = self.rules;
        let n: usize = self.fish.len();
        let mut hits: Vec<Hit> = Vec::new();
        let mut i: usize = 0;
        let ghost before = old(self)@;
        assert(before.fish.take(0) =~= Seq::empty());
        assert(hit_views(hits@) =~= Seq::empty());
        while i < n
            invariant
                i <= n,
                n == self.fish@.len(),
                n == before.fish.len(),
                before == old(self)@,
                before.wf(),
                rules == before.rules,
                self.rules == rules,
                self@.props == before.props,
                self@.player == before.player,
                feed(before.fish.take(i as int), before.pellets, elapsed as nat, rules) == (Feeding {
                    fish: fish_views(self.fish@).take(i as int),
                    pellets: self.pellets@,
                    hits: hit_views(hits@),
                }),
                forall|j: int| i <= j < n ==> (#[trigger] self.fish@[j])@ == before.fish[j],
                forall|j: int| 0 <= j < i ==> (#[trigger] self.fish@[j])@.wf() && self.fish@[j]@.id == j,
                self.pellets@.ordered(),
                before.pellets.wf() ==> self.pellets@.wf(),
            decreases n - i,
        {
            let mut fish: Fish = self.fish[i];
            let ghost pellets_before = self.pellets@;
            let ghost fish_before = fish_views(self.fish@);
            let ghost hits_before = hit_views(hits@);
            proof {
                assert(before.fish.take(i as int + 1).drop_last() =~= before.fish.take(i as int));
                lemma_update_keeps_pellets(fish@, pellets_before, elapsed as nat, rules);
            }
            let eaten = fish.update(&mut self.pellets, elapsed, &rules);
            self.fish.set(i, fish);
            match eaten {
                Some(pellet) => {
                    hits.push(Hit { fish: fish.id, pellet });
                    assert(hit_views(hits@) =~= hits_before.push(
                        HitView { fish: fish.id as nat, pellet: pellet as nat },
                    ));
                },
                None => {},
            }
            assert(fish_views(self.fish@).take(i as int + 1) =~= fish_before.take(i as int).push(fish@));
            i = i + 1;
        }
        assert(before.fish.take(n as int) =~= before.fish);
        assert(fish_views(self.fish@).take(n as int) =~= fish_views(self.fish@));
        hits
    }

    /// Animates every plant.
    pub fn animate_props(&mut self, elapsed: u64)
        ensures
            final(self)@ == old(self)@.props_animated(elapsed as nat),
            old(self)@.wf() ==> final(self)@.wf(),
    {
        let n: usize = self.props.len();
        let mut i: usize = 0;
        assert(old(self)@.wf() ==> forall|j: int| 0 <= j < n ==> (#[trigger] self.props@[j])@.wf()) by {
            if old(self)@.wf() {
                assert forall|j: int| 0 <= j < n implies (#[trigger] self.props@[j])@.wf() by {
                    assert(old(self)@.props[j].wf());
                }
            }
        }
        while i < n
            invariant
                i <= n,
                n == self.props@.len(),
                n == old(self).props@.len(),
                self.rules == old(self).rules,
                self.fish == old(self).fish,
                self.pellets == old(self).pellets,
                self.player == old(self).player,
                forall|j: int| 0 <= j < i ==> (#[trigger] self.props@[j])@ == old(self).props@[j]@.animated(
                    elapsed as nat,
                ),
                forall|j: int| i <= j < n ==> #[trigger] self.props@[j] == old(self).props@[j],
                old(self)@.wf() ==> forall|j: int| 0 <= j < n ==> (#[trigger] self.props@[j])@.wf(),
            decreases n - i,
        {
            let mut prop: Prop = self.props[i];
            prop.animate(elapsed);
            self.props.set(i, prop);
            i = i + 1;
        }
        assert(self@.props =~= old(self)@.props_animated(elapsed as nat).props);
    }

    /// Handles the player's input of one step and returns the pellet dropped, if
    /// any.
    pub fn control_player(&mut self, elapsed: u64, events: &Vec<InputEvent>) -> (spawned: Option<
        PelletId,
    >)
        ensures
            final(self)@ == old(self)@.player_controlled(elapsed as nat, events@),
            id_view(spawned) == old(self)@.dropped(elapsed as nat, events@),
            old(self)@.wf() ==> final(self)@.wf(),
    {
        let rules: Rules = self.rules;
        match self.player {
            Some(p) => {
                let mut player: Player = p;
                let spawned = player.control(&mut self.pellets, elapsed, events, &rules);
                self.player = Some(player);
                spawned
            },
            None => None,
        }
    }

    /// One step of the simulation, `elapsed` nanoseconds after the last one:
    /// pellets, then fish, then plants, then the player's input `events`.
    pub fn tick(&mut self, elapsed: u64, events: &Vec<InputEvent>) -> (report: TickReport)
        requires
            old(self)@.wf(),
        ensures
            final(self)@ == old(self)@.ticked(elapsed as nat, events@),
            hit_views(report.hits@) == old(self)@.tick_hits(elapsed as nat),
            id_view(report.spawned) == old(self)@.tick_drop(elapsed as nat, events@),
            final(self)@.wf(),
    {
        self.advance_pellets();
        let hits = self.update_fish(elapsed);
        self.animate_props(elapsed);
        let spawned = self.control_player(elapsed, events);
        TickReport { hits, spawned }
    }
}

proof fn lemma_update_keeps_pellets(fish: FishView, pellets: PelletsView, elapsed: nat, rules: Rules)
    requires
        pellets.ordered(),
    ensures
        fish.updated(pellets, elapsed, rules).pellets.ordered(),
        pellets.wf() ==> fish.updated(pellets, elapsed, rules).pellets.wf(),
        fish.updated(pellets, elapsed, rules).pellets.next_id == pellets.next_id,
{
    if !fish.state.eating() && crate::fish::any_within(fish.at, pellets.items, rules.hit_radius as int) {
        crate::fish::one_pellet_per_meal(fish, pellets, elapsed, rules);
    }
}

/// The fish are numbered by their place.
pub open spec fn numbered(fish: Seq<FishView>) -> bool {
    forall|i: int| 0 <= i < fish.len() ==> (#[trigger] fish[i]).id == i
}

/// Whatever the fish do in one step, a pellet feeds one fish at most: every hit
/// takes a pellet that was live and is gone afterwards, no two hits take the
/// same pellet, no fish hits twice, and the pellets left are those that no fish
/// took.
pub proof fn each_pellet_feeds_one_fish(
    fish: Seq<FishView>,
    pellets: PelletsView,
    elapsed: nat,
    rules: Rules,
)
    requires
        pellets.ordered(),
    ensures
        ({
            let fed = feed(fish, pellets, elapsed, rules);
            &&& fed.fish.len() == fish.len()
            &&& fed.pellets.ordered()
            &&& fed.pellets.next_id == pellets.next_id
            &&& fed.pellets.items.len() + fed.hits.len() == pellets.items.len()
            &&& fed.hits.len() <= fish.len()
            &&& forall|k: int|
                0 <= k < fed.hits.len() ==> pellets.contains((#[trigger] fed.hits[k]).pellet)
                    && !fed.pellets.contains(fed.hits[k].pellet)
            &&& forall|k: int, l: int|
                0 <= k < l < fed.hits.len() ==> (#[trigger] fed.hits[k]).pellet != (
                #[trigger] fed.hits[l]).pellet
            &&& forall|id: nat| #[trigger] fed.pellets.contains(id) ==> pellets.contains(id)
            &&& numbered(fish) ==> forall|k: int|
                0 <= k < fed.hits.len() ==> (#[trigger] fed.hits[k]).fish < fish.len()
            &&& numbered(fish) ==> forall|k: int, l: int|
                0 <= k < l < fed.hits.len() ==> (#[trigger] fed.hits[k]).fish < (#[trigger] fed.hits[l]).fish
        }),
    decreases fish.len(),
{
    if fish.len() > 0 {
        let front = fish.drop_last();
        each_pellet_feeds_one_fish(front, pellets, elapsed, rules);
        let before = feed(front, pellets, elapsed, rules);
        let fed = feed(fish, pellets, elapsed, rules);
        if !fish.last().state.eating() && crate::fish::any_within(
            fish.last().at,
            before.pellets.items,
            rules.hit_radius as int,
        ) {
            crate::fish::one_pellet_per_meal(fish.last(), before.pellets, elapsed, rules);
            let i = crate::fish::first_within(
                fish.last().at,
                before.pellets.items,
                rules.hit_radius as int,
            )->0;
            let taken = before.pellets.items[i].id;
            assert(before.pellets.contains(taken));
            assert forall|id: nat| #[trigger] fed.pellets.contains(id) implies before.pellets.contains(
                id,
            ) by {}
            assert forall|k: int, l: int| 0 <= k < l < fed.hits.len() implies (#[trigger] fed.hits[k]).pellet
                != (#[trigger] fed.hits[l]).pellet by {}
            if numbered(fish) {
                assert forall|k: int, l: int| 0 <= k < l < fed.hits.len() implies (
                #[trigger] fed.hits[k]).fish < (#[trigger] fed.hits[l]).fish by {}
            }
        }
    }
}

/// A step keeps a well-formed playfield well-formed, and changes neither the
/// rules nor the number, the numbering or the kinds of the fish.
pub proof fn tick_keeps_the_playfield_sound(world: WorldView, elapsed: nat, events: Seq<InputEvent>)
    requires
        world.wf(),
    ensures
        world.ticked(elapsed, events).wf(),
        world.ticked(elapsed, events).rules == world.rules,
        world.ticked(elapsed, events).fish.len() == world.fish.len(),
        world.ticked(elapsed, events).props.len() == world.props.len(),
        world.ticked(elapsed, events).player is Some <==> world.player is Some,
        forall|i: int|
            0 <= i < world.fish.len() ==> (#[trigger] world.ticked(elapsed, events).fish[i]).variant
                == world.fish[i].variant,
{
    let rules = world.rules;
    crate::pellet::fall_and_prune_keep_order(world.pellets, rules.fall_speed as int, rules.floor as int);
    let fallen = world.pellets_advanced();
    lemma_feeding_is_sound(world.fish, fallen.pellets, elapsed, rules);
    let fed = fallen.fish_updated(elapsed);
    let swayed = fed.props_animated(elapsed);
    match swayed.player {
        Some(p) => {
            crate::player::spawn_needs_press_and_cooldown(p, swayed.pellets, elapsed, events, rules);
            lemma_control_keeps_place(p, swayed.pellets, elapsed, events, rules);
            let end = p.controlled(swayed.pellets, elapsed, events, rules);
            if end.spawned is Some {
                let last = end.pellets.items;
                assert forall|i: int| 0 <= i < last.len() implies (#[trigger] last[i]).at.in_range() by {
                    if i < swayed.pellets.items.len() {
                        assert(end.pellets.items.drop_last()[i] == swayed.pellets.items[i]);
                    }
                }
                assert forall|i: int, j: int| 0 <= i < j < last.len() implies #[trigger] last[i].id
                    < #[trigger] last[j].id by {
                    assert(end.pellets.items.drop_last()[i] == swayed.pellets.items[i]);
                    if j < swayed.pellets.items.len() {
                        assert(end.pellets.items.drop_last()[j] == swayed.pellets.items[j]);
                    }
                }
                assert forall|i: int| 0 <= i < last.len() implies (#[trigger] last[i]).id
                    < end.pellets.next_id by {}
            }
        },
        None => {},
    }
}

proof fn lemma_feeding_is_sound(fish: Seq<FishView>, pellets: PelletsView, elapsed: nat, rules: Rules)
    requires
        rules.wf(),
        pellets.wf(),
        forall|i: int| 0 <= i < fish.len() ==> (#[trigger] fish[i]).wf(),
    ensures
        ({
            let fed = feed(fish, pellets, elapsed, rules);
            &&& fed.fish.len() == fish.len()
            &&& fed.pellets.wf()
            &&& forall|i: int|
                0 <= i < fish.len() ==> {
                    &&& (#[trigger] fed.fish[i]).wf()
                    &&& fed.fish[i].id == fish[i].id
                    &&& fed.fish[i].variant == fish[i].variant
                }
        }),
    decreases fish.len(),
{
    if fish.len() > 0 {
        let front = fish.drop_last();
        lemma_feeding_is_sound(front, pellets, elapsed, rules);
        let before = feed(front, pellets, elapsed, rules);
        lemma_update_keeps_pellets(fish.last(), before.pellets, elapsed, rules);
    }
}

proof fn lemma_control_keeps_place(
    player: PlayerView,
    pellets: PelletsView,
    elapsed: nat,
    events: Seq<InputEvent>,
    rules: Rules,
)
    requires
        player.wf(),
        rules.wf(),
    ensures
        player.controlled(pellets, elapsed, events, rules).player.wf(),
        player.controlled(pellets, elapsed, events, rules).spawned is Some ==> player.controlled(
            pellets,
            elapsed,
            events,
            rules,
        ).pellets.items.last().at.in_range(),
    decreases events.len(),
{
    let start = crate::player::ControlView {
        player: PlayerView { cooldown: player.cooldown.ticked(elapsed), ..player },
        pellets,
        spawned: None,
    };
    lemma_handling_keeps_place(start, events, rules);
}

proof fn lemma_handling_keeps_place(
    start: crate::player::ControlView,
    events: Seq<InputEvent>,
    rules: Rules,
)
    requires
        start.player.wf(),
        rules.wf(),
        start.spawned is None,
    ensures
        start.handled_all(events, rules).player.wf(),
        start.handled_all(events, rules).spawned is Some ==> start.handled_all(
            events,
            rules,
        ).pellets.items.last().at.in_range(),
        start.handled_all(events, rules).spawned is Some ==> start.handled_all(
            events,
            rules,
        ).pellets.items.len() > 0,
    decreases events.len(),
{
    if events.len() > 0 {
        lemma_handling_keeps_place(start, events.drop_last(), rules);
    }
}

/// Without fish and without a player, a step is one round of falling and
/// pruning, and so are any number of steps.
pub proof fn quiet_steps_are_rounds(
    world: WorldView,
    elapsed: nat,
    events: Seq<InputEvent>,
    steps: nat,
)
    requires
        world.fish.len() == 0,
        world.player is None,
    ensures
        world.ticked_times(elapsed, events, steps).pellets == world.pellets.after_rounds(
            world.rules.fall_speed as int,
            world.rules.floor as int,
            steps,
        ),
        world.ticked_times(elapsed, events, steps).fish.len() == 0,
        world.ticked_times(elapsed, events, steps).player is None,
        world.ticked_times(elapsed, events, steps).rules == world.rules,
    decreases steps,
{
    if steps > 0 {
        quiet_steps_are_rounds(world, elapsed, events, (steps - 1) as nat);
    }
}

proof fn lemma_feeding_without_pellets(
    fish: Seq<FishView>,
    pellets: PelletsView,
    elapsed: nat,
    rules: Rules,
)
    requires
        pellets.items.len() == 0,
    ensures
        feed(fish, pellets, elapsed, rules).pellets == pellets,
        feed(fish, pellets, elapsed, rules).hits.len() == 0,
        feed(fish, pellets, elapsed, rules).fish.len() == fish.len(),
        forall|i: int|
            0 <= i < fish.len() ==> #[trigger] feed(fish, pellets, elapsed, rules).fish[i] == fish[i].updated(
                crate::fish::no_pellets(),
                elapsed,
                rules,
            ).fish,
    decreases fish.len(),
{
    if fish.len() > 0 {
        lemma_feeding_without_pellets(fish.drop_last(), pellets, elapsed, rules);
    }
}

/// On a playfield without pellets and without a player, every fish roams as if
/// it were alone, step after step.
pub proof fn fish_without_pellets_roam_alone(
    world: WorldView,
    elapsed: nat,
    events: Seq<InputEvent>,
    steps: nat,
)
    requires
        world.pellets.items.len() == 0,
        world.player is None,
    ensures
        world.ticked_times(elapsed, events, steps).pellets == world.pellets,
        world.ticked_times(elapsed, events, steps).player is None,
        world.ticked_times(elapsed, events, steps).rules == world.rules,
        world.ticked_times(elapsed, events, steps).fish.len() == world.fish.len(),
        forall|i: int|
            0 <= i < world.fish.len() ==> #[trigger] world.ticked_times(elapsed, events, steps).fish[i]
                == world.fish[i].alone(elapsed, world.rules, steps),
    decreases steps,
{
    reveal(Seq::filter);
    if steps > 0 {
        fish_without_pellets_roam_alone(world, elapsed, events, (steps - 1) as nat);
        let before = world.ticked_times(elapsed, events, (steps - 1) as nat);
        assert(before.pellets_advanced().pellets.items =~= world.pellets.items);
        lemma_feeding_without_pellets(before.fish, before.pellets_advanced().pellets, elapsed, before.rules);
    }
}

} // verus!
