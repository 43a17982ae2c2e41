//! The whole game: its tables of ships, enemies, lasers and explosions, and
//! the steps that a tick is made of.

use vstd::prelude::*;
use crate::collision::{claimed, first_hit, resolve_laser_hits, resolved, wounds, Resolution};
use crate::constants::{BASE_SPEED, ENEMY_FIRE_ODDS, ENEMY_MAX};
use crate::entity::{Enemy, Explosion, Laser, Ship, Velocity};
use crate::formation::{
    drawn_for, is_drawn_for, Formation, FormationData, FormationMaker, Heading, Made,
};
use crate::geometry::{Point, WinSize};
use crate::motion::{advanced, fits, in_reach, integrate, movable_fits, retires, Moved};
use crate::player::{steer, steering, PlayerState};
use crate::random::random_ratio;

verus! {

/// The tables of the game.
pub struct World {
    pub win: WinSize,
    pub player: Option<Ship>,
    pub player_state: PlayerState,
    pub enemies: Vec<Enemy>,
    pub enemy_count: u32,
    pub maker: FormationMaker,
    pub lasers: Vec<Laser>,
    pub requests: Vec<Point>,
    pub explosions: Vec<Explosion>,
}

/// What a `World` holds, as plain values. `requests` are the places where
/// an explosion is yet to begin.
pub struct Scene {
    pub win: WinSize,
    pub player: Option<Ship>,
    pub player_state: PlayerState,
    pub enemies: Seq<Enemy>,
    pub enemy_count: int,
    pub maker: FormationMaker,
    pub lasers: Seq<Laser>,
    pub requests: Seq<Point>,
    pub explosions: Seq<Explosion>,
}

/// What came of a request for an enemy.
#[derive(Clone, Copy, Debug, PartialEq, Eq, Structural)]
pub enum SpawnStep {
    /// As many enemies are alive as may be: nothing was done.
    AtCap,
    /// An enemy joined the wave under way.
    Spawned,
    /// A wave was drawn on this path and waits for its starting phase; the
    /// enemy enters once `enemy_spawn_wave` is told it.
    NeedsPhase(FormationData),
}

impl View for World {
    type V = Scene;

    open spec fn view(&self) -> Scene {
        Scene {
            win: self.win,
            player: self.player,
            player_state: self.player_state,
            enemies: self.enemies@,
            enemy_count: self.enemy_count as int,
            maker: self.maker,
            lasers: self.lasers@,
            requests: self.requests@,
            explosions: self.explosions@,
        }
    }
}

/// The lasers that the enemies fire when `fires` says which of them do: one
/// each, in the order of the enemies.
pub open spec fn fired(enemies: Seq<Enemy>, fires: Seq<bool>) -> Seq<Laser>
    recommends
        enemies.len() == fires.len(),
    decreases enemies.len(),
{
    if enemies.len() == 0 || fires.len() == 0 {
        Seq::empty()
    } else {
        let rest = fired(enemies.drop_last(), fires.drop_last());
        if fires.last() {
            rest.push(enemies.last().laser_spec())
        } else {
            rest
        }
    }
}

/// Where a thing is after `dt` milliseconds of straight flight.
pub open spec fn moved_to(pos: Point, velocity: Velocity, dt: u32) -> Point {
    Point {
        x: advanced(pos.x as int, velocity.x as int, dt) as i32,
        y: advanced(pos.y as int, velocity.y as int, dt) as i32,
    }
}

/// The lasers after a tick of flight: those that strayed are gone, the
/// others have moved on, in their old order.
pub open spec fn flown(lasers: Seq<Laser>, dt: u32, win: WinSize) -> Seq<Laser>
    decreases lasers.len(),
{
    if lasers.len() == 0 {
        Seq::empty()
    } else {
        let rest = flown(lasers.drop_last(), dt, win);
        let laser = lasers.last();
        if retires(laser.pos, laser.velocity, laser.movable, dt, win) {
            rest
        } else {
            rest.push(Laser { pos: moved_to(laser.pos, laser.velocity, dt), ..laser })
        }
    }
}

/// An enemy after one tick on its path.
pub open spec fn stepped(enemy: Enemy, dt: u32, heading: Heading) -> Enemy {
    Enemy {
        pos: enemy.formation.follow_position(enemy.pos, dt, heading),
        formation: enemy.formation.follow_phase(enemy.pos, dt, heading),
        ..enemy
    }
}

/// The enemies after one tick on their paths.
pub open spec fn followed(enemies: Seq<Enemy>, dt: u32, headings: Seq<Heading>) -> Seq<Enemy> {
    Seq::new(enemies.len(), |i: int| stepped(enemies[i], dt, headings[i]))
}

/// Which enemies are destroyed when `targets` names each laser's target.
pub open spec fn struck_by(targets: Seq<Option<usize>>, enemies: nat) -> Seq<bool> {
    Seq::new(enemies, |e: int| claimed(targets, targets.len() as int, e))
}

/// The enemies that are not marked, in their old order.
pub open spec fn survivors(enemies: Seq<Enemy>, struck: Seq<bool>) -> Seq<Enemy>
    decreases enemies.len(),
{
    if enemies.len() == 0 || struck.len() == 0 {
        Seq::empty()
    } else {
        let rest = survivors(enemies.drop_last(), struck.drop_last());
        if struck.last() {
            rest
        } else {
            rest.push(enemies.last())
        }
    }
}

/// The places of the enemies that are marked, in their old order.
pub open spec fn blasts(enemies: Seq<Enemy>, struck: Seq<bool>) -> Seq<Point>
    decreases enemies.len(),
{
    if enemies.len() == 0 || struck.len() == 0 {
        Seq::empty()
    } else {
        let rest = blasts(enemies.drop_last(), struck.drop_last());
        if struck.last() {
            rest.push(enemies.last().pos)
        } else {
            rest
        }
    }
}

/// The lasers that have no target, in their old order.
pub open spec fn unspent(lasers: Seq<Laser>, targets: Seq<Option<usize>>) -> Seq<Laser>
    decreases lasers.len(),
{
    if lasers.len() == 0 || targets.len() == 0 {
        Seq::empty()
    } else {
        let rest = unspent(lasers.drop_last(), targets.drop_last());
        if targets.last().is_some() {
            rest
        } else {
            rest.push(lasers.last())
        }
    }
}

/// The explosions that begin at the given places.
pub open spec fn kindled(requests: Seq<Point>) -> Seq<Explosion> {
    Seq::new(requests.len(), |i: int| Explosion::at(requests[i]))
}

/// The explosions after a tick: those that are over are gone, the others
/// have ticked, in their old order.
pub open spec fn shown(explosions: Seq<Explosion>, dt: u32) -> Seq<Explosion>
    decreases explosions.len(),
{
    if explosions.len() == 0 {
        Seq::empty()
    } else {
        let rest = shown(explosions.drop_last(), dt);
        if explosions.last().ticked(dt).done() {
            rest
        } else {
            rest.push(explosions.last().ticked(dt))
        }
    }
}

impl Scene {
    /// The scene after `dt` milliseconds of straight flight of the ship and the lasers.
    pub open spec fn after_flight(self, dt: u32) -> Scene {
        Scene {
            player: match self.player {
                Some(ship) => Some(Ship { pos: moved_to(ship.pos, ship.velocity, dt), ..ship }),
                None => None,
            },
            lasers: flown(self.lasers, dt, self.win),
            ..self
        }
    }

    /// The scene after the enemies have followed their paths for a tick.
    pub open spec fn after_paths(self, dt: u32, headings: Seq<Heading>) -> Scene {
        Scene { enemies: followed(self.enemies, dt, headings), ..self }
    }

    /// The scene after the lasers have destroyed their targets: both are
    /// gone, the counter is down by one for each enemy destroyed, and an
    /// explosion is due where each of them was.
    pub open spec fn after_hits(self, targets: Seq<Option<usize>>) -> Scene {
        let struck = struck_by(targets, self.enemies.len());
        Scene {
            enemies: survivors(self.enemies, struck),
            enemy_count: self.enemy_count - blasts(self.enemies, struck).len(),
            lasers: unspent(self.lasers, targets),
            requests: self.requests + blasts(self.enemies, struck),
            ..self
        }
    }

    /// The scene after the laser `laser` has destroyed the ship at `now`:
    /// both are gone, and an explosion is due where the ship was.
    pub open spec fn after_player_hit(self, laser: int, now: u64) -> Scene {
        Scene {
            player: None,
            player_state: self.player_state.shot_spec(now),
            lasers: self.lasers.remove(laser),
            requests: self.requests.push(self.player.unwrap().pos),
            ..self
        }
    }

    /// The scene after every explosion that was due has begun.
    pub open spec fn after_kindling(self) -> Scene {
        Scene {
            explosions: self.explosions + kindled(self.requests),
            requests: Seq::empty(),
            ..self
        }
    }

    /// The scene after the explosions have ticked.
    pub open spec fn after_show(self, dt: u32) -> Scene {
        Scene { explosions: shown(self.explosions, dt), ..self }
    }

    /// What holds of the game between any two steps: the counter of enemies
    /// is the number of enemies alive and within the cap, the player's state
    /// says whether there is a ship, and every record is a valid one.
    pub open spec fn wf(self) -> bool {
        &&& self.win.wf()
        &&& self.enemy_count == self.enemies.len()
        &&& self.enemy_count <= ENEMY_MAX
        &&& self.player_state.on == self.player.is_some()
        &&& self.player matches Some(ship) ==> ship.wf()
        &&& self.maker.wf()
        &&& self.maker.current_template matches Some(template) ==> drawn_for(
            self.win,
            template.data,
        )
        &&& forall|i: int| 0 <= i < self.enemies.len() ==> (#[trigger] self.enemies[i]).wf()
        &&& forall|i: int|
            0 <= i < self.lasers.len() ==> (#[trigger] self.lasers[i]).velocity.wf()
                && self.lasers[i].movable.auto_despawn
        &&& forall|i: int| 0 <= i < self.explosions.len() ==> (#[trigger] self.explosions[i]).wf()
    }

    /// The scene with one more enemy, at the start of `formation`.
    pub open spec fn with_enemy(self, maker: FormationMaker, formation: Formation) -> Scene {
        Scene {
            maker,
            enemies: self.enemies.push(Enemy::entering(formation)),
            enemy_count: self.enemy_count + 1,
            ..self
        }
    }

    /// The scene with the ship entered.
    pub open spec fn with_player(self) -> Scene {
        Scene {
            player: Some(Ship::entering(self.win)),
            player_state: self.player_state.spawned_spec(),
            ..self
        }
    }

    /// The scene with the ship steered.
    pub open spec fn steered(self, left: bool, right: bool) -> Scene {
        match self.player {
            Some(ship) => Scene {
                player: Some(
                    Ship { velocity: Velocity { x: steering(left, right), y: ship.velocity.y }, ..ship },
                ),
                ..self
            },
            None => self,
        }
    }

    /// The scene with the ship's two lasers fired, the right one first.
    pub open spec fn with_salvo(self) -> Scene {
        match self.player {
            Some(ship) => Scene {
                lasers: self.lasers.push(ship.laser_spec(1)).push(ship.laser_spec(-1)),
                ..self
            },
            None => self,
        }
    }

    /// The scene after the enemies that `fires` marks have fired.
    pub open spec fn with_enemy_fire(self, fires: Seq<bool>) -> Scene {
        Scene { lasers: self.lasers + fired(self.enemies, fires), ..self }
    }
}

proof fn lemma_take_step<T>(s: Seq<T>, j: int)
    requires
        0 <= j < s.len(),
    ensures
        s.take(j + 1).drop_last() == s.take(j),
        s.take(j + 1).last() == s[j],
        s.take(j + 1).len() == j + 1,
{
    assert(s.take(j + 1).drop_last() =~= s.take(j));
}

proof fn lemma_wf_with_lasers(scene: Scene, lasers: Seq<Laser>)
    requires
        scene.wf(),
        forall|i: int|
            0 <= i < lasers.len() ==> (#[trigger] lasers[i]).velocity.wf()
                && lasers[i].movable.auto_despawn,
    ensures
        (Scene { lasers, ..scene }).wf(),
{
    let after = Scene { lasers, ..scene };
    assert forall|i: int| 0 <= i < after.enemies.len() implies (#[trigger] after.enemies[i]).wf() by {
        assert(scene.enemies[i].wf());
    }
    assert forall|i: int| 0 <= i < after.explosions.len() implies (
    #[trigger] after.explosions[i]).wf() by {
        assert(scene.explosions[i].wf());
    }
}

proof fn lemma_wf_with_enemies(scene: Scene, enemies: Seq<Enemy>)
    requires
        (Scene { enemies: scene.enemies, enemy_count: scene.enemies.len() as int, ..scene }).wf(),
        enemies.len() <= ENEMY_MAX,
        forall|i: int| 0 <= i < enemies.len() ==> (#[trigger] enemies[i]).wf(),
    ensures
        (Scene { enemies, enemy_count: enemies.len() as int, ..scene }).wf(),
{
    let before = Scene { enemies: scene.enemies, enemy_count: scene.enemies.len() as int, ..scene };
    let after = Scene { enemies, enemy_count: enemies.len() as int, ..scene };
    assert forall|i: int| 0 <= i < after.lasers.len() implies (#[trigger] after.lasers[i]).velocity.wf()
        && after.lasers[i].movable.auto_despawn by {
        assert(before.lasers[i].velocity.wf());
    }
    assert forall|i: int| 0 <= i < after.explosions.len() implies (
    #[trigger] after.explosions[i]).wf() by {
        assert(before.explosions[i].wf());
    }
}

proof fn lemma_wf_with_explosions(scene: Scene, explosions: Seq<Explosion>)
    requires
        (Scene { explosions: scene.explosions, ..scene }).wf(),
        forall|i: int| 0 <= i < explosions.len() ==> (#[trigger] explosions[i]).wf(),
    ensures
        (Scene { explosions, ..scene }).wf(),
{
    let before = Scene { explosions: scene.explosions, ..scene };
    let after = Scene { explosions, ..scene };
    assert forall|i: int| 0 <= i < after.lasers.len() implies (#[trigger] after.lasers[i]).velocity.wf()
        && after.lasers[i].movable.auto_despawn by {
        assert(before.lasers[i].velocity.wf());
    }
    assert forall|i: int| 0 <= i < after.enemies.len() implies (#[trigger] after.enemies[i]).wf() by {
        assert(before.enemies[i].wf());
    }
}

proof fn lemma_wf_with_laser(scene: Scene, lasers: Seq<Laser>, laser: Laser)
    requires
        (Scene { lasers, ..scene }).wf(),
        laser.velocity.wf(),
        laser.movable.auto_despawn,
    ensures
        (Scene { lasers: lasers.push(laser), ..scene }).wf(),
{
    let after = Scene { lasers: lasers.push(laser), ..scene };
    let before = Scene { lasers, ..scene };
    assert forall|i: int| 0 <= i < after.lasers.len() implies (#[trigger] after.lasers[i]).velocity.wf()
        && after.lasers[i].movable.auto_despawn by {
        if i < lasers.len() {
            assert(after.lasers[i] == before.lasers[i]);
        }
    }
    assert forall|i: int| 0 <= i < after.enemies.len() implies (#[trigger] after.enemies[i]).wf() by {
        assert(before.enemies[i].wf());
    }
    assert forall|i: int| 0 <= i < after.explosions.len() implies (
    #[trigger] after.explosions[i]).wf() by {
        assert(before.explosions[i].wf());
    }
}

impl World {
    /// The game before anything has entered.
    pub fn new(win: WinSize) -> (out: World)
        requires
            win.wf(),
        ensures
            out@.wf(),
            out@.win == win,
            out@.player.is_none(),
            out@.player_state == (PlayerState { on: false, last_shot: None }),
            out@.enemies.len() == 0,
            out@.enemy_count == 0,
            out@.maker == (FormationMaker {
                current_template: None,
                current_members: 0,
                phase_pending: false,
            }),
            out@.lasers.len() == 0,
            out@.requests.len() == 0,
            out@.explosions.len() == 0,
    {
        World {
            win,
            player: None,
            player_state: PlayerState { on: false, last_shot: None },
            enemies: Vec::new(),
            enemy_count: 0,
            maker: FormationMaker::new(),
            lasers: Vec::new(),
            requests: Vec::new(),
            explosions: Vec::new(),
        }
    }

    /// Decides `Scene::wf` of what the world holds. The fields are open to
    /// writing, so a caller that wrote to them asks here before the next step.
    pub fn is_wf(&self) -> (out: bool)
        ensures
            out == self@.wf(),
    {
        if !self.win.is_wf() || self.enemy_count > ENEMY_MAX || self.enemies.len()
            > ENEMY_MAX as usize || self.enemies.len() != self.enemy_count as usize
            || self.player_state.on != self.player.is_some() || !self.maker.is_wf() {
            return false;
        }
        match self.maker.current_template {
            Some(template) => {
                if !is_drawn_for(&self.win, &template.data) {
                    return false;
                }
            },
            None => {},
        }
        match self.player {
            Some(ship) => {
                if !ship.is_wf() {
                    return false;
                }
            },
            None => {},
        }
        let mut i: usize = 0;
        while i < self.enemies.len()
            invariant
                i <= self.enemies@.len(),
                forall|k: int| 0 <= k < i ==> (#[trigger] self.enemies@[k]).wf(),
            decreases self.enemies@.len() - i,
        {
            if !self.enemies[i].is_wf() {
                assert(!self@.enemies[i as int].wf());
                return false;
            }
            i = i + 1;
        }
        let mut j: usize = 0;
        while j < self.lasers.len()
            invariant
                j <= self.lasers@.len(),
                forall|k: int|
                    0 <= k < j ==> (#[trigger] self.lasers@[k]).velocity.wf()
                        && self.lasers@[k].movable.auto_despawn,
            decreases self.lasers@.len() - j,
        {
            if !self.lasers[j].is_wf() {
                assert(!(self@.lasers[j as int].velocity.wf()
                    && self@.lasers[j as int].movable.auto_despawn));
                return false;
            }
            j = j + 1;
        }
        let mut k: usize = 0;
        while k < self.explosions.len()
            invariant
                k <= self.explosions@.len(),
                forall|m: int| 0 <= m < k ==> (#[trigger] self.explosions@[m]).wf(),
            decreases self.explosions@.len() - k,
        {
            if !self.explosions[k].is_wf() {
                assert(!self@.explosions[k as int].wf());
                return false;
            }
            k = k + 1;
        }
        true
    }

    /// The ship, if there is one, is still in the field after a tick of
    /// `dt` milliseconds.
    pub open spec fn ship_stays(scene: Scene, dt: u32) -> bool {
        scene.player matches Some(ship) ==> in_reach(
            advanced(ship.pos.x as int, ship.velocity.x as int, dt),
        ) && in_reach(advanced(ship.pos.y as int, ship.velocity.y as int, dt))
    }

    /// Decides `ship_stays`, which `movable` requires.
    pub fn ship_can_move(&self, dt: u32) -> (out: bool)
        requires
            self@.wf(),
        ensures
            out == Self::ship_stays(self@, dt),
    {
        match self.player {
            Some(ship) => {
                if !movable_fits(ship.pos, ship.velocity, ship.movable, dt, &self.win) {
                    return false;
                }
                match integrate(ship.pos, ship.velocity, ship.movable, dt, &self.win) {
                    Moved::At(pos) => pos.is_in_field(),
                    Moved::Gone => false,
                }
            },
            None => true,
        }
    }

    /// Asks for one more enemy. At the cap nothing happens. Below it, the
    /// enemy joins the wave under way if that has room and its phase is
    /// known. If not, a new wave is drawn and its path comes back; while the
    /// phase of a wave is pending the same path comes back and nothing
    /// changes. The enemy then enters with `enemy_spawn_wave`.
    pub fn enemy_spawn(&mut self) -> (out: SpawnStep)
        requires
            old(self)@.wf(),
        ensures
            final(self)@.wf(),
            old(self)@.enemy_count >= ENEMY_MAX ==> out == SpawnStep::AtCap && final(self)@ == old(
                self,
            )@,
            old(self)@.enemy_count < ENEMY_MAX && old(self)@.maker.phase_pending ==> out
                == SpawnStep::NeedsPhase(old(self)@.maker.current_template.unwrap().data)
                && final(self)@ == old(self)@,
            old(self)@.enemy_count < ENEMY_MAX && !old(self)@.maker.phase_pending && old(
                self,
            )@.maker.has_room() ==> out == SpawnStep::Spawned && final(self)@ == old(
                self,
            )@.with_enemy(old(self)@.maker.joined(), old(self)@.maker.current_template.unwrap()),
            old(self)@.enemy_count < ENEMY_MAX && !old(self)@.maker.phase_pending && !old(
                self,
            )@.maker.has_room() ==> (out matches SpawnStep::NeedsPhase(data) && drawn_for(
                old(self)@.win,
                data,
            ) && final(self)@ == (Scene { maker: FormationMaker::drawn(data), ..old(self)@ })),
    {
        if self.enemy_count >= ENEMY_MAX {
            return SpawnStep::AtCap;
        }
        if self.maker.phase_pending {
            match self.maker.current_template {
                Some(template) => {
                    return SpawnStep::NeedsPhase(template.data);
                },
                None => {},
            }
        }
        match self.maker.make(&self.win) {
            Made::Member(formation) => {
                self.enemies.push(Enemy::enter(formation));
                self.enemy_count = self.enemy_count + 1;
                SpawnStep::Spawned
            },
            Made::Fresh(data) => SpawnStep::NeedsPhase(data),
        }
    }

    /// The first enemy of a wave may enter: there is room for an enemy,
    /// and a wave was drawn whose phase is pending.
    pub open spec fn wave_may_begin(scene: Scene) -> bool {
        scene.enemy_count < ENEMY_MAX && scene.maker.phase_pending
    }

    /// Gives the wave that was drawn last its starting phase `angle`, and
    /// lets its first enemy enter. Where no phase is pending or the cap is
    /// reached, nothing happens and `false` comes back.
    pub fn enemy_spawn_wave(&mut self, angle: i64) -> (out: bool)
        requires
            old(self)@.wf(),
        ensures
            final(self)@.wf(),
            out == Self::wave_may_begin(old(self)@),
            out ==> final(self)@ == old(self)@.with_enemy(
                old(self)@.maker.phased(angle),
                FormationMaker::opening(old(self)@.maker.current_template.unwrap().data, angle),
            ),
            !out ==> final(self)@ == old(self)@,
    {
        if self.enemy_count >= ENEMY_MAX {
            return false;
        }
        match self.maker.begin_wave(angle) {
            Some(formation) => {
                self.enemies.push(Enemy::enter(formation));
                self.enemy_count = self.enemy_count + 1;
                true
            },
            None => false,
        }
    }

    /// Lets the ship enter if it is away and may come back at `now`;
    /// says whether it did.
    pub fn player_spawn(&mut self, now: u64) -> (out: bool)
        requires
            old(self)@.wf(),
        ensures
            final(self)@.wf(),
            out == old(self)@.player_state.may_spawn(now),
            out ==> final(self)@ == old(self)@.with_player(),
            !out ==> final(self)@ == old(self)@,
    {
        if !self.player_state.can_spawn(now) {
            return false;
        }
        self.player = Some(Ship::enter(&self.win));
        self.player_state.spawned();
        true
    }

    /// Turns the keys into the ship's horizontal direction.
    pub fn player_steer(&mut self, left: bool, right: bool)
        requires
            old(self)@.wf(),
        ensures
            final(self)@.wf(),
            final(self)@ == old(self)@.steered(left, right),
    {
        match self.player {
            Some(ship) => {
                self.player = Some(
                    Ship { velocity: Velocity { x: steer(left, right), y: ship.velocity.y }, ..ship },
                );
            },
            None => {},
        }
    }

    /// Fires the ship's two lasers when fire was pressed on this tick.
    pub fn player_fire(&mut self, pressed: bool)
        requires
            old(self)@.wf(),
        ensures
            final(self)@.wf(),
            pressed ==> final(self)@ == old(self)@.with_salvo(),
            !pressed ==> final(self)@ == old(self)@,
    {
        if !pressed {
            return ;
        }
        match self.player {
            Some(ship) => {
                self.lasers.push(ship.laser(true));
                self.lasers.push(ship.laser(false));
            },
            None => {},
        }
    }

    /// Lets the enemies that `fires` marks fire a laser each.
    pub fn enemy_fire_with(&mut self, fires: &Vec<bool>)
        requires
            old(self)@.wf(),
            fires@.len() == old(self)@.enemies.len(),
        ensures
            final(self)@.wf(),
            final(self)@ == old(self)@.with_enemy_fire(fires@),
    {
        let ghost start = self.lasers@;
        let mut i: usize = 0;
        while i < self.enemies.len()
            invariant
                i <= self.enemies@.len(),
                fires@.len() == self.enemies@.len(),
                old(self)@.wf(),
                (Scene { lasers: self.lasers@, ..old(self)@ }).wf(),
                self@ == (Scene { lasers: self.lasers@, ..old(self)@ }),
                self.lasers@ == start + fired(self.enemies@.take(i as int), fires@.take(i as int)),
            decreases self.enemies@.len() - i,
        {
            proof {
                lemma_take_step(self.enemies@, i as int);
                lemma_take_step(fires@, i as int);
            }
            if fires[i] {
                let laser = self.enemies[i].laser();
                let ghost before = self.lasers@;
                self.lasers.push(laser);
                proof {
                    lemma_wf_with_laser(old(self)@, before, laser);
                }
                assert(self.lasers@ =~= start + fired(
                    self.enemies@.take(i + 1),
                    fires@.take(i + 1),
                ));
            }
            i = i + 1;
        }
        assert(self.enemies@.take(i as int) =~= self.enemies@);
        assert(fires@.take(i as int) =~= fires@);
    }

    /// Each enemy fires with a chance of one in `ENEMY_FIRE_ODDS`. Which do
    /// is left to chance; whichever do, the outcome is that of
    /// `enemy_fire_with`.
    pub fn enemy_fire(&mut self)
        requires
            old(self)@.wf(),
        ensures
            final(self)@.wf(),
            exists|fires: Seq<bool>|
                fires.len() == old(self)@.enemies.len() && final(self)@ == old(
                    self,
                )@.with_enemy_fire(fires),
    {
        let mut fires: Vec<bool> = Vec::new();
        let mut i: usize = 0;
        while i < self.enemies.len()
            invariant
                i <= self.enemies@.len(),
                fires@.len() == i,
            decreases self.enemies@.len() - i,
        {
            fires.push(random_ratio(1, ENEMY_FIRE_ODDS));
            i = i + 1;
        }
        self.enemy_fire_with(&fires);
    }

    /// The phase that each enemy heads for in a tick of `dt` milliseconds.
    /// The caller takes cosine and sine of each and hands them to `enemy_move`.
    pub fn phase_candidates(&self, dt: u32) -> (out: Vec<i64>)
        requires
            self@.wf(),
        ensures
            out@.len() == self@.enemies.len(),
            forall|i: int|
                0 <= i < out@.len() ==> #[trigger] out@[i] == self@.enemies[i].formation.candidate_spec(dt),
    {
        let mut out: Vec<i64> = Vec::new();
        let mut i: usize = 0;
        while i < self.enemies.len()
            invariant
                i <= self.enemies@.len(),
                self@.wf(),
                out@.len() == i,
                forall|k: int|
                    0 <= k < i ==> #[trigger] out@[k] == self@.enemies[k].formation.candidate_spec(dt),
            decreases self.enemies@.len() - i,
        {
            assert(self@.enemies[i as int].wf());
            out.push(self.enemies[i].formation.candidate(dt));
            i = i + 1;
        }
        out
    }

    /// Moves every enemy one tick along its path; `headings` holds, for
    /// each, cosine and sine of the phase it heads for.
    pub fn enemy_move(&mut self, dt: u32, headings: &Vec<Heading>)
        requires
            old(self)@.wf(),
            headings@.len() == old(self)@.enemies.len(),
            forall|i: int| 0 <= i < headings@.len() ==> (#[trigger] headings@[i]).wf(),
        ensures
            final(self)@.wf(),
            final(self)@ == old(self)@.after_paths(dt, headings@),
    {
        let mut moved: Vec<Enemy> = Vec::new();
        let mut i: usize = 0;
        while i < self.enemies.len()
            invariant
                i <= self.enemies@.len(),
                self@ == old(self)@,
                self@.wf(),
                headings@.len() == self.enemies@.len(),
                forall|k: int| 0 <= k < headings@.len() ==> (#[trigger] headings@[k]).wf(),
                moved@.len() == i,
                forall|k: int|
                    0 <= k < i ==> #[trigger] moved@[k] == stepped(self.enemies@[k], dt, headings@[k])
                        && moved@[k].wf(),
            decreases self.enemies@.len() - i,
        {
            let enemy = self.enemies[i];
            assert(self@.enemies[i as int].wf());
            assert(headings@[i as int].wf());
            let (pos, formation) = enemy.formation.follow(enemy.pos, dt, headings[i]);
            moved.push(Enemy { pos, formation, ..enemy });
            i = i + 1;
        }
        assert(moved@ =~= followed(self.enemies@, dt, headings@));
        self.enemies = moved;
        proof {
            lemma_wf_with_enemies(old(self)@, self.enemies@);
        }
    }

    /// The straight flight of one tick: the ship and every laser move on by
    /// their direction times the base speed times `dt`, and the lasers that
    /// end beyond the view and its margin are retired.
    pub fn movable(&mut self, dt: u32)
        requires
            old(self)@.wf(),
            Self::ship_stays(old(self)@, dt),
        ensures
            final(self)@.wf(),
            final(self)@ == old(self)@.after_flight(dt),
    {
        match self.player {
            Some(ship) => {
                match integrate(ship.pos, ship.velocity, ship.movable, dt, &self.win) {
                    Moved::At(pos) => {
                        self.player = Some(Ship { pos, ..ship });
                    },
                    Moved::Gone => {},
                }
            },
            None => {},
        }
        let mut kept: Vec<Laser> = Vec::new();
        let mut i: usize = 0;
        while i < self.lasers.len()
            invariant
                i <= self.lasers@.len(),
                self.win.wf(),
                self.win == old(self)@.win,
                self.lasers@ == old(self)@.lasers,
                forall|k: int|
                    0 <= k < self.lasers@.len() ==> (#[trigger] self.lasers@[k]).velocity.wf()
                        && self.lasers@[k].movable.auto_despawn,
                kept@ == flown(self.lasers@.take(i as int), dt, self.win),
                forall|k: int|
                    0 <= k < kept@.len() ==> (#[trigger] kept@[k]).velocity.wf()
                        && kept@[k].movable.auto_despawn,
            decreases self.lasers@.len() - i,
        {
            proof {
                lemma_take_step(self.lasers@, i as int);
            }
            let laser = self.lasers[i];
            assert(self.lasers@[i as int].velocity.wf());
            match integrate(laser.pos, laser.velocity, laser.movable, dt, &self.win) {
                Moved::At(pos) => {
                    kept.push(Laser { pos, ..laser });
                },
                Moved::Gone => {},
            }
            i = i + 1;
        }
        assert(self.lasers@.take(i as int) =~= self.lasers@);
        self.lasers = kept;
        proof {
            let mid = Scene { player: self@.player, ..old(self)@ };
            assert(mid.wf());
            lemma_wf_with_lasers(mid, self.lasers@);
        }
    }

    /// Lets the player's lasers destroy the enemies they overlap: each laser
    /// at most one enemy, each enemy by at most one laser. Returns, for each
    /// laser in its old place, the old place of its target.
    pub fn player_laser_hit_enemy(&mut self) -> (out: Vec<Option<usize>>)
        requires
            old(self)@.wf(),
        ensures
            final(self)@.wf(),
            resolved(old(self)@.lasers, old(self)@.enemies, out@),
            final(self)@ == old(self)@.after_hits(out@),
    {
        let Resolution { targets, struck } = resolve_laser_hits(&self.lasers, &self.enemies);
        assert(struck@ =~= struck_by(targets@, self.enemies@.len()));
        let mut alive: Vec<Enemy> = Vec::new();
        let mut places: Vec<Point> = Vec::new();
        let mut count: u32 = self.enemy_count;
        let mut i: usize = 0;
        while i < self.enemies.len()
            invariant
                i <= self.enemies@.len(),
                self@ == old(self)@,
                self@.wf(),
                struck@.len() == self.enemies@.len(),
                alive@ == survivors(self.enemies@.take(i as int), struck@.take(i as int)),
                places@ == blasts(self.enemies@.take(i as int), struck@.take(i as int)),
                alive@.len() + places@.len() == i,
                count == self.enemy_count - places@.len(),
                forall|k: int| 0 <= k < alive@.len() ==> (#[trigger] alive@[k]).wf(),
            decreases self.enemies@.len() - i,
        {
            proof {
                lemma_take_step(self.enemies@, i as int);
                lemma_take_step(struck@, i as int);
            }
            assert(self@.enemies[i as int].wf());
            if struck[i] {
                places.push(self.enemies[i].pos);
                count = count - 1;
            } else {
                alive.push(self.enemies[i]);
            }
            i = i + 1;
        }
        assert(self.enemies@.take(i as int) =~= self.enemies@);
        assert(struck@.take(i as int) =~= struck@);
        let mut flying: Vec<Laser> = Vec::new();
        let mut j: usize = 0;
        while j < self.lasers.len()
            invariant
                j <= self.lasers@.len(),
                self@ == old(self)@,
                self@.wf(),
                targets@.len() == self.lasers@.len(),
                flying@ == unspent(self.lasers@.take(j as int), targets@.take(j as int)),
                forall|k: int|
                    0 <= k < flying@.len() ==> (#[trigger] flying@[k]).velocity.wf()
                        && flying@[k].movable.auto_despawn,
            decreases self.lasers@.len() - j,
        {
            proof {
                lemma_take_step(self.lasers@, j as int);
                lemma_take_step(targets@, j as int);
            }
            assert(self@.lasers[j as int].velocity.wf());
            if targets[j].is_none() {
                flying.push(self.lasers[j]);
            }
            j = j + 1;
        }
        assert(self.lasers@.take(j as int) =~= self.lasers@);
        assert(targets@.take(j as int) =~= targets@);
        self.enemies = alive;
        self.enemy_count = count;
        self.lasers = flying;
        self.requests.append(&mut places);
        proof {
            lemma_wf_with_lasers(old(self)@, self.lasers@);
            let mid = Scene { lasers: self.lasers@, ..old(self)@ };
            lemma_wf_with_enemies(
                Scene { enemy_count: self.enemies@.len() as int, ..mid },
                self.enemies@,
            );
        }
        targets
    }

    /// Lets the first laser of an enemy that overlaps the ship destroy it:
    /// ship and laser are gone, the player is away from `now` on, and an
    /// explosion is due where the ship was. Returns the old place of that laser.
    pub fn enemy_laser_hit_player(&mut self, now: u64) -> (out: Option<usize>)
        requires
            old(self)@.wf(),
        ensures
            final(self)@.wf(),
            match out {
                Some(l) => old(self)@.player.is_some() && l < old(self)@.lasers.len() && wounds(
                    old(self)@.lasers[l as int],
                    old(self)@.player.unwrap(),
                ) && (forall|k: int|
                    0 <= k < l ==> !wounds(#[trigger] old(self)@.lasers[k], old(self)@.player.unwrap()))
                    && final(self)@ == old(self)@.after_player_hit(l as int, now),
                None => final(self)@ == old(self)@ && (old(self)@.player matches Some(ship)
                    ==> forall|k: int|
                    0 <= k < old(self)@.lasers.len() ==> !wounds(#[trigger] old(self)@.lasers[k], ship)),
            },
    {
        let ship = match self.player {
            Some(ship) => ship,
            None => {
                return None;
            },
        };
        match first_hit(&self.lasers, &ship) {
            Some(l) => {
                self.player = None;
                self.player_state.shot(now);
                self.lasers.remove(l);
                self.requests.push(ship.pos);
                proof {
                    let gone = Scene {
                        player: None,
                        player_state: old(self)@.player_state.shot_spec(now),
                        requests: self.requests@,
                        ..old(self)@
                    };
                    assert(gone.wf());
                    assert forall|k: int| 0 <= k < self.lasers@.len() implies (
                    #[trigger] self.lasers@[k]).velocity.wf() && self.lasers@[k].movable.auto_despawn by {
                        if k < l {
                            assert(self.lasers@[k] == old(self)@.lasers[k]);
                        } else {
                            assert(self.lasers@[k] == old(self)@.lasers[k + 1]);
                        }
                    }
                    lemma_wf_with_lasers(gone, self.lasers@);
                }
                Some(l)
            },
            None => None,
        }
    }

    /// Begins an explosion at every place where one is due.
    pub fn explosion_to_spawn(&mut self)
        requires
            old(self)@.wf(),
        ensures
            final(self)@.wf(),
            final(self)@ == old(self)@.after_kindling(),
    {
        let mut begun: Vec<Explosion> = Vec::new();
        let mut i: usize = 0;
        while i < self.requests.len()
            invariant
                i <= self.requests@.len(),
                self@ == old(self)@,
                begun@.len() == i,
                forall|k: int|
                    0 <= k < i ==> #[trigger] begun@[k] == Explosion::at(self.requests@[k])
                        && begun@[k].wf(),
            decreases self.requests@.len() - i,
        {
            begun.push(Explosion::start(self.requests[i]));
            i = i + 1;
        }
        assert(begun@ =~= kindled(self.requests@));
        self.explosions.append(&mut begun);
        self.requests = Vec::new();
        proof {
            assert(self.requests@ =~= Seq::<Point>::empty());
            assert forall|k: int| 0 <= k < self.explosions@.len() implies (
            #[trigger] self.explosions@[k]).wf() by {
                if k < old(self)@.explosions.len() {
                    assert(old(self)@.explosions[k].wf());
                } else {
                    assert(kindled(old(self)@.requests)[k - old(self)@.explosions.len()].wf());
                }
            }
            lemma_wf_with_explosions(
                Scene { requests: Seq::empty(), ..old(self)@ },
                self.explosions@,
            );
        }
    }

    /// One tick of every explosion: where the frame timer runs out the next
    /// frame comes up, and an explosion that has shown its last frame is removed.
    pub fn explosion_animation(&mut self, dt: u32)
        requires
            old(self)@.wf(),
        ensures
            final(self)@.wf(),
            final(self)@ == old(self)@.after_show(dt),
    {
        let mut live: Vec<Explosion> = Vec::new();
        let mut i: usize = 0;
        while i < self.explosions.len()
            invariant
                i <= self.explosions@.len(),
                self@ == old(self)@,
                self@.wf(),
                live@ == shown(self.explosions@.take(i as int), dt),
                forall|k: int| 0 <= k < live@.len() ==> (#[trigger] live@[k]).wf(),
            decreases self.explosions@.len() - i,
        {
            proof {
                lemma_take_step(self.explosions@, i as int);
            }
            assert(self@.explosions[i as int].wf());
            match self.explosions[i].tick(dt) {
                Some(explosion) => {
                    live.push(explosion);
                },
                None => {},
            }
            i = i + 1;
        }
        assert(self.explosions@.take(i as int) =~= self.explosions@);
        self.explosions = live;
        proof {
            lemma_wf_with_explosions(old(self)@, self.explosions@);
        }
    }
}

proof fn lemma_split_enemies(enemies: Seq<Enemy>, struck: Seq<bool>)
    requires
        enemies.len() == struck.len(),
    ensures
        survivors(enemies, struck).len() + blasts(enemies, struck).len() == enemies.len(),
    decreases enemies.len(),
{
    if enemies.len() > 0 {
        lemma_split_enemies(enemies.drop_last(), struck.drop_last());
    }
}

/// The counter of enemies stays true through a round of hits: it goes down
/// by one for each enemy destroyed, no more and no less, and so is again the
/// number of enemies alive.
pub proof fn hits_keep_enemy_count(scene: Scene, targets: Seq<Option<usize>>)
    requires
        scene.enemy_count == scene.enemies.len(),
    ensures
        scene.after_hits(targets).enemy_count == scene.after_hits(targets).enemies.len(),
        scene.after_hits(targets).requests.len() - scene.requests.len() == scene.enemy_count
            - scene.after_hits(targets).enemy_count,
{
    lemma_split_enemies(scene.enemies, struck_by(targets, scene.enemies.len()));
}

/// An enemy that enters raises the counter by one together with the table:
/// a counter that was the number of enemies alive is so afterwards.
pub proof fn spawn_keeps_enemy_count(scene: Scene, maker: FormationMaker, formation: Formation)
    requires
        scene.enemy_count == scene.enemies.len(),
    ensures
        scene.with_enemy(maker, formation).enemy_count == scene.with_enemy(
            maker,
            formation,
        ).enemies.len(),
{
}

/// Straight flight is linear: after `dt` milliseconds a thing is exactly
/// its direction times the base speed times `dt` from where it was, on each
/// axis, wherever that is a point with coordinates of 32 bits.
pub proof fn straight_flight_is_linear(pos: Point, velocity: Velocity, dt: u32)
    requires
        fits(advanced(pos.x as int, velocity.x as int, dt)),
        fits(advanced(pos.y as int, velocity.y as int, dt)),
    ensures
        moved_to(pos, velocity, dt).x == pos.x + velocity.x * BASE_SPEED * dt,
        moved_to(pos, velocity, dt).y == pos.y + velocity.y * BASE_SPEED * dt,
{
}

} // verus!
