//! The coarse game mode, the play-time clock, the pause-time velocity store
//! and the menu decisions.
use crate::physics::{ExternalImpulse, Velocity};
use std::collections::HashMap;
use vstd::prelude::*;

verus! {

broadcast use vstd::std_specs::hash::group_hash_axioms;

/// The top-level mode; exactly one is active.
#[derive(Clone, Copy, Debug, PartialEq, Eq, Structural, Hash)]
pub enum GameState {
    Paused,
    Playing,
    StartMenu,
    LevelingUp,
}

/// What moves the game between modes.
#[derive(Clone, Copy, Debug, PartialEq, Eq, Structural)]
pub enum ModeEvent {
    /// The pause key.
    PauseToggle,
    /// The pause menu's resume action.
    Resume,
    /// The experience threshold was crossed.
    LevelUp,
    /// An upgrade was picked in the level-up menu.
    UpgradeChosen,
}

impl GameState {
    pub open spec fn next_spec(self, ev: ModeEvent) -> GameState {
        match ev {
            ModeEvent::PauseToggle => if self == GameState::Paused {
                GameState::Playing
            } else {
                GameState::Paused
            },
            ModeEvent::Resume => if self == GameState::Paused {
                GameState::Playing
            } else {
                self
            },
            ModeEvent::LevelUp => if self == GameState::Playing {
                GameState::LevelingUp
            } else {
                self
            },
            ModeEvent::UpgradeChosen => if self == GameState::LevelingUp {
                GameState::Playing
            } else {
                self
            },
        }
    }

    /// The mode after `ev`: the pause key toggles between paused and the
    /// rest (to playing from paused, to paused from anything else); resume
    /// leaves the pause; a level-up interrupts play; a chosen upgrade
    /// returns to play.
    pub fn next(self, ev: ModeEvent) -> (r: GameState)
        ensures
            r == self.next_spec(ev),
    {
        match ev {
            ModeEvent::PauseToggle => if self == GameState::Paused {
                GameState::Playing
            } else {
                GameState::Paused
            },
            ModeEvent::Resume => if self == GameState::Paused {
                GameState::Playing
            } else {
                self
            },
            ModeEvent::LevelUp => if self == GameState::Playing {
                GameState::LevelingUp
            } else {
                self
            },
            ModeEvent::UpgradeChosen => if self == GameState::LevelingUp {
                GameState::Playing
            } else {
                self
            },
        }
    }

    /// Modes in which the simulation is frozen.
    pub open spec fn frozen_spec(self) -> bool {
        self == GameState::Paused || self == GameState::LevelingUp
    }
}

impl Default for GameState {
    fn default() -> (r: GameState)
        ensures
            r == GameState::Playing,
    {
        GameState::Playing
    }
}

/// Unpaused play time, which drives the wave director.
#[derive(Clone, Copy, Debug, PartialEq, Eq, Structural)]
pub struct GameRuntime {
    pub elapsed_ms: u64,
    pub paused: bool,
}

impl GameRuntime {
    pub fn new() -> (r: GameRuntime)
        ensures
            r.elapsed_ms == 0,
            !r.paused,
    {
        GameRuntime { elapsed_ms: 0, paused: false }
    }

    /// Advances the clock by a frame of `delta_ms`, unless it is paused;
    /// saturates at the largest count.
    pub fn tick(&mut self, delta_ms: u64)
        ensures
            final(self).paused == old(self).paused,
            final(self).elapsed_ms == if old(self).paused {
                old(self).elapsed_ms as int
            } else {
                crate::player::sat_u64(old(self).elapsed_ms + delta_ms) as int
            },
    {
        if !self.paused {
            self.elapsed_ms = self.elapsed_ms.saturating_add(delta_ms);
        }
    }

    pub fn pause(&mut self)
        ensures
            *final(self) == (GameRuntime { paused: true, ..*old(self) }),
    {
        self.paused = true;
    }

    pub fn unpause(&mut self)
        ensures
            *final(self) == (GameRuntime { paused: false, ..*old(self) }),
    {
        self.paused = false;
    }
}

/// Moves the game to the mode that `ev` leads to and stops the play-time
/// clock exactly when that mode freezes the simulation; the elapsed time is
/// kept.
pub fn change_mode(state: GameState, ev: ModeEvent, runtime: &mut GameRuntime) -> (r: GameState)
    ensures
        r == state.next_spec(ev),
        *final(runtime) == (GameRuntime { paused: r.frozen_spec(), ..*old(runtime) }),
{
    let r = state.next(ev);
    if r == GameState::Paused || r == GameState::LevelingUp {
        runtime.pause();
    } else {
        runtime.unpause();
    }
    r
}

/// On the pause key the mode toggles and the play-time clock stops or
/// resumes with it. Without the key nothing changes.
pub fn pause_system(state: GameState, pause_pressed: bool, runtime: &mut GameRuntime) -> (r:
    GameState)
    ensures
        pause_pressed ==> r == state.next_spec(ModeEvent::PauseToggle),
        pause_pressed ==> *final(runtime) == (GameRuntime {
            paused: state != GameState::Paused,
            ..*old(runtime)
        }),
        !pause_pressed ==> r == state && *final(runtime) == *old(runtime),
{
    if !pause_pressed {
        return state;
    }
    change_mode(state, ModeEvent::PauseToggle, runtime)
}

/// A dynamic body as the pause logic sees it.
#[derive(Clone, Copy, Debug, PartialEq, Eq, Structural)]
pub struct Body {
    pub id: u64,
    pub velocity: Velocity,
    pub impulse: ExternalImpulse,
}

/// Velocities saved on pause, by body id.
pub struct VelocityStorage(pub HashMap<u64, Velocity>);

impl View for VelocityStorage {
    type V = Map<u64, Velocity>;

    open spec fn view(&self) -> Map<u64, Velocity> {
        self.0@
    }
}

impl VelocityStorage {
    pub fn new() -> (r: VelocityStorage)
        ensures
            r@ == Map::<u64, Velocity>::empty(),
    {
        VelocityStorage(HashMap::new())
    }

    /// The saved velocity of body `id`, if any.
    pub fn get(&self, id: u64) -> (r: Option<Velocity>)
        ensures
            r == if self@.contains_key(id) {
                Some(self@[id])
            } else {
                None::<Velocity>
            },
    {
        match self.0.get(&id) {
            Some(v) => Some(*v),
            None => None,
        }
    }
}

/// A body frozen for a pause: at rest with no pending push.
pub open spec fn frozen(b: Body) -> Body {
    Body { velocity: Velocity::zero_spec(), impulse: ExternalImpulse::zero_spec(), ..b }
}

/// A body back in play: its saved velocity, or at rest when none was saved.
pub open spec fn resumed(b: Body, m: Map<u64, Velocity>) -> Body {
    Body {
        velocity: if m.contains_key(b.id) {
            m[b.id]
        } else {
            Velocity::zero_spec()
        },
        ..b
    }
}

/// The store after saving the velocities of `bs` in order.
pub open spec fn stored(m: Map<u64, Velocity>, bs: Seq<Body>) -> Map<u64, Velocity>
    decreases bs.len(),
{
    if bs.len() == 0 {
        m
    } else {
        stored(m, bs.drop_last()).insert(bs.last().id, bs.last().velocity)
    }
}

/// On a change of mode: entering a frozen mode saves each body's velocity
/// and stops it; returning to play gives each body its saved velocity, or
/// none. Other changes, and frames without a change, leave all as it is.
pub fn save_velocity_system(
    bodies: &mut Vec<Body>,
    state: GameState,
    changed: bool,
    storage: &mut VelocityStorage,
)
    ensures
        final(bodies)@.len() == old(bodies)@.len(),
        changed && state == GameState::Playing ==> final(storage)@ == old(storage)@ && forall|i: int|
            0 <= i < old(bodies)@.len() ==> final(bodies)@[i] == resumed(
                old(bodies)@[i],
                old(storage)@,
            ),
        changed && state.frozen_spec() ==> final(storage)@ == stored(old(storage)@, old(bodies)@)
            && forall|i: int| 0 <= i < old(bodies)@.len() ==> final(bodies)@[i] == frozen(old(bodies)@[i]),
        !changed || state == GameState::StartMenu ==> final(storage)@ == old(storage)@
            && final(bodies)@ == old(bodies)@,
{
    if !changed || state == GameState::StartMenu {
        return;
    }
    let n = bodies.len();
    let mut i: usize = 0;
    while i < n
        invariant
            n == old(bodies)@.len(),
            i <= n,
            bodies@.len() == n,
            state != GameState::StartMenu,
            state == GameState::Playing ==> storage@ == old(storage)@,
            state.frozen_spec() ==> storage@ == stored(old(storage)@, old(bodies)@.subrange(0, i as int)),
            forall|j: int| i <= j < n ==> bodies@[j] == old(bodies)@[j],
            state == GameState::Playing ==> forall|j: int|
                0 <= j < i ==> bodies@[j] == resumed(old(bodies)@[j], old(storage)@),
            state.frozen_spec() ==> forall|j: int| 0 <= j < i ==> bodies@[j] == frozen(old(bodies)@[j]),
        decreases n - i,
    {
        let mut b = bodies[i];
        if state == GameState::Playing {
            b.velocity = match storage.get(b.id) {
                Some(v) => v,
                None => Velocity::zero(),
            };
        } else {
            assert(old(bodies)@.subrange(0, i + 1).drop_last() =~= old(bodies)@.subrange(0, i as int));
            storage.0.insert(b.id, b.velocity);
            b.impulse = ExternalImpulse::zero();
            b.velocity = Velocity::zero();
        }
        bodies.set(i, b);
        i = i + 1;
    }
    assert(old(bodies)@.subrange(0, n as int) =~= old(bodies)@);
}

proof fn lemma_stored(m: Map<u64, Velocity>, bs: Seq<Body>, k: u64)
    ensures
        stored(m, bs).contains_key(k) <==> (m.contains_key(k) || exists|j: int|
            0 <= j < bs.len() && bs[j].id == k),
        !(exists|j: int| 0 <= j < bs.len() && bs[j].id == k) ==> (m.contains_key(k) ==> stored(
            m,
            bs,
        )[k] == m[k]),
    decreases bs.len(),
{
    if bs.len() > 0 {
        lemma_stored(m, bs.drop_last(), k);
        if exists|j: int| 0 <= j < bs.len() - 1 && bs.drop_last()[j].id == k {
            let j = choose|j: int| 0 <= j < bs.len() - 1 && bs.drop_last()[j].id == k;
            assert(bs[j].id == k);
        }
        if exists|j: int| 0 <= j < bs.len() && bs[j].id == k {
            let j = choose|j: int| 0 <= j < bs.len() && bs[j].id == k;
            if j < bs.len() - 1 {
                assert(bs.drop_last()[j].id == k);
            }
        }
    }
}

proof fn lemma_stored_last(m: Map<u64, Velocity>, bs: Seq<Body>, i: int)
    requires
        0 <= i < bs.len(),
        forall|j: int| i < j < bs.len() ==> bs[j].id != bs[i].id,
    ensures
        stored(m, bs).contains_key(bs[i].id),
        stored(m, bs)[bs[i].id] == bs[i].velocity,
    decreases bs.len(),
{
    if i < bs.len() - 1 {
        lemma_stored_last(m, bs.drop_last(), i);
    }
}

/// Pausing and then resuming gives every body the velocity it had before
/// the pause, provided no later body carries the same id.
pub proof fn lemma_pause_round_trip(bs: Seq<Body>, m: Map<u64, Velocity>, i: int)
    requires
        0 <= i < bs.len(),
        forall|j: int| i < j < bs.len() ==> bs[j].id != bs[i].id,
    ensures
        resumed(frozen(bs[i]), stored(m, bs)).velocity == bs[i].velocity,
        frozen(bs[i]).velocity == Velocity::zero_spec(),
{
    lemma_stored_last(m, bs, i);
}

/// Pausing and then resuming a set of bodies with distinct ids gives each
/// the velocity it had before the pause.
pub proof fn lemma_pause_round_trip_all(bs: Seq<Body>, m: Map<u64, Velocity>)
    requires
        forall|i: int, j: int| 0 <= i < j < bs.len() ==> bs[i].id != bs[j].id,
    ensures
        forall|i: int|
            0 <= i < bs.len() ==> #[trigger] resumed(frozen(bs[i]), stored(m, bs)).velocity
                == bs[i].velocity,
{
    assert forall|i: int| 0 <= i < bs.len() implies #[trigger] resumed(
        frozen(bs[i]),
        stored(m, bs),
    ).velocity == bs[i].velocity by {
        lemma_stored_last(m, bs, i);
    }
}

/// A body that was never saved comes back to play at rest.
pub proof fn lemma_untracked_at_rest(bs: Seq<Body>, m: Map<u64, Velocity>, b: Body)
    requires
        !m.contains_key(b.id),
        forall|j: int| 0 <= j < bs.len() ==> bs[j].id != b.id,
    ensures
        resumed(b, stored(m, bs)).velocity == Velocity::zero_spec(),
{
    lemma_stored(m, bs, b.id);
}

/// The state of a menu button.
#[derive(Clone, Copy, Debug, PartialEq, Eq, Structural)]
pub enum Interaction {
    Pressed,
    Hovered,
    Idle,
}

/// Buttons of the pause menu.
#[derive(Clone, Copy, Debug, PartialEq, Eq, Structural)]
pub enum PauseButtons {
    Resume,
    Exit,
}

/// Buttons of the level-up menu.
#[derive(Clone, Copy, Debug, PartialEq, Eq, Structural)]
pub enum LevelUpButtons {
    OptionOne,
    OptionTwo,
    OptionThree,
}

/// Marks the upgrade picked in the level-up menu.
#[derive(Clone, Copy, Debug, PartialEq, Eq, Structural)]
pub struct SelectedOption;

/// What the pause menu decided.
#[derive(Clone, Copy, Debug, PartialEq, Eq, Structural)]
pub struct MenuOutcome {
    pub state: GameState,
    /// The player asked to quit.
    pub exit: bool,
}

pub open spec fn pressed(buttons: Seq<(Interaction, PauseButtons)>, b: PauseButtons) -> bool {
    exists|i: int| 0 <= i < buttons.len() && buttons[i] == (Interaction::Pressed, b)
}

/// A pressed resume button returns to play; a pressed exit button asks to
/// quit.
pub fn apply_pause_menu_button_system(
    state: GameState,
    buttons: &Vec<(Interaction, PauseButtons)>,
) -> (r: MenuOutcome)
    ensures
        r.state == if pressed(buttons@, PauseButtons::Resume) {
            GameState::Playing
        } else {
            state
        },
        r.exit == pressed(buttons@, PauseButtons::Exit),
{
    let mut out = MenuOutcome { state, exit: false };
    let mut i: usize = 0;
    while i < buttons.len()
        invariant
            i <= buttons@.len(),
            out.state == if pressed(buttons@.subrange(0, i as int), PauseButtons::Resume) {
                GameState::Playing
            } else {
                state
            },
            out.exit == pressed(buttons@.subrange(0, i as int), PauseButtons::Exit),
        decreases buttons@.len() - i,
    {
        let ghost pre = buttons@.subrange(0, i as int);
        let ghost next = buttons@.subrange(0, i + 1);
        assert forall|b: PauseButtons| pressed(next, b) == (pressed(pre, b) || buttons@[i as int] == (
        Interaction::Pressed, b)) by {
            if pressed(next, b) {
                let j = choose|j: int| 0 <= j < next.len() && next[j] == (Interaction::Pressed, b);
                if j < i {
                    assert(pre[j] == next[j]);
                }
            }
            if pressed(pre, b) {
                let j = choose|j: int| 0 <= j < pre.len() && pre[j] == (Interaction::Pressed, b);
                assert(next[j] == pre[j]);
            }
            if buttons@[i as int] == (Interaction::Pressed, b) {
                assert(next[i as int] == buttons@[i as int]);
            }
        }
        let (act, button) = buttons[i];
        match (act, button) {
            (Interaction::Pressed, PauseButtons::Resume) => {
                out.state = GameState::Playing;
            },
            (Interaction::Pressed, PauseButtons::Exit) => {
                out.exit = true;
            },
            _ => {},
        }
        i = i + 1;
    }
    assert(buttons@.subrange(0, i as int) =~= buttons@);
    out
}

/// Picking any option of the level-up menu ends the level-up pause.
pub fn apply_levelup_menu_button_system(
    state: GameState,
    buttons: &Vec<(Interaction, LevelUpButtons)>,
) -> (r: GameState)
    ensures
        r == if exists|i: int| 0 <= i < buttons@.len() && buttons@[i].0 == Interaction::Pressed {
            state.next_spec(ModeEvent::UpgradeChosen)
        } else {
            state
        },
{
    let mut i: usize = 0;
    while i < buttons.len()
        invariant
            i <= buttons@.len(),
            forall|j: int| 0 <= j < i ==> buttons@[j].0 != Interaction::Pressed,
        decreases buttons@.len() - i,
    {
        if buttons[i].0 == Interaction::Pressed {
            return state.next(ModeEvent::UpgradeChosen);
        }
        i = i + 1;
    }
    state
}

} // verus!
