//! Playback control: what a key press asks for, and what a running session
//! does about it.

use vstd::prelude::*;
use crate::vector::Vector;
use crate::world::{World, WorldError, WorldView};
use rand::rngs::StdRng;

verus! {

/// The frame delay of a fresh session, in milliseconds.
pub const INITIAL_DELAY: u64 = 10;

/// The shortest frame delay, in milliseconds.
pub const MIN_DELAY: u64 = 10;

/// By how much one request changes the frame delay, in milliseconds.
pub const DELAY_STEP: u64 = 10;

/// What the player asks of the session during one frame.
#[derive(Clone, Copy, Debug, PartialEq, Eq, Structural)]
pub enum LoopAction {
    Continue,
    Quit,
    Restart,
    SlowDown,
    SpeedUp,
}

/// A key event, reduced to what the controls read: whether it is a press
/// (not a release or a repeat), and the character of the key where it has one.
#[derive(Clone, Copy, Debug, PartialEq, Eq)]
pub struct KeyInput {
    pub pressed: bool,
    pub character: Option<char>,
}

/// The action bound to an event. Only a press counts; `q` quits, `r`
/// restarts, `-` slows down, `+` and `=` speed up. Everything else, and no
/// event at all, lets the session continue.
pub open spec fn action_for(event: Option<KeyInput>) -> LoopAction {
    match event {
        Some(key) => if !key.pressed {
            LoopAction::Continue
        } else if key.character == Some('q') {
            LoopAction::Quit
        } else if key.character == Some('r') {
            LoopAction::Restart
        } else if key.character == Some('-') {
            LoopAction::SlowDown
        } else if key.character == Some('+') || key.character == Some('=') {
            LoopAction::SpeedUp
        } else {
            LoopAction::Continue
        },
        None => LoopAction::Continue,
    }
}

/// Decides what the event of this frame, if there was one, asks for.
pub fn loop_action_for(event: Option<KeyInput>) -> (action: LoopAction)
    ensures
        action == action_for(event),
{
    if let Some(key) = event {
        if !key.pressed {
            return LoopAction::Continue;
        }
        return match key.character {
            Some('q') => LoopAction::Quit,
            Some('r') => LoopAction::Restart,
            Some('-') => LoopAction::SlowDown,
            Some('+') => LoopAction::SpeedUp,
            Some('=') => LoopAction::SpeedUp,
            _ => LoopAction::Continue,
        };
    }
    LoopAction::Continue
}

/// The frame delay after an action: slowing down adds a step, speeding up
/// takes one away but never goes below `MIN_DELAY`, and nothing else touches
/// the delay.
pub open spec fn delay_after(milliseconds: int, action: LoopAction) -> int {
    match action {
        LoopAction::SlowDown => milliseconds + DELAY_STEP,
        LoopAction::SpeedUp => if milliseconds - DELAY_STEP > MIN_DELAY {
            milliseconds - DELAY_STEP
        } else {
            MIN_DELAY as int
        },
        _ => milliseconds,
    }
}

/// Applies an action to the frame delay. The delay must have room for a step
/// either way: it is never below `MIN_DELAY` in a session, and slowing down
/// must not leave the range of the counter.
pub fn next_delay(milliseconds: u64, action: LoopAction) -> (next: u64)
    requires
        action == LoopAction::SlowDown ==> milliseconds + DELAY_STEP <= u64::MAX,
        action == LoopAction::SpeedUp ==> milliseconds >= DELAY_STEP,
    ensures
        next == delay_after(milliseconds as int, action),
{
    match action {
        LoopAction::SlowDown => milliseconds + DELAY_STEP,
        LoopAction::SpeedUp => {
            let shorter = milliseconds - DELAY_STEP;
            if shorter > MIN_DELAY {
                shorter
            } else {
                MIN_DELAY
            }
        },
        _ => milliseconds,
    }
}

/// A running simulation: the world, how to make it again, and the pace.
#[derive(Debug)]
pub struct Session {
    world: World,
    world_size: Vector,
    life_chance: u32,
    milliseconds: u64,
}

/// What a session is, mathematically.
pub struct SessionView {
    /// The world being played.
    pub world: WorldView,
    /// The chance, in millionths, with which a restart brings a cell to life.
    pub life_chance: u32,
    /// The delay between two frames, in milliseconds.
    pub milliseconds: nat,
}

impl View for Session {
    type V = SessionView;

    closed spec fn view(&self) -> SessionView {
        SessionView {
            world: self.world@,
            life_chance: self.life_chance,
            milliseconds: self.milliseconds as nat,
        }
    }
}

impl Session {
    /// The session holds a sound world of the size it was started with, and
    /// its delay respects the floor.
    pub closed spec fn wf(&self) -> bool {
        &&& self.world.wf()
        &&& self.world@.width == self.world_size.x
        &&& self.world@.height == self.world_size.y
        &&& self.milliseconds >= MIN_DELAY
    }

    /// What `wf` promises of the view.
    pub proof fn lemma_view_valid(&self)
        requires
            self.wf(),
        ensures
            self@.world.valid(),
            self@.milliseconds >= MIN_DELAY,
    {
        self.world.lemma_view_valid();
    }

    /// Starts a session on a freshly seeded world, at the initial pace.
    pub fn start(size: &Vector, life_chance: u32, rng: &mut StdRng) -> (made: Result<
        Session,
        WorldError,
    >)
        ensures
            match made {
                Ok(session) => {
                    &&& size.x > 0 && size.y > 0
                    &&& session.wf()
                    &&& session@.world.valid()
                    &&& session@.world.width == size.x
                    &&& session@.world.height == size.y
                    &&& session@.world.frames == 0
                    &&& !session@.world.changed
                    &&& session@.life_chance == life_chance
                    &&& session@.milliseconds == INITIAL_DELAY
                },
                Err(error) => {
                    &&& error == WorldError::InvalidDimensions
                    &&& size.x <= 0 || size.y <= 0
                },
            },
    {
        match World::new(size, life_chance, rng) {
            Ok(world) => Ok(
                Session {
                    world,
                    world_size: Vector { x: size.x, y: size.y },
                    life_chance,
                    milliseconds: INITIAL_DELAY,
                },
            ),
            Err(error) => Err(error),
        }
    }

    /// The world being played.
    pub fn world(&self) -> (world: &World)
        requires
            self.wf(),
        ensures
            world.wf(),
            world@ == self@.world,
    {
        &self.world
    }

    /// The delay between two frames, in milliseconds.
    pub fn milliseconds(&self) -> (milliseconds: u64)
        ensures
            milliseconds == self@.milliseconds,
    {
        self.milliseconds
    }

    /// Computes the next generation of the session's world and says whether
    /// any cell changed.
    pub fn tick(&mut self) -> (changed: bool)
        requires
            old(self).wf(),
            old(self)@.world.frames < u64::MAX,
        ensures
            final(self).wf(),
            final(self)@.world == old(self)@.world.tick(),
            final(self)@.life_chance == old(self)@.life_chance,
            final(self)@.milliseconds == old(self)@.milliseconds,
            changed == final(self)@.world.changed,
    {
        self.world.tick()
    }

    /// Carries out what the player asked for and says whether the session
    /// goes on. Quitting stops it and changes nothing. A restart replaces the
    /// world by a freshly seeded one of the same size. Slowing down and
    /// speeding up change the pace and nothing else.
    pub fn react(&mut self, action: LoopAction, rng: &mut StdRng) -> (running: bool)
        requires
            old(self).wf(),
            action == LoopAction::SlowDown ==> old(self)@.milliseconds + DELAY_STEP <= u64::MAX,
        ensures
            final(self).wf(),
            running == (action != LoopAction::Quit),
            final(self)@.life_chance == old(self)@.life_chance,
            final(self)@.milliseconds == delay_after(old(self)@.milliseconds as int, action),
            action != LoopAction::Restart ==> final(self)@.world == old(self)@.world,
            action == LoopAction::Restart ==> {
                &&& final(self)@.world.valid()
                &&& final(self)@.world.width == old(self)@.world.width
                &&& final(self)@.world.height == old(self)@.world.height
                &&& final(self)@.world.frames == 0
                &&& !final(self)@.world.changed
            },
    {
        match action {
            LoopAction::Quit => false,
            LoopAction::Restart => {
                proof {
                    self.world.lemma_view_valid();
                }
                if let Ok(world) = World::new(&self.world_size, self.life_chance, rng) {
                    self.world = world;
                }
                true
            },
            _ => {
                self.milliseconds = next_delay(self.milliseconds, action);
                true
            },
        }
    }
}

} // verus!
