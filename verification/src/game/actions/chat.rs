//! Saying something for a while.

use vstd::prelude::*;
use vstd::string::StringSliceAdditionalSpecFns;
use crate::components::{Entity, Saying};
use crate::game::actions::ActionState;
use crate::game::unit::Unit;
use crate::game::world::{lemma_same_population, World, WorldView};
use crate::time::{Timer, TimerMode};

verus! {

/// Nanoseconds any message stays up.
pub const SAY_BASE: u64 = 3_000_000_000;

/// Nanoseconds a message stays up longer for each byte it holds.
pub const SAY_PER_BYTE: u64 = 100_000_000;

/// How something is said.
#[derive(Clone, Copy, Debug, PartialEq, Eq, Structural)]
pub enum ChatType {
    Say,
}

/// The action of saying `message`.
#[derive(Clone, Debug, PartialEq, Eq)]
pub struct Chat {
    pub chat_type: ChatType,
    pub message: String,
    /// How long the message stays up.
    pub uptime: Timer,
}

/// The nanoseconds a message of `len` bytes stays up, held at the greatest
/// number a timer takes.
pub open spec fn spec_say_duration(len: nat) -> u64 {
    if SAY_BASE + len * SAY_PER_BYTE > u64::MAX {
        u64::MAX
    } else {
        (SAY_BASE + len * SAY_PER_BYTE) as u64
    }
}

/// The number of bytes `text` takes, as a machine word.
pub open spec fn spec_byte_len(text: Seq<char>) -> nat {
    (vstd::utf8::encode_utf8(text).len() as usize) as nat
}

/// The nanoseconds a message of `len` bytes stays up.
pub fn say_duration(len: usize) -> (duration: u64)
    ensures
        duration == spec_say_duration(len as nat),
{
    let wide: u128 = 3_000_000_000u128 + (len as u128) * 100_000_000u128;
    if wide > u64::MAX as u128 {
        u64::MAX
    } else {
        wide as u64
    }
}

impl Chat {
    /// The action of saying `message`, for three seconds and a tenth of a
    /// second more for each byte of it.
    pub fn say(message: String) -> (chat: Self)
        ensures
            chat == (Chat {
                chat_type: ChatType::Say,
                message,
                uptime: Timer {
                    elapsed: 0,
                    duration: spec_say_duration(spec_byte_len(message@)),
                    mode: TimerMode::Once,
                    finished: false,
                    just_finished: false,
                },
            }),
    {
        let text = message.as_str();
        proof {
            assert(text.spec_bytes() == vstd::utf8::encode_utf8(text@));
        }
        let duration: u64 = say_duration(text.len());
        Chat { chat_type: ChatType::Say, message, uptime: Timer::new(duration, TimerMode::Once) }
    }

    /// The action after a step of `delta` nanoseconds from `state`: the
    /// timer runs while the action is under way and starts over when the
    /// action is called off.
    pub open spec fn spec_step(self, state: ActionState, delta: u64) -> Chat {
        match state {
            ActionState::Executing => Chat { uptime: self.uptime.spec_tick(delta), ..self },
            ActionState::Cancelled => Chat { uptime: self.uptime.spec_reset(), ..self },
            _ => self,
        }
    }

    /// Where the action stands after a step of `delta` nanoseconds from
    /// `state`.
    pub open spec fn spec_next_state(self, state: ActionState, delta: u64) -> ActionState {
        match state {
            ActionState::Requested => ActionState::Executing,
            ActionState::Executing => if self.uptime.spec_tick(delta).finished {
                ActionState::Success
            } else {
                ActionState::Executing
            },
            ActionState::Cancelled => ActionState::Failure,
            _ => state,
        }
    }

    /// What `unit` says after a step of the action: the message from the
    /// start of the action on, nothing once the action ends.
    pub open spec fn spec_speaker(self, unit: Unit, state: ActionState, delta: u64) -> Unit {
        match state {
            ActionState::Requested => Unit { saying: Some(Saying(self.message)), ..unit },
            ActionState::Executing => if self.uptime.spec_tick(delta).finished {
                Unit { saying: None, ..unit }
            } else {
                unit
            },
            ActionState::Cancelled => Unit { saying: None, ..unit },
            _ => unit,
        }
    }
}

impl WorldView {
    /// The world after a step of the chat action `chat` of `actor`.
    pub open spec fn spec_chat_action_system(
        self,
        actor: Entity,
        state: ActionState,
        chat: Chat,
        delta: u64,
    ) -> WorldView {
        if self.has(actor) {
            self.with_unit(
                self.find(actor),
                chat.spec_speaker(self.units[self.find(actor)], state, delta),
            )
        } else {
            self
        }
    }
}

impl World {
    /// Takes the chat action `chat` of `actor` one step of `delta`
    /// nanoseconds on from `state`, and tells where it stands then.
    pub fn chat_action_system(
        &mut self,
        actor: Entity,
        state: ActionState,
        chat: &mut Chat,
        delta: u64,
    ) -> (next: ActionState)
        requires
            old(self)@.wf(),
        ensures
            final(self)@.wf(),
            final(self)@ =~= old(self)@.spec_chat_action_system(actor, state, *old(chat), delta),
            *final(chat) == old(chat).spec_step(state, delta),
            next == old(chat).spec_next_state(state, delta),
    {
        let found = self.index_of(actor);
        match state {
            ActionState::Requested => {
                if let Some(i) = found {
                    self.units[i].saying = Some(Saying(chat.message.clone()));
                    proof {
                        lemma_same_population(old(self)@, self@);
                    }
                }
                ActionState::Executing
            },
            ActionState::Executing => {
                chat.uptime.tick(delta);
                if chat.uptime.finished() {
                    if let Some(i) = found {
                        self.units[i].saying = None;
                        proof {
                            lemma_same_population(old(self)@, self@);
                        }
                    }
                    ActionState::Success
                } else {
                    ActionState::Executing
                }
            },
            ActionState::Cancelled => {
                chat.uptime.reset();
                if let Some(i) = found {
                    self.units[i].saying = None;
                    proof {
                        lemma_same_population(old(self)@, self@);
                    }
                }
                ActionState::Failure
            },
            _ => state,
        }
    }
}

} // verus!
