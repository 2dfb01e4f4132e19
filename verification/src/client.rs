//! A player as the game keeps it: where they stand, what they have scored,
//! and the channel on which the game writes to them.

use crate::grid::Position;
use crate::message::Message;
use crate::outside::send_text;
use tokio::sync::mpsc::UnboundedSender;
use vstd::prelude::*;

verus! {

/// What a lone player gains at a tick.
pub const REWARD: i32 = 1;

/// What a player who shares a cell loses at a tick.
pub const PENALTY: i32 = 5;

/// The mutable record of one player.
#[derive(Clone, Copy, Debug, PartialEq, Eq, Structural)]
pub struct ClientState {
    /// Unique among the players of a game.
    pub id: u16,
    /// Where the player stands.
    pub position: Position,
    /// Where the player stood before the last move or tick.
    pub old_position: Position,
    pub score: i32,
    /// An ANSI colour value, by which a display tells players apart.
    pub color: u8,
}

/// A player: its record and the sending half of its outbound channel.
#[derive(Debug)]
pub struct Client {
    pub state: ClientState,
    pub sender: UnboundedSender<String>,
}

impl ClientState {
    /// The record after a tick at which the player stood alone.
    pub open spec fn rewarded(self) -> ClientState {
        ClientState {
            old_position: self.position,
            score: (self.score + REWARD) as i32,
            ..self
        }
    }

    /// The record after a tick at which the player shared a cell and was
    /// sent to `fresh`.
    pub open spec fn penalized(self, fresh: Position) -> ClientState {
        ClientState {
            position: fresh,
            old_position: self.position,
            score: (self.score - PENALTY) as i32,
            ..self
        }
    }

    /// The record after a move to `to`.
    pub open spec fn moved_to(self, to: Position) -> ClientState {
        ClientState { position: to, old_position: self.position, ..self }
    }

    /// Settles a tick for a player who stood alone: they gain `REWARD` and
    /// stay, and the cell they stand on becomes their old position too.
    pub fn reward(&mut self)
        requires
            old(self).score + REWARD <= i32::MAX,
        ensures
            *final(self) == old(self).rewarded(),
    {
        self.old_position = self.position;
        self.score += REWARD;
    }

    /// Settles a tick for a player who shared a cell: they lose `PENALTY`
    /// and go to `fresh`, and the cell they leave becomes their old
    /// position.
    pub fn penalize(&mut self, fresh: Position)
        requires
            old(self).score - PENALTY >= i32::MIN,
        ensures
            *final(self) == old(self).penalized(fresh),
    {
        self.old_position = self.position;
        self.position = fresh;
        self.score -= PENALTY;
    }

    /// Moves the player to `to`, and keeps the cell they leave as their old
    /// position.
    pub fn move_to(&mut self, to: Position)
        ensures
            *final(self) == old(self).moved_to(to),
    {
        self.old_position = self.position;
        self.position = to;
    }
}

impl Client {
    /// A new player at `position`, with no score yet.
    pub fn new(id: u16, position: Position, sender: UnboundedSender<String>, color: u8) -> (client:
        Self)
        ensures
            client.state == (ClientState {
                id,
                position,
                old_position: position,
                score: 0,
                color,
            }),
            client.sender == sender,
    {
        Self { state: ClientState { id, position, old_position: position, score: 0, color }, sender }
    }

    pub fn id(&self) -> (id: u16)
        ensures
            id == self.state.id,
    {
        self.state.id
    }

    /// Adds `score`, which may be negative, to the player's score.
    pub fn adjust_score(&mut self, score: i32)
        requires
            i32::MIN <= old(self).state.score + score <= i32::MAX,
        ensures
            final(self).state == (ClientState {
                score: (old(self).state.score + score) as i32,
                ..old(self).state
            }),
            final(self).sender == old(self).sender,
    {
        self.state.score += score;
    }

    pub fn set_position(&mut self, position: Position)
        ensures
            final(self).state == (ClientState { position, ..old(self).state }),
            final(self).sender == old(self).sender,
    {
        self.state.position = position;
    }

    pub fn set_old_position(&mut self, position: Position)
        ensures
            final(self).state == (ClientState { old_position: position, ..old(self).state }),
            final(self).sender == old(self).sender,
    {
        self.state.old_position = position;
    }

    /// The two messages that tell the player where they stand and what their
    /// score is, in the order in which they are sent.
    pub fn report(&self) -> (messages: (Message, Message))
        ensures
            messages.0 == Message::Position(self.state.position),
            messages.1 == Message::Score(self.state.score),
    {
        (Message::new_position(self.state.position), Message::new_score(self.state.score))
    }

    /// Sends the player the texts of the two messages of `report`, the
    /// position first, and tells whether the channel took both. A channel
    /// whose other end is gone takes nothing more; that is for the
    /// connection to notice, and changes nothing here. Whether the channel
    /// takes a message is decided at its other end, so nothing is promised
    /// of the answer.
    pub fn notify(&self) -> (taken: bool) {
        let (position, score) = self.report();
        let first = send_text(&self.sender, position.to_json());
        let second = send_text(&self.sender, score.to_json());
        first && second
    }
}

} // verus!
