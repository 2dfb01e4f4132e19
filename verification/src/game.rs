//! The game: the players that are registered, the grid they stand on, and
//! the operations by which connections join, move and leave.

use crate::client::{Client, ClientState};
use crate::grid::{Direction, Field, Position};
use crate::message::Message;
use crate::outside::random_below;
use crate::render::{erase_behind, erased_behind, Draw};
use tokio::sync::mpsc::UnboundedSender;
use vstd::prelude::*;

verus! {

/// The largest id that a game hands out.
pub const MAX_ID: u16 = 9;

/// The number of colours from which a player's colour is drawn.
pub const COLORS: u16 = 255;

/// Why a connection could not be registered.
#[derive(Clone, Copy, Debug, PartialEq, Eq, Structural)]
pub enum GameError {
    /// The game already holds as many players as it admits.
    CapacityExceeded,
    /// Every id up to `MAX_ID` has been handed out.
    IdSpaceExhausted,
}

/// The game as the contracts see it.
#[verifier::ext_equal]
pub struct GameView {
    /// The registered players, in the order in which they joined.
    pub clients: Seq<Client>,
    pub field: Field,
    pub max_clients: u16,
    /// Whether the tick engine has been started.
    pub running: bool,
    /// The id handed out last, or a larger id that was registered.
    pub last_id: u16,
}

/// How many of `clients` stand on `cell`.
pub open spec fn occupants(clients: Seq<Client>, cell: Position) -> nat
    decreases clients.len(),
{
    if clients.len() == 0 {
        0
    } else {
        occupants(clients.drop_last(), cell) + if clients.last().state.position == cell {
            1nat
        } else {
            0nat
        }
    }
}

impl GameView {
    /// Whether a player with this id is registered.
    pub open spec fn has_id(self, id: u16) -> bool {
        exists|i: int| 0 <= i < self.clients.len() && (#[trigger] self.clients[i]).state.id == id
    }

    /// The place of the player with this id among the registered players.
    pub open spec fn index_of(self, id: u16) -> int
        recommends
            self.has_id(id),
    {
        choose|i: int| 0 <= i < self.clients.len() && (#[trigger] self.clients[i]).state.id == id
    }

    /// What holds of every game: it is not over capacity, no two players
    /// share an id, no id is beyond the counter, and every player stands
    /// inside the grid.
    pub open spec fn wf(self) -> bool {
        &&& self.clients.len() <= self.max_clients
        &&& forall|i: int, j: int|
            0 <= i < j < self.clients.len() ==> (#[trigger] self.clients[i]).state.id != (
            #[trigger] self.clients[j]).state.id
        &&& forall|i: int|
            0 <= i < self.clients.len() ==> {
                &&& (#[trigger] self.clients[i]).state.id <= self.last_id
                &&& self.field.holds(self.clients[i].state.position)
            }
    }

    /// The game after the player `id` has moved one cell in `direction`.
    /// A move of a player who is not registered changes nothing.
    pub open spec fn moved(self, id: u16, direction: Direction) -> GameView {
        if self.has_id(id) {
            let i = self.index_of(id);
            let client = self.clients[i];
            let to = self.field.stepped(client.state.position, direction);
            GameView {
                clients: self.clients.update(
                    i,
                    Client { state: client.state.moved_to(to), sender: client.sender },
                ),
                ..self
            }
        } else {
            self
        }
    }

    /// The game once the tick engine has been asked to start.
    pub open spec fn started(self) -> GameView {
        GameView { running: true, ..self }
    }

    /// How many of `calls` requests to start the tick engine, made one after
    /// another, are told that they started it.
    pub open spec fn starts_granted(self, calls: nat) -> nat
        decreases calls,
    {
        if calls == 0 {
            0
        } else {
            let granted: nat = if self.running {
                0
            } else {
                1
            };
            granted + self.started().starts_granted((calls - 1) as nat)
        }
    }

    /// The game after the player `id` has left. Nothing changes if no such
    /// player is registered.
    pub open spec fn without(self, id: u16) -> GameView {
        if self.has_id(id) {
            GameView { clients: self.clients.remove(self.index_of(id)), ..self }
        } else {
            self
        }
    }

    /// What a display erases when the player `id` leaves: nothing if no such
    /// player is registered.
    pub open spec fn left_behind(self, id: u16) -> Seq<Draw> {
        if self.has_id(id) {
            erased_behind(self.without(id).clients, self.clients[self.index_of(id)].state)
        } else {
            Seq::empty()
        }
    }

    /// The game after a text has arrived from the player `id`, where
    /// `message` is what the text reads as. Only a move changes the game.
    pub open spec fn after_message(self, id: u16, message: Option<Message>) -> GameView {
        match message {
            Some(Message::Move(direction)) => self.moved(id, direction),
            _ => self,
        }
    }
}

/// The state of one game.
#[derive(Debug)]
pub struct Game {
    pub(crate) clients: Vec<Client>,
    pub(crate) running: bool,
    pub(crate) max_clients: u16,
    pub(crate) field: Field,
    pub(crate) last_id: u16,
}

impl View for Game {
    type V = GameView;

    open(crate) spec fn view(&self) -> GameView {
        GameView {
            clients: self.clients@,
            field: self.field,
            max_clients: self.max_clients,
            running: self.running,
            last_id: self.last_id,
        }
    }
}

impl Game {
    /// A game on a grid of `width` by `height` cells that admits up to
    /// `max_clients` players. It has no players yet and is not running.
    pub fn new(width: u16, height: u16, max_clients: u16) -> (game: Self)
        ensures
            game@ == (GameView {
                clients: Seq::empty(),
                field: Field { width, height },
                max_clients,
                running: false,
                last_id: 0,
            }),
            game@.wf(),
    {
        Self {
            clients: Vec::new(),
            running: false,
            max_clients,
            field: Field { width, height },
            last_id: 0,
        }
    }

    pub fn field(&self) -> (field: Field)
        ensures
            field == self@.field,
    {
        self.field
    }

    pub fn is_running(&self) -> (running: bool)
        ensures
            running == self@.running,
    {
        self.running
    }

    pub fn get_total_clients(&self) -> (total: u16)
        requires
            self@.wf(),
        ensures
            total == self@.clients.len(),
    {
        self.clients.len() as u16
    }

    pub fn get_max_clients(&self) -> (max: u16)
        ensures
            max == self@.max_clients,
    {
        self.max_clients
    }

    /// Whether enough players are registered for the tick engine to start:
    /// as many as the game admits.
    pub fn start_game(&self) -> (ready: bool)
        requires
            self@.wf(),
        ensures
            ready == (self@.clients.len() >= self@.max_clients),
    {
        self.get_total_clients() >= self.get_max_clients()
    }

    /// Marks the tick engine as started, and tells whether this call is the
    /// one that started it. Every later call is told `false`.
    pub fn try_start(&mut self) -> (started: bool)
        ensures
            started == !old(self)@.running,
            final(self)@ == old(self)@.started(),
    {
        let started = !self.running;
        self.running = true;
        started
    }

    /// The place of the player `id` among the registered players.
    pub(crate) fn find(&self, id: u16) -> (at: Option<usize>)
        requires
            self@.wf(),
        ensures
            match at {
                Some(i) => self@.has_id(id) && i == self@.index_of(id) && i < self@.clients.len(),
                None => !self@.has_id(id),
            },
    {
        let mut i: usize = 0;
        while i < self.clients.len()
            invariant
                i <= self.clients.len(),
                self@.wf(),
                forall|j: int| 0 <= j < i ==> (#[trigger] self@.clients[j]).state.id != id,
            decreases self.clients.len() - i,
        {
            if self.clients[i].state.id == id {
                assert(self@.clients[i as int].state.id == id);
                return Some(i);
            }
            i += 1;
        }
        None
    }

    /// Whether a player with this id is registered.
    pub fn has_client(&self, id: u16) -> (found: bool)
        requires
            self@.wf(),
        ensures
            found == self@.has_id(id),
    {
        self.find(id).is_some()
    }

    /// The record of the player `id`, if one is registered.
    pub fn client_state(&self, id: u16) -> (state: Option<ClientState>)
        requires
            self@.wf(),
        ensures
            state == if self@.has_id(id) {
                Some(self@.clients[self@.index_of(id)].state)
            } else {
                None
            },
    {
        match self.find(id) {
            Some(i) => Some(self.clients[i].state),
            None => None,
        }
    }

    /// Registers `client`, last in the order of players. The caller has
    /// checked that the game is not full and has chosen an id that no
    /// registered player has. The id counter moves up to the id if it was
    /// below it, so that no id handed out later meets this one.
    pub fn add_client(&mut self, client: Client)
        requires
            old(self)@.wf(),
            old(self)@.clients.len() < old(self)@.max_clients,
            !old(self)@.has_id(client.state.id),
            old(self)@.field.holds(client.state.position),
        ensures
            final(self)@ == (GameView {
                clients: old(self)@.clients.push(client),
                last_id: if client.state.id > old(self)@.last_id {
                    client.state.id
                } else {
                    old(self)@.last_id
                },
                ..old(self)@
            }),
            final(self)@.wf(),
    {
        if client.state.id > self.last_id {
            self.last_id = client.state.id;
        }
        self.clients.push(client);
        proof {
            let before = old(self)@;
            let after = self@;
            assert forall|i: int, j: int| 0 <= i < j < after.clients.len() implies (
            #[trigger] after.clients[i]).state.id != (#[trigger] after.clients[j]).state.id by {
                if j == before.clients.len() {
                    assert(before.clients[i].state.id != client.state.id);
                }
            }
        }
    }

    /// Removes the player `id`, and gives what a display erases behind
    /// them. Removing an id that is not registered does nothing, so a
    /// connection may be removed by both of its halves.
    pub fn remove_client(&mut self, id: u16) -> (plan: Vec<Draw>)
        requires
            old(self)@.wf(),
        ensures
            final(self)@ == old(self)@.without(id),
            plan@ == old(self)@.left_behind(id),
            !old(self)@.has_id(id) ==> final(self)@ == old(self)@ && plan@.len() == 0,
            !final(self)@.has_id(id),
            final(self)@.wf(),
    {
        match self.find(id) {
            Some(i) => {
                let gone = self.clients.remove(i);
                proof {
                    let before = old(self)@.clients;
                    let after = self@.clients;
                    assert forall|j: int| 0 <= j < after.len() implies #[trigger] after[j] == before[if j
                        < i {
                        j
                    } else {
                        j + 1
                    }] by {}
                    assert(self@ =~= old(self)@.without(id));
                }
                erase_behind(&self.clients, gone.state)
            },
            None => Vec::new(),
        }
    }

    /// Hands out the next id. Ids start at 1 and go up by one; beyond
    /// `MAX_ID` there is none, and the counter stays where it is.
    pub fn create_id(&mut self) -> (r: Result<u16, GameError>)
        requires
            old(self)@.wf(),
        ensures
            match r {
                Ok(id) => {
                    &&& old(self)@.last_id < MAX_ID
                    &&& id == old(self)@.last_id + 1
                    &&& !old(self)@.has_id(id)
                    &&& final(self)@ == (GameView { last_id: id, ..old(self)@ })
                },
                Err(e) => {
                    &&& e == GameError::IdSpaceExhausted
                    &&& old(self)@.last_id >= MAX_ID
                    &&& final(self)@ == old(self)@
                },
            },
            final(self)@.wf(),
    {
        if self.last_id >= MAX_ID {
            return Err(GameError::IdSpaceExhausted);
        }
        self.last_id += 1;
        Ok(self.last_id)
    }

    /// A cell of the grid, drawn at random: a column below the width and a
    /// row below the height. Every cell of the grid can come back, and
    /// which one does is left to the draw.
    pub fn create_random_position(&self) -> (cell: Position)
        requires
            self@.field.width > 0,
            self@.field.height > 0,
        ensures
            self@.field.holds(cell),
    {
        let x = random_below(self.field.width);
        let y = random_below(self.field.height);
        Position::new(x, y)
    }

    /// A colour for a player, drawn at random below `COLORS`. Every such
    /// colour can come back, and which one does is left to the draw.
    pub fn create_random_color(&self) -> (color: u8)
        ensures
            color < COLORS,
    {
        random_below(COLORS) as u8
    }

    /// Registers a new connection: checks that the game is not full, hands
    /// out an id, draws a cell and a colour, and registers the player with
    /// `sender` as its outbound channel. Gives the new player's id.
    pub fn connect(&mut self, sender: UnboundedSender<String>) -> (r: Result<u16, GameError>)
        requires
            old(self)@.wf(),
            old(self)@.field.width > 0,
            old(self)@.field.height > 0,
        ensures
            match r {
                Ok(id) => {
                    let joined = final(self)@.clients.last();
                    &&& old(self)@.clients.len() < old(self)@.max_clients
                    &&& old(self)@.last_id < MAX_ID
                    &&& id == old(self)@.last_id + 1
                    &&& final(self)@ == (GameView {
                        clients: old(self)@.clients.push(joined),
                        last_id: id,
                        ..old(self)@
                    })
                    &&& joined.sender == sender
                    &&& joined.state.id == id
                    &&& joined.state.score == 0
                    &&& joined.state.old_position == joined.state.position
                    &&& old(self)@.field.holds(joined.state.position)
                    &&& joined.state.color < COLORS
                },
                Err(GameError::CapacityExceeded) => {
                    &&& old(self)@.clients.len() >= old(self)@.max_clients
                    &&& final(self)@ == old(self)@
                },
                Err(GameError::IdSpaceExhausted) => {
                    &&& old(self)@.clients.len() < old(self)@.max_clients
                    &&& old(self)@.last_id >= MAX_ID
                    &&& final(self)@ == old(self)@
                },
            },
            final(self)@.wf(),
    {
        if self.get_total_clients() >= self.max_clients {
            return Err(GameError::CapacityExceeded);
        }
        let id = match self.create_id() {
            Ok(id) => id,
            Err(e) => {
                return Err(e);
            },
        };
        let position = self.create_random_position();
        let color = self.create_random_color();
        let client = Client::new(id, position, sender, color);
        self.add_client(client);
        Ok(id)
    }

    /// Moves the player `id` one cell in `direction`, and keeps the cell
    /// they left as their old position. Nothing happens if no such player
    /// is registered.
    pub fn adjust_position(&mut self, id: u16, direction: Direction)
        requires
            old(self)@.wf(),
        ensures
            final(self)@ == old(self)@.moved(id, direction),
            final(self)@.wf(),
    {
        if let Some(i) = self.find(id) {
            let from = self.clients[i].state.position;
            let to = self.field.step(from, direction);
            self.clients[i].state.move_to(to);
            assert(self@ =~= old(self)@.moved(id, direction));
        }
    }

    /// Takes a message that arrived from the player `id`. A move is carried
    /// out. A notice of leaving changes nothing: the player is removed when
    /// their connection closes. Positions and scores are for the game to
    /// send, and are dropped when a player sends them.
    pub fn on_message(&mut self, id: u16, message: Message)
        requires
            old(self)@.wf(),
        ensures
            final(self)@ == old(self)@.after_message(id, Some(message)),
            final(self)@.wf(),
    {
        match message {
            Message::Move(direction) => {
                self.adjust_position(id, direction);
            },
            _ => {},
        }
    }

    /// Takes a text that arrived from the player `id`. A text that is no
    /// message is dropped without a trace; a message is handled as
    /// `on_message` handles it.
    pub fn on_new_message(&mut self, id: u16, msg: String)
        requires
            old(self)@.wf(),
        ensures
            final(self)@ == old(self)@.after_message(id, Message::parse(msg@)),
            final(self)@.wf(),
    {
        if let Ok(message) = Message::from_json(msg.as_str()) {
            self.on_message(id, message);
        }
    }
}

/// However often the tick engine is asked to start, it starts at most once:
/// the first request on a game that is not running is granted, and no
/// other.
pub proof fn lemma_engine_starts_once(game: GameView, calls: nat)
    ensures
        game.starts_granted(calls) <= 1,
        game.starts_granted(calls) == 1 <==> calls > 0 && !game.running,
    decreases calls,
{
    if calls > 0 {
        lemma_engine_starts_once(game.started(), (calls - 1) as nat);
    }
}

/// Removing a player twice is removing them once, and removing a player who
/// is not registered leaves the game as it is.
pub proof fn lemma_remove_twice(game: GameView, id: u16)
    requires
        game.wf(),
    ensures
        !game.has_id(id) ==> game.without(id) == game,
        !game.without(id).has_id(id),
        game.without(id).without(id) == game.without(id),
        game.without(id).wf(),
{
    if game.has_id(id) {
        let k = game.index_of(id);
        let after = game.without(id);
        assert forall|j: int| 0 <= j < after.clients.len() implies #[trigger] after.clients[j]
            == game.clients[if j < k {
            j
        } else {
            j + 1
        }] by {}
    }
}

/// An id that has just been handed out belongs to no registered player, so
/// a player may be registered under it.
pub proof fn lemma_fresh_id_is_free(game: GameView)
    requires
        game.wf(),
        game.last_id < MAX_ID,
    ensures
        !game.has_id((game.last_id + 1) as u16),
{
}

} // verus!
