//! The client-side pieces around the engine: the delegate that picks moves,
//! a ready-made delegate choosing a random sensible move, and the handle that
//! the transport drives.

use vstd::prelude::*;
use crate::moves::Move;
use crate::protocol::GameResult;
use crate::state::State;
use crate::team::Team;

verus! {

/// A handler that implements the game player's behavior, usually employing
/// some custom move selection strategy. The transport invokes it as events
/// arrive.
pub trait GameClientDelegate {
    /// Invoked whenever the game state updates.
    fn state_updated(&mut self, state: &State);

    /// Invoked when the game ends.
    fn game_ended(&mut self, result: &GameResult);

    /// Invoked when the welcome message is received with the player's team.
    fn welcome_received(&mut self, team: Team);

    /// Requests a move from the delegate. This method should implement the
    /// "main" game logic.
    fn pick_move(&mut self, state: &State, my_team: Team) -> Move;
}

/// A configuration that determines whether the reader and/or the writer of a
/// stream should be swapped by standard input and output to ease debugging.
#[derive(Debug, Clone, Copy, PartialEq, Eq, Structural)]
pub struct DebugMode {
    pub debug_reader: bool,
    pub debug_writer: bool,
}

/// The client which handles requests, manages the game state and invokes the
/// delegate; the transport around it performs the network exchange.
pub struct GameClient<D> {
    pub delegate: D,
    pub debug_mode: DebugMode,
    pub reservation_code: Option<String>,
}

impl<D: GameClientDelegate> GameClient<D> {
    /// Creates a new client using the specified delegate.
    pub fn new(delegate: D, debug_mode: DebugMode, reservation_code: Option<String>) -> (r:
        GameClient<D>)
        ensures
            r.delegate == delegate,
            r.debug_mode == debug_mode,
            r.reservation_code == reservation_code,
    {
        GameClient { delegate, debug_mode, reservation_code }
    }
}

/// Relies on the rand crate's thread-local generator: the value is drawn by
/// chance, so nothing is assumed of it. The call can only fail by aborting
/// when the operating system's randomness source is unavailable at first
/// use, an environmental fault of the same kind as memory exhaustion.
#[verifier::external_body]
fn random_u64() -> u64 {
    rand::random::<u64>()
}

/// A game logic that picks a uniformly random sensible move when requested.
pub struct OwnLogic;

impl OwnLogic {
    /// Picks the sensible move selected by the given draw; the choice is the
    /// draw reduced modulo the number of candidates.
    pub fn pick_move_with(state: &State, draw: u64) -> (r: Option<Move>)
        requires
            state.wf(),
            state.sane(),
    {
        let moves = state.sensible_moves();
        if moves.len() == 0 {
            return None;
        }
        let idx = (draw % (moves.len() as u64)) as usize;
        let chosen = &moves[idx];
        Some(Move { actions: chosen.actions.clone() })
    }
}

impl GameClientDelegate for OwnLogic {
    fn state_updated(&mut self, state: &State) {
    }

    fn game_ended(&mut self, result: &GameResult) {
    }

    fn welcome_received(&mut self, team: Team) {
    }

    /// Chooses a random move among the sensible ones; with no move available
    /// the empty move is handed back (the server will have ended the game).
    fn pick_move(&mut self, state: &State, my_team: Team) -> Move {
        if !state.validate() {
            return Move::new();
        }
        match Self::pick_move_with(state, random_u64()) {
            Some(m) => m,
            None => Move::new(),
        }
    }
}

} // verus!
