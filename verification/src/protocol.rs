//! The messages exchanged with the game server, as values of the attribute
//! tree: join requests, room events, and the final game result.

use vstd::prelude::*;
use crate::error::Error;
use crate::moves::Move;
use crate::state::State;
use crate::team::Team;
use crate::wire::{parse_team, spec_parse_team, team_name};
use crate::xml::{spec_attr, spec_child_by_name, Element};

verus! {

/// How the parts of a score are aggregated across games.
#[derive(Debug, Copy, Clone, PartialEq, Eq, Hash, Structural)]
pub enum ScoreAggregation {
    Sum,
    Average,
}

/// Parses an aggregation token.
pub fn parse_aggregation(s: &str) -> (r: Result<ScoreAggregation, Error>)
    ensures
        match r {
            Ok(a) => (s@ == "SUM"@ && a == ScoreAggregation::Sum) || (s@ == "AVERAGE"@ && a
                == ScoreAggregation::Average),
            Err(_) => s@ != "SUM"@ && s@ != "AVERAGE"@,
        },
{
    let t = s.to_owned();
    if t == "SUM".to_owned() {
        Ok(ScoreAggregation::Sum)
    } else if t == "AVERAGE".to_owned() {
        Ok(ScoreAggregation::Average)
    } else {
        Err(Error::UnknownVariant(s.to_owned()))
    }
}

/// Determines the cause of a game score.
#[derive(Debug, Clone, Copy, PartialEq, Eq, Structural)]
pub enum ScoreCause {
    Regular,
    Left,
    RuleViolation,
    SoftTimeout,
    HardTimeout,
    Unknown,
}

/// Parses a score-cause token.
pub fn parse_score_cause(s: &str) -> (r: Result<ScoreCause, Error>) {
    let t = s.to_owned();
    if t == "REGULAR".to_owned() {
        Ok(ScoreCause::Regular)
    } else if t == "LEFT".to_owned() {
        Ok(ScoreCause::Left)
    } else if t == "RULE_VIOLATION".to_owned() {
        Ok(ScoreCause::RuleViolation)
    } else if t == "SOFT_TIMEOUT".to_owned() {
        Ok(ScoreCause::SoftTimeout)
    } else if t == "HARD_TIMEOUT".to_owned() {
        Ok(ScoreCause::HardTimeout)
    } else if t == "UNKNOWN".to_owned() {
        Ok(ScoreCause::Unknown)
    } else {
        Err(Error::UnknownVariant(s.to_owned()))
    }
}

/// One player of a game: an optional display name and a team.
#[derive(Debug, Clone, PartialEq, Eq)]
pub struct Player {
    pub name: Option<String>,
    pub team: Team,
}

impl Player {
    /// Creates a new player.
    pub fn new(name: Option<&str>, team: Team) -> (r: Player)
        ensures
            r.team == team,
            match name {
                Some(n) => r.name matches Some(o) && o@ == n@,
                None => r.name is None,
            },
    {
        let owned = match name {
            Some(n) => Some(n.to_owned()),
            None => None,
        };
        Player { name: owned, team }
    }

    /// The player's display name, if any.
    pub fn name(&self) -> (r: &Option<String>)
        ensures
            r == &self.name,
    {
        &self.name
    }

    /// The player's team.
    pub fn team(&self) -> (r: Team)
        ensures
            r == self.team,
    {
        self.team
    }

    /// Parses a player from its wire form: an optional name attribute and a
    /// team attribute.
    pub fn from_element(e: &Element) -> (r: Result<Player, Error>)
        ensures
            match r {
                Ok(p) => ({
                    &&& spec_attr(*e, "team"@) matches Some(v) && spec_parse_team(v) == Some(
                        p.team,
                    )
                    &&& match p.name {
                        Some(n) => spec_attr(*e, "name"@) == Some(n@),
                        None => spec_attr(*e, "name"@) is None,
                    }
                }),
                Err(_) => true,
            },
    {
        let name = match e.attribute("name") {
            Ok(v) => Some(v.clone()),
            Err(_) => None,
        };
        let team = match e.attribute("team") {
            Ok(v) => match parse_team(v.as_str()) {
                Ok(t) => t,
                Err(err) => {
                    return Err(err);
                },
            },
            Err(err) => {
                return Err(err);
            },
        };
        Ok(Player { name, team })
    }
}

/// One score entry: its cause, a textual reason and the numeric parts.
#[derive(Debug, Clone, PartialEq, Eq)]
pub struct Score {
    pub cause: ScoreCause,
    pub reason: String,
    pub parts: Vec<i32>,
}

impl Score {
    /// Creates a new score.
    pub fn new(cause: ScoreCause, reason: &str, parts: Vec<i32>) -> (r: Score)
        ensures
            r.cause == cause,
            r.reason@ == reason@,
            r.parts == parts,
    {
        Score { cause, reason: reason.to_owned(), parts }
    }

    /// The cause of the score.
    pub fn cause(&self) -> (r: ScoreCause)
        ensures
            r == self.cause,
    {
        self.cause
    }

    /// The textual reason.
    pub fn reason(&self) -> (r: &String)
        ensures
            r == &self.reason,
    {
        &self.reason
    }

    /// The numeric parts.
    pub fn parts(&self) -> (r: &Vec<i32>)
        ensures
            r == &self.parts,
    {
        &self.parts
    }

    /// Parses a score from its wire form: a cause and reason attribute and
    /// one `part` child per numeric part.
    pub fn from_element(e: &Element) -> (r: Result<Score, Error>) {
        let cause = match e.attribute("cause") {
            Ok(v) => match parse_score_cause(v.as_str()) {
                Ok(c) => c,
                Err(err) => {
                    return Err(err);
                },
            },
            Err(err) => {
                return Err(err);
            },
        };
        let reason = match e.attribute("reason") {
            Ok(v) => v.clone(),
            Err(err) => {
                return Err(err);
            },
        };
        let part_elems = e.childs_by_name("part");
        let mut parts: Vec<i32> = Vec::new();
        let mut i: usize = 0;
        while i < part_elems.len()
            decreases part_elems@.len() - i,
        {
            match crate::numbers::parse_i32(part_elems[i].content().as_str()) {
                Some(n) => {
                    parts.push(n);
                },
                None => {
                    return Err(Error::ParseInt(part_elems[i].content().clone()));
                },
            }
            i = i + 1;
        }
        Ok(Score { cause, reason, parts })
    }
}

/// One fragment of the score definition: a name, an aggregation and whether
/// it is relevant for the ranking.
#[derive(Debug, Clone, PartialEq, Eq)]
pub struct ScoreDefinitionFragment {
    pub name: String,
    pub aggregation: ScoreAggregation,
    pub relevant_for_ranking: bool,
}

impl ScoreDefinitionFragment {
    /// Creates a new score definition fragment.
    pub fn new(name: &str, aggregation: ScoreAggregation, relevant_for_ranking: bool) -> (r:
        ScoreDefinitionFragment)
        ensures
            r.name@ == name@,
            r.aggregation == aggregation,
            r.relevant_for_ranking == relevant_for_ranking,
    {
        ScoreDefinitionFragment { name: name.to_owned(), aggregation, relevant_for_ranking }
    }

    /// The fragment's name.
    pub fn name(&self) -> (r: &String)
        ensures
            r == &self.name,
    {
        &self.name
    }

    /// The fragment's aggregation.
    pub fn aggregation(&self) -> (r: ScoreAggregation)
        ensures
            r == self.aggregation,
    {
        self.aggregation
    }

    /// Whether the fragment is relevant for the ranking.
    pub fn relevant_for_ranking(&self) -> (r: bool)
        ensures
            r == self.relevant_for_ranking,
    {
        self.relevant_for_ranking
    }

    /// Parses a fragment from its wire form.
    pub fn from_element(e: &Element) -> (r: Result<ScoreDefinitionFragment, Error>) {
        let name = match e.attribute("name") {
            Ok(v) => v.clone(),
            Err(err) => {
                return Err(err);
            },
        };
        let aggregation = match e.child_by_name("aggregation") {
            Ok(c) => match parse_aggregation(c.content().as_str()) {
                Ok(a) => a,
                Err(err) => {
                    return Err(err);
                },
            },
            Err(err) => {
                return Err(err);
            },
        };
        let relevant_for_ranking = match e.child_by_name("relevantForRanking") {
            Ok(c) => {
                let v = c.content().clone();
                v == "true".to_owned()
            },
            Err(_) => false,
        };
        Ok(ScoreDefinitionFragment { name, aggregation, relevant_for_ranking })
    }
}

/// The score definition: the fragments in order.
#[derive(Debug, Clone, PartialEq, Eq)]
pub struct ScoreDefinition {
    pub fragments: Vec<ScoreDefinitionFragment>,
}

impl ScoreDefinition {
    /// Creates a new score definition.
    pub fn new(fragments: Vec<ScoreDefinitionFragment>) -> (r: ScoreDefinition)
        ensures
            r.fragments == fragments,
    {
        ScoreDefinition { fragments }
    }

    /// The fragments of the definition.
    pub fn fragments(&self) -> (r: &Vec<ScoreDefinitionFragment>)
        ensures
            r == &self.fragments,
    {
        &self.fragments
    }

    /// Parses a definition from its wire form.
    pub fn from_element(e: &Element) -> (r: Result<ScoreDefinition, Error>) {
        let fragment_elems = e.childs_by_name("fragment");
        let mut fragments: Vec<ScoreDefinitionFragment> = Vec::new();
        let mut i: usize = 0;
        while i < fragment_elems.len()
            decreases fragment_elems@.len() - i,
        {
            match ScoreDefinitionFragment::from_element(fragment_elems[i]) {
                Ok(f) => {
                    fragments.push(f);
                },
                Err(err) => {
                    return Err(err);
                },
            }
            i = i + 1;
        }
        Ok(ScoreDefinition { fragments })
    }
}

/// The final result of a game: the score definition, the scores by player,
/// and the winner if any.
#[derive(Debug, Clone, PartialEq, Eq)]
pub struct GameResult {
    pub definition: ScoreDefinition,
    pub scores: Vec<(Player, Score)>,
    pub winner: Option<Player>,
}

impl GameResult {
    /// Creates a new game result.
    pub fn new(definition: ScoreDefinition, scores: Vec<(Player, Score)>, winner: Option<Player>)
        -> (r: GameResult)
        ensures
            r.definition == definition,
            r.scores == scores,
            r.winner == winner,
    {
        GameResult { definition, scores, winner }
    }

    /// The score definition.
    pub fn definition(&self) -> (r: &ScoreDefinition)
        ensures
            r == &self.definition,
    {
        &self.definition
    }

    /// The scores, one entry per player.
    pub fn scores(&self) -> (r: &Vec<(Player, Score)>)
        ensures
            r == &self.scores,
    {
        &self.scores
    }

    /// The winner, if any.
    pub fn winner(&self) -> (r: &Option<Player>)
        ensures
            r == &self.winner,
    {
        &self.winner
    }

    /// Parses a game result from its wire form.
    pub fn from_element(e: &Element) -> (r: Result<GameResult, Error>) {
        let definition = match e.child_by_name("definition") {
            Ok(c) => match ScoreDefinition::from_element(c) {
                Ok(d) => d,
                Err(err) => {
                    return Err(err);
                },
            },
            Err(err) => {
                return Err(err);
            },
        };
        let scores_elem = match e.child_by_name("scores") {
            Ok(c) => c,
            Err(err) => {
                return Err(err);
            },
        };
        let entries = scores_elem.childs_by_name("entry");
        let mut scores: Vec<(Player, Score)> = Vec::new();
        let mut i: usize = 0;
        while i < entries.len()
            decreases entries@.len() - i,
        {
            let entry = entries[i];
            let player = match entry.child_by_name("player") {
                Ok(p) => match Player::from_element(p) {
                    Ok(p) => p,
                    Err(err) => {
                        return Err(err);
                    },
                },
                Err(err) => {
                    return Err(err);
                },
            };
            let score = match entry.child_by_name("score") {
                Ok(s) => match Score::from_element(s) {
                    Ok(s) => s,
                    Err(err) => {
                        return Err(err);
                    },
                },
                Err(err) => {
                    return Err(err);
                },
            };
            scores.push((player, score));
            i = i + 1;
        }
        let winner = match e.child_by_name("winner") {
            Ok(w) => match Player::from_element(w) {
                Ok(p) => Some(p),
                Err(_) => None,
            },
            Err(_) => None,
        };
        Ok(GameResult { definition, scores, winner })
    }
}

/// A message from the server.
#[derive(Debug)]
pub enum Event {
    /// Notifies the client that they successfully joined a room.
    Joined { room_id: String },
    /// Notifies the client that they left a room.
    Left { room_id: String },
    /// A message in a room.
    Room { room_id: String, payload: EventPayload },
}

/// The data of a room message from the server.
#[derive(Debug)]
pub enum EventPayload {
    /// A welcome message by the server.
    Welcome(Team),
    /// A game state.
    Memento(State),
    /// A request by the server to perform a move.
    MoveRequest,
    /// A game result.
    GameResult(GameResult),
}

impl EventPayload {
    /// Parses a room payload from its wire form, keyed by its class
    /// attribute.
    pub fn from_element(e: &Element) -> (r: Result<EventPayload, Error>) {
        let class = match e.attribute("class") {
            Ok(v) => v.clone(),
            Err(err) => {
                return Err(err);
            },
        };
        if class == "welcomeMessage".to_owned() {
            match e.attribute("color") {
                Ok(v) => match parse_team(v.as_str()) {
                    Ok(t) => Ok(EventPayload::Welcome(t)),
                    Err(err) => Err(err),
                },
                Err(err) => Err(err),
            }
        } else if class == "memento".to_owned() {
            match e.child_by_name("state") {
                Ok(c) => match State::from_element(c) {
                    Ok(s) => Ok(EventPayload::Memento(s)),
                    Err(err) => Err(err),
                },
                Err(err) => Err(err),
            }
        } else if class == "moveRequest".to_owned() {
            Ok(EventPayload::MoveRequest)
        } else if class == "result".to_owned() {
            match GameResult::from_element(e) {
                Ok(g) => Ok(EventPayload::GameResult(g)),
                Err(err) => Err(err),
            }
        } else if class == "error".to_owned() {
            match e.attribute("message") {
                Ok(m) => Err(Error::ServerError(m.clone())),
                Err(err) => Err(err),
            }
        } else {
            Err(Error::UnknownElement(e.name().clone()))
        }
    }
}

impl Event {
    /// Parses a server event from its wire form, keyed by its tag name.
    pub fn from_element(e: &Element) -> (r: Result<Event, Error>) {
        let name = e.name().clone();
        if name == "joined".to_owned() {
            match e.attribute("roomId") {
                Ok(v) => Ok(Event::Joined { room_id: v.clone() }),
                Err(err) => Err(err),
            }
        } else if name == "left".to_owned() {
            match e.attribute("roomId") {
                Ok(v) => Ok(Event::Left { room_id: v.clone() }),
                Err(err) => Err(err),
            }
        } else if name == "room".to_owned() {
            let room_id = match e.attribute("roomId") {
                Ok(v) => v.clone(),
                Err(err) => {
                    return Err(err);
                },
            };
            match e.child_by_name("data") {
                Ok(d) => match EventPayload::from_element(d) {
                    Ok(p) => Ok(Event::Room { room_id, payload: p }),
                    Err(err) => Err(err),
                },
                Err(err) => Err(err),
            }
        } else {
            Err(Error::UnknownElement(name))
        }
    }
}

/// A message from the client.
#[derive(Debug)]
pub enum Request {
    /// Joins an arbitrary open game.
    Join,
    /// Joins the room with the given id.
    JoinRoom { room_id: String },
    /// Joins a reserved place in a planned match with a reservation code.
    JoinPrepared { reservation_code: String },
    /// A message in a room.
    Room { room_id: String, payload: RequestPayload },
}

/// The data of a room message to the server.
#[derive(Debug)]
pub enum RequestPayload {
    /// A move to be performed.
    Move(Move),
}

impl Request {
    /// The wire form of the request.
    pub fn to_element(self) -> (r: Element) {
        match self {
            Request::Join => Element::new("join").attribute(
                "gameType",
                "swc_2024_mississippi_queen",
            ).build(),
            Request::JoinRoom { room_id } => Element::new("joinRoom").attribute(
                "roomId",
                room_id.as_str(),
            ).build(),
            Request::JoinPrepared { reservation_code } => Element::new("joinPrepared").attribute(
                "reservationCode",
                reservation_code.as_str(),
            ).build(),
            Request::Room { room_id, payload } => {
                let payload_elem = match payload {
                    RequestPayload::Move(m) => m.to_element(),
                };
                Element::new("room").attribute("roomId", room_id.as_str()).child(
                    payload_elem,
                ).build()
            },
        }
    }
}

} // verus!
