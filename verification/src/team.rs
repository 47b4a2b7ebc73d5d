//! The two playing parties.

use vstd::prelude::*;

verus! {

/// A playing party in the game.
#[derive(Debug, Clone, Copy, PartialEq, Eq, Hash, Structural)]
pub enum Team {
    One,
    Two,
}

impl Team {
    /// The opponent of the team.
    pub open spec fn spec_opponent(self) -> Team {
        match self {
            Team::One => Team::Two,
            Team::Two => Team::One,
        }
    }

    /// The stable index of the team.
    pub open spec fn spec_index(self) -> int {
        match self {
            Team::One => 0,
            Team::Two => 1,
        }
    }

    /// The teams, in index order.
    pub fn all() -> (r: Vec<Team>)
        ensures
            r@.len() == 2,
            r@[0] == Team::One,
            r@[1] == Team::Two,
    {
        let mut v: Vec<Team> = Vec::new();
        v.push(Team::One);
        v.push(Team::Two);
        v
    }

    /// The team with the given letter, `'R'` for the first and `'B'` for the
    /// second; any other letter has no team.
    pub fn with_letter(letter: char) -> (r: Option<Team>)
        ensures
            r == if letter == 'R' {
                Some(Team::One)
            } else if letter == 'B' {
                Some(Team::Two)
            } else {
                None::<Team>
            },
    {
        if letter == 'R' {
            Some(Team::One)
        } else if letter == 'B' {
            Some(Team::Two)
        } else {
            None
        }
    }

    /// The team's index.
    pub fn index(self) -> (r: usize)
        ensures
            r == self.spec_index(),
    {
        match self {
            Team::One => 0,
            Team::Two => 1,
        }
    }

    /// The opponent of the given team.
    pub fn opponent(self) -> (r: Team)
        ensures
            r == self.spec_opponent(),
    {
        match self {
            Team::One => Team::Two,
            Team::Two => Team::One,
        }
    }

    /// The opponent of the given team if the given condition is satisfied.
    pub fn opponent_if(self, condition: bool) -> (r: Team)
        ensures
            r == if condition { self.spec_opponent() } else { self },
    {
        if condition { self.opponent() } else { self }
    }

    /// Fetches the letter associated with the team.
    pub fn letter(self) -> (r: char)
        ensures
            r == if self is One { 'R' } else { 'B' },
    {
        match self {
            Team::One => 'R',
            Team::Two => 'B',
        }
    }
}

} // verus!
