//! The tracker itself: the roster, the cursor, and the operations on them.

use vstd::prelude::*;
use vstd::string::StringExecFns;
use itertools::Itertools;
use crate::model::{
    first_named_at, has_name, lemma_position_is_first, lemma_with_player_wf,
    lemma_without_slot_wf, names_distinct, removal_case, roster_line, roster_of, RemovalCase,
    TurnState,
};
use crate::user::User;

verus! {

/// Why a roster change was refused.
#[derive(Clone, Copy, Debug, PartialEq, Eq)]
pub enum TurnError {
    /// A player with the same name is already on the roster.
    DuplicatePlayer,
    /// Nobody on the roster goes by the given name.
    UnknownPlayer,
}

/// Whose turn is next, over a roster that may change during the game.
#[derive(Debug, PartialEq, Eq)]
pub struct TurnTracker {
    players: Vec<User>,
    next_player_index: usize,
    single_player_mode_started: bool,
}

impl View for TurnTracker {
    type V = TurnState;

    closed spec fn view(&self) -> TurnState {
        TurnState {
            roster: roster_of(self.players@),
            cursor: self.next_player_index as nat,
            single_player: self.single_player_mode_started,
        }
    }
}

/// Finds the first player named `name` with `Itertools::find_position`, which
/// walks the players in order and stops at the first one that the predicate
/// accepts. The contract claims exactly that: `Some` of the first index whose
/// player goes by `name`, and `None` when no player does.
#[verifier::external_body]
fn first_named(players: &Vec<User>, name: &String) -> (found: Option<usize>)
    ensures
        match found {
            Some(i) => first_named_at(roster_of(players@), name@, i as int),
            None => !has_name(roster_of(players@), name@),
        },
{
    players.iter().find_position(|u| u.is_named(name)).map(|(i, _)| i)
}

/// Whether some player goes by `name`.
fn any_named(players: &Vec<User>, name: &String) -> (found: bool)
    ensures
        found == has_name(roster_of(players@), name@),
{
    let mut i: usize = 0;
    while i < players.len()
        invariant
            i <= players.len(),
            forall|j: int| 0 <= j < i ==> #[trigger] roster_of(players@)[j].name != name@,
        decreases players.len() - i,
    {
        if players[i].is_named(name) {
            assert(roster_of(players@)[i as int].name == name@);
            return true;
        }
        i += 1;
    }
    false
}

/// Decides which of the four cases the removal of slot `index` falls under.
pub fn classify_removal(index: usize, cursor: usize, len: usize) -> (case: RemovalCase)
    ensures
        case == removal_case(index as int, cursor as int, len as int),
{
    if index < cursor {
        RemovalCase::BeforeCursor
    } else if index == cursor {
        if len > 0 && cursor == len - 1 {
            RemovalCase::AtCursorLast
        } else {
            RemovalCase::AtCursorInner
        }
    } else {
        RemovalCase::AfterCursor
    }
}

impl Clone for TurnTracker {
    fn clone(&self) -> (copy: Self)
        ensures
            copy@ == self@,
    {
        proof {
            use_type_invariant(self);
        }
        let players = self.players.clone();
        assert(players@ =~= self.players@);
        TurnTracker {
            players,
            next_player_index: self.next_player_index,
            single_player_mode_started: self.single_player_mode_started,
        }
    }
}

impl TurnTracker {
    #[verifier::type_invariant]
    spec fn inv(&self) -> bool {
        self@.wf()
    }

    /// Builds a tracker over `players`, in that turn order, with the first of
    /// them to act next.
    ///
    /// Names are not checked here: handing in players whose names differ is
    /// the caller's part.
    pub fn new(players: Vec<User>) -> (tracker: Self)
        requires
            names_distinct(roster_of(players@)),
        ensures
            tracker@ == TurnState::initial(roster_of(players@)),
            tracker@.wf(),
    {
        TurnTracker { players, next_player_index: 0, single_player_mode_started: false }
    }

    /// Takes the roster out for editing. What stays behind is an empty
    /// tracker, which is well-formed whatever happens next.
    fn take_roster(&mut self) -> (players: Vec<User>)
        ensures
            roster_of(players@) == old(self)@.roster,
            final(self)@ == (TurnState {
                roster: Seq::empty(),
                cursor: 0,
                single_player: old(self)@.single_player,
            }),
    {
        proof {
            use_type_invariant(&*self);
        }
        let mut players: Vec<User> = Vec::new();
        self.next_player_index = 0;
        std::mem::swap(&mut self.players, &mut players);
        assert(self@.roster =~= Seq::empty());
        players
    }

    /// Puts an edited roster back, together with its cursor.
    fn put_roster(&mut self, players: Vec<User>, cursor: usize)
        requires
            old(self)@.roster.len() == 0,
            (TurnState {
                roster: roster_of(players@),
                cursor: cursor as nat,
                single_player: old(self)@.single_player,
            }).wf(),
        ensures
            final(self)@ == (TurnState {
                roster: roster_of(players@),
                cursor: cursor as nat,
                single_player: old(self)@.single_player,
            }),
    {
        proof {
            use_type_invariant(&*self);
        }
        let mut players = players;
        std::mem::swap(&mut self.players, &mut players);
        self.next_player_index = cursor;
    }

    /// Removes the player named `username`, keeping the turn order of the
    /// others and the cursor on the player who would have been next.
    ///
    /// An unknown name is refused, and the tracker stays as it was.
    pub fn remove_player(&mut self, username: &str) -> (r: Result<(), TurnError>)
        ensures
            final(self)@.wf(),
            match r {
                Ok(_) => {
                    &&& old(self)@.is_playing(username@)
                    &&& final(self)@ == old(self)@.without_player(username@)
                },
                Err(e) => {
                    &&& e == TurnError::UnknownPlayer
                    &&& !old(self)@.is_playing(username@)
                    &&& final(self)@ == old(self)@
                },
            },
    {
        proof {
            use_type_invariant(&*self);
        }
        let wanted = username.to_owned();
        match first_named(&self.players, &wanted) {
            None => Err(TurnError::UnknownPlayer),
            Some(i) => {
                let cursor = match classify_removal(
                    i,
                    self.next_player_index,
                    self.players.len(),
                ) {
                    RemovalCase::BeforeCursor => self.next_player_index - 1,
                    RemovalCase::AtCursorLast => 0,
                    RemovalCase::AtCursorInner => self.next_player_index,
                    RemovalCase::AfterCursor => self.next_player_index,
                };
                let mut players = self.take_roster();
                players.remove(i);
                proof {
                    lemma_position_is_first(old(self)@.roster, username@, i as int);
                    lemma_without_slot_wf(old(self)@, i as int);
                    assert(roster_of(players@) =~= old(self)@.roster.remove(i as int));
                }
                self.put_roster(players, cursor);
                Ok(())
            },
        }
    }

    /// Adds `user` at the end of the roster, so that newcomers act last in the
    /// round under way.
    ///
    /// A name that is already on the roster is refused, and the tracker stays
    /// as it was.
    pub fn add_player(&mut self, user: User) -> (r: Result<(), TurnError>)
        ensures
            final(self)@.wf(),
            match r {
                Ok(_) => {
                    &&& !old(self)@.is_playing(user@.name)
                    &&& final(self)@ == old(self)@.with_player(user@)
                },
                Err(e) => {
                    &&& e == TurnError::DuplicatePlayer
                    &&& old(self)@.is_playing(user@.name)
                    &&& final(self)@ == old(self)@
                },
            },
    {
        proof {
            use_type_invariant(&*self);
        }
        if any_named(&self.players, &user.name) {
            return Err(TurnError::DuplicatePlayer);
        }
        // The sole player's turn is under way: the newcomer is next.
        let cursor = if self.players.len() == 1 && self.single_player_mode_started {
            1
        } else {
            self.next_player_index
        };
        let mut players = self.take_roster();
        players.push(user);
        proof {
            lemma_with_player_wf(old(self)@, user@);
            assert(roster_of(players@) =~= old(self)@.roster.push(user@));
        }
        self.put_roster(players, cursor);
        Ok(())
    }

    /// Hands out the player whose turn it is and moves the cursor to the one
    /// after, cyclically. With no players there is no turn, and nothing changes.
    pub fn advance_player(&mut self) -> (next: Option<User>)
        ensures
            final(self)@.wf(),
            final(self)@ == old(self)@.advanced(),
            match next {
                Some(user) => old(self)@.current() == Some(user@),
                None => old(self)@.current() is None,
            },
    {
        proof {
            use_type_invariant(&*self);
        }
        if self.players.is_empty() {
            return None;
        }
        // Read by `add_player` when a second player joins.
        self.single_player_mode_started = self.players.len() == 1;
        let current_index = self.next_player_index;
        self.next_player_index = (self.next_player_index + 1) % self.players.len();
        Some(self.players[current_index].clone())
    }

    /// The number of players on the roster.
    pub fn num_players(&self) -> (n: usize)
        ensures
            n == self@.roster.len(),
    {
        self.players.len()
    }

    /// Whether a player named `username` is on the roster.
    pub fn is_playing(&self, username: &str) -> (playing: bool)
        ensures
            playing == self@.is_playing(username@),
    {
        let wanted = username.to_owned();
        any_named(&self.players, &wanted)
    }

    /// The roster on one line, for diagnostics: each name after a comma and a
    /// space, with a star in front of the player whose turn is next.
    pub fn player_string(&self) -> (line: String)
        ensures
            line@ == self@.player_string(),
    {
        let mut line = String::new();
        let mut i: usize = 0;
        proof {
            reveal_strlit(", *");
            reveal_strlit(", ");
            assert(", *"@ =~= seq![',', ' ', '*']);
            assert(", "@ =~= seq![',', ' ']);
        }
        while i < self.players.len()
            invariant
                i <= self.players.len(),
                ", *"@ == seq![',', ' ', '*'],
                ", "@ == seq![',', ' '],
                line@ == roster_line(self@.roster, self@.cursor, i as nat),
            decreases self.players.len() - i,
        {
            if i == self.next_player_index {
                line.append(", *");
            } else {
                line.append(", ");
            }
            line.append(self.players[i].name.as_str());
            assert(line@ =~= roster_line(self@.roster, self@.cursor, (i + 1) as nat));
            i += 1;
        }
        line
    }

    /// Whether the roster starts with a player named `name`; never so for an
    /// empty roster.
    pub fn is_first_player(&self, name: &str) -> (first: bool)
        ensures
            first == self@.is_first_player(name@),
    {
        if self.players.len() > 0 {
            let wanted = name.to_owned();
            self.players[0].is_named(&wanted)
        } else {
            false
        }
    }
}

} // verus!
