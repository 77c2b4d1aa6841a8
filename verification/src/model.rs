//! The mathematical model of a tracker: an ordered roster, a cursor and the
//! single-player flag, with every operation written as a function on states.

use vstd::prelude::*;
use crate::user::{User, UserView};

verus! {

/// The roster that a vector of players stands for.
pub open spec fn roster_of(players: Seq<User>) -> Seq<UserView> {
    players.map_values(|u: User| u@)
}

/// Whether some player of `roster` goes by `name`.
pub open spec fn has_name(roster: Seq<UserView>, name: Seq<char>) -> bool {
    exists|i: int| 0 <= i < roster.len() && #[trigger] roster[i].name == name
}

/// No two players of `roster` share a name.
pub open spec fn names_distinct(roster: Seq<UserView>) -> bool {
    forall|i: int, j: int|
        0 <= i < j < roster.len() ==> #[trigger] roster[i].name != #[trigger] roster[j].name
}

/// `i` is the first index of `roster` whose player goes by `name`.
pub open spec fn first_named_at(roster: Seq<UserView>, name: Seq<char>, i: int) -> bool {
    &&& 0 <= i < roster.len()
    &&& roster[i].name == name
    &&& forall|j: int| 0 <= j < i ==> #[trigger] roster[j].name != name
}

/// The first index of `roster` whose player goes by `name`.
/// Meaningful only when `has_name(roster, name)`.
pub open spec fn position(roster: Seq<UserView>, name: Seq<char>) -> int {
    choose|i: int| first_named_at(roster, name, i)
}

/// How the slot of a leaving player lies relative to the cursor.
#[derive(Clone, Copy, Debug, PartialEq, Eq)]
pub enum RemovalCase {
    /// The slot comes before the cursor.
    BeforeCursor,
    /// The slot is the cursor's, and it is the last of the roster.
    AtCursorLast,
    /// The slot is the cursor's, and other slots follow it.
    AtCursorInner,
    /// The slot comes after the cursor.
    AfterCursor,
}

/// The case that removing slot `index` falls under, in a roster of `len`
/// players whose cursor is `cursor`.
pub open spec fn removal_case(index: int, cursor: int, len: int) -> RemovalCase {
    if index < cursor {
        RemovalCase::BeforeCursor
    } else if index == cursor && cursor == len - 1 {
        RemovalCase::AtCursorLast
    } else if index == cursor {
        RemovalCase::AtCursorInner
    } else {
        RemovalCase::AfterCursor
    }
}

/// The cursor that a removal of the given case leaves behind.
pub open spec fn cursor_after(case: RemovalCase, cursor: int) -> int {
    match case {
        RemovalCase::BeforeCursor => cursor - 1,
        RemovalCase::AtCursorLast => 0,
        RemovalCase::AtCursorInner => cursor,
        RemovalCase::AfterCursor => cursor,
    }
}

/// The text of one slot in the roster line: a comma and a space, a star when
/// the slot is the cursor's, and the player's name.
pub open spec fn slot_text(player: UserView, marked: bool) -> Seq<char> {
    if marked {
        seq![',', ' ', '*'] + player.name
    } else {
        seq![',', ' '] + player.name
    }
}

/// The roster line of the first `n` slots.
pub open spec fn roster_line(roster: Seq<UserView>, cursor: nat, n: nat) -> Seq<char>
    decreases n,
{
    if n == 0 {
        Seq::empty()
    } else {
        roster_line(roster, cursor, (n - 1) as nat) + slot_text(roster[n - 1], cursor == n - 1)
    }
}

/// Everything that decides a tracker's future behaviour.
pub ghost struct TurnState {
    /// The players, in turn order.
    pub roster: Seq<UserView>,
    /// The index of the player whose turn is next.
    pub cursor: nat,
    /// Whether the latest effective advance happened with exactly one player.
    pub single_player: bool,
}

impl TurnState {
    /// The state of a tracker that was just built from `roster`.
    pub open spec fn initial(roster: Seq<UserView>) -> TurnState {
        TurnState { roster, cursor: 0, single_player: false }
    }

    /// Names are unique, and the cursor names a slot of the roster (it is 0
    /// while the roster is empty).
    pub open spec fn wf(self) -> bool {
        &&& names_distinct(self.roster)
        &&& if self.roster.len() == 0 {
            self.cursor == 0
        } else {
            self.cursor < self.roster.len()
        }
    }

    /// Whether a player named `name` is on the roster.
    pub open spec fn is_playing(self, name: Seq<char>) -> bool {
        has_name(self.roster, name)
    }

    /// Whether the roster starts with a player named `name`.
    pub open spec fn is_first_player(self, name: Seq<char>) -> bool {
        self.roster.len() > 0 && self.roster[0].name == name
    }

    /// The player whose turn is next, if there is any player.
    pub open spec fn current(self) -> Option<UserView> {
        if self.roster.len() == 0 {
            None
        } else {
            Some(self.roster[self.cursor as int])
        }
    }

    /// The state after `player` joined at the end of the roster.
    ///
    /// When the newcomer is the second player and the tracker has been
    /// advancing with a single player, the cursor moves to the newcomer: the
    /// sole player's turn is already under way.
    pub open spec fn with_player(self, player: UserView) -> TurnState {
        TurnState {
            roster: self.roster.push(player),
            cursor: if self.roster.len() == 1 && self.single_player {
                1
            } else {
                self.cursor
            },
            single_player: self.single_player,
        }
    }

    /// The state after the player in slot `index` left.
    pub open spec fn without_slot(self, index: int) -> TurnState {
        TurnState {
            roster: self.roster.remove(index),
            cursor: cursor_after(
                removal_case(index, self.cursor as int, self.roster.len() as int),
                self.cursor as int,
            ) as nat,
            single_player: self.single_player,
        }
    }

    /// The state after the player named `name` left.
    pub open spec fn without_player(self, name: Seq<char>) -> TurnState {
        self.without_slot(position(self.roster, name))
    }

    /// The state after one advance: unchanged while the roster is empty;
    /// otherwise the cursor steps forward cyclically and the flag records
    /// whether there is exactly one player.
    pub open spec fn advanced(self) -> TurnState {
        if self.roster.len() == 0 {
            self
        } else {
            TurnState {
                roster: self.roster,
                cursor: (self.cursor + 1) as nat % self.roster.len(),
                single_player: self.roster.len() == 1,
            }
        }
    }

    /// The state after `n` advances in a row.
    pub open spec fn advanced_by(self, n: nat) -> TurnState
        decreases n,
    {
        if n == 0 {
            self
        } else {
            self.advanced_by((n - 1) as nat).advanced()
        }
    }

    /// The roster on one line, with a star in front of the player whose turn
    /// is next.
    pub open spec fn player_string(self) -> Seq<char> {
        roster_line(self.roster, self.cursor, self.roster.len())
    }

    /// The player that the advance numbered `n` (from 0) returns.
    pub open spec fn turn(self, n: nat) -> Option<UserView> {
        self.advanced_by(n).current()
    }
}

/// Whoever is first named `name` in a roster sits at `position`.
pub proof fn lemma_position_is_first(roster: Seq<UserView>, name: Seq<char>, i: int)
    requires
        first_named_at(roster, name, i),
    ensures
        position(roster, name) == i,
{
    let p = position(roster, name);
    assert(first_named_at(roster, name, p));
    if p < i {
        assert(roster[p].name != name);
    } else if i < p {
        assert(roster[i].name != name);
    }
}

/// A name that occurs in a roster has a first occurrence.
pub proof fn lemma_position_of_present(roster: Seq<UserView>, name: Seq<char>)
    requires
        has_name(roster, name),
    ensures
        first_named_at(roster, name, position(roster, name)),
{
    let k = choose|k: int| 0 <= k < roster.len() && #[trigger] roster[k].name == name;
    lemma_first_before(roster, name, k);
}

/// If slot `k` holds the name, some slot up to `k` holds it first.
proof fn lemma_first_before(roster: Seq<UserView>, name: Seq<char>, k: int)
    requires
        0 <= k < roster.len(),
        roster[k].name == name,
    ensures
        exists|i: int| first_named_at(roster, name, i),
    decreases k,
{
    if exists|j: int| 0 <= j < k && #[trigger] roster[j].name == name {
        let j = choose|j: int| 0 <= j < k && #[trigger] roster[j].name == name;
        lemma_first_before(roster, name, j);
    } else {
        assert(first_named_at(roster, name, k));
    }
}

/// A well-formed state stays well-formed when a player with a new name joins.
pub proof fn lemma_with_player_wf(s: TurnState, player: UserView)
    requires
        s.wf(),
        !s.is_playing(player.name),
    ensures
        s.with_player(player).wf(),
{
    let after = s.with_player(player).roster;
    assert forall|i: int, j: int| 0 <= i < j < after.len() implies #[trigger] after[i].name
        != #[trigger] after[j].name by {
        if j == s.roster.len() {
            assert(after[i] == s.roster[i]);
            assert(s.roster[i].name != player.name);
        } else {
            assert(after[i] == s.roster[i]);
            assert(after[j] == s.roster[j]);
        }
    }
}

/// A well-formed state stays well-formed when the player of any slot leaves.
pub proof fn lemma_without_slot_wf(s: TurnState, index: int)
    requires
        s.wf(),
        0 <= index < s.roster.len(),
    ensures
        s.without_slot(index).wf(),
{
    let after = s.without_slot(index).roster;
    assert forall|i: int, j: int| 0 <= i < j < after.len() implies #[trigger] after[i].name
        != #[trigger] after[j].name by {
        let oi = if i < index { i } else { i + 1 };
        let oj = if j < index { j } else { j + 1 };
        assert(after[i] == s.roster[oi]);
        assert(after[j] == s.roster[oj]);
    }
}

} // verus!
