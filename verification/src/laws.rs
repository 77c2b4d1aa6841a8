//! Laws of the turn order: what holds of every well-formed state, whatever
//! sequence of operations led to it.

use vstd::prelude::*;
use vstd::arithmetic::div_mod::{
    lemma_add_mod_noop_right, lemma_mod_add_multiples_vanish, lemma_mod_equivalence,
    lemma_mod_pos_bound, lemma_small_mod,
};
use crate::model::{
    lemma_position_is_first, lemma_position_of_present, lemma_with_player_wf,
    lemma_without_slot_wf, position, TurnState,
};
use crate::user::UserView;

verus! {

/// The slot that is `n` steps after the cursor, going round the roster.
pub open spec fn slot_after(s: TurnState, n: nat) -> int {
    ((s.cursor + n) % s.roster.len()) as int
}

/// Advancing keeps a state well-formed and its roster as it is.
pub proof fn lemma_advanced_wf(s: TurnState)
    requires
        s.wf(),
    ensures
        s.advanced().wf(),
        s.advanced().roster == s.roster,
{
    if s.roster.len() > 0 {
        lemma_mod_pos_bound((s.cursor + 1) as int, s.roster.len() as int);
    }
}

/// After `n` advances over a roster that nobody joined or left, the roster
/// is the same, the cursor is `n` steps further round it, and the advance
/// numbered `n` returns the player that the cursor then names.
pub proof fn lemma_advanced_by(s: TurnState, n: nat)
    requires
        s.wf(),
        s.roster.len() > 0,
    ensures
        s.advanced_by(n).wf(),
        s.advanced_by(n).roster == s.roster,
        s.advanced_by(n).cursor == slot_after(s, n),
        0 <= slot_after(s, n) < s.roster.len(),
        s.turn(n) == Some(s.roster[slot_after(s, n)]),
        n > 0 ==> s.advanced_by(n).single_player == (s.roster.len() == 1),
    decreases n,
{
    let len = s.roster.len() as int;
    if n == 0 {
        lemma_small_mod(s.cursor, s.roster.len());
    } else {
        lemma_advanced_by(s, (n - 1) as nat);
        lemma_add_mod_noop_right(1, s.cursor + n - 1, len);
        lemma_mod_pos_bound((s.cursor + n) as int, len);
    }
}

/// Round-robin stability. Over a roster of `N` players that nobody joins or
/// leaves, `N` advances in a row return every player exactly once, and the
/// sequence of returned players repeats with period `N` for ever.
pub proof fn law_round_robin(s: TurnState)
    requires
        s.wf(),
        s.roster.len() > 0,
    ensures
        forall|i: nat, j: nat|
            i < j < s.roster.len() ==> #[trigger] s.turn(i) != #[trigger] s.turn(j),
        forall|m: int|
            0 <= m < s.roster.len() ==> exists|k: nat|
                k < s.roster.len() && #[trigger] s.turn(k) == Some(#[trigger] s.roster[m]),
        forall|k: nat| s.turn((k + s.roster.len()) as nat) == #[trigger] s.turn(k),
{
    let len = s.roster.len() as int;
    assert forall|i: nat, j: nat| i < j < s.roster.len() implies #[trigger] s.turn(i)
        != #[trigger] s.turn(j) by {
        lemma_advanced_by(s, i);
        lemma_advanced_by(s, j);
        if slot_after(s, i) == slot_after(s, j) {
            lemma_mod_equivalence((s.cursor + j) as int, (s.cursor + i) as int, len);
            lemma_small_mod((j - i) as nat, s.roster.len());
        }
        let a = slot_after(s, i);
        let b = slot_after(s, j);
        if a < b {
            assert(s.roster[a].name != s.roster[b].name);
        } else {
            assert(s.roster[b].name != s.roster[a].name);
        }
    }
    assert forall|m: int| 0 <= m < s.roster.len() implies exists|k: nat|
        k < s.roster.len() && #[trigger] s.turn(k) == Some(#[trigger] s.roster[m]) by {
        let k: nat = if m >= s.cursor {
            (m - s.cursor) as nat
        } else {
            (m - s.cursor + len) as nat
        };
        lemma_advanced_by(s, k);
        lemma_small_mod(m as nat, s.roster.len());
        if m < s.cursor {
            lemma_mod_add_multiples_vanish(m, len);
        }
        assert(slot_after(s, k) == m);
        assert(k < s.roster.len() && s.turn(k) == Some(s.roster[m]));
    }
    assert forall|k: nat| s.turn((k + s.roster.len()) as nat) == #[trigger] s.turn(k) by {
        lemma_advanced_by(s, k);
        lemma_advanced_by(s, (k + s.roster.len()) as nat);
        lemma_mod_add_multiples_vanish((s.cursor + k) as int, len);
    }
}

/// With nobody on the roster there is no turn: any number of advances
/// returns nobody and leaves the state as it is.
pub proof fn law_empty_roster_has_no_turn(s: TurnState, n: nat)
    requires
        s.roster.len() == 0,
    ensures
        s.advanced_by(n) == s,
        s.turn(n) is None,
    decreases n,
{
    if n > 0 {
        law_empty_roster_has_no_turn(s, (n - 1) as nat);
    }
}

/// A player who joins a tracker that has not advanced yet leaves it in the
/// state of a tracker that was built with the longer roster. So a tracker
/// that started empty and was filled player by player takes turns exactly
/// as one built from the whole roster at once.
pub proof fn law_join_before_first_advance(roster: Seq<UserView>, player: UserView)
    ensures
        TurnState::initial(roster).with_player(player) == TurnState::initial(
            roster.push(player),
        ),
        TurnState::initial(Seq::empty()).advanced() == TurnState::initial(Seq::empty()),
{
}

/// Joining never disturbs the round under way: unless the newcomer is the
/// second player of a tracker that has advanced in single-player mode, the
/// players from the cursor to the end of the old roster keep their turns,
/// and the newcomer acts right after the last of them.
pub proof fn law_newcomer_acts_last(s: TurnState, player: UserView, k: nat)
    requires
        s.wf(),
        s.roster.len() > 0,
        !s.is_playing(player.name),
        !(s.roster.len() == 1 && s.single_player),
        s.cursor + k <= s.roster.len(),
    ensures
        s.with_player(player).wf(),
        s.cursor + k < s.roster.len() ==> s.with_player(player).turn(k) == s.turn(k),
        s.cursor + k == s.roster.len() ==> s.with_player(player).turn(k) == Some(player),
{
    let t = s.with_player(player);
    lemma_with_player_wf(s, player);
    lemma_advanced_by(t, k);
    lemma_small_mod(t.cursor + k, t.roster.len());
    if s.cursor + k < s.roster.len() {
        lemma_advanced_by(s, k);
        lemma_small_mod(s.cursor + k, s.roster.len());
    }
}

/// Single-player join correction. A lone player is returned by every
/// advance. Once the tracker has advanced at least once, a second player who
/// joins is the next to act, and from then on the two alternate.
pub proof fn law_single_player_join(first: UserView, second: UserView, k: nat, n: nat)
    requires
        first.name != second.name,
        k >= 1,
    ensures
        TurnState::initial(seq![first]).turn(n) == Some(first),
        TurnState::initial(seq![first]).advanced_by(k).with_player(second).turn(n) == Some(
            if n % 2 == 0 {
                second
            } else {
                first
            },
        ),
{
    let alone = TurnState::initial(seq![first]);
    lemma_advanced_by(alone, n);
    lemma_advanced_by(alone, k);
    let played = alone.advanced_by(k);
    assert(played.cursor == 0);
    assert(played.single_player);
    assert(!played.is_playing(second.name));
    lemma_with_player_wf(played, second);
    let both = played.with_player(second);
    assert(both.roster =~= seq![first, second]);
    assert(both.cursor == 1);
    lemma_advanced_by(both, n);
    assert((1 + n) % 2 == if n % 2 == 0 { 1int } else { 0int });
}

/// Removal keeps the cursor on the player who would have been next. When
/// anyone but the player at the cursor leaves, the same player is next. When
/// the player at the cursor leaves, the one after them (cyclically) is next;
/// and when they were alone, nobody is.
pub proof fn law_removal_keeps_next(s: TurnState, name: Seq<char>)
    requires
        s.wf(),
        s.is_playing(name),
    ensures
        s.without_player(name).wf(),
        !s.without_player(name).is_playing(name),
        s.without_player(name).roster == s.roster.remove(position(s.roster, name)),
        s.current()->0.name != name ==> s.without_player(name).current() == s.current(),
        s.current()->0.name == name && s.roster.len() >= 2 ==> s.without_player(name).current()
            == Some(s.roster[slot_after(s, 1)]),
        s.current()->0.name == name && s.roster.len() == 1 ==> s.without_player(name).current()
            is None,
{
    lemma_position_of_present(s.roster, name);
    let i = position(s.roster, name);
    let t = s.without_player(name);
    lemma_without_slot_wf(s, i);
    let len = s.roster.len() as int;
    let c = s.cursor as int;
    assert forall|j: int| 0 <= j < t.roster.len() implies #[trigger] t.roster[j].name
        != name by {
        let oj = if j < i { j } else { j + 1 };
        assert(t.roster[j] == s.roster[oj]);
        if oj < i {
            assert(s.roster[oj].name != s.roster[i].name);
        } else {
            assert(s.roster[i].name != s.roster[oj].name);
        }
    }
    if s.roster[c].name != name {
        assert(i != c);
    } else {
        assert forall|j: int| 0 <= j < c implies #[trigger] s.roster[j].name != name by {
            assert(s.roster[j].name != s.roster[c].name);
        }
        lemma_position_is_first(s.roster, name, c);
        if len >= 2 {
            if c == len - 1 {
                lemma_mod_add_multiples_vanish(0, len);
                lemma_small_mod(0, s.roster.len());
            } else {
                lemma_small_mod((c + 1) as nat, s.roster.len());
            }
        }
    }
}

} // verus!
