use vstd::prelude::*;
use vstd::multiset::Multiset;
use vstd::seq_lib::lemma_multiset_commutative;

use crate::deck::Card;
use crate::deck::CardSymbol;
use crate::deck::CardValue;
use crate::deck::ordered_deck;
use crate::deck::spec_followed_by;
use crate::deck::spec_is_black;
use crate::GameAction;

verus! {

/// Mathematical model of the table: every pile as a sequence of cards,
/// bottom of the pile first.
#[verifier::ext_equal]
pub struct TablesView {
    pub playing: Seq<Seq<Card>>,
    pub foundation: Seq<Seq<Card>>,
    pub extra: Seq<Card>,
    pub drawn: Seq<Card>,
}

impl TablesView {
    /// The fixed pile counts: seven tableau piles, four foundations.
    pub open spec fn wf(self) -> bool {
        self.playing.len() == 7 && self.foundation.len() == 4
    }
}

/// A card's identity: rank and suit. The face flag is mutable state and
/// not part of identity; rank-only comparison (`Card`'s `PartialEq`) is a
/// separate, narrower notion used by internal comparisons.
pub open spec fn card_id(c: Card) -> (CardValue, CardSymbol) {
    (c.value, c.symbol)
}

/// Foundation acceptance between two cards: same suit, and the contender's
/// rank immediately follows the receiver's.
pub open spec fn follows_on_foundation(contender: Card, receiver: Card) -> bool {
    contender.symbol == receiver.symbol && spec_followed_by(receiver.value, contender.value)
}

/// Tableau acceptance between two cards: opposite colors, and the contender
/// is exactly one rank below the receiver.
pub open spec fn follows_on_tableau(contender: Card, receiver: Card) -> bool {
    spec_is_black(contender) != spec_is_black(receiver)
        && spec_followed_by(contender.value, receiver.value)
}

/// What a foundation pile accepts: an Ace when empty, otherwise the
/// same-suit immediate successor of its top card.
pub open spec fn foundation_accepts(pile: Seq<Card>, c: Card) -> bool {
    if pile.len() == 0 {
        c.value == CardValue::Ace
    } else {
        follows_on_foundation(c, pile.last())
    }
}

/// What a tableau pile accepts on the King-gated paths (waste to tableau,
/// tableau to tableau): a King when empty, otherwise the tableau rule
/// against its top card.
pub open spec fn tableau_accepts(pile: Seq<Card>, c: Card) -> bool {
    if pile.len() == 0 {
        c.value == CardValue::King
    } else {
        follows_on_tableau(c, pile.last())
    }
}

/// What a tableau pile accepts on the foundation-to-tableau path: any card
/// when empty (the engine deliberately omits the King requirement here,
/// asymmetric with the waste-to-tableau path), otherwise the tableau rule.
pub open spec fn tableau_accepts_lenient(pile: Seq<Card>, c: Card) -> bool {
    pile.len() == 0 || follows_on_tableau(c, pile.last())
}

/// The same card with its face flag set to `up`.
pub open spec fn with_face(c: Card, up: bool) -> Card {
    Card { is_face_up: up, ..c }
}

/// Every card of the sequence with its face flag set to `up`.
pub open spec fn all_faces(s: Seq<Card>, up: bool) -> Seq<Card> {
    s.map_values(|c: Card| with_face(c, up))
}

/// Every card of the sequence is face up (`up` true) or face down.
pub open spec fn faces_are(s: Seq<Card>, up: bool) -> bool {
    forall|i: int| 0 <= i < s.len() ==> (#[trigger] s[i]).is_face_up == up
}

// ---------------------------------------------------------------------------
// Card accounting: the multiset of card identities held by the piles.
// ---------------------------------------------------------------------------

/// The multiset of card identities (rank and suit) of one pile.
pub open spec fn pile_ids(s: Seq<Card>) -> Multiset<(CardValue, CardSymbol)> {
    s.map_values(|c: Card| card_id(c)).to_multiset()
}

/// The multiset of card identities across every pile of the table.
pub open spec fn all_cards(t: TablesView) -> Multiset<(CardValue, CardSymbol)> {
    pile_ids(t.playing[0]).add(pile_ids(t.playing[1])).add(pile_ids(t.playing[2])).add(
        pile_ids(t.playing[3]),
    ).add(pile_ids(t.playing[4])).add(pile_ids(t.playing[5])).add(pile_ids(t.playing[6])).add(
        pile_ids(t.foundation[0]),
    ).add(pile_ids(t.foundation[1])).add(pile_ids(t.foundation[2])).add(
        pile_ids(t.foundation[3]),
    ).add(pile_ids(t.extra)).add(pile_ids(t.drawn))
}

/// The identities of the full 52-card set, each exactly once.
pub open spec fn full_deck_ids() -> Multiset<(CardValue, CardSymbol)> {
    pile_ids(ordered_deck())
}

pub proof fn lemma_pile_ids_push(s: Seq<Card>, c: Card)
    ensures
        pile_ids(s.push(c)) == pile_ids(s).insert(card_id(c)),
{
    broadcast use vstd::seq_lib::group_to_multiset_ensures;

    assert(s.push(c).map_values(|x: Card| card_id(x)) =~= s.map_values(|x: Card| card_id(x)).push(
        card_id(c),
    ));
}

pub proof fn lemma_pile_ids_drop_last(s: Seq<Card>)
    requires
        s.len() > 0,
    ensures
        pile_ids(s) == pile_ids(s.drop_last()).insert(card_id(s.last())),
{
    assert(s.drop_last().push(s.last()) =~= s);
    lemma_pile_ids_push(s.drop_last(), s.last());
}

pub proof fn lemma_pile_ids_update(s: Seq<Card>, i: int, c: Card)
    requires
        0 <= i < s.len(),
        card_id(c) == card_id(s[i]),
    ensures
        pile_ids(s.update(i, c)) == pile_ids(s),
{
    assert(s.update(i, c).map_values(|x: Card| card_id(x)) =~= s.map_values(
        |x: Card| card_id(x),
    ));
}

pub proof fn lemma_pile_ids_concat(a: Seq<Card>, b: Seq<Card>)
    ensures
        pile_ids(a + b) == pile_ids(a).add(pile_ids(b)),
{
    assert((a + b).map_values(|x: Card| card_id(x)) =~= a.map_values(|x: Card| card_id(x))
        + b.map_values(|x: Card| card_id(x)));
    lemma_multiset_commutative(
        a.map_values(|x: Card| card_id(x)),
        b.map_values(|x: Card| card_id(x)),
    );
}

pub proof fn lemma_pile_ids_split(s: Seq<Card>, i: int)
    requires
        0 <= i <= s.len(),
    ensures
        pile_ids(s) == pile_ids(s.take(i)).add(pile_ids(s.skip(i))),
{
    assert(s.take(i) + s.skip(i) =~= s);
    lemma_pile_ids_concat(s.take(i), s.skip(i));
}

pub proof fn lemma_pile_ids_reverse(s: Seq<Card>)
    ensures
        pile_ids(s.reverse()) == pile_ids(s),
{
    assert(s.reverse().map_values(|x: Card| card_id(x)) =~= s.map_values(
        |x: Card| card_id(x),
    ).reverse());
    s.map_values(|x: Card| card_id(x)).lemma_reverse_to_multiset();
}

pub proof fn lemma_pile_ids_faces(s: Seq<Card>, up: bool)
    ensures
        pile_ids(all_faces(s, up)) == pile_ids(s),
{
    assert(all_faces(s, up).map_values(|x: Card| card_id(x)) =~= s.map_values(
        |x: Card| card_id(x),
    ));
}

pub proof fn lemma_pile_ids_empty()
    ensures
        pile_ids(Seq::<Card>::empty()) == Multiset::<(CardValue, CardSymbol)>::empty(),
{
    broadcast use vstd::seq_lib::group_to_multiset_ensures;

    assert(Seq::<Card>::empty().map_values(|x: Card| card_id(x)) =~= Seq::<(
        CardValue,
        CardSymbol,
    )>::empty());
    assert(Seq::<(CardValue, CardSymbol)>::empty().to_multiset().len() == 0);
    assert(Seq::<(CardValue, CardSymbol)>::empty().to_multiset() =~= Multiset::<(
        CardValue,
        CardSymbol,
    )>::empty());
}

// ---------------------------------------------------------------------------
// The reachable-state invariants.
// ---------------------------------------------------------------------------

/// A foundation pile, bottom to top, is a strictly increasing same-suit run
/// starting at an Ace.
pub open spec fn foundation_run(pile: Seq<Card>) -> bool {
    &&& pile.len() > 0 ==> pile[0].value == CardValue::Ace
    &&& forall|i: int|
        0 <= i < pile.len() - 1 ==> follows_on_foundation(#[trigger] pile[i + 1], pile[i])
}

/// Any card resting directly on a face-up tableau card is one rank lower and
/// of the opposite color; in particular the face-up suffix of a tableau
/// pile, bottom to top, is a strictly decreasing alternating-color run.
pub open spec fn tableau_alternating(pile: Seq<Card>) -> bool {
    forall|i: int|
        0 <= i < pile.len() - 1 && (#[trigger] pile[i]).is_face_up ==> follows_on_tableau(
            pile[i + 1],
            pile[i],
        )
}

/// The invariant of every reachable table: the full 52-card set is
/// partitioned across the piles (no duplicate, no loss), every foundation is
/// an Ace-rooted same-suit run, every tableau pile alternates along its
/// face-up cards, and the stock lies face down.
pub open spec fn table_inv(t: TablesView) -> bool {
    &&& t.wf()
    &&& all_cards(t) == full_deck_ids()
    &&& forall|f: int| 0 <= f < 4 ==> foundation_run(#[trigger] t.foundation[f])
    &&& forall|p: int| 0 <= p < 7 ==> tableau_alternating(#[trigger] t.playing[p])
    &&& faces_are(t.extra, false)
}

// ---------------------------------------------------------------------------
// One transition per operation of the rules engine: a success predicate and
// the resulting table. Failed operations leave the table unchanged.
// ---------------------------------------------------------------------------

/// Draw: no-op when stock and waste are both empty; recycle (waste moves to
/// stock, reversed, all face down) when only the stock is empty; otherwise
/// one card moves from stock to waste, turned face up.
pub open spec fn draw_step(t: TablesView) -> TablesView {
    if t.extra.len() == 0 && t.drawn.len() == 0 {
        t
    } else if t.extra.len() == 0 {
        TablesView { extra: all_faces(t.drawn.reverse(), false), drawn: Seq::empty(), ..t }
    } else {
        TablesView {
            extra: t.extra.drop_last(),
            drawn: t.drawn.push(with_face(t.extra.last(), true)),
            ..t
        }
    }
}

/// Undraw, the symmetric inverse of draw.
pub open spec fn undraw_step(t: TablesView) -> TablesView {
    if t.extra.len() == 0 && t.drawn.len() == 0 {
        t
    } else if t.drawn.len() == 0 {
        TablesView { extra: Seq::empty(), drawn: all_faces(t.extra.reverse(), true), ..t }
    } else {
        TablesView {
            extra: t.extra.push(with_face(t.drawn.last(), false)),
            drawn: t.drawn.drop_last(),
            ..t
        }
    }
}

pub open spec fn drawn_to_foundation_ok(t: TablesView, f: int) -> bool {
    0 <= f < 4 && t.drawn.len() > 0 && foundation_accepts(t.foundation[f], t.drawn.last())
}

pub open spec fn drawn_to_foundation_step(t: TablesView, f: int) -> TablesView {
    TablesView {
        drawn: t.drawn.drop_last(),
        foundation: t.foundation.update(f, t.foundation[f].push(t.drawn.last())),
        ..t
    }
}

pub open spec fn foundation_to_drawn_ok(t: TablesView, f: int) -> bool {
    0 <= f < 4 && t.foundation[f].len() > 0
}

pub open spec fn foundation_to_drawn_step(t: TablesView, f: int) -> TablesView {
    TablesView {
        drawn: t.drawn.push(t.foundation[f].last()),
        foundation: t.foundation.update(f, t.foundation[f].drop_last()),
        ..t
    }
}

pub open spec fn playing_to_foundation_ok(t: TablesView, p: int, f: int) -> bool {
    0 <= p < 7 && 0 <= f < 4 && t.playing[p].len() > 0
        && foundation_accepts(t.foundation[f], t.playing[p].last())
}

pub open spec fn playing_to_foundation_step(t: TablesView, p: int, f: int) -> TablesView {
    TablesView {
        playing: t.playing.update(p, t.playing[p].drop_last()),
        foundation: t.foundation.update(f, t.foundation[f].push(t.playing[p].last())),
        ..t
    }
}

pub open spec fn foundation_to_playing_ok(t: TablesView, p: int, f: int) -> bool {
    0 <= p < 7 && 0 <= f < 4 && t.foundation[f].len() > 0
        && tableau_accepts_lenient(t.playing[p], t.foundation[f].last())
}

pub open spec fn foundation_to_playing_step(t: TablesView, p: int, f: int) -> TablesView {
    TablesView {
        playing: t.playing.update(p, t.playing[p].push(t.foundation[f].last())),
        foundation: t.foundation.update(f, t.foundation[f].drop_last()),
        ..t
    }
}

pub open spec fn drawn_to_playing_ok(t: TablesView, p: int) -> bool {
    0 <= p < 7 && t.drawn.len() > 0 && tableau_accepts(t.playing[p], t.drawn.last())
}

pub open spec fn drawn_to_playing_step(t: TablesView, p: int) -> TablesView {
    TablesView {
        playing: t.playing.update(p, t.playing[p].push(t.drawn.last())),
        drawn: t.drawn.drop_last(),
        ..t
    }
}

pub open spec fn playing_to_drawn_ok(t: TablesView, p: int) -> bool {
    0 <= p < 7 && t.playing[p].len() > 0
}

pub open spec fn playing_to_drawn_step(t: TablesView, p: int) -> TablesView {
    TablesView {
        playing: t.playing.update(p, t.playing[p].drop_last()),
        drawn: t.drawn.push(t.playing[p].last()),
        ..t
    }
}

/// A tableau-to-tableau run move: the target index must be the current end
/// of the destination, the source card must exist and be face up, and the
/// destination must accept it (King-gated when empty).
pub open spec fn run_move_ok(t: TablesView, fs: int, fc: int, ts: int, tc: int) -> bool {
    0 <= fs < 7 && 0 <= ts < 7 && fs != ts
        && tc == t.playing[ts].len()
        && 0 <= fc < t.playing[fs].len()
        && t.playing[fs][fc].is_face_up
        && tableau_accepts(t.playing[ts], t.playing[fs][fc])
}

/// Transfer of every card from index `fc` to the end of pile `fs` onto the
/// end of pile `ts`, keeping their order.
pub open spec fn run_transfer(t: TablesView, fs: int, fc: int, ts: int) -> TablesView {
    TablesView {
        playing: t.playing
            .update(ts, t.playing[ts] + t.playing[fs].skip(fc))
            .update(fs, t.playing[fs].take(fc)),
        ..t
    }
}

/// The unconditional transfer used when a run move is undone: a no-op when
/// `fc` is past the end of the source pile.
pub open spec fn force_move_step(t: TablesView, fs: int, fc: int, ts: int) -> TablesView {
    if fc >= t.playing[fs].len() {
        t
    } else {
        run_transfer(t, fs, fc, ts)
    }
}

pub open spec fn set_face_ok(t: TablesView, p: int, up: bool) -> bool {
    0 <= p < 7 && t.playing[p].len() > 0 && t.playing[p].last().is_face_up != up
}

pub open spec fn set_face_step(t: TablesView, p: int, up: bool) -> TablesView {
    TablesView {
        playing: t.playing.update(
            p,
            t.playing[p].update(t.playing[p].len() - 1, with_face(t.playing[p].last(), up)),
        ),
        ..t
    }
}

// ---------------------------------------------------------------------------
// Dispatch: request validity, success predicate and effect per action kind.
// ---------------------------------------------------------------------------

/// Pile indices of a request are in range, and a run move does not name the
/// same pile twice as both ends (the engine rejects that by an error, and
/// the undo transfer is only meaningful between distinct piles).
pub open spec fn action_wf(a: GameAction) -> bool {
    match a {
        GameAction::DrawCard => true,
        GameAction::UnDraw => true,
        GameAction::MoveToPlayingFromFoundation(p, f) => p < 7 && f < 4,
        GameAction::MoveToFoundationFromPlaying(p, f) => p < 7 && f < 4,
        GameAction::MoveToPlayingFromDrawn(p) => p < 7,
        GameAction::MoveToDrawnFromPlaying(p) => p < 7,
        GameAction::MoveToDrawFromFoundation(f) => f < 4,
        GameAction::MoveToFoundationFromDrawn(f) => f < 4,
        GameAction::MoveToPlayingFromPlaying(fs, _fc, ts, _tc) => fs < 7 && ts < 7,
        GameAction::ShowCard(p) => p < 7,
        GameAction::HideCard(p) => p < 7,
    }
}

/// Whether the engine commits the requested action on table `t`.
pub open spec fn action_ok(a: GameAction, t: TablesView) -> bool {
    match a {
        GameAction::DrawCard => true,
        GameAction::UnDraw => true,
        GameAction::MoveToPlayingFromFoundation(p, f) => foundation_to_playing_ok(
            t,
            p as int,
            f as int,
        ),
        GameAction::MoveToFoundationFromPlaying(p, f) => playing_to_foundation_ok(
            t,
            p as int,
            f as int,
        ),
        GameAction::MoveToPlayingFromDrawn(p) => drawn_to_playing_ok(t, p as int),
        GameAction::MoveToDrawnFromPlaying(p) => playing_to_drawn_ok(t, p as int),
        GameAction::MoveToDrawFromFoundation(f) => foundation_to_drawn_ok(t, f as int),
        GameAction::MoveToFoundationFromDrawn(f) => drawn_to_foundation_ok(t, f as int),
        GameAction::MoveToPlayingFromPlaying(fs, fc, ts, tc) => run_move_ok(
            t,
            fs as int,
            fc as int,
            ts as int,
            tc as int,
        ),
        GameAction::ShowCard(p) => set_face_ok(t, p as int, true),
        GameAction::HideCard(p) => set_face_ok(t, p as int, false),
    }
}

/// The table after a committed action.
pub open spec fn apply_action(a: GameAction, t: TablesView) -> TablesView {
    match a {
        GameAction::DrawCard => draw_step(t),
        GameAction::UnDraw => undraw_step(t),
        GameAction::MoveToPlayingFromFoundation(p, f) => foundation_to_playing_step(
            t,
            p as int,
            f as int,
        ),
        GameAction::MoveToFoundationFromPlaying(p, f) => playing_to_foundation_step(
            t,
            p as int,
            f as int,
        ),
        GameAction::MoveToPlayingFromDrawn(p) => drawn_to_playing_step(t, p as int),
        GameAction::MoveToDrawnFromPlaying(p) => playing_to_drawn_step(t, p as int),
        GameAction::MoveToDrawFromFoundation(f) => foundation_to_drawn_step(t, f as int),
        GameAction::MoveToFoundationFromDrawn(f) => drawn_to_foundation_step(t, f as int),
        GameAction::MoveToPlayingFromPlaying(fs, fc, ts, _tc) => run_transfer(
            t,
            fs as int,
            fc as int,
            ts as int,
        ),
        GameAction::ShowCard(p) => set_face_step(t, p as int, true),
        GameAction::HideCard(p) => set_face_step(t, p as int, false),
    }
}

/// Whether the structurally inverse operation dispatched by one undo step
/// succeeds on table `t` (a visibility change is handled separately by
/// `unwind_history`).
pub open spec fn undo_action_ok(a: GameAction, t: TablesView) -> bool {
    match a {
        GameAction::DrawCard => true,
        GameAction::UnDraw => true,
        GameAction::MoveToPlayingFromFoundation(p, f) => playing_to_foundation_ok(
            t,
            p as int,
            f as int,
        ),
        GameAction::MoveToFoundationFromPlaying(p, f) => foundation_to_playing_ok(
            t,
            p as int,
            f as int,
        ),
        GameAction::MoveToPlayingFromDrawn(p) => playing_to_drawn_ok(t, p as int),
        GameAction::MoveToDrawnFromPlaying(p) => drawn_to_playing_ok(t, p as int),
        GameAction::MoveToDrawFromFoundation(f) => drawn_to_foundation_ok(t, f as int),
        GameAction::MoveToFoundationFromDrawn(f) => foundation_to_drawn_ok(t, f as int),
        GameAction::MoveToPlayingFromPlaying(fs, _fc, ts, _tc) => fs != ts,
        GameAction::ShowCard(p) => set_face_ok(t, p as int, false),
        GameAction::HideCard(p) => set_face_ok(t, p as int, true),
    }
}

/// The table after the structurally inverse operation of one undo step.
pub open spec fn undo_action_step(a: GameAction, t: TablesView) -> TablesView {
    match a {
        GameAction::DrawCard => undraw_step(t),
        GameAction::UnDraw => draw_step(t),
        GameAction::MoveToPlayingFromFoundation(p, f) => playing_to_foundation_step(
            t,
            p as int,
            f as int,
        ),
        GameAction::MoveToFoundationFromPlaying(p, f) => foundation_to_playing_step(
            t,
            p as int,
            f as int,
        ),
        GameAction::MoveToPlayingFromDrawn(p) => playing_to_drawn_step(t, p as int),
        GameAction::MoveToDrawnFromPlaying(p) => drawn_to_playing_step(t, p as int),
        GameAction::MoveToDrawFromFoundation(f) => drawn_to_foundation_step(t, f as int),
        GameAction::MoveToFoundationFromDrawn(f) => foundation_to_drawn_step(t, f as int),
        GameAction::MoveToPlayingFromPlaying(fs, fc, ts, tc) => force_move_step(
            t,
            ts as int,
            tc as int,
            fs as int,
        ),
        GameAction::ShowCard(p) => set_face_step(t, p as int, false),
        GameAction::HideCard(p) => set_face_step(t, p as int, true),
    }
}

// ---------------------------------------------------------------------------
// Positional command semantics: a cursor cell maps to a sequence of engine
// requests, tried in a fixed order, the first success winning.
// ---------------------------------------------------------------------------

/// The first foundation at or after `i` that accepts the waste's top card.
pub open spec fn first_foundation_from_drawn(t: TablesView, i: int) -> Option<int>
    decreases 4 - i,
{
    if i < 0 || i >= 4 {
        None
    } else if drawn_to_foundation_ok(t, i) {
        Some(i)
    } else {
        first_foundation_from_drawn(t, i + 1)
    }
}

/// The first tableau pile at or after `i` that accepts the waste's top card.
pub open spec fn first_playing_from_drawn(t: TablesView, i: int) -> Option<int>
    decreases 7 - i,
{
    if i < 0 || i >= 7 {
        None
    } else if drawn_to_playing_ok(t, i) {
        Some(i)
    } else {
        first_playing_from_drawn(t, i + 1)
    }
}

/// The first foundation at or after `i` that accepts the top of tableau
/// pile `p`.
pub open spec fn first_foundation_from_playing(t: TablesView, p: int, i: int) -> Option<int>
    decreases 4 - i,
{
    if i < 0 || i >= 4 {
        None
    } else if playing_to_foundation_ok(t, p, i) {
        Some(i)
    } else {
        first_foundation_from_playing(t, p, i + 1)
    }
}

/// The first tableau pile at or after `i` onto whose end the run starting at
/// row `fc` of pile `fs` may move.
pub open spec fn first_run_destination(t: TablesView, fs: int, fc: int, i: int) -> Option<int>
    decreases 7 - i,
{
    if i < 0 || i >= 7 {
        None
    } else if run_move_ok(t, fs, fc, i, t.playing[i].len() as int) {
        Some(i)
    } else {
        first_run_destination(t, fs, fc, i + 1)
    }
}

/// The committed move, followed by the reveal of pile `x`'s new top card
/// where one is possible.
pub open spec fn with_reveal(t: TablesView, m: GameAction, x: int) -> Seq<GameAction> {
    if set_face_ok(apply_action(m, t), x, true) {
        seq![m, GameAction::ShowCard(x as usize)]
    } else {
        seq![m]
    }
}

/// The actions a positional command commits, in order. Row 0 addresses the
/// top cells: the waste (column 5) tries every foundation and then every
/// tableau pile, the stock (column 6) draws, the other cells are inert. A
/// deeper row addresses a tableau card: one resting at the pile's end is
/// first offered to every foundation; failing that, the run it starts is
/// offered to every tableau pile; a committed tableau-sourced move also
/// reveals the source pile's uncovered card.
pub open spec fn command_actions(t: TablesView, x: int, y: int) -> Seq<GameAction> {
    if y == 0 {
        if x == 5 {
            match first_foundation_from_drawn(t, 0) {
                Some(f) => seq![GameAction::MoveToFoundationFromDrawn(f as usize)],
                None => match first_playing_from_drawn(t, 0) {
                    Some(p) => seq![GameAction::MoveToPlayingFromDrawn(p as usize)],
                    None => Seq::empty(),
                },
            }
        } else if x == 6 {
            seq![GameAction::DrawCard]
        } else {
            Seq::empty()
        }
    } else if y > t.playing[x].len() || !t.playing[x][y - 1].is_face_up {
        Seq::empty()
    } else {
        let foundation_pick = if y == t.playing[x].len() {
            first_foundation_from_playing(t, x, 0)
        } else {
            None
        };
        match foundation_pick {
            Some(f) => with_reveal(
                t,
                GameAction::MoveToFoundationFromPlaying(x as usize, f as usize),
                x,
            ),
            None => match first_run_destination(t, x, y - 1, 0) {
                Some(d) => with_reveal(
                    t,
                    GameAction::MoveToPlayingFromPlaying(
                        x as usize,
                        (y - 1) as usize,
                        d as usize,
                        t.playing[d].len() as usize,
                    ),
                    x,
                ),
                None => Seq::empty(),
            },
        }
    }
}

/// The table after a sequence of committed actions, applied left to right.
pub open spec fn apply_all(actions: Seq<GameAction>, t: TablesView) -> TablesView
    decreases actions.len(),
{
    if actions.len() == 0 {
        t
    } else {
        apply_all(actions.drop_first(), apply_action(actions.first(), t))
    }
}

pub proof fn lemma_apply_one(m: GameAction, t: TablesView)
    ensures
        apply_all(seq![m], t) == apply_action(m, t),
{
    let rest = seq![m].drop_first();
    assert(rest =~= Seq::<GameAction>::empty());
    assert(seq![m].first() == m);
    assert(apply_all(rest, apply_action(m, t)) == apply_action(m, t));
    assert(apply_all(seq![m], t) == apply_all(rest, apply_action(m, t)));
}

pub proof fn lemma_apply_two(m1: GameAction, m2: GameAction, t: TablesView)
    ensures
        apply_all(seq![m1, m2], t) == apply_action(m2, apply_action(m1, t)),
{
    assert(seq![m1, m2].drop_first() =~= seq![m2]);
    lemma_apply_one(m2, apply_action(m1, t));
}

/// The whole effect of one undo request on the log and the table: nothing on
/// an empty log; a visibility entry is reversed (where possible) and the undo
/// continues with the next entry, so that a visibility change is never the
/// terminal effect of a single undo; any other entry is popped and its
/// inverse applied, a failed inverse leaving the table unchanged.
pub open spec fn unwind_history(h: Seq<GameAction>, t: TablesView) -> (Seq<GameAction>, TablesView)
    decreases h.len(),
{
    if h.len() == 0 {
        (h, t)
    } else {
        let a = h.last();
        let rest = h.drop_last();
        match a {
            GameAction::ShowCard(p) => unwind_history(
                rest,
                if set_face_ok(t, p as int, false) {
                    set_face_step(t, p as int, false)
                } else {
                    t
                },
            ),
            GameAction::HideCard(p) => unwind_history(
                rest,
                if set_face_ok(t, p as int, true) {
                    set_face_step(t, p as int, true)
                } else {
                    t
                },
            ),
            _ => (
                rest,
                if undo_action_ok(a, t) {
                    undo_action_step(a, t)
                } else {
                    t
                },
            ),
        }
    }
}

} // verus!
