use vstd::prelude::*;

use crate::GameAction;
use crate::deck::Card;
use crate::model::TablesView;
use crate::model::action_ok;
use crate::model::action_wf;
use crate::model::all_cards;
use crate::model::all_faces;
use crate::model::apply_action;
use crate::model::faces_are;
use crate::model::follows_on_tableau;
use crate::model::foundation_accepts;
use crate::model::foundation_run;
use crate::model::full_deck_ids;
use crate::model::lemma_pile_ids_concat;
use crate::model::lemma_pile_ids_drop_last;
use crate::model::lemma_pile_ids_empty;
use crate::model::lemma_pile_ids_faces;
use crate::model::lemma_pile_ids_push;
use crate::model::lemma_pile_ids_reverse;
use crate::model::lemma_pile_ids_split;
use crate::model::lemma_pile_ids_update;
use crate::model::set_face_ok;
use crate::model::set_face_step;
use crate::model::table_inv;
use crate::model::tableau_alternating;
use crate::model::undo_action_ok;
use crate::model::undo_action_step;
use crate::model::unwind_history;
use crate::model::with_face;

verus! {

// ---------------------------------------------------------------------------
// Pile-local preservation lemmas.
// ---------------------------------------------------------------------------

/// Pushing an accepted card onto a foundation keeps it an Ace-rooted
/// same-suit run.
proof fn lemma_foundation_run_push(pile: Seq<Card>, c: Card)
    requires
        foundation_run(pile),
        foundation_accepts(pile, c),
    ensures
        foundation_run(pile.push(c)),
{
    let pushed = pile.push(c);
    assert forall|i: int| 0 <= i < pushed.len() - 1 implies crate::model::follows_on_foundation(
        #[trigger] pushed[i + 1],
        pushed[i],
    ) by {
        if i < pile.len() - 1 {
            assert(pushed[i] == pile[i] && pushed[i + 1] == pile[i + 1]);
        } else {
            assert(pushed[i] == pile.last() && pushed[i + 1] == c);
        }
    }
}

/// Removing the top card of a foundation keeps it an Ace-rooted run.
proof fn lemma_foundation_run_pop(pile: Seq<Card>)
    requires
        foundation_run(pile),
        pile.len() > 0,
    ensures
        foundation_run(pile.drop_last()),
{
}

/// Pushing a card that follows the (non-empty) pile's top keeps the tableau
/// alternating property.
proof fn lemma_tableau_push(pile: Seq<Card>, c: Card)
    requires
        tableau_alternating(pile),
        pile.len() > 0 ==> follows_on_tableau(c, pile.last()),
    ensures
        tableau_alternating(pile.push(c)),
{
    let pushed = pile.push(c);
    assert forall|i: int|
        0 <= i < pushed.len() - 1 && (#[trigger] pushed[i]).is_face_up implies follows_on_tableau(
        pushed[i + 1],
        pushed[i],
    ) by {
        if i < pile.len() - 1 {
            assert(pushed[i] == pile[i] && pushed[i + 1] == pile[i + 1]);
        } else {
            assert(pushed[i] == pile.last() && pushed[i + 1] == c);
        }
    }
}

/// Any prefix of an alternating tableau pile is alternating.
proof fn lemma_tableau_take(pile: Seq<Card>, n: int)
    requires
        tableau_alternating(pile),
        0 <= n <= pile.len(),
    ensures
        tableau_alternating(pile.take(n)),
{
    assert forall|i: int|
        0 <= i < pile.take(n).len() - 1 && (#[trigger] pile.take(n)[i]).is_face_up implies
        follows_on_tableau(pile.take(n)[i + 1], pile.take(n)[i]) by {
        assert(pile.take(n)[i] == pile[i] && pile.take(n)[i + 1] == pile[i + 1]);
    }
}

/// Appending a run taken from index `fc` of an alternating source pile onto
/// an alternating destination that accepts the run's first card keeps the
/// destination alternating.
proof fn lemma_tableau_concat(dest: Seq<Card>, src: Seq<Card>, fc: int)
    requires
        tableau_alternating(dest),
        tableau_alternating(src),
        0 <= fc < src.len(),
        dest.len() > 0 ==> follows_on_tableau(src[fc], dest.last()),
    ensures
        tableau_alternating(dest + src.skip(fc)),
{
    let moved = dest + src.skip(fc);
    assert forall|i: int|
        0 <= i < moved.len() - 1 && (#[trigger] moved[i]).is_face_up implies follows_on_tableau(
        moved[i + 1],
        moved[i],
    ) by {
        if i < dest.len() - 1 {
            assert(moved[i] == dest[i] && moved[i + 1] == dest[i + 1]);
        } else if i == dest.len() - 1 {
            assert(moved[i] == dest.last() && moved[i + 1] == src[fc]);
        } else {
            let j = i - dest.len();
            assert(moved[i] == src[fc + j] && moved[i + 1] == src[fc + j + 1]);
            assert(src[fc + j].is_face_up);
        }
    }
}

/// Turning the top card over does not disturb the alternation below it: the
/// tableau rule reads rank and color only, and the top card never sits under
/// another card.
proof fn lemma_tableau_set_face(pile: Seq<Card>, up: bool)
    requires
        tableau_alternating(pile),
        pile.len() > 0,
    ensures
        tableau_alternating(pile.update(pile.len() - 1, with_face(pile.last(), up))),
{
    let flipped = pile.update(pile.len() - 1, with_face(pile.last(), up));
    assert forall|i: int|
        0 <= i < flipped.len() - 1 && (#[trigger] flipped[i]).is_face_up implies
        follows_on_tableau(flipped[i + 1], flipped[i]) by {
        assert(flipped[i] == pile[i]);
        if i + 1 < pile.len() - 1 {
            assert(flipped[i + 1] == pile[i + 1]);
        } else {
            assert(flipped[i + 1] == with_face(pile[i + 1], up));
        }
    }
}

// ---------------------------------------------------------------------------
// Card conservation: no committed action duplicates or loses a card.
// ---------------------------------------------------------------------------

/// Card conservation for the draw and undraw transitions.
proof fn lemma_cards_draw(t: TablesView)
    requires
        t.wf(),
    ensures
        all_cards(crate::model::draw_step(t)) == all_cards(t),
{
    broadcast use vstd::multiset::group_multiset_axioms;

    let u = crate::model::draw_step(t);
    if t.extra.len() == 0 && t.drawn.len() == 0 {
    } else if t.extra.len() == 0 {
        lemma_pile_ids_faces(t.drawn.reverse(), false);
        lemma_pile_ids_reverse(t.drawn);
        lemma_pile_ids_empty();
        assert(t.extra =~= Seq::<Card>::empty());
        assert(all_cards(u) =~= all_cards(t));
    } else {
        lemma_pile_ids_drop_last(t.extra);
        lemma_pile_ids_push(t.drawn, with_face(t.extra.last(), true));
        assert(all_cards(u) =~= all_cards(t));
    }
}

proof fn lemma_cards_undraw(t: TablesView)
    requires
        t.wf(),
    ensures
        all_cards(crate::model::undraw_step(t)) == all_cards(t),
{
    broadcast use vstd::multiset::group_multiset_axioms;

    let u = crate::model::undraw_step(t);
    if t.extra.len() == 0 && t.drawn.len() == 0 {
    } else if t.drawn.len() == 0 {
        lemma_pile_ids_faces(t.extra.reverse(), true);
        lemma_pile_ids_reverse(t.extra);
        lemma_pile_ids_empty();
        assert(t.drawn =~= Seq::<Card>::empty());
        assert(all_cards(u) =~= all_cards(t));
    } else {
        lemma_pile_ids_drop_last(t.drawn);
        lemma_pile_ids_push(t.extra, with_face(t.drawn.last(), false));
        assert(all_cards(u) =~= all_cards(t));
    }
}

proof fn lemma_cards_foundation_to_playing(t: TablesView, p: int, f: int)
    requires
        t.wf(),
        crate::model::foundation_to_playing_ok(t, p, f),
    ensures
        all_cards(crate::model::foundation_to_playing_step(t, p, f)) == all_cards(t),
{
    broadcast use vstd::multiset::group_multiset_axioms;

    lemma_pile_ids_drop_last(t.foundation[f]);
    lemma_pile_ids_push(t.playing[p], t.foundation[f].last());
    assert(all_cards(crate::model::foundation_to_playing_step(t, p, f)) =~= all_cards(t));
}

proof fn lemma_cards_playing_to_foundation(t: TablesView, p: int, f: int)
    requires
        t.wf(),
        crate::model::playing_to_foundation_ok(t, p, f),
    ensures
        all_cards(crate::model::playing_to_foundation_step(t, p, f)) == all_cards(t),
{
    broadcast use vstd::multiset::group_multiset_axioms;

    lemma_pile_ids_drop_last(t.playing[p]);
    lemma_pile_ids_push(t.foundation[f], t.playing[p].last());
    assert(all_cards(crate::model::playing_to_foundation_step(t, p, f)) =~= all_cards(t));
}

proof fn lemma_cards_drawn_to_playing(t: TablesView, p: int)
    requires
        t.wf(),
        crate::model::drawn_to_playing_ok(t, p),
    ensures
        all_cards(crate::model::drawn_to_playing_step(t, p)) == all_cards(t),
{
    broadcast use vstd::multiset::group_multiset_axioms;

    lemma_pile_ids_drop_last(t.drawn);
    lemma_pile_ids_push(t.playing[p], t.drawn.last());
    assert(all_cards(crate::model::drawn_to_playing_step(t, p)) =~= all_cards(t));
}

proof fn lemma_cards_playing_to_drawn(t: TablesView, p: int)
    requires
        t.wf(),
        crate::model::playing_to_drawn_ok(t, p),
    ensures
        all_cards(crate::model::playing_to_drawn_step(t, p)) == all_cards(t),
{
    broadcast use vstd::multiset::group_multiset_axioms;

    lemma_pile_ids_drop_last(t.playing[p]);
    lemma_pile_ids_push(t.drawn, t.playing[p].last());
    assert(all_cards(crate::model::playing_to_drawn_step(t, p)) =~= all_cards(t));
}

proof fn lemma_cards_foundation_to_drawn(t: TablesView, f: int)
    requires
        t.wf(),
        crate::model::foundation_to_drawn_ok(t, f),
    ensures
        all_cards(crate::model::foundation_to_drawn_step(t, f)) == all_cards(t),
{
    broadcast use vstd::multiset::group_multiset_axioms;

    lemma_pile_ids_drop_last(t.foundation[f]);
    lemma_pile_ids_push(t.drawn, t.foundation[f].last());
    assert(all_cards(crate::model::foundation_to_drawn_step(t, f)) =~= all_cards(t));
}

proof fn lemma_cards_drawn_to_foundation(t: TablesView, f: int)
    requires
        t.wf(),
        crate::model::drawn_to_foundation_ok(t, f),
    ensures
        all_cards(crate::model::drawn_to_foundation_step(t, f)) == all_cards(t),
{
    broadcast use vstd::multiset::group_multiset_axioms;

    lemma_pile_ids_drop_last(t.drawn);
    lemma_pile_ids_push(t.foundation[f], t.drawn.last());
    assert(all_cards(crate::model::drawn_to_foundation_step(t, f)) =~= all_cards(t));
}

proof fn lemma_cards_run_transfer(t: TablesView, fs: int, fc: int, ts: int)
    requires
        t.wf(),
        0 <= fs < 7,
        0 <= ts < 7,
        fs != ts,
        0 <= fc < t.playing[fs].len(),
    ensures
        all_cards(crate::model::run_transfer(t, fs, fc, ts)) == all_cards(t),
{
    broadcast use vstd::multiset::group_multiset_axioms;

    lemma_pile_ids_split(t.playing[fs], fc);
    lemma_pile_ids_concat(t.playing[ts], t.playing[fs].skip(fc));
    assert(all_cards(crate::model::run_transfer(t, fs, fc, ts)) =~= all_cards(t));
}

proof fn lemma_cards_set_face(t: TablesView, p: int, up: bool)
    requires
        t.wf(),
        crate::model::set_face_ok(t, p, up),
    ensures
        all_cards(crate::model::set_face_step(t, p, up)) == all_cards(t),
{
    broadcast use vstd::multiset::group_multiset_axioms;

    let pile = t.playing[p];
    lemma_pile_ids_update(pile, pile.len() - 1, with_face(pile.last(), up));
    assert(all_cards(crate::model::set_face_step(t, p, up)) =~= all_cards(t));
}

/// Every committed action preserves the multiset of card identities across
/// the piles: no card is ever duplicated or lost.
pub proof fn lemma_apply_preserves_cards(t: TablesView, a: GameAction)
    requires
        t.wf(),
        action_wf(a),
        action_ok(a, t),
    ensures
        all_cards(apply_action(a, t)) == all_cards(t),
{
    match a {
        GameAction::DrawCard => lemma_cards_draw(t),
        GameAction::UnDraw => lemma_cards_undraw(t),
        GameAction::MoveToPlayingFromFoundation(p, f) => lemma_cards_foundation_to_playing(
            t,
            p as int,
            f as int,
        ),
        GameAction::MoveToFoundationFromPlaying(p, f) => lemma_cards_playing_to_foundation(
            t,
            p as int,
            f as int,
        ),
        GameAction::MoveToPlayingFromDrawn(p) => lemma_cards_drawn_to_playing(t, p as int),
        GameAction::MoveToDrawnFromPlaying(p) => lemma_cards_playing_to_drawn(t, p as int),
        GameAction::MoveToDrawFromFoundation(f) => lemma_cards_foundation_to_drawn(t, f as int),
        GameAction::MoveToFoundationFromDrawn(f) => lemma_cards_drawn_to_foundation(t, f as int),
        GameAction::MoveToPlayingFromPlaying(fs, fc, ts, _tc) => lemma_cards_run_transfer(
            t,
            fs as int,
            fc as int,
            ts as int,
        ),
        GameAction::ShowCard(p) => lemma_cards_set_face(t, p as int, true),
        GameAction::HideCard(p) => lemma_cards_set_face(t, p as int, false),
    }
}

/// One undo step preserves the multiset of card identities as well: also on
/// the way back, no card is duplicated or lost.
pub proof fn lemma_undo_preserves_cards(t: TablesView, a: GameAction)
    requires
        t.wf(),
        action_wf(a),
        undo_action_ok(a, t),
    ensures
        all_cards(undo_action_step(a, t)) == all_cards(t),
{
    match a {
        GameAction::DrawCard => lemma_cards_undraw(t),
        GameAction::UnDraw => lemma_cards_draw(t),
        GameAction::MoveToPlayingFromFoundation(p, f) => lemma_cards_playing_to_foundation(
            t,
            p as int,
            f as int,
        ),
        GameAction::MoveToFoundationFromPlaying(p, f) => lemma_cards_foundation_to_playing(
            t,
            p as int,
            f as int,
        ),
        GameAction::MoveToPlayingFromDrawn(p) => lemma_cards_playing_to_drawn(t, p as int),
        GameAction::MoveToDrawnFromPlaying(p) => lemma_cards_drawn_to_playing(t, p as int),
        GameAction::MoveToDrawFromFoundation(f) => lemma_cards_drawn_to_foundation(t, f as int),
        GameAction::MoveToFoundationFromDrawn(f) => lemma_cards_foundation_to_drawn(t, f as int),
        GameAction::MoveToPlayingFromPlaying(fs, fc, ts, tc) => {
            if (tc as int) < t.playing[ts as int].len() {
                lemma_cards_run_transfer(t, ts as int, tc as int, fs as int);
            }
        },
        GameAction::ShowCard(p) => lemma_cards_set_face(t, p as int, false),
        GameAction::HideCard(p) => lemma_cards_set_face(t, p as int, true),
    }
}

/// A whole undo request preserves the multiset of card identities, through
/// any number of unwound visibility entries.
pub proof fn lemma_unwind_preserves_cards(h: Seq<GameAction>, t: TablesView)
    requires
        t.wf(),
        forall|i: int| 0 <= i < h.len() ==> action_wf(#[trigger] h[i]),
    ensures
        unwind_history(h, t).1.wf(),
        all_cards(unwind_history(h, t).1) == all_cards(t),
    decreases h.len(),
{
    if h.len() > 0 {
        let a = h.last();
        let rest = h.drop_last();
        assert(action_wf(h[h.len() - 1]));
        match a {
            GameAction::ShowCard(p) => {
                if set_face_ok(t, p as int, false) {
                    lemma_cards_set_face(t, p as int, false);
                    lemma_unwind_preserves_cards(rest, set_face_step(t, p as int, false));
                } else {
                    lemma_unwind_preserves_cards(rest, t);
                }
            },
            GameAction::HideCard(p) => {
                if set_face_ok(t, p as int, true) {
                    lemma_cards_set_face(t, p as int, true);
                    lemma_unwind_preserves_cards(rest, set_face_step(t, p as int, true));
                } else {
                    lemma_unwind_preserves_cards(rest, t);
                }
            },
            _ => {
                if undo_action_ok(a, t) {
                    lemma_undo_preserves_cards(t, a);
                }
            },
        }
    }
}

/// The full deck's identity multiset holds exactly 52 identities, none of
/// them twice: together with `lemma_action_preserves_inv` this is the
/// no-duplication, no-loss invariant of every reachable state.
pub proof fn lemma_full_deck_has_52_distinct_ids()
    ensures
        full_deck_ids().len() == 52,
        forall|x: (crate::CardValue, crate::CardSymbol)| full_deck_ids().count(x) <= 1,
{
    broadcast use vstd::seq_lib::group_to_multiset_ensures;
    broadcast use vstd::multiset::group_multiset_axioms;

    let deck = crate::deck::ordered_deck();
    let ids = deck.map_values(|c: Card| crate::model::card_id(c));
    assert(ids.len() == 52);
    assert forall|i: int, j: int| 0 <= i < 52 && 0 <= j < 52 && i != j implies ids[i] != ids[j] by {
        assert(ids[i] == (crate::deck::rank_of_index(i / 4), crate::deck::suit_of_index(i % 4)));
        assert(ids[j] == (crate::deck::rank_of_index(j / 4), crate::deck::suit_of_index(j % 4)));
        if i / 4 == j / 4 && i % 4 == j % 4 {
            assert(i == 4 * (i / 4) + i % 4) by (nonlinear_arith);
            assert(j == 4 * (j / 4) + j % 4) by (nonlinear_arith);
        } else if i / 4 == j / 4 {
            assert(crate::deck::suit_of_index(i % 4) != crate::deck::suit_of_index(j % 4));
        } else {
            assert(crate::deck::rank_of_index(i / 4) != crate::deck::rank_of_index(j / 4)) by {
                assert(0 <= i / 4 < 13 && 0 <= j / 4 < 13);
            }
        }
    }
    assert(ids.no_duplicates());
    ids.lemma_multiset_has_no_duplicates();
    assert forall|x: (crate::CardValue, crate::CardSymbol)| full_deck_ids().count(x) <= 1 by {
        if full_deck_ids().count(x) > 0 {
            assert(full_deck_ids().contains(x));
        }
    }
}

// ---------------------------------------------------------------------------
// The state invariant is established by the deal and preserved by every
// committed action.
// ---------------------------------------------------------------------------

/// Every committed action preserves the reachable-state invariant: the
/// 52-card partition, the foundations' Ace-rooted same-suit runs, the
/// tableau piles' alternating face-up runs, and the face-down stock.
pub proof fn lemma_action_preserves_inv(t: TablesView, a: GameAction)
    requires
        table_inv(t),
        action_wf(a),
        action_ok(a, t),
    ensures
        table_inv(apply_action(a, t)),
{
    lemma_apply_preserves_cards(t, a);
    let u = apply_action(a, t);
    match a {
        GameAction::DrawCard => {
            assert(faces_are(u.extra, false));
        },
        GameAction::UnDraw => {
            if t.extra.len() == 0 && t.drawn.len() == 0 {
            } else if t.drawn.len() == 0 {
                assert(faces_are(u.extra, false));
            } else {
                assert(faces_are(u.extra, false));
            }
        },
        GameAction::MoveToPlayingFromFoundation(p, f) => {
            lemma_foundation_run_pop(t.foundation[f as int]);
            lemma_tableau_push(t.playing[p as int], t.foundation[f as int].last());
        },
        GameAction::MoveToFoundationFromPlaying(p, f) => {
            lemma_foundation_run_push(t.foundation[f as int], t.playing[p as int].last());
            lemma_tableau_take(t.playing[p as int], t.playing[p as int].len() - 1);
            assert(t.playing[p as int].drop_last() =~= t.playing[p as int].take(
                t.playing[p as int].len() - 1,
            ));
        },
        GameAction::MoveToPlayingFromDrawn(p) => {
            lemma_tableau_push(t.playing[p as int], t.drawn.last());
        },
        GameAction::MoveToDrawnFromPlaying(p) => {
            lemma_tableau_take(t.playing[p as int], t.playing[p as int].len() - 1);
            assert(t.playing[p as int].drop_last() =~= t.playing[p as int].take(
                t.playing[p as int].len() - 1,
            ));
        },
        GameAction::MoveToDrawFromFoundation(f) => {
            lemma_foundation_run_pop(t.foundation[f as int]);
        },
        GameAction::MoveToFoundationFromDrawn(f) => {
            lemma_foundation_run_push(t.foundation[f as int], t.drawn.last());
        },
        GameAction::MoveToPlayingFromPlaying(fs, fc, ts, _tc) => {
            lemma_tableau_take(t.playing[fs as int], fc as int);
            lemma_tableau_concat(t.playing[ts as int], t.playing[fs as int], fc as int);
        },
        GameAction::ShowCard(p) => {
            lemma_tableau_set_face(t.playing[p as int], true);
        },
        GameAction::HideCard(p) => {
            lemma_tableau_set_face(t.playing[p as int], false);
        },
    }
}

// ---------------------------------------------------------------------------
// Undo round trips.
// ---------------------------------------------------------------------------

/// Toggling the top card's face twice restores the table exactly.
proof fn lemma_set_face_roundtrip(t: TablesView, p: int, up: bool)
    requires
        t.wf(),
        set_face_ok(t, p, up),
    ensures
        set_face_ok(set_face_step(t, p, up), p, !up),
        set_face_step(set_face_step(t, p, up), p, !up) == t,
{
    let u = set_face_step(t, p, up);
    assert(u.playing[p].last() == with_face(t.playing[p].last(), up));
    assert(set_face_step(u, p, !up).playing[p] =~= t.playing[p]);
    assert(set_face_step(u, p, !up) =~~= t);
}

/// Draw followed by undraw restores the table, given a face-up waste and a
/// face-down stock.
proof fn lemma_roundtrip_draw(t: TablesView)
    requires
        t.wf(),
        faces_are(t.extra, false),
        faces_are(t.drawn, true),
    ensures
        crate::model::undraw_step(crate::model::draw_step(t)) == t,
{
    let u = crate::model::draw_step(t);
    if t.extra.len() == 0 && t.drawn.len() == 0 {
        assert(crate::model::undraw_step(u) =~~= t);
    } else if t.extra.len() == 0 {
        assert(u.extra.len() == t.drawn.len() && u.drawn.len() == 0);
        assert(crate::model::undraw_step(u).drawn =~= t.drawn) by {
            assert forall|i: int| 0 <= i < t.drawn.len() implies all_faces(
                u.extra.reverse(),
                true,
            )[i] == t.drawn[i] by {
                assert(u.extra.reverse()[i] == with_face(t.drawn[i], false));
                assert(t.drawn[i].is_face_up == true);
            }
        }
        assert(crate::model::undraw_step(u).extra =~= t.extra);
        assert(crate::model::undraw_step(u) =~~= t);
    } else {
        assert(u.drawn.last() == with_face(t.extra.last(), true));
        assert(t.extra.last().is_face_up == false);
        assert(crate::model::undraw_step(u).extra =~= t.extra);
        assert(crate::model::undraw_step(u).drawn =~= t.drawn);
        assert(crate::model::undraw_step(u) =~~= t);
    }
}

/// Undraw followed by draw restores the table, under the same face
/// hypotheses.
proof fn lemma_roundtrip_undraw(t: TablesView)
    requires
        t.wf(),
        faces_are(t.extra, false),
        faces_are(t.drawn, true),
    ensures
        crate::model::draw_step(crate::model::undraw_step(t)) == t,
{
    let u = crate::model::undraw_step(t);
    if t.extra.len() == 0 && t.drawn.len() == 0 {
        assert(crate::model::draw_step(u) =~~= t);
    } else if t.drawn.len() == 0 {
        assert(u.drawn.len() == t.extra.len() && u.extra.len() == 0);
        assert(crate::model::draw_step(u).extra =~= t.extra) by {
            assert forall|i: int| 0 <= i < t.extra.len() implies all_faces(
                u.drawn.reverse(),
                false,
            )[i] == t.extra[i] by {
                assert(u.drawn.reverse()[i] == with_face(t.extra[i], true));
                assert(t.extra[i].is_face_up == false);
            }
        }
        assert(crate::model::draw_step(u).drawn =~= t.drawn);
        assert(crate::model::draw_step(u) =~~= t);
    } else {
        assert(u.extra.last() == with_face(t.drawn.last(), false));
        assert(t.drawn.last().is_face_up == true);
        assert(crate::model::draw_step(u).drawn =~= t.drawn);
        assert(crate::model::draw_step(u).extra =~= t.extra);
        assert(crate::model::draw_step(u) =~~= t);
    }
}

/// The forced reverse transfer returns a moved run to its source pile.
proof fn lemma_roundtrip_run_move(t: TablesView, fs: int, fc: int, ts: int, tc: int)
    requires
        t.wf(),
        crate::model::run_move_ok(t, fs, fc, ts, tc),
    ensures
        crate::model::force_move_step(crate::model::run_transfer(t, fs, fc, ts), ts, tc, fs) == t,
{
    let u = crate::model::run_transfer(t, fs, fc, ts);
    let run = t.playing[fs].skip(fc);
    assert(u.playing[ts] == t.playing[ts] + run);
    assert(u.playing[ts].len() == tc + run.len() && run.len() > 0);
    assert(u.playing[ts].skip(tc) =~= run);
    assert(crate::model::force_move_step(u, ts, tc, fs).playing[fs] =~= t.playing[fs]);
    assert(crate::model::force_move_step(u, ts, tc, fs).playing[ts] =~= t.playing[ts]);
    assert(crate::model::force_move_step(u, ts, tc, fs) =~~= t);
}

/// Executing any single action on a reachable table whose waste lies face
/// up, and then applying the structurally inverse operation, restores every
/// pile to its prior state, provided the inverse operation itself succeeds
/// (the engine's undo silently leaves the table alone where it does not).
pub proof fn lemma_do_undo_roundtrip(t: TablesView, a: GameAction)
    requires
        table_inv(t),
        faces_are(t.drawn, true),
        action_wf(a),
        action_ok(a, t),
        undo_action_ok(a, apply_action(a, t)),
    ensures
        undo_action_step(a, apply_action(a, t)) == t,
{
    let u = apply_action(a, t);
    match a {
        GameAction::DrawCard => {
            lemma_roundtrip_draw(t);
        },
        GameAction::UnDraw => {
            lemma_roundtrip_undraw(t);
        },
        GameAction::MoveToPlayingFromFoundation(pu, fu) => {
            let p = pu as int;
            let f = fu as int;
            assert(u.playing[p].last() == t.foundation[f].last());
            assert(crate::model::playing_to_foundation_step(u, p, f).playing[p] =~= t.playing[p]);
            assert(crate::model::playing_to_foundation_step(u, p, f).foundation[f]
                =~= t.foundation[f]);
            assert(undo_action_step(a, u) =~~= t);
        },
        GameAction::MoveToFoundationFromPlaying(pu, fu) => {
            let p = pu as int;
            let f = fu as int;
            assert(u.foundation[f].last() == t.playing[p].last());
            assert(crate::model::foundation_to_playing_step(u, p, f).playing[p] =~= t.playing[p]);
            assert(crate::model::foundation_to_playing_step(u, p, f).foundation[f]
                =~= t.foundation[f]);
            assert(undo_action_step(a, u) =~~= t);
        },
        GameAction::MoveToPlayingFromDrawn(pu) => {
            let p = pu as int;
            assert(u.playing[p].last() == t.drawn.last());
            assert(crate::model::playing_to_drawn_step(u, p).playing[p] =~= t.playing[p]);
            assert(crate::model::playing_to_drawn_step(u, p).drawn =~= t.drawn);
            assert(undo_action_step(a, u) =~~= t);
        },
        GameAction::MoveToDrawnFromPlaying(pu) => {
            let p = pu as int;
            assert(u.drawn.last() == t.playing[p].last());
            assert(crate::model::drawn_to_playing_step(u, p).playing[p] =~= t.playing[p]);
            assert(crate::model::drawn_to_playing_step(u, p).drawn =~= t.drawn);
            assert(undo_action_step(a, u) =~~= t);
        },
        GameAction::MoveToDrawFromFoundation(fu) => {
            let f = fu as int;
            assert(u.drawn.last() == t.foundation[f].last());
            assert(crate::model::drawn_to_foundation_step(u, f).foundation[f] =~= t.foundation[f]);
            assert(crate::model::drawn_to_foundation_step(u, f).drawn =~= t.drawn);
            assert(undo_action_step(a, u) =~~= t);
        },
        GameAction::MoveToFoundationFromDrawn(fu) => {
            let f = fu as int;
            assert(u.foundation[f].last() == t.drawn.last());
            assert(crate::model::foundation_to_drawn_step(u, f).foundation[f] =~= t.foundation[f]);
            assert(crate::model::foundation_to_drawn_step(u, f).drawn =~= t.drawn);
            assert(undo_action_step(a, u) =~~= t);
        },
        GameAction::MoveToPlayingFromPlaying(fsu, fcu, tsu, tcu) => {
            lemma_roundtrip_run_move(t, fsu as int, fcu as int, tsu as int, tcu as int);
        },
        GameAction::ShowCard(pu) => {
            lemma_set_face_roundtrip(t, pu as int, true);
        },
        GameAction::HideCard(pu) => {
            lemma_set_face_roundtrip(t, pu as int, false);
        },
    }
}

/// One committed non-visibility action followed by one undo restores both
/// the action log and every pile to their prior state.
pub proof fn lemma_execute_undo_restores(h: Seq<GameAction>, t: TablesView, a: GameAction)
    requires
        table_inv(t),
        faces_are(t.drawn, true),
        action_wf(a),
        action_ok(a, t),
        undo_action_ok(a, apply_action(a, t)),
        !(a matches GameAction::ShowCard(_)),
        !(a matches GameAction::HideCard(_)),
    ensures
        unwind_history(h.push(a), apply_action(a, t)) == (h, t),
{
    lemma_do_undo_roundtrip(t, a);
    let logged = h.push(a);
    assert(logged.last() == a);
    assert(logged.drop_last() =~= h);
}

/// The reveal composite: a committed action followed by a committed
/// visibility change on some pile is wholly reversed by a single undo, which
/// first turns the card back over and then undoes the action beneath.
pub proof fn lemma_composite_show_undo_restores(
    h: Seq<GameAction>,
    t: TablesView,
    a: GameAction,
    p: usize,
)
    requires
        table_inv(t),
        faces_are(t.drawn, true),
        action_wf(a),
        action_ok(a, t),
        undo_action_ok(a, apply_action(a, t)),
        !(a matches GameAction::ShowCard(_)),
        !(a matches GameAction::HideCard(_)),
        p < 7,
        set_face_ok(apply_action(a, t), p as int, true),
    ensures
        unwind_history(
            h.push(a).push(GameAction::ShowCard(p)),
            set_face_step(apply_action(a, t), p as int, true),
        ) == (h, t),
{
    let u = apply_action(a, t);
    lemma_set_face_roundtrip(u, p as int, true);
    lemma_execute_undo_restores(h, t, a);
    let logged = h.push(a).push(GameAction::ShowCard(p));
    assert(logged.last() == GameAction::ShowCard(p));
    assert(logged.drop_last() =~= h.push(a));
}

// ---------------------------------------------------------------------------
// Boundary behaviour of the draw.
// ---------------------------------------------------------------------------

/// Drawing with stock and waste both empty is a no-op that still succeeds
/// (and is still logged as a draw).
pub proof fn lemma_draw_on_empty_is_noop(t: TablesView)
    requires
        t.extra.len() == 0,
        t.drawn.len() == 0,
    ensures
        action_ok(GameAction::DrawCard, t),
        apply_action(GameAction::DrawCard, t) == t,
{
}

/// Drawing with an empty stock and a non-empty waste recycles: the whole
/// waste becomes the stock in reverse order, every card turned face down,
/// and no other pile moves.
pub proof fn lemma_draw_recycles(t: TablesView)
    requires
        t.extra.len() == 0,
        t.drawn.len() > 0,
    ensures
        action_ok(GameAction::DrawCard, t),
        apply_action(GameAction::DrawCard, t).extra == all_faces(t.drawn.reverse(), false),
        apply_action(GameAction::DrawCard, t).drawn.len() == 0,
        apply_action(GameAction::DrawCard, t).playing == t.playing,
        apply_action(GameAction::DrawCard, t).foundation == t.foundation,
{
}

} // verus!
