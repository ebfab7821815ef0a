use vstd::prelude::*;

pub mod deck;
pub mod laws;
pub mod model;

pub use deck::Card;
pub use deck::CardSymbol;
pub use deck::CardValue;

pub use deck::new_shuffled_deck;
use crate::model::TablesView;
use crate::model::action_ok;
use crate::model::action_wf;
use crate::model::all_cards;
use crate::model::all_faces;
use crate::model::apply_action;
use crate::model::apply_all;
use crate::model::command_actions;
use crate::model::draw_step;
use crate::model::drawn_to_foundation_ok;
use crate::model::drawn_to_foundation_step;
use crate::model::drawn_to_playing_ok;
use crate::model::drawn_to_playing_step;
use crate::model::first_foundation_from_drawn;
use crate::model::first_foundation_from_playing;
use crate::model::first_playing_from_drawn;
use crate::model::first_run_destination;
use crate::model::follows_on_foundation;
use crate::model::follows_on_tableau;
use crate::model::force_move_step;
use crate::model::foundation_to_drawn_ok;
use crate::model::foundation_to_drawn_step;
use crate::model::foundation_to_playing_ok;
use crate::model::foundation_to_playing_step;
use crate::model::lemma_apply_one;
use crate::model::lemma_apply_two;
use crate::model::lemma_pile_ids_drop_last;
use crate::model::lemma_pile_ids_empty;
use crate::model::lemma_pile_ids_push;
use crate::model::lemma_pile_ids_update;
use crate::model::pile_ids;
use crate::model::playing_to_drawn_ok;
use crate::model::playing_to_drawn_step;
use crate::model::playing_to_foundation_ok;
use crate::model::playing_to_foundation_step;
use crate::model::run_move_ok;
use crate::model::run_transfer;
use crate::model::set_face_ok;
use crate::model::set_face_step;
use crate::model::table_inv;
use crate::model::tableau_alternating;
use crate::model::undraw_step;
use crate::model::unwind_history;
use crate::model::with_face;

verus! {

/// One request to the rules engine, and likewise the record of one committed
/// transition kept in the action log. Pile arguments are indices into the
/// tableau group (0-6) or the foundation group (0-3); the run move names the
/// source pile and card row, then the destination pile and card row.
#[derive(Clone, Copy, Debug)]
pub enum GameAction {
    DrawCard,
    UnDraw,
    MoveToPlayingFromFoundation(usize, usize),
    MoveToFoundationFromPlaying(usize, usize),
    MoveToPlayingFromDrawn(usize),
    MoveToDrawnFromPlaying(usize),
    MoveToDrawFromFoundation(usize),
    MoveToFoundationFromDrawn(usize),
    MoveToPlayingFromPlaying(usize, usize, usize, usize),
    ShowCard(usize),
    HideCard(usize),
}

/// The four pile groups the engine plays on: seven tableau piles,
/// four foundation piles, the face-down stock, and the face-up waste.
pub struct GameTables {
    pub playing_table: Vec<Vec<Card>>,
    pub foundation_table: Vec<Vec<Card>>,
    pub extra_table: Vec<Card>,
    pub drawn_table: Vec<Card>,
}

impl GameTables {
    /// The fixed pile counts: seven tableau piles and four foundations.
    pub open spec fn wf(&self) -> bool {
        self.playing_table@.len() == 7 && self.foundation_table@.len() == 4
    }
}

impl View for GameTables {
    type V = TablesView;

    open spec fn view(&self) -> TablesView {
        TablesView {
            playing: self.playing_table@.map_values(|v: Vec<Card>| v@),
            foundation: self.foundation_table@.map_values(|v: Vec<Card>| v@),
            extra: self.extra_table@,
            drawn: self.drawn_table@,
        }
    }
}

/// One game session: the table being played on and the log of committed
/// actions, most recent last.
pub struct GameData {
    pub action_history: Vec<GameAction>,
    pub tables: GameTables,
}

impl GameData {
    /// Pile counts are the fixed ones and every logged action names piles
    /// that exist.
    pub open spec fn wf(&self) -> bool {
        self.tables.wf() && forall|i: int|
            0 <= i < self.action_history@.len() ==> action_wf(#[trigger] self.action_history@[i])
    }
}

/// Foundation acceptance between two cards: same suit and the contender's
/// rank immediately follows the receiver's.
fn can_follow_foundation_card(this: &Card, other: &Card) -> (r: bool)
    ensures
        r == follows_on_foundation(*this, *other),
{
    this.symbol == other.symbol && other.value.is_followed_by(this.value)
}

/// Tableau acceptance between two cards: opposite colors and the contender
/// exactly one rank below the receiver.
fn can_follow_playing_card(this: &Card, other: &Card) -> (r: bool)
    ensures
        r == follows_on_tableau(*this, *other),
{
    this.get_color() != other.get_color() && this.value.is_followed_by(other.value)
}

/// Deals one tableau pile of `count` cards from the back of the deck, the
/// dealt top card turned face up and the rest kept face down.
fn deal_pile(deck: &mut Vec<Card>, count: usize) -> (pile: Vec<Card>)
    requires
        1 <= count <= old(deck)@.len(),
        forall|k: int| 0 <= k < old(deck)@.len() ==> !(#[trigger] old(deck)@[k]).is_face_up,
    ensures
        final(deck)@ == old(deck)@.take(old(deck)@.len() - count),
        pile@.len() == count,
        forall|k: int| 0 <= k < count - 1 ==> !(#[trigger] pile@[k]).is_face_up,
        pile@.last().is_face_up,
        pile_ids(pile@).add(pile_ids(final(deck)@)) == pile_ids(old(deck)@),
{
    let ghost orig = deck@;
    let mut pile: Vec<Card> = Vec::new();
    proof {
        lemma_pile_ids_empty();
        assert(pile_ids(pile@).add(pile_ids(deck@)) =~= pile_ids(orig));
        assert(deck@ =~= orig.take(deck@.len() as int));
    }

    for j in 0..count
        invariant
            1 <= count <= orig.len(),
            orig == old(deck)@,
            forall|k: int| 0 <= k < orig.len() ==> !(#[trigger] orig[k]).is_face_up,
            deck@.len() == orig.len() - j,
            deck@ == orig.take(deck@.len() as int),
            pile@.len() == j,
            forall|k: int| 0 <= k < pile@.len() ==> !(#[trigger] pile@[k]).is_face_up,
            pile_ids(pile@).add(pile_ids(deck@)) == pile_ids(orig),
    {
        let ghost deck0 = deck@;
        let ghost pile0 = pile@;
        let card = deck.pop().unwrap();
        pile.push(card);
        proof {
            assert(deck0[deck0.len() - 1] == orig[deck0.len() - 1]);
            assert(!(orig[deck0.len() - 1]).is_face_up);
            assert(deck@ =~= orig.take(deck@.len() as int));
            lemma_pile_ids_drop_last(deck0);
            lemma_pile_ids_push(pile0, card);
            assert(pile_ids(pile@).add(pile_ids(deck@)) =~= pile_ids(orig));
        }
    }

    let top_index = pile.len() - 1;
    let ghost dealt = pile@;
    let mut top = pile[top_index];
    top.is_face_up = true;
    pile[top_index] = top;
    proof {
        lemma_pile_ids_update(dealt, top_index as int, top);
    }
    pile
}

impl GameData {
    /// Builds a freshly dealt game from a deck shuffled `shuffle_times`
    /// times: tableau pile `p` holds `p + 1` cards with only its top face
    /// up, the 24 remaining cards form the face-down stock, and the waste,
    /// the foundations and the action log start empty. The full 52-card set
    /// is partitioned across the piles.
    pub fn new(shuffle_times: i32) -> (game: GameData)
        ensures
            game.wf(),
            game.action_history@.len() == 0,
            forall|p: int| 0 <= p < 7 ==> (#[trigger] game.tables@.playing[p]).len() == p + 1,
            forall|p: int, k: int|
                0 <= p < 7 && 0 <= k < p ==> !(#[trigger] game.tables@.playing[p][k]).is_face_up,
            forall|p: int| 0 <= p < 7 ==> (#[trigger] game.tables@.playing[p]).last().is_face_up,
            game.tables@.extra.len() == 24,
            game.tables@.drawn.len() == 0,
            forall|f: int| 0 <= f < 4 ==> (#[trigger] game.tables@.foundation[f]).len() == 0,
            table_inv(game.tables@),
    {
        let mut deck = new_shuffled_deck(shuffle_times);
        let ghost shuffled = deck@;

        let mut playing_table: Vec<Vec<Card>> = Vec::new();
        let pile0 = deal_pile(&mut deck, 1);
        playing_table.push(pile0);
        let pile1 = deal_pile(&mut deck, 2);
        playing_table.push(pile1);
        let pile2 = deal_pile(&mut deck, 3);
        playing_table.push(pile2);
        let pile3 = deal_pile(&mut deck, 4);
        playing_table.push(pile3);
        let pile4 = deal_pile(&mut deck, 5);
        playing_table.push(pile4);
        let pile5 = deal_pile(&mut deck, 6);
        playing_table.push(pile5);
        let pile6 = deal_pile(&mut deck, 7);
        playing_table.push(pile6);

        let mut foundation_table: Vec<Vec<Card>> = Vec::new();
        foundation_table.push(Vec::new());
        foundation_table.push(Vec::new());
        foundation_table.push(Vec::new());
        foundation_table.push(Vec::new());

        let drawn_table: Vec<Card> = Vec::new();
        let action_history: Vec<GameAction> = Vec::new();

        let game = GameData {
            action_history,
            tables: GameTables { playing_table, foundation_table, extra_table: deck, drawn_table },
        };

        proof {
            let t = game.tables@;
            lemma_pile_ids_empty();
            assert(all_cards(t) =~= pile_ids(shuffled));
            assert(forall|p: int|
                0 <= p < 7 ==> tableau_alternating(#[trigger] t.playing[p])) by {
                assert forall|p: int| 0 <= p < 7 implies tableau_alternating(
                    #[trigger] t.playing[p],
                ) by {
                    assert(forall|i: int|
                        0 <= i < t.playing[p].len() - 1 ==> !(#[trigger] t.playing[p][i])
                            .is_face_up);
                }
            }
        }

        game
    }

    /// Draw: a no-op when stock and waste are both empty, a recycle when only
    /// the stock is empty, otherwise one card from stock to waste, face up.
    /// It always succeeds, echoing the request.
    fn draw(&mut self, action: GameAction) -> (r: Result<GameAction, String>)
        requires
            old(self).tables.wf(),
        ensures
            final(self).tables.wf(),
            final(self).action_history == old(self).action_history,
            final(self).tables@ == draw_step(old(self).tables@),
            r == Result::<GameAction, String>::Ok(action),
    {
        if self.tables.extra_table.is_empty() && self.tables.drawn_table.is_empty() {
            return Ok(action);
        }

        if self.tables.extra_table.is_empty() {
            let ghost orig = self.tables.drawn_table@;
            while self.tables.drawn_table.len() > 0
                invariant
                    orig == old(self).tables.drawn_table@,
                    old(self).tables.extra_table@.len() == 0,
                    self.tables.playing_table == old(self).tables.playing_table,
                    self.tables.foundation_table == old(self).tables.foundation_table,
                    self.action_history == old(self).action_history,
                    self.tables.drawn_table@.len() <= orig.len(),
                    self.tables.drawn_table@ == orig.take(self.tables.drawn_table@.len() as int),
                    self.tables.extra_table@ =~= all_faces(
                        orig.skip(self.tables.drawn_table@.len() as int).reverse(),
                        false,
                    ),
                decreases self.tables.drawn_table.len(),
            {
                let ghost drawn0 = self.tables.drawn_table@;
                let ghost extra0 = self.tables.extra_table@;
                let ghost m0 = drawn0.len() as int;
                let mut card = self.tables.drawn_table.pop().unwrap();
                card.is_face_up = false;
                self.tables.extra_table.push(card);
                proof {
                    assert(drawn0 == orig.take(m0));
                    assert(drawn0[m0 - 1] == orig[m0 - 1]);
                    assert(card == with_face(orig[m0 - 1], false));
                    assert(self.tables.drawn_table@ =~= orig.take(m0 - 1));
                    assert(self.tables.extra_table@ == extra0.push(card));
                    assert(self.tables.extra_table@ =~= all_faces(
                        orig.skip(m0 - 1).reverse(),
                        false,
                    ));
                }
            }
            proof {
                assert(self.tables.extra_table@ =~= all_faces(orig.reverse(), false)) by {
                    assert(orig.skip(0) =~= orig);
                }
                assert(self.tables.drawn_table@ =~= Seq::<Card>::empty());
                assert(self.tables@ =~= draw_step(old(self).tables@));
            }
            return Ok(action);
        }

        let mut card = self.tables.extra_table.pop().unwrap();
        card.is_face_up = true;
        self.tables.drawn_table.push(card);
        proof {
            assert(self.tables@ =~= draw_step(old(self).tables@));
        }
        Ok(action)
    }

    /// Undraw, the symmetric inverse of draw: one card back from waste to
    /// stock, face down, or the reverse recycle. It always succeeds.
    fn undraw(&mut self, action: GameAction) -> (r: Result<GameAction, String>)
        requires
            old(self).tables.wf(),
        ensures
            final(self).tables.wf(),
            final(self).action_history == old(self).action_history,
            final(self).tables@ == undraw_step(old(self).tables@),
            r == Result::<GameAction, String>::Ok(action),
    {
        if self.tables.extra_table.is_empty() && self.tables.drawn_table.is_empty() {
            return Ok(action);
        }

        if self.tables.drawn_table.is_empty() {
            let ghost orig = self.tables.extra_table@;
            while self.tables.extra_table.len() > 0
                invariant
                    orig == old(self).tables.extra_table@,
                    old(self).tables.drawn_table@.len() == 0,
                    self.tables.playing_table == old(self).tables.playing_table,
                    self.tables.foundation_table == old(self).tables.foundation_table,
                    self.action_history == old(self).action_history,
                    self.tables.extra_table@.len() <= orig.len(),
                    self.tables.extra_table@ == orig.take(self.tables.extra_table@.len() as int),
                    self.tables.drawn_table@ =~= all_faces(
                        orig.skip(self.tables.extra_table@.len() as int).reverse(),
                        true,
                    ),
                decreases self.tables.extra_table.len(),
            {
                let mut card = self.tables.extra_table.pop().unwrap();
                card.is_face_up = true;
                self.tables.drawn_table.push(card);
                proof {
                    let m = self.tables.extra_table@.len() as int;
                    assert(self.tables.extra_table@ =~= orig.take(m));
                    assert(self.tables.drawn_table@ =~= all_faces(orig.skip(m).reverse(), true));
                }
            }
            proof {
                assert(self.tables.drawn_table@ =~= all_faces(orig.reverse(), true)) by {
                    assert(orig.skip(0) =~= orig);
                }
                assert(self.tables.extra_table@ =~= Seq::<Card>::empty());
                assert(self.tables@ =~= undraw_step(old(self).tables@));
            }
            return Ok(action);
        }

        let mut card = self.tables.drawn_table.pop().unwrap();
        card.is_face_up = false;
        self.tables.extra_table.push(card);
        proof {
            assert(self.tables@ =~= undraw_step(old(self).tables@));
        }
        Ok(action)
    }

    /// Moves the top of the waste onto foundation `foundation_stack` when
    /// that foundation accepts it (an Ace when empty, else the same-suit
    /// immediate successor of its top); fails without mutating otherwise.
    fn move_to_foundation_from_drawn(&mut self, foundation_stack: usize) -> (r: Result<
        GameAction,
        String,
    >)
        requires
            old(self).tables.wf(),
            foundation_stack < 4,
        ensures
            final(self).tables.wf(),
            final(self).action_history == old(self).action_history,
            drawn_to_foundation_ok(old(self).tables@, foundation_stack as int) ==> {
                &&& final(self).tables@ == drawn_to_foundation_step(
                    old(self).tables@,
                    foundation_stack as int,
                )
                &&& r == Result::<GameAction, String>::Ok(
                    GameAction::MoveToFoundationFromDrawn(foundation_stack),
                )
            },
            !drawn_to_foundation_ok(old(self).tables@, foundation_stack as int) ==> {
                &&& final(self).tables@ == old(self).tables@
                &&& r is Err
            },
    {
        if self.tables.drawn_table.len() == 0 {
            return Err("Draw Stack is empty!".to_owned());
        }

        let contender_card = self.tables.drawn_table.pop().unwrap();

        if self.tables.foundation_table[foundation_stack].len() == 0 {
            if matches!(contender_card.value, CardValue::Ace) {
                self.tables.foundation_table[foundation_stack].push(contender_card);
                proof {
                    assert(self.tables@ =~= drawn_to_foundation_step(
                        old(self).tables@,
                        foundation_stack as int,
                    ));
                }
                return Ok(GameAction::MoveToFoundationFromDrawn(foundation_stack));
            } else {
                self.tables.drawn_table.push(contender_card);
                proof {
                    assert(self.tables@ =~~= old(self).tables@);
                }
                return Err("Card cannot go on an empty foundation stack".to_owned());
            }
        }

        let last = self.tables.foundation_table[foundation_stack].len() - 1;
        let receiver_card = self.tables.foundation_table[foundation_stack][last];

        if !can_follow_foundation_card(&contender_card, &receiver_card) {
            self.tables.drawn_table.push(contender_card);
            proof {
                assert(self.tables@ =~~= old(self).tables@);
            }
            return Err("Card cannot follow the foundation's top card".to_owned());
        }

        self.tables.foundation_table[foundation_stack].push(contender_card);
        proof {
            assert(self.tables@ =~= drawn_to_foundation_step(
                old(self).tables@,
                foundation_stack as int,
            ));
        }
        Ok(GameAction::MoveToFoundationFromDrawn(foundation_stack))
    }

    /// Moves the top of foundation `foundation_stack` onto the waste; this
    /// undraw-style inverse performs no legality check and fails only when
    /// the foundation is empty.
    fn move_to_draw_from_foundation(&mut self, foundation_stack: usize) -> (r: Result<
        GameAction,
        String,
    >)
        requires
            old(self).tables.wf(),
            foundation_stack < 4,
        ensures
            final(self).tables.wf(),
            final(self).action_history == old(self).action_history,
            foundation_to_drawn_ok(old(self).tables@, foundation_stack as int) ==> {
                &&& final(self).tables@ == foundation_to_drawn_step(
                    old(self).tables@,
                    foundation_stack as int,
                )
                &&& r == Result::<GameAction, String>::Ok(
                    GameAction::MoveToDrawFromFoundation(foundation_stack),
                )
            },
            !foundation_to_drawn_ok(old(self).tables@, foundation_stack as int) ==> {
                &&& final(self).tables@ == old(self).tables@
                &&& r is Err
            },
    {
        match self.tables.foundation_table[foundation_stack].pop() {
            Some(c) => {
                self.tables.drawn_table.push(c);
                proof {
                    assert(self.tables@ =~= foundation_to_drawn_step(
                        old(self).tables@,
                        foundation_stack as int,
                    ));
                }
                Ok(GameAction::MoveToDrawFromFoundation(foundation_stack))
            },
            None => {
                proof {
                    assert(self.tables@ =~~= old(self).tables@);
                }
                Err("Illegal Move!".to_owned())
            },
        }
    }

    /// Moves the top of tableau pile `playing_stack` onto foundation
    /// `foundation_stack` when that foundation accepts it; fails without
    /// mutating otherwise.
    fn move_to_foundation_from_playing(
        &mut self,
        playing_stack: usize,
        foundation_stack: usize,
    ) -> (r: Result<GameAction, String>)
        requires
            old(self).tables.wf(),
            playing_stack < 7,
            foundation_stack < 4,
        ensures
            final(self).tables.wf(),
            final(self).action_history == old(self).action_history,
            playing_to_foundation_ok(
                old(self).tables@,
                playing_stack as int,
                foundation_stack as int,
            ) ==> {
                &&& final(self).tables@ == playing_to_foundation_step(
                    old(self).tables@,
                    playing_stack as int,
                    foundation_stack as int,
                )
                &&& r == Result::<GameAction, String>::Ok(
                    GameAction::MoveToFoundationFromPlaying(playing_stack, foundation_stack),
                )
            },
            !playing_to_foundation_ok(
                old(self).tables@,
                playing_stack as int,
                foundation_stack as int,
            ) ==> {
                &&& final(self).tables@ == old(self).tables@
                &&& r is Err
            },
    {
        let contender_card = match self.tables.playing_table[playing_stack].pop() {
            Some(x) => x,
            None => {
                proof {
                    assert(self.tables@ =~~= old(self).tables@);
                }
                return Err("Card stack is empty!".to_owned());
            },
        };

        if self.tables.foundation_table[foundation_stack].len() == 0 {
            if matches!(contender_card.value, CardValue::Ace) {
                self.tables.foundation_table[foundation_stack].push(contender_card);
                proof {
                    assert(self.tables@ =~= playing_to_foundation_step(
                        old(self).tables@,
                        playing_stack as int,
                        foundation_stack as int,
                    ));
                }
                return Ok(GameAction::MoveToFoundationFromPlaying(
                    playing_stack,
                    foundation_stack,
                ));
            } else {
                self.tables.playing_table[playing_stack].push(contender_card);
                proof {
                    assert(self.tables@ =~~= old(self).tables@);
                }
                return Err("Foundation Stack is empty!".to_owned());
            }
        }

        let last = self.tables.foundation_table[foundation_stack].len() - 1;
        let receiver_card = self.tables.foundation_table[foundation_stack][last];

        if !can_follow_foundation_card(&contender_card, &receiver_card) {
            self.tables.playing_table[playing_stack].push(contender_card);
            proof {
                assert(self.tables@ =~~= old(self).tables@);
            }
            return Err("Invalid move!".to_owned());
        }

        self.tables.foundation_table[foundation_stack].push(contender_card);
        proof {
            assert(self.tables@ =~= playing_to_foundation_step(
                old(self).tables@,
                playing_stack as int,
                foundation_stack as int,
            ));
        }
        Ok(GameAction::MoveToFoundationFromPlaying(playing_stack, foundation_stack))
    }

    /// Moves the top of foundation `foundation_stack` onto tableau pile
    /// `playing_stack`. An empty tableau pile accepts any card here (the
    /// engine's deliberate asymmetry with the waste-to-tableau path); a
    /// non-empty pile demands the tableau rule. Fails without mutating
    /// otherwise.
    fn move_to_playing_from_foundation(
        &mut self,
        playing_stack: usize,
        foundation_stack: usize,
    ) -> (r: Result<GameAction, String>)
        requires
            old(self).tables.wf(),
            playing_stack < 7,
            foundation_stack < 4,
        ensures
            final(self).tables.wf(),
            final(self).action_history == old(self).action_history,
            foundation_to_playing_ok(
                old(self).tables@,
                playing_stack as int,
                foundation_stack as int,
            ) ==> {
                &&& final(self).tables@ == foundation_to_playing_step(
                    old(self).tables@,
                    playing_stack as int,
                    foundation_stack as int,
                )
                &&& r == Result::<GameAction, String>::Ok(
                    GameAction::MoveToPlayingFromFoundation(playing_stack, foundation_stack),
                )
            },
            !foundation_to_playing_ok(
                old(self).tables@,
                playing_stack as int,
                foundation_stack as int,
            ) ==> {
                &&& final(self).tables@ == old(self).tables@
                &&& r is Err
            },
    {
        let contender_card = match self.tables.foundation_table[foundation_stack].pop() {
            Some(x) => x,
            None => {
                proof {
                    assert(self.tables@ =~~= old(self).tables@);
                }
                return Err("Card stack is empty!".to_owned());
            },
        };

        if self.tables.playing_table[playing_stack].len() > 0 {
            let last = self.tables.playing_table[playing_stack].len() - 1;
            let receiver_card = self.tables.playing_table[playing_stack][last];
            if !can_follow_playing_card(&contender_card, &receiver_card) {
                self.tables.foundation_table[foundation_stack].push(contender_card);
                proof {
                    assert(self.tables@ =~~= old(self).tables@);
                }
                return Err("Invalid Move!".to_owned());
            }
        }

        self.tables.playing_table[playing_stack].push(contender_card);
        proof {
            assert(self.tables@ =~= foundation_to_playing_step(
                old(self).tables@,
                playing_stack as int,
                foundation_stack as int,
            ));
        }
        Ok(GameAction::MoveToPlayingFromFoundation(playing_stack, foundation_stack))
    }

    /// Moves the top of the waste onto tableau pile `playing_stack`: an empty
    /// pile demands a King, a non-empty pile the tableau rule. Fails without
    /// mutating otherwise.
    fn move_to_playing_from_drawn(&mut self, playing_stack: usize) -> (r: Result<
        GameAction,
        String,
    >)
        requires
            old(self).tables.wf(),
            playing_stack < 7,
        ensures
            final(self).tables.wf(),
            final(self).action_history == old(self).action_history,
            drawn_to_playing_ok(old(self).tables@, playing_stack as int) ==> {
                &&& final(self).tables@ == drawn_to_playing_step(
                    old(self).tables@,
                    playing_stack as int,
                )
                &&& r == Result::<GameAction, String>::Ok(
                    GameAction::MoveToPlayingFromDrawn(playing_stack),
                )
            },
            !drawn_to_playing_ok(old(self).tables@, playing_stack as int) ==> {
                &&& final(self).tables@ == old(self).tables@
                &&& r is Err
            },
    {
        let contender_card = match self.tables.drawn_table.pop() {
            Some(card) => card,
            None => {
                proof {
                    assert(self.tables@ =~~= old(self).tables@);
                }
                return Err("Card stack is empty!".to_owned());
            },
        };

        if self.tables.playing_table[playing_stack].is_empty() {
            if matches!(contender_card.value, CardValue::King) {
                self.tables.playing_table[playing_stack].push(contender_card);
                proof {
                    assert(self.tables@ =~= drawn_to_playing_step(
                        old(self).tables@,
                        playing_stack as int,
                    ));
                }
                return Ok(GameAction::MoveToPlayingFromDrawn(playing_stack));
            } else {
                self.tables.drawn_table.push(contender_card);
                proof {
                    assert(self.tables@ =~~= old(self).tables@);
                }
                return Err("Illegal move".to_owned());
            }
        }

        let last = self.tables.playing_table[playing_stack].len() - 1;
        let receiver_card = self.tables.playing_table[playing_stack][last];

        if !can_follow_playing_card(&contender_card, &receiver_card) {
            self.tables.drawn_table.push(contender_card);
            proof {
                assert(self.tables@ =~~= old(self).tables@);
            }
            return Err("Illegal move".to_owned());
        }

        self.tables.playing_table[playing_stack].push(contender_card);
        proof {
            assert(self.tables@ =~= drawn_to_playing_step(
                old(self).tables@,
                playing_stack as int,
            ));
        }
        Ok(GameAction::MoveToPlayingFromDrawn(playing_stack))
    }

    /// Moves the top of tableau pile `playing_stack` onto the waste
    /// unconditionally; fails only when the pile is empty.
    fn move_to_drawn_from_playing(&mut self, playing_stack: usize) -> (r: Result<
        GameAction,
        String,
    >)
        requires
            old(self).tables.wf(),
            playing_stack < 7,
        ensures
            final(self).tables.wf(),
            final(self).action_history == old(self).action_history,
            playing_to_drawn_ok(old(self).tables@, playing_stack as int) ==> {
                &&& final(self).tables@ == playing_to_drawn_step(
                    old(self).tables@,
                    playing_stack as int,
                )
                &&& r == Result::<GameAction, String>::Ok(
                    GameAction::MoveToDrawnFromPlaying(playing_stack),
                )
            },
            !playing_to_drawn_ok(old(self).tables@, playing_stack as int) ==> {
                &&& final(self).tables@ == old(self).tables@
                &&& r is Err
            },
    {
        let contender_card = match self.tables.playing_table[playing_stack].pop() {
            Some(card) => card,
            None => {
                proof {
                    assert(self.tables@ =~~= old(self).tables@);
                }
                return Err("Card stack is empty!".to_owned());
            },
        };

        self.tables.drawn_table.push(contender_card);
        proof {
            assert(self.tables@ =~= playing_to_drawn_step(
                old(self).tables@,
                playing_stack as int,
            ));
        }
        Ok(GameAction::MoveToDrawnFromPlaying(playing_stack))
    }

    /// Transfers every card from index `from_card` to the end of tableau pile
    /// `from_stack` onto the end of tableau pile `to_stack`, in order and
    /// without any legality check: the inverse used when a run move is
    /// undone. A no-op when `from_card` is past the end. Always succeeds.
    fn force_to_playing_from_playing(
        &mut self,
        from_stack: usize,
        from_card: usize,
        to_stack: usize,
        to_card: usize,
    ) -> (r: Result<GameAction, String>)
        requires
            old(self).tables.wf(),
            from_stack < 7,
            to_stack < 7,
            from_stack != to_stack,
        ensures
            final(self).tables.wf(),
            final(self).action_history == old(self).action_history,
            final(self).tables@ == force_move_step(
                old(self).tables@,
                from_stack as int,
                from_card as int,
                to_stack as int,
            ),
            r == Result::<GameAction, String>::Ok(
                GameAction::MoveToPlayingFromPlaying(from_stack, from_card, to_stack, to_card),
            ),
    {
        if from_card < self.tables.playing_table[from_stack].len() {
            let mut run = self.tables.playing_table[from_stack].split_off(from_card);
            self.tables.playing_table[to_stack].append(&mut run);
            proof {
                assert(self.tables@ =~= run_transfer(
                    old(self).tables@,
                    from_stack as int,
                    from_card as int,
                    to_stack as int,
                ));
            }
        }
        Ok(GameAction::MoveToPlayingFromPlaying(from_stack, from_card, to_stack, to_card))
    }

    /// The tableau-to-tableau run move: checks that the destination row is
    /// the current end of the destination pile, that the source card exists
    /// and is face up, and that the destination accepts it (King-gated when
    /// empty); then transfers the whole run from `from_card` to the end of
    /// the source pile, in order. Fails without mutating otherwise.
    fn move_to_playing_from_playing(
        &mut self,
        from_stack: usize,
        from_card: usize,
        to_stack: usize,
        to_card: usize,
    ) -> (r: Result<GameAction, String>)
        requires
            old(self).tables.wf(),
            from_stack < 7,
            to_stack < 7,
        ensures
            final(self).tables.wf(),
            final(self).action_history == old(self).action_history,
            run_move_ok(
                old(self).tables@,
                from_stack as int,
                from_card as int,
                to_stack as int,
                to_card as int,
            ) ==> {
                &&& final(self).tables@ == run_transfer(
                    old(self).tables@,
                    from_stack as int,
                    from_card as int,
                    to_stack as int,
                )
                &&& r == Result::<GameAction, String>::Ok(
                    GameAction::MoveToPlayingFromPlaying(
                        from_stack,
                        from_card,
                        to_stack,
                        to_card,
                    ),
                )
            },
            !run_move_ok(
                old(self).tables@,
                from_stack as int,
                from_card as int,
                to_stack as int,
                to_card as int,
            ) ==> {
                &&& final(self).tables@ == old(self).tables@
                &&& r is Err
            },
    {
        if from_stack == to_stack {
            return Err("Cannot move to the same stack!".to_owned());
        }

        if to_card != self.tables.playing_table[to_stack].len() {
            return Err("Illegal card indexes, to_card index should be the pile's end".to_owned());
        }

        if from_card >= self.tables.playing_table[from_stack].len() {
            return Err("Illegal card indexes, from_card index out of bounds".to_owned());
        }

        let contender_card = self.tables.playing_table[from_stack][from_card];

        if !contender_card.is_face_up {
            return Err("Card should be face up!".to_owned());
        }

        if self.tables.playing_table[to_stack].len() == 0 {
            if matches!(contender_card.value, CardValue::King) {
                let mut run = self.tables.playing_table[from_stack].split_off(from_card);
                self.tables.playing_table[to_stack].append(&mut run);
                proof {
                    assert(self.tables@ =~= run_transfer(
                        old(self).tables@,
                        from_stack as int,
                        from_card as int,
                        to_stack as int,
                    ));
                }
                return Ok(GameAction::MoveToPlayingFromPlaying(
                    from_stack,
                    from_card,
                    to_stack,
                    to_card,
                ));
            } else {
                return Err("Illegal Move!".to_owned());
            }
        }

        let receiver_card = self.tables.playing_table[to_stack][to_card - 1];

        if !can_follow_playing_card(&contender_card, &receiver_card) {
            return Err("Illegal Move! The card cannot rest on that top card".to_owned());
        }

        let mut run = self.tables.playing_table[from_stack].split_off(from_card);
        self.tables.playing_table[to_stack].append(&mut run);
        proof {
            assert(self.tables@ =~= run_transfer(
                old(self).tables@,
                from_stack as int,
                from_card as int,
                to_stack as int,
            ));
        }
        Ok(GameAction::MoveToPlayingFromPlaying(from_stack, from_card, to_stack, to_card))
    }

    /// Sets the face flag of the top card of tableau pile `playing_stack` to
    /// `visible`; fails without mutating when the pile is empty or the card
    /// already shows the requested visibility.
    fn set_card_visibility(&mut self, playing_stack: usize, visible: bool) -> (r: Result<
        GameAction,
        String,
    >)
        requires
            old(self).tables.wf(),
            playing_stack < 7,
        ensures
            final(self).tables.wf(),
            final(self).action_history == old(self).action_history,
            set_face_ok(old(self).tables@, playing_stack as int, visible) ==> {
                &&& final(self).tables@ == set_face_step(
                    old(self).tables@,
                    playing_stack as int,
                    visible,
                )
                &&& r == Result::<GameAction, String>::Ok(
                    if visible {
                        GameAction::ShowCard(playing_stack)
                    } else {
                        GameAction::HideCard(playing_stack)
                    },
                )
            },
            !set_face_ok(old(self).tables@, playing_stack as int, visible) ==> {
                &&& final(self).tables@ == old(self).tables@
                &&& r is Err
            },
    {
        let length = self.tables.playing_table[playing_stack].len();

        if length == 0 {
            return Err("Stack is empty!".to_owned());
        }

        let card = self.tables.playing_table[playing_stack][length - 1];

        if card.is_face_up == visible {
            return Err("Card already at the requested visibility".to_owned());
        }

        let mut shown = card;
        shown.is_face_up = visible;
        self.tables.playing_table[playing_stack][length - 1] = shown;
        proof {
            assert(self.tables@ =~= set_face_step(
                old(self).tables@,
                playing_stack as int,
                visible,
            ));
        }

        if visible {
            Ok(GameAction::ShowCard(playing_stack))
        } else {
            Ok(GameAction::HideCard(playing_stack))
        }
    }

    /// Validates and executes one action request. On success the committed
    /// action is echoed back and appended to the action log; on failure the
    /// table and the log are unchanged and a descriptive error is returned.
    pub fn do_(&mut self, action: GameAction) -> (r: Result<GameAction, String>)
        requires
            old(self).wf(),
            action_wf(action),
        ensures
            final(self).wf(),
            final(self).tables@ == if action_ok(action, old(self).tables@) {
                apply_action(action, old(self).tables@)
            } else {
                old(self).tables@
            },
            action_ok(action, old(self).tables@) ==> {
                &&& r == Result::<GameAction, String>::Ok(action)
                &&& final(self).action_history@ == old(self).action_history@.push(action)
            },
            !action_ok(action, old(self).tables@) ==> {
                &&& r is Err
                &&& final(self).action_history == old(self).action_history
            },
    {
        let outcome = match action {
            GameAction::DrawCard => self.draw(action),
            GameAction::UnDraw => self.undraw(action),
            GameAction::MoveToFoundationFromPlaying(p, f) => self.move_to_foundation_from_playing(
                p,
                f,
            ),
            GameAction::MoveToPlayingFromFoundation(p, f) => self.move_to_playing_from_foundation(
                p,
                f,
            ),
            GameAction::MoveToPlayingFromDrawn(p) => self.move_to_playing_from_drawn(p),
            GameAction::MoveToDrawnFromPlaying(p) => self.move_to_drawn_from_playing(p),
            GameAction::MoveToDrawFromFoundation(f) => self.move_to_draw_from_foundation(f),
            GameAction::MoveToFoundationFromDrawn(f) => self.move_to_foundation_from_drawn(f),
            GameAction::MoveToPlayingFromPlaying(fs, fc, ts, tc) => self
                .move_to_playing_from_playing(fs, fc, ts, tc),
            GameAction::ShowCard(p) => self.set_card_visibility(p, true),
            GameAction::HideCard(p) => self.set_card_visibility(p, false),
        };

        match outcome {
            Ok(committed) => {
                self.action_history.push(committed);
                Ok(committed)
            },
            Err(reason) => Err(reason),
        }
    }

    /// Undoes the most recent committed action; a no-op on an empty log.
    /// A visibility entry is reversed and the undo continues with the entry
    /// beneath it, so the two-step reveal-plus-move composite is unwound by a
    /// single call; any other entry is popped and its structural inverse
    /// applied (a failed inverse leaves the table as it was).
    pub fn undo(&mut self)
        requires
            old(self).wf(),
        ensures
            final(self).wf(),
            (final(self).action_history@, final(self).tables@) == unwind_history(
                old(self).action_history@,
                old(self).tables@,
            ),
    {
        loop
            invariant
                self.wf(),
                unwind_history(self.action_history@, self.tables@) == unwind_history(
                    old(self).action_history@,
                    old(self).tables@,
                ),
            decreases self.action_history.len(),
        {
            let ghost h0 = self.action_history@;
            let ghost t0 = self.tables@;

            let action = match self.action_history.pop() {
                Some(a) => a,
                None => {
                    return;
                },
            };

            proof {
                assert(h0.last() == action);
                assert(h0.drop_last() == self.action_history@);
                assert(action_wf(action)) by {
                    assert(action_wf(h0[h0.len() - 1]));
                }
            }

            match action {
                GameAction::ShowCard(p) => {
                    let _ = self.set_card_visibility(p, false);
                },
                GameAction::HideCard(p) => {
                    let _ = self.set_card_visibility(p, true);
                },
                GameAction::DrawCard => {
                    let _ = self.undraw(action);
                    return;
                },
                GameAction::UnDraw => {
                    let _ = self.draw(action);
                    return;
                },
                GameAction::MoveToFoundationFromPlaying(p, f) => {
                    let _ = self.move_to_playing_from_foundation(p, f);
                    return;
                },
                GameAction::MoveToPlayingFromFoundation(p, f) => {
                    let _ = self.move_to_foundation_from_playing(p, f);
                    return;
                },
                GameAction::MoveToPlayingFromDrawn(p) => {
                    let _ = self.move_to_drawn_from_playing(p);
                    return;
                },
                GameAction::MoveToDrawnFromPlaying(p) => {
                    let _ = self.move_to_playing_from_drawn(p);
                    return;
                },
                GameAction::MoveToDrawFromFoundation(f) => {
                    let _ = self.move_to_foundation_from_drawn(f);
                    return;
                },
                GameAction::MoveToFoundationFromDrawn(f) => {
                    let _ = self.move_to_draw_from_foundation(f);
                    return;
                },
                GameAction::MoveToPlayingFromPlaying(fs, fc, ts, tc) => {
                    if ts != fs {
                        let _ = self.force_to_playing_from_playing(ts, tc, fs, fc);
                    }
                    return;
                },
            }
        }
    }
}

/// Executes the engine command that the cursor cell `(x, y)` selects, as the
/// input dispatcher defines it: row 0 addresses the top cells (the waste
/// tries every foundation and then every tableau pile, the stock draws, the
/// rest are inert); a deeper row addresses a tableau card, offered first to
/// every foundation when it rests at its pile's end and then, as a run, to
/// every tableau pile — the first success wins and also reveals the source
/// pile's uncovered card. A command with no legal destination is a silent
/// non-event.
pub fn process_command(data: &mut GameData, x: usize, y: usize)
    requires
        old(data).wf(),
        x < 7,
    ensures
        final(data).wf(),
        final(data).tables@ == apply_all(
            command_actions(old(data).tables@, x as int, y as int),
            old(data).tables@,
        ),
        final(data).action_history@ == old(data).action_history@ + command_actions(
            old(data).tables@,
            x as int,
            y as int,
        ),
{
    let ghost t0 = data.tables@;
    let ghost h0 = data.action_history@;

    if y == 0 {
        if x == 5 {
            // on the draw stack: every foundation first, then every tableau pile
            for f in 0..4usize
                invariant
                    data.wf(),
                    x == 5 && y == 0,
                    t0 == old(data).tables@,
                    h0 == old(data).action_history@,
                    data.tables@ == t0,
                    data.action_history@ == h0,
                    first_foundation_from_drawn(t0, 0) == first_foundation_from_drawn(
                        t0,
                        f as int,
                    ),
            {
                match data.do_(GameAction::MoveToFoundationFromDrawn(f)) {
                    Ok(_) => {
                        proof {
                            let m = GameAction::MoveToFoundationFromDrawn(f);
                            assert(first_foundation_from_drawn(t0, 0) == Some(f as int));
                            assert(command_actions(t0, x as int, y as int) =~= seq![m]);
                            lemma_apply_one(m, t0);
                            assert(data.action_history@ =~= h0 + seq![m]);
                        }
                        return;
                    },
                    Err(_) => {
                        proof {
                            assert(first_foundation_from_drawn(t0, f as int)
                                == first_foundation_from_drawn(t0, f as int + 1));
                        }
                    },
                }
            }
            for p in 0..7usize
                invariant
                    data.wf(),
                    x == 5 && y == 0,
                    t0 == old(data).tables@,
                    h0 == old(data).action_history@,
                    data.tables@ == t0,
                    data.action_history@ == h0,
                    first_foundation_from_drawn(t0, 0) is None,
                    first_playing_from_drawn(t0, 0) == first_playing_from_drawn(t0, p as int),
            {
                match data.do_(GameAction::MoveToPlayingFromDrawn(p)) {
                    Ok(_) => {
                        proof {
                            let m = GameAction::MoveToPlayingFromDrawn(p);
                            assert(first_playing_from_drawn(t0, 0) == Some(p as int));
                            assert(command_actions(t0, x as int, y as int) =~= seq![m]);
                            lemma_apply_one(m, t0);
                            assert(data.action_history@ =~= h0 + seq![m]);
                        }
                        return;
                    },
                    Err(_) => {
                        proof {
                            assert(first_playing_from_drawn(t0, p as int)
                                == first_playing_from_drawn(t0, p as int + 1));
                        }
                    },
                }
            }
            proof {
                assert(command_actions(t0, x as int, y as int) =~= Seq::<GameAction>::empty());
                assert(data.action_history@ =~= h0 + command_actions(t0, x as int, y as int));
            }
            return;
        } else if x == 6 {
            // on the extra stack: drawing never fails
            data.do_(GameAction::DrawCard).expect("This shouldn't fail");
            proof {
                assert(command_actions(t0, x as int, y as int) =~= seq![GameAction::DrawCard]);
                lemma_apply_one(GameAction::DrawCard, t0);
                assert(data.action_history@ =~= h0 + seq![GameAction::DrawCard]);
            }
            return;
        } else {
            // the empty spot and the foundation cells are inert
            proof {
                assert(data.action_history@ =~= h0 + command_actions(t0, x as int, y as int));
            }
            return;
        }
    }

    // the cursor is somewhere in the playing table
    if data.tables.playing_table[x].len() < y {
        proof {
            assert(data.action_history@ =~= h0 + command_actions(t0, x as int, y as int));
        }
        return;
    }

    if !data.tables.playing_table[x][y - 1].is_face_up {
        proof {
            assert(data.action_history@ =~= h0 + command_actions(t0, x as int, y as int));
        }
        return;
    }

    if y == data.tables.playing_table[x].len() {
        for f in 0..4usize
            invariant
                data.wf(),
                x < 7,
                1 <= y == t0.playing[x as int].len(),
                t0.playing[x as int][y - 1].is_face_up,
                t0 == old(data).tables@,
                h0 == old(data).action_history@,
                data.tables@ == t0,
                data.action_history@ == h0,
                first_foundation_from_playing(t0, x as int, 0) == first_foundation_from_playing(
                    t0,
                    x as int,
                    f as int,
                ),
        {
            match data.do_(GameAction::MoveToFoundationFromPlaying(x, f)) {
                Ok(_) => {
                    let ghost m = GameAction::MoveToFoundationFromPlaying(x, f);
                    let ghost u = data.tables@;
                    let _ = data.do_(GameAction::ShowCard(x));
                    proof {
                        assert(first_foundation_from_playing(t0, x as int, 0) == Some(f as int));
                        if set_face_ok(u, x as int, true) {
                            assert(command_actions(t0, x as int, y as int) =~= seq![
                                m,
                                GameAction::ShowCard(x),
                            ]);
                            lemma_apply_two(m, GameAction::ShowCard(x), t0);
                            assert(data.action_history@ =~= h0 + seq![m, GameAction::ShowCard(x)]);
                        } else {
                            assert(command_actions(t0, x as int, y as int) =~= seq![m]);
                            lemma_apply_one(m, t0);
                            assert(data.action_history@ =~= h0 + seq![m]);
                        }
                    }
                    return;
                },
                Err(_) => {
                    proof {
                        assert(first_foundation_from_playing(t0, x as int, f as int)
                            == first_foundation_from_playing(t0, x as int, f as int + 1));
                    }
                },
            }
        }
    }

    for stack_index in 0..7usize
        invariant
            data.wf(),
            x < 7,
            1 <= y <= t0.playing[x as int].len(),
            t0.playing[x as int][y - 1].is_face_up,
            y == t0.playing[x as int].len() ==> first_foundation_from_playing(
                t0,
                x as int,
                0,
            ) is None,
            t0 == old(data).tables@,
            h0 == old(data).action_history@,
            data.tables@ == t0,
            data.action_history@ == h0,
            first_run_destination(t0, x as int, y - 1, 0) == first_run_destination(
                t0,
                x as int,
                y - 1,
                stack_index as int,
            ),
    {
        let to_card = data.tables.playing_table[stack_index].len();
        match data.do_(GameAction::MoveToPlayingFromPlaying(x, y - 1, stack_index, to_card)) {
            Ok(_) => {
                let ghost m = GameAction::MoveToPlayingFromPlaying(x, (y - 1) as usize, stack_index, to_card);
                let ghost u = data.tables@;
                let _ = data.do_(GameAction::ShowCard(x));
                proof {
                    assert(first_run_destination(t0, x as int, y - 1, 0) == Some(
                        stack_index as int,
                    ));
                    if set_face_ok(u, x as int, true) {
                        assert(command_actions(t0, x as int, y as int) =~= seq![
                            m,
                            GameAction::ShowCard(x),
                        ]);
                        lemma_apply_two(m, GameAction::ShowCard(x), t0);
                        assert(data.action_history@ =~= h0 + seq![m, GameAction::ShowCard(x)]);
                    } else {
                        assert(command_actions(t0, x as int, y as int) =~= seq![m]);
                        lemma_apply_one(m, t0);
                        assert(data.action_history@ =~= h0 + seq![m]);
                    }
                }
                return;
            },
            Err(_) => {
                proof {
                    assert(first_run_destination(t0, x as int, y - 1, stack_index as int)
                        == first_run_destination(t0, x as int, y - 1, stack_index as int + 1));
                }
            },
        }
    }

    proof {
        assert(first_run_destination(t0, x as int, y - 1, 0) is None);
        assert(command_actions(t0, x as int, y as int) =~= Seq::<GameAction>::empty());
        assert(data.action_history@ =~= h0 + command_actions(t0, x as int, y as int));
    }
}

} // verus!
