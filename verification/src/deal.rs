//! The start of a round: building the set, dealing the hands, fixing the
//! order of play.

use vstd::prelude::*;
use vstd::multiset::Multiset;
use vstd::seq_lib::lemma_multiset_commutative;
use crate::conserve::{copies, copies_of_parts, full_set_copies};
use crate::game::Game;
use crate::pool::{full_set, row, rows};
use crate::random::shuffle;
use crate::round::Round;
use crate::tile::{Hand, Tile};

verus! {

impl Game {
    /// Shuffles the pool and draws its first seven tiles.
    ///
    /// The tiles drawn, followed by those left, are the pool rearranged.
    pub fn get_random_tiles(&mut self) -> (hand: Vec<Tile>)
        requires
            old(self)@.pool.len() >= 7,
        ensures
            hand@.len() == 7,
            final(self)@.pool.len() == old(self)@.pool.len() - 7,
            (hand@ + final(self)@.pool).to_multiset() =~= old(self)@.pool.to_multiset(),
            final(self)@ == (Round { pool: final(self)@.pool, ..old(self)@ }),
    {
        shuffle(&mut self.all_tiles);
        let ghost shuffled = self.all_tiles@;
        proof {
            shuffled.to_multiset_ensures();
            old(self)@.pool.to_multiset_ensures();
        }
        let mut hand: Vec<Tile> = Vec::new();
        while hand.len() < 7
            invariant
                hand@.len() <= 7,
                shuffled.len() >= 7,
                hand@ + self.all_tiles@ =~= shuffled,
                self@ == (Round { pool: self@.pool, ..old(self)@ }),
            decreases 7 - hand.len(),
        {
            let tile = self.all_tiles.remove(0);
            hand.push(tile);
        }
        hand
    }

    /// Builds the double-six set and deals each player seven of its tiles.
    ///
    /// Whatever the pool and the decks held before is gone. The four hands
    /// together are the set rearranged, and the pool is left empty.
    pub fn deal_tiles(&mut self)
        ensures
            final(self)@.pool.len() == 0,
            forall|who: int|
                0 <= who < 4 ==> {
                    &&& (#[trigger] final(self)@.hands[who]).tiles.len() == 7
                    &&& final(self)@.hands[who].passed == old(self)@.hands[who].passed
                },
            final(self)@.dealt().to_multiset() =~= full_set().to_multiset(),
            final(self)@ == (Round {
                pool: final(self)@.pool,
                hands: final(self)@.hands,
                ..old(self)@
            }),
    {
        self.all_tiles.clear();
        let mut i: u8 = 0;
        while i < 7
            invariant
                i <= 7,
                self.all_tiles@ == rows(i as nat),
                self@ == (Round { pool: self@.pool, ..old(self)@ }),
            decreases 7 - i,
        {
            let mut k: u8 = 0;
            while k < 7
                invariant
                    i < 7,
                    k <= 7,
                    self.all_tiles@ == rows(i as nat) + row(i).take(
                        if k <= i {
                            k as int
                        } else {
                            i + 1
                        },
                    ),
                    self@ == (Round { pool: self@.pool, ..old(self)@ }),
                decreases 7 - k,
            {
                if i >= k {
                    self.all_tiles.push(Tile(i, k));
                    proof {
                        assert(row(i).take(k + 1) =~= row(i).take(k as int).push(Tile(i, k)));
                        assert(self.all_tiles@ =~= rows(i as nat) + row(i).take(k + 1));
                    }
                }
                k += 1;
            }
            proof {
                assert(row(i).take(i + 1) =~= row(i));
                assert(rows((i + 1) as nat) == rows(i as nat) + row(i));
            }
            i += 1;
        }
        proof {
            crate::pool::full_set_is_double_six();
        }
        let ghost set = self.all_tiles@;
        self.player_deck.deck = self.get_random_tiles();
        let ghost left1 = self.all_tiles@;
        self.machine1_deck.deck = self.get_random_tiles();
        let ghost left2 = self.all_tiles@;
        self.machine2_deck.deck = self.get_random_tiles();
        let ghost left3 = self.all_tiles@;
        self.machine3_deck.deck = self.get_random_tiles();
        proof {
            let h0 = self.player_deck.deck@;
            let h1 = self.machine1_deck.deck@;
            let h2 = self.machine2_deck.deck@;
            let h3 = self.machine3_deck.deck@;
            let left4 = self.all_tiles@;
            lemma_multiset_commutative(h0, left1);
            lemma_multiset_commutative(h1, left2);
            lemma_multiset_commutative(h2, left3);
            lemma_multiset_commutative(h3, left4);
            lemma_multiset_commutative(h0, h1);
            lemma_multiset_commutative(h0 + h1, h2);
            lemma_multiset_commutative(h0 + h1 + h2, h3);
            (h0 + left1).to_multiset_ensures();
            (h1 + left2).to_multiset_ensures();
            (h2 + left3).to_multiset_ensures();
            (h3 + left4).to_multiset_ensures();
            set.to_multiset_ensures();
            left1.to_multiset_ensures();
            left2.to_multiset_ensures();
            left3.to_multiset_ensures();
            assert(left4.len() == 0);
            assert(left4.to_multiset() =~= Multiset::<Tile>::empty());
            assert(self@.dealt() == h0 + h1 + h2 + h3);
            assert(self@.hands =~= seq![
                Hand { passed: old(self)@.hands[0].passed, tiles: h0 },
                Hand { passed: old(self)@.hands[1].passed, tiles: h1 },
                Hand { passed: old(self)@.hands[2].passed, tiles: h2 },
                Hand { passed: old(self)@.hands[3].passed, tiles: h3 },
            ]);
        }
    }

    /// Shuffles the order of play.
    ///
    /// The order afterwards is the old one rearranged, and nothing else in
    /// the game changes. Which rearrangement it is, chance decides: each is
    /// possible, the old order itself among them.
    pub fn assign_turn(&mut self)
        ensures
            final(self)@.turns.to_multiset() == old(self)@.turns.to_multiset(),
            final(self)@ == (Round { turns: final(self)@.turns, ..old(self)@ }),
    {
        shuffle(&mut self.turns);
    }

    /// Starts a round: clears the board, deals the double-six set in four
    /// hands of seven that have not passed, shuffles the order of play and
    /// puts the cursor on its first place.
    ///
    /// With an order of play that names each player once, as a new game has
    /// it, the round starts with its invariant.
    pub fn start(&mut self)
        ensures
            final(self)@.started_from(old(self)@),
            old(self)@.order_ok() ==> final(self)@.round_ok(),
    {
        self.board.clear();
        self.current_turn = 0;
        self.player_deck.passed = false;
        self.machine1_deck.passed = false;
        self.machine2_deck.passed = false;
        self.machine3_deck.passed = false;
        self.deal_tiles();
        self.assign_turn();
        proof {
            if old(self)@.order_ok() {
                started_round_is_sound(old(self)@, self@);
            }
        }
    }
}

/// A round newly started from a game whose order of play names each player
/// once has the invariant of a round.
pub proof fn started_round_is_sound(before: Round, round: Round)
    requires
        round.started_from(before),
        before.order_ok(),
    ensures
        round.round_ok(),
{
    dealt_set_is_conserved(round);
}

/// A round whose hands together are the full set rearranged, with nothing in
/// the pool and nothing on the board, has the set conserved.
pub proof fn dealt_set_is_conserved(round: Round)
    requires
        round.pool.len() == 0,
        round.board.len() == 0,
        round.dealt().to_multiset() =~= full_set().to_multiset(),
    ensures
        round.conserved(),
{
    broadcast use vstd::seq_lib::group_to_multiset_ensures;
    broadcast use vstd::multiset::group_multiset_axioms;

    let h0 = round.hands[0].tiles;
    let h1 = round.hands[1].tiles;
    let h2 = round.hands[2].tiles;
    let h3 = round.hands[3].tiles;
    assert(round.pool.to_multiset().len() == 0);
    assert(round.board.to_multiset().len() == 0);
    assert forall|piece: Tile| #[trigger]
        round.held(piece) == if piece.in_range() {
            1nat
        } else {
            0nat
        } by {
        copies_of_parts(h0, h1, piece);
        copies_of_parts(h0 + h1, h2, piece);
        copies_of_parts(h0 + h1 + h2, h3, piece);
        full_set_copies(piece);
        assert(copies(round.pool, piece) == 0);
        assert(copies(round.board, piece) == 0);
        assert(copies(round.dealt(), piece) == copies(full_set(), piece));
    }
}

} // verus!
