//! The rules of the word game: what each reaction trigger decides from the
//! game's state. Player seats are numbered from 0 in the order in which the
//! game lists its players; a pile is a sequence whose first element is its
//! top card.
use vstd::prelude::*;
use vstd::multiset::Multiset;

use crate::round;
use rand::seq::SliceRandom;

verus! {

/// The set of item kinds that make up the game's state.
pub struct State;

/// The game's reaction: each trigger is answered by the rule of the same
/// name below.
pub struct Reaction;

/// The triggers that the game's reactions respond to.
#[derive(Debug, Clone, Copy, PartialEq, Eq, Structural)]
pub enum Trigger {
    StartGame,
    StartRound,
    DrawFromDeck,
    Play,
    EndRound,
    EndGame,
}

/// Why a reaction is refused.
#[derive(Debug, Clone, Copy, PartialEq, Eq, Structural)]
pub enum GameError {
    /// The game was started a second time.
    AlreadyStarted,
    /// A score bonus would take a score past the counter's range.
    ScoreOverflow,
    /// The round counter would pass its range.
    RoundOverflow,
}

impl GameError {
    /// The message that the game reports for the error.
    pub fn message(&self) -> (r: &'static str)
        ensures
            *self == GameError::AlreadyStarted ==> r@ == "The game has already started"@,
            *self == GameError::ScoreOverflow ==> r@ == "Score counter overflow"@,
            *self == GameError::RoundOverflow ==> r@ == "Round counter overflow"@,
    {
        match self {
            GameError::AlreadyStarted => "The game has already started",
            GameError::ScoreOverflow => "Score counter overflow",
            GameError::RoundOverflow => "Round counter overflow",
        }
    }
}

/// The bonus awarded to the player with the longest word and to the player
/// with the most words of a round.
pub const ROUND_BONUS: u32 = 10;

/// The round after which the game ends.
pub const LAST_ROUND: u32 = 7;

/// Starting the game: refused when it has started already, and nothing
/// changes; otherwise the game is marked as started and the first round is
/// triggered, which is the trigger returned.
pub fn start_game(has_started: &mut bool) -> (r: Result<Trigger, GameError>)
    ensures
        *old(has_started) ==> r == Err::<Trigger, GameError>(GameError::AlreadyStarted) && *final(has_started),
        !*old(has_started) ==> r == Ok::<Trigger, GameError>(Trigger::StartRound) && *final(has_started),
{
    if *has_started {
        Err(GameError::AlreadyStarted)
    } else {
        *has_started = true;
        Ok(Trigger::StartRound)
    }
}

/// The number of cards each player is dealt in a round: three more than the
/// round counter.
pub fn hand_size(round: u32) -> (r: usize)
    requires
        round + 3 <= usize::MAX,
    ensures
        r == round + 3,
{
    round as usize + 3
}

/// How the cards of a shuffled deck are dealt at the start of a round.
pub struct Deal {
    /// The hand of each seat, in seat order.
    pub hands: Vec<Vec<u32>>,
    /// The card turned up onto the discard pile.
    pub discard: u32,
    /// What is left of the deck.
    pub deck: Vec<u32>,
}

/// The cards that `deal` gives seat `p` out of `deck`.
pub open spec fn dealt_hand(deck: Seq<u32>, hand_size: int, p: int) -> Seq<u32> {
    deck.subrange(p * hand_size, (p + 1) * hand_size)
}

/// Deals `hand_size` cards from the top of the deck to each of `players`
/// seats in turn, then turns the next card up onto the discard pile; the rest
/// stays in the deck. The deck must hold at least one card more than the
/// hands take.
pub fn deal(deck: &Vec<u32>, players: usize, hand_size: usize) -> (r: Deal)
    requires
        players * hand_size + 1 <= deck.len(),
    ensures
        r.hands.len() == players,
        forall|p: int|
            0 <= p < players ==> (#[trigger] r.hands[p])@ == dealt_hand(
                deck@,
                hand_size as int,
                p,
            ),
        r.discard == deck@[players * hand_size],
        r.deck@ == deck@.skip(players * hand_size + 1),
{
    let mut hands: Vec<Vec<u32>> = Vec::new();
    let mut p: usize = 0;
    while p < players
        invariant
            p <= players,
            players * hand_size + 1 <= deck.len(),
            hands.len() == p,
            forall|q: int|
                0 <= q < p ==> (#[trigger] hands[q])@ == dealt_hand(deck@, hand_size as int, q),
        decreases players - p,
    {
        assert(p * hand_size + hand_size <= players * hand_size) by (nonlinear_arith)
            requires
                p < players,
        ;
        let start = p * hand_size;
        let mut hand: Vec<u32> = Vec::new();
        let mut k: usize = 0;
        while k < hand_size
            invariant
                k <= hand_size,
                start == p * hand_size,
                start + hand_size <= deck.len(),
                hand@ == deck@.subrange(start as int, start + k),
            decreases hand_size - k,
        {
            hand.push(deck[start + k]);
            k = k + 1;
            assert(hand@ =~= deck@.subrange(start as int, start + k));
        }
        assert((p + 1) * hand_size == start + hand_size) by (nonlinear_arith)
            requires
                start == p * hand_size,
        ;
        hands.push(hand);
        p = p + 1;
    }
    let used = players * hand_size;
    let discard = deck[used];
    let mut rest: Vec<u32> = Vec::new();
    let mut i: usize = used + 1;
    while i < deck.len()
        invariant
            used + 1 <= i <= deck.len(),
            rest@ == deck@.subrange(used + 1, i as int),
        decreases deck.len() - i,
    {
        rest.push(deck[i]);
        i = i + 1;
        assert(rest@ =~= deck@.subrange(used + 1, i as int));
    }
    assert(rest@ =~= deck@.skip(used + 1));
    Deal { hands, discard, deck: rest }
}

/// The random source used to shuffle.
#[verifier::external_type_specification]
#[verifier::external_body]
pub struct ExThreadRng(rand::rngs::ThreadRng);

/// Calls `rand::rng`, the thread-local random generator. Nothing is stated of
/// it: it is only handed on to `shuffle_cards`.
#[verifier::external_body]
fn thread_rng() -> rand::rngs::ThreadRng {
    rand::rng()
}

/// Calls `rand::seq::SliceRandom::shuffle`, which permutes the slice in place
/// by swaps (a Fisher-Yates shuffle). Claimed: the cards afterwards are the
/// same cards, each as often as before, in some order. Which order comes out
/// rests on chance and is not stated.
#[verifier::external_body]
fn shuffle_cards(cards: &mut Vec<u32>, rng: &mut rand::rngs::ThreadRng)
    ensures
        final(cards)@.to_multiset() == old(cards)@.to_multiset(),
        final(cards)@.len() == old(cards)@.len(),
{
    cards.shuffle(rng);
}

/// What starting a round sets up.
pub struct RoundStart {
    /// The shuffled deck that the cards were dealt from.
    pub shuffled: Vec<u32>,
    /// The deal made from it.
    pub deal: Deal,
    /// The seat whose turn it is: the dealer's.
    pub turn: usize,
    /// The dealer of the next round: the seat after the current dealer.
    pub next_dealer: usize,
}

/// The seat that comes after `seat` around a table of `players` seats.
pub open spec fn next_seat(seat: int, players: int) -> int {
    if seat + 1 == players {
        0
    } else {
        seat + 1
    }
}

/// Starts a round: the freshly reset deck is shuffled, each seat is dealt
/// three more cards than the round counter, one card is turned up onto the
/// discard pile, the turn goes to the dealer's seat and the deal passes to
/// the next seat.
pub fn start_round(fresh_deck: Vec<u32>, players: usize, round: u32, dealer: usize) -> (r:
    RoundStart)
    requires
        dealer < players,
        round + 3 <= usize::MAX,
        players * (round + 3) + 1 <= fresh_deck.len(),
    ensures
        r.shuffled@.to_multiset() == fresh_deck@.to_multiset(),
        r.shuffled@.len() == fresh_deck@.len(),
        r.deal.hands.len() == players,
        forall|p: int|
            0 <= p < players ==> (#[trigger] r.deal.hands[p])@ == dealt_hand(
                r.shuffled@,
                round + 3,
                p,
            ),
        r.deal.discard == r.shuffled@[players * (round + 3)],
        r.deal.deck@ == r.shuffled@.skip(players * (round + 3) + 1),
        r.turn == dealer,
        r.next_dealer == next_seat(dealer as int, players as int),
{
    let mut deck = fresh_deck;
    let mut rng = thread_rng();
    shuffle_cards(&mut deck, &mut rng);
    let size = hand_size(round);
    let dealt = deal(&deck, players, size);
    let next_dealer = if dealer + 1 == players {
        0
    } else {
        dealer + 1
    };
    RoundStart { shuffled: deck, deal: dealt, turn: dealer, next_dealer }
}

/// Draws the top card of the deck onto the top of a hand. The deck must not
/// be empty.
pub fn draw_from_deck(deck: &mut Vec<u32>, hand: &mut Vec<u32>)
    requires
        old(deck).len() > 0,
    ensures
        final(deck)@ == old(deck)@.drop_first(),
        final(hand)@ == seq![old(deck)@[0]] + old(hand)@,
{
    let card = deck.remove(0);
    hand.insert(0, card);
    assert(deck@ =~= old(deck)@.drop_first());
    assert(hand@ =~= seq![old(deck)@[0]] + old(hand)@);
}

/// The pile a player draws from.
#[derive(Debug, Clone, Copy, PartialEq, Eq, Structural)]
pub enum DrawSource {
    Deck,
    Discard,
}

/// A player's draw: the top card of the chosen pile goes onto the top of the
/// player's hand. The chosen pile must not be empty.
pub fn draw(source: DrawSource, deck: &mut Vec<u32>, discard: &mut Vec<u32>, hand: &mut Vec<u32>)
    requires
        source == DrawSource::Deck ==> old(deck).len() > 0,
        source == DrawSource::Discard ==> old(discard).len() > 0,
    ensures
        source == DrawSource::Deck ==> final(deck)@ == old(deck)@.drop_first() && final(discard)@
            == old(discard)@ && final(hand)@ == seq![old(deck)@[0]] + old(hand)@,
        source == DrawSource::Discard ==> final(discard)@ == old(discard)@.drop_first()
            && final(deck)@ == old(deck)@ && final(hand)@ == seq![old(discard)@[0]] + old(hand)@,
{
    match source {
        DrawSource::Deck => draw_from_deck(deck, hand),
        DrawSource::Discard => draw_from_deck(discard, hand),
    }
}

/// Whether every player has played this round.
pub open spec fn all_played(played: Seq<bool>) -> bool {
    forall|i: int| 0 <= i < played.len() ==> #[trigger] played[i]
}

/// After a play: when every player has played, the round's end is triggered.
pub fn play(played: &Vec<bool>) -> (r: Option<Trigger>)
    ensures
        r == if all_played(played@) {
            Some(Trigger::EndRound)
        } else {
            None::<Trigger>
        },
{
    let mut i: usize = 0;
    while i < played.len()
        invariant
            i <= played.len(),
            forall|j: int| 0 <= j < i ==> #[trigger] played@[j],
        decreases played.len() - i,
    {
        if !played[i] {
            return None;
        }
        i = i + 1;
    }
    Some(Trigger::EndRound)
}

/// Seat `i` holds the single greatest value, and that value is positive.
pub open spec fn is_unique_leader(values: Seq<usize>, i: int) -> bool {
    &&& 0 <= i < values.len()
    &&& values[i] > 0
    &&& forall|j: int| 0 <= j < values.len() && j != i ==> #[trigger] values[j] < values[i]
}

/// The seat that wins a category of a round: the one whose value is greater
/// than every other seat's, and positive. Ties at the top, or no positive
/// value, give no winner.
pub fn round_winner(values: &Vec<usize>) -> (r: Option<usize>)
    ensures
        match r {
            Some(i) => is_unique_leader(values@, i as int),
            None => forall|i: int| !is_unique_leader(values@, i),
        },
{
    let mut max: usize = 0;
    let mut winner: Option<usize> = None;
    let mut i: usize = 0;
    while i < values.len()
        invariant
            i <= values.len(),
            forall|j: int| 0 <= j < i ==> #[trigger] values@[j] <= max,
            max == 0 || exists|j: int| 0 <= j < i && #[trigger] values@[j] == max,
            match winner {
                Some(w) => w < i && values@[w as int] == max && max > 0 && forall|j: int|
                    0 <= j < i && j != w ==> #[trigger] values@[j] < max,
                None => max == 0 || exists|j1: int, j2: int|
                    0 <= j1 < i && 0 <= j2 < i && j1 != j2 && #[trigger] values@[j1] == max
                        && #[trigger] values@[j2] == max,
            },
        decreases values.len() - i,
    {
        let v = values[i];
        if v > max {
            max = v;
            winner = Some(i);
        } else if v == max {
            if max > 0 {
                match winner {
                    Some(w) => {
                        assert(values@[w as int] == max && values@[i as int] == max);
                    },
                    None => {},
                }
            }
            winner = None;
        }
        i = i + 1;
    }
    match winner {
        Some(w) => {},
        None => {
            assert forall|k: int| !is_unique_leader(values@, k) by {
                if is_unique_leader(values@, k) {
                    if max == 0 {
                        assert(values@[k] <= max);
                    } else {
                        let (j1, j2) = choose|j1: int, j2: int|
                            0 <= j1 < i && 0 <= j2 < i && j1 != j2 && #[trigger] values@[j1] == max
                                && #[trigger] values@[j2] == max;
                        assert(values@[k] <= max);
                        if j1 != k {
                            assert(values@[j1] < values@[k]);
                        } else {
                            assert(values@[j2] < values@[k]);
                        }
                    }
                }
            }
        },
    }
    winner
}

/// A seat's record of a round, as the round ends.
#[derive(Debug, Clone, Copy, PartialEq, Eq, Structural)]
pub struct PlayerRound {
    /// The length of the longest word the seat played.
    pub max_word_len: usize,
    /// The number of words the seat played.
    pub word_count: usize,
    /// The seat's score so far.
    pub score: u32,
}

/// What ending a round decides. Besides this, every seat's played words and
/// hand are cleared, and so is the discard pile.
pub struct RoundEnd {
    /// The seat with the longest word, if one seat has it alone.
    pub longest_word: Option<usize>,
    /// The seat with the most words, if one seat has them alone.
    pub most_words: Option<usize>,
    /// Every seat's score after the bonuses.
    pub scores: Vec<u32>,
    /// The round machine after it is scored; `None` where it does not accept
    /// the score.
    pub round_state: Option<round::State>,
    /// The round counter afterwards.
    pub round: u32,
    /// What is triggered next: the game's end after the last round, otherwise
    /// the next round.
    pub next: Trigger,
}

/// The longest word of each seat.
pub open spec fn word_lengths(seats: Seq<PlayerRound>) -> Seq<usize> {
    seats.map_values(|p: PlayerRound| p.max_word_len)
}

/// The word count of each seat.
pub open spec fn word_counts(seats: Seq<PlayerRound>) -> Seq<usize> {
    seats.map_values(|p: PlayerRound| p.word_count)
}

/// The bonus seat `i` earns from a category won by `winner`.
pub open spec fn bonus_for(winner: Option<usize>, i: int) -> int {
    if winner == Some(i as usize) {
        ROUND_BONUS as int
    } else {
        0
    }
}

/// The winner of a category whose values are `values`.
pub open spec fn category_winner(values: Seq<usize>) -> Option<usize> {
    if exists|i: int| is_unique_leader(values, i) {
        Some((choose|i: int| is_unique_leader(values, i)) as usize)
    } else {
        None
    }
}

proof fn lemma_unique_leader_unique(values: Seq<usize>, i: int, k: int)
    requires
        is_unique_leader(values, i),
        is_unique_leader(values, k),
    ensures
        i == k,
{
    if i != k {
        assert(values[k] < values[i]);
        assert(values[i] < values[k]);
    }
}

proof fn lemma_winner_is_category_winner(values: Seq<usize>, r: Option<usize>)
    requires
        match r {
            Some(i) => is_unique_leader(values, i as int),
            None => forall|i: int| !is_unique_leader(values, i),
        },
    ensures
        r == category_winner(values),
{
    match r {
        Some(i) => {
            let k = choose|k: int| is_unique_leader(values, k);
            lemma_unique_leader_unique(values, i as int, k);
        },
        None => {},
    }
}

/// What ending a round decides for the seats' records `seats`, the round
/// counter `round` and the round machine `round_state`.
pub open spec fn decides_round_end(
    seats: Seq<PlayerRound>,
    round: u32,
    round_state: round::State,
    r: Result<RoundEnd, GameError>,
) -> bool {
    &&& (forall|i: int|
            0 <= i < seats.len() ==> #[trigger] seats[i].score + bonus_for(
                category_winner(word_lengths(seats)),
                i,
            ) + bonus_for(category_winner(word_counts(seats)), i) <= u32::MAX) ==> (r matches Ok(
            e,
        ) && e.longest_word == category_winner(word_lengths(seats)) && e.most_words
            == category_winner(word_counts(seats)) && e.scores.len() == seats.len() && (forall|
            i: int,
        |
            0 <= i < seats.len() ==> #[trigger] e.scores@[i] == seats[i].score + bonus_for(
                e.longest_word,
                i,
            ) + bonus_for(e.most_words, i)) && e.round_state == round::next_state(
            round_state,
            round::Input::Score,
        ) && if round == LAST_ROUND {
            e.round == round && e.next == Trigger::EndGame
        } else {
            e.round == round + 1 && e.next == Trigger::StartRound
        }) || (round != LAST_ROUND && round == u32::MAX && r == Err::<RoundEnd, GameError>(
            GameError::RoundOverflow,
        ))
    &&& !(forall|i: int|
            0 <= i < seats.len() ==> #[trigger] seats[i].score + bonus_for(
                category_winner(word_lengths(seats)),
                i,
            ) + bonus_for(category_winner(word_counts(seats)), i) <= u32::MAX) ==> r == Err::<
            RoundEnd,
            GameError,
        >(GameError::ScoreOverflow)
}

fn decide_round_end(seats: &Vec<PlayerRound>, round: u32, round_state: round::State) -> (r: Result<
    RoundEnd,
    GameError,
>)
    ensures
        decides_round_end(seats@, round, round_state, r),
{
    let mut lengths: Vec<usize> = Vec::new();
    let mut counts: Vec<usize> = Vec::new();
    let mut i: usize = 0;
    while i < seats.len()
        invariant
            i <= seats.len(),
            lengths@ == word_lengths(seats@).take(i as int),
            counts@ == word_counts(seats@).take(i as int),
        decreases seats.len() - i,
    {
        lengths.push(seats[i].max_word_len);
        counts.push(seats[i].word_count);
        i = i + 1;
        assert(lengths@ =~= word_lengths(seats@).take(i as int));
        assert(counts@ =~= word_counts(seats@).take(i as int));
    }
    assert(lengths@ =~= word_lengths(seats@));
    assert(counts@ =~= word_counts(seats@));
    let longest_word = round_winner(&lengths);
    let most_words = round_winner(&counts);
    proof {
        lemma_winner_is_category_winner(lengths@, longest_word);
        lemma_winner_is_category_winner(counts@, most_words);
    }
    let mut scores: Vec<u32> = Vec::new();
    let mut j: usize = 0;
    while j < seats.len()
        invariant
            j <= seats.len(),
            scores.len() == j,
            longest_word == category_winner(word_lengths(seats@)),
            most_words == category_winner(word_counts(seats@)),
            forall|k: int|
                0 <= k < j ==> #[trigger] seats@[k].score + bonus_for(
                    category_winner(word_lengths(seats@)),
                    k,
                ) + bonus_for(category_winner(word_counts(seats@)), k) <= u32::MAX,
            forall|k: int|
                0 <= k < j ==> #[trigger] scores@[k] == seats@[k].score + bonus_for(
                    longest_word,
                    k,
                ) + bonus_for(most_words, k),
        decreases seats.len() - j,
    {
        let mut bonus: u32 = 0;
        if longest_word == Some(j) {
            bonus = bonus + ROUND_BONUS;
        }
        if most_words == Some(j) {
            bonus = bonus + ROUND_BONUS;
        }
        let s = seats[j].score;
        if s > u32::MAX - bonus {
            proof {
                assert(seats@[j as int].score + bonus_for(category_winner(word_lengths(seats@)), j as int)
                    + bonus_for(category_winner(word_counts(seats@)), j as int) > u32::MAX);
            }
            return Err(GameError::ScoreOverflow);
        }
        scores.push(s + bonus);
        j = j + 1;
    }
    let round_state_after = round::transition(round_state, round::Input::Score);
    if round == LAST_ROUND {
        Ok(
            RoundEnd {
                longest_word,
                most_words,
                scores,
                round_state: round_state_after,
                round,
                next: Trigger::EndGame,
            },
        )
    } else if round == u32::MAX {
        Err(GameError::RoundOverflow)
    } else {
        Ok(
            RoundEnd {
                longest_word,
                most_words,
                scores,
                round_state: round_state_after,
                round: round + 1,
                next: Trigger::StartRound,
            },
        )
    }
}

/// Ends a round: the seat that alone has the longest word, and the seat that
/// alone has the most words, each earn a bonus of ten points; the round
/// machine is scored; after the last round the game's end is triggered,
/// otherwise the round counter advances and the next round is triggered.
/// Refused where a bonus or the counter would leave its range.
pub fn end_round(
    seats: &mut Vec<PlayerRound>,
    played: &mut Vec<bool>,
    hands: &mut Vec<Vec<u32>>,
    discard: &mut Vec<u32>,
    round: u32,
    round_state: round::State,
) -> (r: Result<RoundEnd, GameError>)
    ensures
        decides_round_end(old(seats)@, round, round_state, r),
        r is Err ==> final(seats)@ == old(seats)@ && final(played)@ == old(played)@ && final(hands)@ == old(hands)@ && final(discard)@ == old(discard)@,
        r is Ok ==> final(seats)@.len() == old(seats)@.len() && forall|i: int| 0 <= i < old(seats)@.len() ==> #[trigger] final(seats)@[i] == (PlayerRound { max_word_len: 0, word_count: 0, score: r->Ok_0.scores@[i] }),
        r is Ok ==> final(played)@ == Seq::new(old(played)@.len(), |i: int| false),
        r is Ok ==> final(hands)@.len() == old(hands)@.len() && forall|i: int| 0 <= i < old(hands)@.len() ==> (#[trigger] final(hands)@[i])@.len() == 0,
        r is Ok ==> final(discard)@.len() == 0,
{
    let r = decide_round_end(seats, round, round_state);
    match &r {
        Err(_) => {},
        Ok(e) => {
            let ghost old_seats = seats@;
            let mut i: usize = 0;
            while i < seats.len()
                invariant
                    i <= seats.len(),
                    seats@.len() == old_seats.len(),
                    e.scores@.len() == old_seats.len(),
                    forall|k: int| 0 <= k < i ==> #[trigger] seats@[k] == (PlayerRound { max_word_len: 0, word_count: 0, score: e.scores@[k] }),
                decreases seats.len() - i,
            {
                seats.set(i, PlayerRound { max_word_len: 0, word_count: 0, score: e.scores[i] });
                i = i + 1;
            }
            let mut k: usize = 0;
            while k < played.len()
                invariant
                    k <= played.len(),
                    played@.len() == old(played)@.len(),
                    forall|q: int| 0 <= q < k ==> !#[trigger] played@[q],
                decreases played.len() - k,
            {
                played.set(k, false);
                k = k + 1;
            }
            assert(played@ =~= Seq::new(old(played)@.len(), |i: int| false));
            let mut h: usize = 0;
            while h < hands.len()
                invariant
                    h <= hands.len(),
                    hands@.len() == old(hands)@.len(),
                    forall|q: int| 0 <= q < h ==> (#[trigger] hands@[q])@.len() == 0,
                decreases hands.len() - h,
            {
                hands.set(h, Vec::new());
                h = h + 1;
            }
            discard.clear();
        },
    }
    r
}


/// The highest of the scores, and 0 where there are none.
pub open spec fn max_score(scores: Seq<u32>) -> u32
    decreases scores.len(),
{
    if scores.len() == 0 {
        0
    } else {
        let rest = max_score(scores.drop_last());
        if scores.last() > rest {
            scores.last()
        } else {
            rest
        }
    }
}

/// The seats whose score equals `max`, in seat order.
pub open spec fn seats_with_score(scores: Seq<u32>, max: u32) -> Seq<usize>
    decreases scores.len(),
{
    if scores.len() == 0 {
        Seq::empty()
    } else {
        let rest = seats_with_score(scores.drop_last(), max);
        if scores.last() == max {
            rest.push((scores.len() - 1) as usize)
        } else {
            rest
        }
    }
}

/// How the game ended.
pub struct Outcome {
    /// The seats with the highest final score, in seat order.
    pub winners: Vec<usize>,
    /// Every seat's final score.
    pub final_scores: Vec<u32>,
}

proof fn lemma_max_score_bound(scores: Seq<u32>)
    ensures
        forall|i: int| 0 <= i < scores.len() ==> #[trigger] scores[i] <= max_score(scores),
        scores.len() > 0 ==> exists|i: int|
            0 <= i < scores.len() && #[trigger] scores[i] == max_score(scores),
    decreases scores.len(),
{
    if scores.len() > 0 {
        let front = scores.drop_last();
        lemma_max_score_bound(front);
        assert forall|i: int| 0 <= i < scores.len() implies #[trigger] scores[i] <= max_score(
            scores,
        ) by {
            if i < front.len() {
                assert(scores[i] == front[i]);
            }
        }
        if scores.last() > max_score(front) {
            assert(scores[scores.len() - 1] == max_score(scores));
        } else if front.len() > 0 {
            let k = choose|k: int| 0 <= k < front.len() && #[trigger] front[k] == max_score(front);
            assert(scores[k] == max_score(scores));
        } else {
            assert(scores[0] == max_score(scores));
        }
    }
}

/// Ends the game: the winners are every seat whose final score is the
/// highest one.
pub fn end_game(scores: &Vec<u32>) -> (r: Outcome)
    ensures
        r.final_scores@ == scores@,
        r.winners@ == seats_with_score(scores@, max_score(scores@)),
{
    let mut max: u32 = 0;
    let mut i: usize = 0;
    while i < scores.len()
        invariant
            i <= scores.len(),
            max == max_score(scores@.take(i as int)),
        decreases scores.len() - i,
    {
        assert(scores@.take(i + 1).drop_last() =~= scores@.take(i as int));
        if scores[i] > max {
            max = scores[i];
        }
        i = i + 1;
    }
    assert(scores@.take(i as int) =~= scores@);
    let mut winners: Vec<usize> = Vec::new();
    let mut j: usize = 0;
    while j < scores.len()
        invariant
            j <= scores.len(),
            winners@ == seats_with_score(scores@.take(j as int), max),
        decreases scores.len() - j,
    {
        assert(scores@.take(j + 1).drop_last() =~= scores@.take(j as int));
        if scores[j] == max {
            winners.push(j);
        }
        j = j + 1;
    }
    assert(scores@.take(j as int) =~= scores@);
    let mut final_scores: Vec<u32> = Vec::new();
    let mut k: usize = 0;
    while k < scores.len()
        invariant
            k <= scores.len(),
            final_scores@ == scores@.take(k as int),
        decreases scores.len() - k,
    {
        final_scores.push(scores[k]);
        k = k + 1;
        assert(final_scores@ =~= scores@.take(k as int));
    }
    assert(final_scores@ =~= scores@);
    Outcome { winners, final_scores }
}

/// Every winner has the highest score, and every seat with the highest score
/// is a winner: nobody outscores a winner, and no winner is left out.
pub proof fn lemma_winners_are_the_top_scorers(scores: Seq<u32>, i: int)
    requires
        0 <= i < scores.len(),
        scores.len() <= usize::MAX,
    ensures
        seats_with_score(scores, max_score(scores)).contains(i as usize) <==> (forall|j: int|
            0 <= j < scores.len() ==> #[trigger] scores[j] <= scores[i]),
{
    lemma_max_score_bound(scores);
    lemma_seats_with_score_members(scores, max_score(scores));
    if forall|j: int| 0 <= j < scores.len() ==> #[trigger] scores[j] <= scores[i] {
        let k = choose|k: int| 0 <= k < scores.len() && #[trigger] scores[k] == max_score(scores);
        assert(scores[k] <= scores[i]);
        assert(scores[i] <= max_score(scores));
    }
}

proof fn lemma_seats_with_score_members(scores: Seq<u32>, max: u32)
    requires
        scores.len() <= usize::MAX,
    ensures
        forall|i: int|
            0 <= i < scores.len() ==> (seats_with_score(scores, max).contains(i as usize) <==> (
            #[trigger] scores[i]) == max),
        forall|k: int|
            0 <= k < seats_with_score(scores, max).len() ==> (#[trigger] seats_with_score(
                scores,
                max,
            )[k]) < scores.len(),
    decreases scores.len(),
{
    if scores.len() > 0 {
        let front = scores.drop_last();
        lemma_seats_with_score_members(front, max);
        let rest = seats_with_score(front, max);
        let n = scores.len() - 1;
        assert forall|i: int|
            0 <= i < scores.len() implies (seats_with_score(scores, max).contains(i as usize) <==> (
            #[trigger] scores[i]) == max) by {
            if i < n {
                assert(scores[i] == front[i]);
                if scores.last() == max {
                    let pushed = rest.push(n as usize);
                    assert(pushed.contains(i as usize) <==> rest.contains(i as usize)) by {
                        if pushed.contains(i as usize) {
                            let k = choose|k: int| 0 <= k < pushed.len() && #[trigger] pushed[k] == i as usize;
                            if k < rest.len() {
                                assert(rest[k] == i as usize);
                            }
                        }
                        if rest.contains(i as usize) {
                            let k = choose|k: int| 0 <= k < rest.len() && #[trigger] rest[k] == i as usize;
                            assert(pushed[k] == i as usize);
                        }
                    }
                }
            } else {
                if scores.last() == max {
                    assert(rest.push(n as usize)[rest.len() as int] == n as usize);
                } else {
                    if rest.contains(n as usize) {
                        let k = choose|k: int| 0 <= k < rest.len() && #[trigger] rest[k] == n as usize;
                        assert(rest[k] < front.len());
                    }
                }
            }
        }
    }
}

} // verus!
