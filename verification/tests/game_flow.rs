use spru_script::game::{
    deal, draw, draw_from_deck, end_game, end_round, hand_size, play, round_winner, start_game,
    start_round, DrawSource, GameError, PlayerRound, Trigger, LAST_ROUND, ROUND_BONUS,
};
use spru_script::game::RoundEnd;
use spru_script::round;

#[test]
fn start_game_triggers_first_round() {
    let mut has_started = false;
    assert_eq!(start_game(&mut has_started), Ok(Trigger::StartRound));
    assert!(has_started);
}

#[test]
fn start_game_twice_is_refused() {
    let mut has_started = true;
    assert_eq!(start_game(&mut has_started), Err(GameError::AlreadyStarted));
    assert!(has_started);
    assert_eq!(GameError::AlreadyStarted.message(), "The game has already started");
}

#[test]
fn hand_size_is_three_more_than_round() {
    assert_eq!(hand_size(0), 3);
    assert_eq!(hand_size(4), 7);
}

#[test]
fn deal_takes_hands_then_discard() {
    let deck: Vec<u32> = (0..10).collect();
    let d = deal(&deck, 2, 3);
    assert_eq!(d.hands, vec![vec![0, 1, 2], vec![3, 4, 5]]);
    assert_eq!(d.discard, 6);
    assert_eq!(d.deck, vec![7, 8, 9]);
}

#[test]
fn deal_with_no_players_turns_up_top_card() {
    let deck: Vec<u32> = vec![9, 8];
    let d = deal(&deck, 0, 5);
    assert!(d.hands.is_empty());
    assert_eq!(d.discard, 9);
    assert_eq!(d.deck, vec![8]);
}

#[test]
fn start_round_shuffles_and_deals() {
    let fresh: Vec<u32> = (0..20).collect();
    let r = start_round(fresh.clone(), 2, 1, 1);
    let mut sorted = r.shuffled.clone();
    sorted.sort();
    assert_eq!(sorted, fresh);
    assert_eq!(r.deal.hands.len(), 2);
    assert_eq!(r.deal.hands[0], r.shuffled[0..4].to_vec());
    assert_eq!(r.deal.hands[1], r.shuffled[4..8].to_vec());
    assert_eq!(r.deal.discard, r.shuffled[8]);
    assert_eq!(r.deal.deck, r.shuffled[9..].to_vec());
    assert_eq!(r.turn, 1);
    assert_eq!(r.next_dealer, 0);
}

#[test]
fn start_round_passes_the_deal_on() {
    let fresh: Vec<u32> = (0..30).collect();
    let r = start_round(fresh, 3, 0, 0);
    assert_eq!(r.turn, 0);
    assert_eq!(r.next_dealer, 1);
    assert_eq!(r.deal.hands.iter().map(|h| h.len()).collect::<Vec<_>>(), vec![3, 3, 3]);
}

#[test]
fn draw_from_deck_moves_top_card() {
    let mut deck = vec![5, 6, 7];
    let mut hand = vec![1];
    draw_from_deck(&mut deck, &mut hand);
    assert_eq!(deck, vec![6, 7]);
    assert_eq!(hand, vec![5, 1]);
}

#[test]
fn draw_from_discard_leaves_deck() {
    let mut deck = vec![5, 6];
    let mut discard = vec![9];
    let mut hand = vec![];
    draw(DrawSource::Discard, &mut deck, &mut discard, &mut hand);
    assert_eq!(deck, vec![5, 6]);
    assert!(discard.is_empty());
    assert_eq!(hand, vec![9]);
    draw(DrawSource::Deck, &mut deck, &mut discard, &mut hand);
    assert_eq!(deck, vec![6]);
    assert_eq!(hand, vec![5, 9]);
}

#[test]
fn play_ends_round_when_all_played() {
    assert_eq!(play(&vec![true, true, true]), Some(Trigger::EndRound));
    assert_eq!(play(&vec![true, false, true]), None);
    assert_eq!(play(&vec![]), Some(Trigger::EndRound));
}

#[test]
fn round_winner_is_unique_positive_max() {
    assert_eq!(round_winner(&vec![3, 5, 2]), Some(1));
    assert_eq!(round_winner(&vec![5, 5, 1]), None);
    assert_eq!(round_winner(&vec![0, 0]), None);
    assert_eq!(round_winner(&vec![]), None);
    assert_eq!(round_winner(&vec![0, 1]), Some(1));
}

fn seat(max_word_len: usize, word_count: usize, score: u32) -> PlayerRound {
    PlayerRound { max_word_len, word_count, score }
}

fn end_round_of(seats: &Vec<PlayerRound>, round: u32, state: round::State) -> Result<RoundEnd, GameError> {
    let mut seats = seats.clone();
    let mut played = vec![true; seats.len()];
    let mut hands = vec![vec![1u32]; seats.len()];
    let mut discard = vec![4u32];
    end_round(&mut seats, &mut played, &mut hands, &mut discard, round, state)
}

#[test]
fn end_round_awards_bonuses_and_advances() {
    let seats = vec![seat(7, 2, 10), seat(4, 5, 3), seat(6, 1, 0)];
    let e = match end_round_of(&seats, 2, round::State::MandatoryPlay) {
        Ok(e) => e,
        Err(e) => panic!("{}", e.message()),
    };
    assert_eq!(e.longest_word, Some(0));
    assert_eq!(e.most_words, Some(1));
    assert_eq!(e.scores, vec![10 + ROUND_BONUS, 3 + ROUND_BONUS, 0]);
    assert_eq!(e.round_state, Some(round::State::OptionalPlay));
    assert_eq!(e.round, 3);
    assert_eq!(e.next, Trigger::StartRound);
}

#[test]
fn end_round_one_seat_takes_both_bonuses() {
    let seats = vec![seat(9, 9, 1), seat(2, 2, 2)];
    let e = end_round_of(&seats, 0, round::State::MandatoryPlay).ok().unwrap();
    assert_eq!(e.scores, vec![21, 2]);
}

#[test]
fn end_round_ties_give_no_bonus() {
    let seats = vec![seat(5, 3, 4), seat(5, 3, 6)];
    let e = end_round_of(&seats, 1, round::State::OptionalPlay).ok().unwrap();
    assert_eq!(e.longest_word, None);
    assert_eq!(e.most_words, None);
    assert_eq!(e.scores, vec![4, 6]);
    assert_eq!(e.round_state, None);
}

#[test]
fn end_round_after_last_round_ends_game() {
    let seats = vec![seat(1, 1, 0)];
    let e = end_round_of(&seats, LAST_ROUND, round::State::MandatoryPlay).ok().unwrap();
    assert_eq!(e.round, LAST_ROUND);
    assert_eq!(e.next, Trigger::EndGame);
}

#[test]
fn end_round_score_overflow_is_refused() {
    let seats = vec![seat(3, 3, u32::MAX - 15), seat(1, 1, 0)];
    assert!(matches!(end_round_of(&seats, 1, round::State::MandatoryPlay), Err(GameError::ScoreOverflow)));
    assert_eq!(GameError::ScoreOverflow.message(), "Score counter overflow");
}

#[test]
fn end_round_round_overflow_is_refused() {
    let seats = vec![seat(1, 1, 0)];
    assert!(matches!(end_round_of(&seats, u32::MAX, round::State::MandatoryPlay), Err(GameError::RoundOverflow)));
    assert_eq!(GameError::RoundOverflow.message(), "Round counter overflow");
}

#[test]
fn end_game_picks_all_top_scorers() {
    let o = end_game(&vec![12, 30, 7, 30]);
    assert_eq!(o.winners, vec![1, 3]);
    assert_eq!(o.final_scores, vec![12, 30, 7, 30]);
}

#[test]
fn end_game_without_seats() {
    let o = end_game(&vec![]);
    assert!(o.winners.is_empty());
}

#[test]
fn start_round_really_shuffles() {
    let fresh: Vec<u32> = (0..20).collect();
    let r = start_round(fresh.clone(), 1, 0, 0);
    assert_eq!(r.shuffled.len(), 20);
    assert_ne!(r.shuffled, fresh);
}

#[test]
fn end_round_clears_the_round() {
    let mut seats = vec![seat(7, 2, 10), seat(4, 5, 3)];
    let mut played = vec![true, true];
    let mut hands = vec![vec![1, 2], vec![3]];
    let mut discard = vec![9, 8];
    let e = end_round(&mut seats, &mut played, &mut hands, &mut discard, 2, round::State::MandatoryPlay).ok().unwrap();
    assert_eq!(seats, vec![seat(0, 0, e.scores[0]), seat(0, 0, e.scores[1])]);
    assert_eq!(e.scores, vec![20, 13]);
    assert_eq!(played, vec![false, false]);
    assert_eq!(hands, vec![Vec::<u32>::new(), vec![]]);
    assert!(discard.is_empty());
}

#[test]
fn refused_end_round_changes_nothing() {
    let mut seats = vec![seat(1, 1, 0)];
    let mut played = vec![true];
    let mut hands = vec![vec![5]];
    let mut discard = vec![6];
    assert!(end_round(&mut seats, &mut played, &mut hands, &mut discard, u32::MAX, round::State::MandatoryPlay).is_err());
    assert_eq!(seats, vec![seat(1, 1, 0)]);
    assert_eq!(played, vec![true]);
    assert_eq!(hands, vec![vec![5]]);
    assert_eq!(discard, vec![6]);
}
