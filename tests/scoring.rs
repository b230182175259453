use gin_rummy::card::{Card, Rank, Suit};
use gin_rummy::error::GinError;
use gin_rummy::melds::Melds;
use gin_rummy::player::PlayerId;
use gin_rummy::scoring::{check_run, check_set, deadwood, meld_is_valid, score_hand, value_of_cards, GameResult};

fn card(suit: Suit, rank: Rank) -> Card {
    Card { suit, rank }
}

#[test]
fn three_of_a_rank_in_different_suits_is_a_set() {
    let m = vec![
        card(Suit::Clubs, Rank::Seven),
        card(Suit::Hearts, Rank::Seven),
        card(Suit::Spades, Rank::Seven),
    ];
    assert!(check_set(&m));
    assert!(!check_run(&m));
    assert!(meld_is_valid(&m));
}

#[test]
fn a_repeated_suit_spoils_a_set() {
    let m = vec![
        card(Suit::Clubs, Rank::Seven),
        card(Suit::Hearts, Rank::Seven),
        card(Suit::Clubs, Rank::Seven),
    ];
    assert!(!check_set(&m));
    assert!(!meld_is_valid(&m));
}

#[test]
fn two_cards_are_no_meld() {
    let m = vec![card(Suit::Clubs, Rank::Seven), card(Suit::Hearts, Rank::Seven)];
    assert!(!meld_is_valid(&m));
    let empty: Vec<Card> = Vec::new();
    assert!(!meld_is_valid(&empty));
}

#[test]
fn consecutive_ranks_of_one_suit_in_any_order_are_a_run() {
    let m = vec![
        card(Suit::Diamonds, Rank::Five),
        card(Suit::Diamonds, Rank::Three),
        card(Suit::Diamonds, Rank::Four),
        card(Suit::Diamonds, Rank::Six),
    ];
    assert!(check_run(&m));
    assert!(meld_is_valid(&m));
    let high = vec![
        card(Suit::Hearts, Rank::Jack),
        card(Suit::Hearts, Rank::Queen),
        card(Suit::Hearts, Rank::King),
    ];
    assert!(check_run(&high));
}

#[test]
fn gaps_mixed_suits_or_repeats_spoil_a_run() {
    let gap = vec![
        card(Suit::Diamonds, Rank::Three),
        card(Suit::Diamonds, Rank::Four),
        card(Suit::Diamonds, Rank::Six),
    ];
    assert!(!check_run(&gap));
    let mixed = vec![
        card(Suit::Diamonds, Rank::Three),
        card(Suit::Clubs, Rank::Four),
        card(Suit::Diamonds, Rank::Five),
    ];
    assert!(!check_run(&mixed));
    let repeat = vec![
        card(Suit::Diamonds, Rank::Three),
        card(Suit::Diamonds, Rank::Four),
        card(Suit::Diamonds, Rank::Four),
    ];
    assert!(!check_run(&repeat));
    let no_wrap = vec![
        card(Suit::Spades, Rank::Queen),
        card(Suit::Spades, Rank::King),
        card(Suit::Spades, Rank::Ace),
    ];
    assert!(!check_run(&no_wrap));
}

#[test]
fn value_of_cards_sums_rank_values() {
    let hand = vec![
        card(Suit::Clubs, Rank::Ace),
        card(Suit::Hearts, Rank::King),
        card(Suit::Spades, Rank::Five),
    ];
    assert_eq!(value_of_cards(&hand), 19);
    assert_eq!(value_of_cards(&Vec::new()), 0);
}

#[test]
fn deadwood_counts_hand_and_invalid_melds_only() {
    let mut hand = vec![
        card(Suit::Clubs, Rank::Seven),
        card(Suit::Hearts, Rank::Seven),
        card(Suit::Spades, Rank::Seven),
        card(Suit::Diamonds, Rank::Two),
        card(Suit::Hearts, Rank::Three),
    ];
    let mut melds = Melds::create();
    assert_eq!(deadwood(&hand, &melds), 26);
    assert_eq!(melds.create_new_meld(), 0);
    for _ in 0..3 {
        assert_eq!(melds.add_to_meld(&mut hand, 0, 0), Ok(()));
    }
    assert_eq!(deadwood(&hand, &melds), 5);
    assert_eq!(melds.create_new_meld(), 1);
    assert_eq!(melds.add_to_meld(&mut hand, 0, 1), Ok(()));
    // A meld of one card is not valid and still counts as deadwood.
    assert_eq!(deadwood(&hand, &melds), 5);
    assert_eq!(hand, vec![card(Suit::Hearts, Rank::Three)]);
}

#[test]
fn gin_scores_opponent_deadwood_plus_bonus() {
    // Player one melded all cards; player two has 15 deadwood.
    assert_eq!(
        score_hand(true, PlayerId::PlayerOne, 0, 15),
        Ok(GameResult { winner: PlayerId::PlayerOne, points: 35 })
    );
}

#[test]
fn knock_undercut_goes_to_opponent() {
    // Player one knocks with 8, player two ends with 5: player two undercuts
    // and earns the difference plus the undercut bonus.
    assert_eq!(
        score_hand(false, PlayerId::PlayerOne, 8, 5),
        Ok(GameResult { winner: PlayerId::PlayerTwo, points: 13 })
    );
}

#[test]
fn knock_wins_the_difference() {
    assert_eq!(
        score_hand(false, PlayerId::PlayerOne, 8, 12),
        Ok(GameResult { winner: PlayerId::PlayerOne, points: 4 })
    );
}

#[test]
fn equal_deadwood_is_an_undercut() {
    assert_eq!(
        score_hand(false, PlayerId::PlayerTwo, 6, 6),
        Ok(GameResult { winner: PlayerId::PlayerOne, points: 10 })
    );
}

#[test]
fn gin_with_deadwood_is_rejected() {
    assert_eq!(score_hand(true, PlayerId::PlayerOne, 3, 15), Err(GinError::InvalidGin));
    assert_eq!(score_hand(true, PlayerId::PlayerTwo, 1, 0), Err(GinError::InvalidGin));
}

#[test]
fn knock_over_the_limit_is_rejected() {
    assert_eq!(score_hand(false, PlayerId::PlayerOne, 11, 40), Err(GinError::InvalidKnock));
    assert_eq!(
        score_hand(false, PlayerId::PlayerOne, 10, 40),
        Ok(GameResult { winner: PlayerId::PlayerOne, points: 30 })
    );
}

#[test]
fn game_result_new_holds_its_fields() {
    let r = GameResult::new(PlayerId::PlayerTwo, 7);
    assert_eq!(r.winner, PlayerId::PlayerTwo);
    assert_eq!(r.points, 7);
}

#[test]
fn melds_refuse_out_of_range_positions() {
    let mut hand = vec![card(Suit::Clubs, Rank::Seven)];
    let mut melds = Melds::create();
    assert_eq!(melds.add_to_meld(&mut hand, 0, 0), Err(GinError::InvalidIndex));
    melds.create_new_meld();
    assert_eq!(melds.add_to_meld(&mut hand, 1, 0), Err(GinError::InvalidIndex));
    assert_eq!(hand.len(), 1);
    assert_eq!(melds.collection, vec![Vec::<Card>::new()]);
    assert_eq!(melds.remove_meld(&mut hand, 1), Err(GinError::InvalidIndex));
}

#[test]
fn removing_a_meld_returns_its_cards() {
    let mut hand = vec![
        card(Suit::Clubs, Rank::Seven),
        card(Suit::Hearts, Rank::Two),
        card(Suit::Spades, Rank::Four),
    ];
    let mut melds = Melds::create();
    melds.create_new_meld();
    melds.create_new_meld();
    assert_eq!(melds.add_to_meld(&mut hand, 0, 0), Ok(()));
    assert_eq!(melds.add_to_meld(&mut hand, 1, 1), Ok(()));
    assert_eq!(melds.remove_meld(&mut hand, 0), Ok(()));
    assert_eq!(melds.len(), 1);
    assert_eq!(melds.collection[0], vec![card(Suit::Spades, Rank::Four)]);
    assert_eq!(
        hand,
        vec![card(Suit::Hearts, Rank::Two), card(Suit::Clubs, Rank::Seven)]
    );
}
