use gin_rummy::card::Card;
use gin_rummy::error::GinError;
use gin_rummy::game::{Decision, DiscardTop, GinGame, Phase};
use gin_rummy::player::PlayerId;
use gin_rummy::scoring::GameResult;

fn all_cards(g: &GinGame) -> Vec<Card> {
    let mut all = Vec::new();
    all.extend(g.deck.cards.iter().copied());
    all.extend(g.discard_pile.cards.iter().copied());
    for p in [&g.first_player, &g.second_player] {
        all.extend(p.hand.iter().copied());
        for m in &p.melds.collection {
            all.extend(m.iter().copied());
        }
    }
    all
}

fn assert_every_card_once(g: &GinGame) {
    let all = all_cards(g);
    assert_eq!(all.len(), 52);
    for (i, a) in all.iter().enumerate() {
        for b in all.iter().skip(i + 1) {
            assert_ne!(a, b);
        }
    }
}

fn dealt_game() -> GinGame {
    let mut g = GinGame::new(String::from("Ann"), String::from("Bob"));
    loop {
        if g.determine_first_turn().is_some() {
            break;
        }
    }
    g.deal_starting_hands();
    g
}

fn current_hand(g: &GinGame) -> &Vec<Card> {
    match g.get_current_turn() {
        PlayerId::PlayerOne => &g.first_player.hand,
        PlayerId::PlayerTwo => &g.second_player.hand,
    }
}

#[test]
fn new_game_waits_for_first_turn() {
    let g = GinGame::new(String::from("Ann"), String::from("Bob"));
    assert_eq!(g.phase, Phase::DeterminingFirstTurn);
    assert_eq!(g.first_player.name, "Ann");
    assert_eq!(g.second_player.name, "Bob");
    assert_eq!(g.deck.cards.len(), 52);
    assert!(g.discard_pile.cards.is_empty());
    assert!(g.score.is_none());
    assert_every_card_once(&g);
}

#[test]
fn first_turn_goes_to_the_higher_card() {
    let mut g = GinGame::new(String::from("Ann"), String::from("Bob"));
    loop {
        let r = g.determine_first_turn();
        let n = g.deck.cards.len();
        let a = g.deck.cards[n - 1].value();
        let b = g.deck.cards[n - 2].value();
        match r {
            Some(p) => {
                assert_eq!(p, if a > b { PlayerId::PlayerOne } else { PlayerId::PlayerTwo });
                assert_ne!(a, b);
                assert_eq!(g.get_current_turn(), p);
                assert_eq!(g.phase, Phase::Dealing);
                break;
            }
            None => {
                assert_eq!(a, b);
                assert_eq!(g.phase, Phase::DeterminingFirstTurn);
            }
        }
    }
    assert_every_card_once(&g);
}

#[test]
fn dealing_gives_ten_each_and_one_discard() {
    let g = dealt_game();
    assert_eq!(g.first_player.hand.len(), 10);
    assert_eq!(g.second_player.hand.len(), 10);
    assert_eq!(g.discard_pile.cards.len(), 1);
    assert_eq!(g.deck.cards.len(), 31);
    assert_eq!(g.phase, Phase::AwaitingDraw);
    assert_every_card_once(&g);
}

#[test]
fn discard_top_is_face_up_during_play() {
    let g = dealt_game();
    assert_eq!(g.discard_top(), DiscardTop::FaceUp(g.discard_pile.cards[0]));
}

#[test]
fn a_full_turn_passes_play_to_the_opponent() {
    let mut g = dealt_game();
    let player = g.get_current_turn();
    let top = g.deck.cards[30];
    assert_eq!(g.draw_from_deck(), Ok(()));
    assert_eq!(current_hand(&g).len(), 11);
    assert_eq!(*current_hand(&g).last().unwrap(), top);
    assert_eq!(g.phase, Phase::AwaitingDecision);
    g.declare(Decision::Neither);
    assert_eq!(g.phase, Phase::AwaitingDiscard);
    let card = current_hand(&g)[3];
    assert_eq!(g.discard(3), Ok(()));
    assert_eq!(g.discard_pile.cards.last(), Some(&card));
    assert_eq!(g.get_current_turn(), player.opponent());
    assert_eq!(g.phase, Phase::AwaitingDraw);
    assert_every_card_once(&g);
}

#[test]
fn drawing_from_the_discard_pile_takes_its_top() {
    let mut g = dealt_game();
    let top = g.discard_pile.cards[0];
    assert_eq!(g.draw_from_discard(), Ok(()));
    assert!(g.discard_pile.cards.is_empty());
    assert_eq!(*current_hand(&g).last().unwrap(), top);
    assert_eq!(g.discard_top(), DiscardTop::Empty);
    assert_every_card_once(&g);
}

#[test]
fn discard_out_of_range_changes_nothing() {
    let mut g = dealt_game();
    assert_eq!(g.draw_from_deck(), Ok(()));
    g.declare(Decision::Neither);
    let before = current_hand(&g).clone();
    let pile = g.discard_pile.cards.clone();
    assert_eq!(g.discard(11), Err(GinError::InvalidIndex));
    assert_eq!(g.discard(200), Err(GinError::InvalidIndex));
    assert_eq!(*current_hand(&g), before);
    assert_eq!(g.discard_pile.cards, pile);
    assert_eq!(g.phase, Phase::AwaitingDiscard);
}

#[test]
fn the_deck_runs_out_eventually() {
    let mut g = dealt_game();
    for _ in 0..31 {
        assert_eq!(g.draw_from_deck(), Ok(()));
        g.declare(Decision::Neither);
        assert_eq!(g.discard(0), Ok(()));
    }
    let hand = current_hand(&g).clone();
    assert_eq!(g.draw_from_deck(), Err(GinError::DeckExhausted));
    assert_eq!(*current_hand(&g), hand);
    assert_eq!(g.phase, Phase::AwaitingDraw);
    assert_every_card_once(&g);
}

#[test]
fn knocking_starts_the_meld_phase_and_hides_the_pile() {
    let mut g = dealt_game();
    let declarer = g.get_current_turn();
    assert_eq!(g.draw_from_deck(), Ok(()));
    g.declare(Decision::Knock);
    assert!(g.knock_status);
    assert!(!g.gin_status);
    assert_eq!(g.declarer, declarer);
    assert_eq!(g.phase, Phase::Melding);
    assert_eq!(g.discard_top(), DiscardTop::FaceDown);
}

#[test]
fn meld_phase_runs_declarer_then_opponent_then_layoff() {
    let mut g = dealt_game();
    let declarer = g.get_current_turn();
    assert_eq!(g.draw_from_deck(), Ok(()));
    g.declare(Decision::Gin);
    assert_eq!(g.create_meld(), 0);
    assert_eq!(g.add_to_meld(0, 0), Ok(()));
    assert_eq!(g.add_to_meld(0, 1), Err(GinError::InvalidIndex));
    assert_eq!(g.add_to_meld(20, 0), Err(GinError::InvalidIndex));
    assert_eq!(current_hand(&g).len(), 10);
    assert_eq!(g.create_meld(), 1);
    assert_eq!(g.add_to_meld(0, 1), Ok(()));
    assert_eq!(g.remove_meld(1), Ok(()));
    assert_eq!(g.remove_meld(1), Err(GinError::InvalidIndex));
    assert_eq!(current_hand(&g).len(), 10);
    g.finish_melds();
    assert_eq!(g.get_current_turn(), declarer.opponent());
    assert_eq!(g.phase, Phase::Melding);
    g.finish_melds();
    assert_eq!(g.phase, Phase::LayingOff);
    assert_eq!(g.lay_off(0, 0), Ok(()));
    assert_eq!(g.lay_off(0, 1), Err(GinError::InvalidIndex));
    assert_eq!(current_hand(&g).len(), 9);
    g.finish_melds();
    assert_eq!(g.phase, Phase::HandOver);
    assert_every_card_once(&g);
    // One card in one meld cannot be gin.
    assert_eq!(g.compute_score(), Err(GinError::InvalidGin));
}

#[test]
fn scores_are_recorded() {
    let mut g = GinGame::new(String::from("Ann"), String::from("Bob"));
    g.set_score(35, PlayerId::PlayerTwo);
    assert_eq!(g.score, Some(GameResult { winner: PlayerId::PlayerTwo, points: 35 }));
}

#[test]
fn set_next_turn_alternates() {
    let mut g = GinGame::new(String::from("Ann"), String::from("Bob"));
    let first = g.get_current_turn();
    g.set_next_turn();
    assert_eq!(g.get_current_turn(), first.opponent());
    g.set_next_turn();
    assert_eq!(g.get_current_turn(), first);
}

#[test]
fn deadwood_of_a_fresh_hand_is_its_value() {
    let g = dealt_game();
    let sum: u64 = g.first_player.hand.iter().map(|c| c.value()).sum();
    assert_eq!(g.deadwood_of(PlayerId::PlayerOne), sum);
}
