use card_combat::engine::draw_hand;
use card_combat::engine::discard_hand;
use card_combat::engine::sat_add;
use card_combat::engine::shuffle_deck;
use card_combat::engine::tick;
use card_combat::engine::Action;
use card_combat::engine::Attribute;
use card_combat::engine::Card;
use card_combat::engine::CardCollection;
use card_combat::engine::CardId;
use card_combat::engine::Effect;
use card_combat::engine::EngineError;
use card_combat::engine::Entity;
use card_combat::engine::GameState;
use card_combat::engine::Role;
use card_combat::engine::State;
use card_combat::engine::TargetPolicy;

fn shields_card() -> Card {
    Card {
        id: CardId::Shields,
        name: "Shields".to_owned(),
        target: TargetPolicy::SelfOnly,
        effects: vec![Effect::IncreaseShields],
    }
}

fn phasers_card() -> Card {
    Card {
        id: CardId::Phasers,
        name: "Phasers".to_owned(),
        target: TargetPolicy::SingleOpponent,
        effects: vec![Effect::DamageHull],
    }
}

fn entity_with(hull: i64, shields: i64, name: &str, role: Role) -> Entity {
    let mut s = State::new();
    s.insert(Attribute::Hull, hull);
    s.insert(Attribute::Shields, shields);
    Entity {
        name: name.to_owned(),
        role,
        state: s,
    }
}

#[test]
fn test_draw_hand() {
    // Initialize game state for the test
    let cards = CardCollection::new();
    let init_deck = vec![];
    let mut game = GameState::new(cards, init_deck);

    // Drawing a hand with an empty deck should not panic
    draw_hand(&mut game, 4);
    assert_eq!(game.hand, vec![], "Hand should be empty");

    // Try with a draw pile of three cards and try to draw four
    let expected_hand = vec![CardId::Phasers, CardId::Phasers, CardId::Phasers];
    game.draw = expected_hand.clone();
    draw_hand(&mut game, 4);
    assert_eq!(expected_hand, game.hand);
    assert!(game.draw.is_empty(), "Draw pile should be empty");
}

#[test]
fn test_discard_hand() {
    // Initialize game state for the test
    let cards = CardCollection::new();
    let init_deck = vec![];
    let mut game = GameState::new(cards, init_deck);

    // Try with a draw pile of three cards and try to draw four
    game.hand = vec![CardId::Phasers, CardId::Phasers];
    discard_hand(&mut game);
    assert!(game.hand.is_empty(), "Hand should be empty");
    assert_eq!(
        vec![CardId::Phasers, CardId::Phasers],
        game.discard,
        "Cards from the hand should all be in the discard pile"
    )
}

#[test]
fn test_apply_effects() {
    // Initialize game state for the test
    let cards = CardCollection::new();
    let init_deck = vec![];
    let mut game = GameState::new(cards, init_deck);

    // Add a player entity
    let player = entity_with(10, 10, "Player", Role::Player);
    let player_id = game.add_entity(None, player);

    // We'll test the shields card effects are applied correctly
    let card = shields_card();

    // Apply state change for the card
    let state_change = card.effects[0].calculate(&game, player_id);
    game.apply_effect((player_id, state_change)).unwrap();

    assert_eq!(
        game.get_state(&player_id)
            .unwrap()
            .get(Attribute::Shields)
            .unwrap(),
        11
    )
}

#[test]
fn test_integration() {
    let mut cards = CardCollection::new();
    cards.insert(shields_card());
    cards.insert(phasers_card());

    let mut init_deck = vec![
        CardId::Shields,
        CardId::Shields,
        CardId::Shields,
        CardId::Phasers,
        CardId::Phasers,
        CardId::Phasers,
    ];
    shuffle_deck(&mut init_deck);

    let mut game = GameState::new(cards, init_deck);

    // Add an enemy
    let enemy = entity_with(10, 10, "Battleship", Role::Enemy);
    let enemy_id = game.add_entity(None, enemy);

    // Run through a turn to make sure it works
    game.set_action(Action::BeginTurn);
    tick(&mut game).unwrap();
    println!("State: {:?}", game);

    game.set_action(Action::PlayCard(enemy_id, 0));
    tick(&mut game).unwrap();
    println!("State: {:?}", game);

    game.set_action(Action::PlayCard(enemy_id, 0));
    tick(&mut game).unwrap();
    println!("State: {:?}", game);

    game.set_action(Action::EndTurn);
    tick(&mut game).unwrap();
    println!("State: {:?}", game);
}

#[test]
fn test_delta_applied_twice_accumulates() {
    // Applying a Shields +1 delta to Shields = 10 gives 11; applying the
    // same delta again gives 12. Application is explicitly not
    // idempotent.
    let mut game = GameState::new(CardCollection::new(), vec![]);
    let player = entity_with(10, 10, "Player", Role::Player);
    let player_id = game.add_entity(None, player);

    let mut delta = State::new();
    delta.insert(Attribute::Shields, 1);

    game.apply_effect((player_id, delta)).unwrap();
    assert_eq!(
        game.get_state(&player_id)
            .unwrap()
            .get(Attribute::Shields)
            .unwrap(),
        11
    );

    game.apply_effect((player_id, delta)).unwrap();
    assert_eq!(
        game.get_state(&player_id)
            .unwrap()
            .get(Attribute::Shields)
            .unwrap(),
        12
    );
}

#[test]
fn test_hull_depletion_removes_entity() {
    // An entity whose hull reaches zero leaves play at once, and any
    // further lookup for it reports a lookup failure.
    let mut game = GameState::new(CardCollection::new(), vec![]);
    let enemy = entity_with(1, 0, "Battleship", Role::Enemy);
    let enemy_id = game.add_entity(None, enemy);

    let mut delta = State::new();
    delta.insert(Attribute::Hull, -1);
    game.apply_effect((enemy_id, delta)).unwrap();

    assert!(!game.has_entity(&enemy_id));
    assert!(!game.entities.contains(&enemy_id));
    assert_eq!(game.get_state(&enemy_id).unwrap_err(), EngineError::LookupFailure);
    assert_eq!(
        game.apply_effect((enemy_id, delta)).unwrap_err(),
        EngineError::LookupFailure
    );
}

#[test]
fn test_begin_turn_and_play_scenario() {
    // Catalog holds the shields card alone; the draw pile holds three
    // copies. Beginning the turn draws all three; playing the first
    // hand card moves it to the discard pile and raises shields to 11.
    let mut cards = CardCollection::new();
    cards.insert(shields_card());

    let init_deck = vec![CardId::Shields, CardId::Shields, CardId::Shields];
    let mut game = GameState::new(cards, init_deck);
    let player = entity_with(10, 10, "Player", Role::Player);
    let player_id = game.add_entity(None, player);
    game.player = player_id;

    game.set_action(Action::BeginTurn);
    tick(&mut game).unwrap();
    assert_eq!(game.hand.len(), 3);
    assert!(game.draw.is_empty());

    game.set_action(Action::PlayCard(player_id, 0));
    tick(&mut game).unwrap();
    assert_eq!(game.hand.len(), 2);
    assert_eq!(game.discard, vec![CardId::Shields]);
    assert_eq!(
        game.get_state(&player_id)
            .unwrap()
            .get(Attribute::Shields)
            .unwrap(),
        11
    );
}

#[test]
fn test_draw_reshuffles_discard() {
    // With an empty draw pile and three discarded cards, one draw turns
    // the discard pile into the draw pile (in some order), draws one
    // card, and leaves the discard pile empty. No card appears or
    // disappears.
    let mut game = GameState::new(CardCollection::new(), vec![]);
    game.discard = vec![CardId::Shields, CardId::Phasers, CardId::Phasers];

    game.set_action(Action::Draw);
    tick(&mut game).unwrap();

    assert!(game.discard.is_empty());
    assert_eq!(game.hand.len(), 1);
    assert_eq!(game.draw.len(), 2);

    let mut all: Vec<CardId> = game.draw.clone();
    all.extend(game.hand.clone());
    let shields = all.iter().filter(|c| **c == CardId::Shields).count();
    let phasers = all.iter().filter(|c| **c == CardId::Phasers).count();
    assert_eq!(shields, 1);
    assert_eq!(phasers, 2);
}

#[test]
fn test_draw_conserves_total_count() {
    // Drawing any number of cards only moves cards between piles.
    let mut game = GameState::new(
        CardCollection::new(),
        vec![CardId::Shields, CardId::Phasers],
    );
    game.hand = vec![CardId::Shields];
    game.discard = vec![CardId::Phasers, CardId::Phasers];

    draw_hand(&mut game, 4);
    assert_eq!(game.draw.len() + game.hand.len() + game.discard.len(), 5);

    draw_hand(&mut game, 10);
    assert_eq!(game.draw.len() + game.hand.len() + game.discard.len(), 5);
}

#[test]
fn test_play_card_invalid_index() {
    // A hand index out of bounds is rejected and changes nothing.
    let mut cards = CardCollection::new();
    cards.insert(shields_card());
    let mut game = GameState::new(cards, vec![]);
    let player = entity_with(10, 10, "Player", Role::Player);
    let player_id = game.add_entity(None, player);
    game.hand = vec![CardId::Shields];

    game.set_action(Action::PlayCard(player_id, 1));
    assert_eq!(tick(&mut game).unwrap_err(), EngineError::InvalidIndex);
    assert_eq!(game.hand, vec![CardId::Shields]);
    assert!(game.discard.is_empty());
}

#[test]
fn test_play_card_unknown_card() {
    // A hand card with no catalog definition is a lookup failure, and
    // nothing moves.
    let mut game = GameState::new(CardCollection::new(), vec![]);
    let player = entity_with(10, 10, "Player", Role::Player);
    let player_id = game.add_entity(None, player);
    game.hand = vec![CardId::Shields];

    game.set_action(Action::PlayCard(player_id, 0));
    assert_eq!(tick(&mut game).unwrap_err(), EngineError::LookupFailure);
    assert_eq!(game.hand, vec![CardId::Shields]);
    assert!(game.discard.is_empty());
}

#[test]
fn test_play_card_unknown_target() {
    // A target that is not live is a lookup failure, and the card stays
    // in the hand.
    let mut cards = CardCollection::new();
    cards.insert(phasers_card());
    let mut game = GameState::new(cards, vec![]);
    game.hand = vec![CardId::Phasers];

    game.set_action(Action::PlayCard(42, 0));
    assert_eq!(tick(&mut game).unwrap_err(), EngineError::LookupFailure);
    assert_eq!(game.hand, vec![CardId::Phasers]);
}

#[test]
fn test_await_changes_nothing() {
    let mut game = GameState::new(CardCollection::new(), vec![CardId::Shields]);
    game.set_action(Action::Await);
    tick(&mut game).unwrap();
    assert_eq!(game.draw, vec![CardId::Shields]);
    assert!(game.hand.is_empty());
    assert!(game.discard.is_empty());
}

#[test]
fn test_add_entity_ids() {
    // A requested id is honored; a fresh id never collides with a live
    // one; registering under a live id replaces the entity instead of
    // duplicating it.
    let mut game = GameState::new(CardCollection::new(), vec![]);

    let a = game.add_entity(Some(7), entity_with(10, 0, "A", Role::Player));
    assert_eq!(a, 7);
    assert!(game.has_entity(&7));

    let b = game.add_entity(None, entity_with(10, 0, "B", Role::Enemy));
    assert_ne!(b, 7);
    assert!(game.has_entity(&b));
    assert_eq!(game.entities.len(), 2);

    let again = game.add_entity(Some(7), entity_with(5, 0, "C", Role::Enemy));
    assert_eq!(again, 7);
    assert_eq!(game.entities.len(), 2);
    assert_eq!(game.get_state(&7).unwrap().get(Attribute::Hull).unwrap(), 5);
}

#[test]
fn test_remove_entity_unknown() {
    let mut game = GameState::new(CardCollection::new(), vec![]);
    assert_eq!(
        game.remove_entity(&3).unwrap_err(),
        EngineError::LookupFailure
    );
}

#[test]
fn test_card_collection_lookup() {
    let mut cards = CardCollection::new();
    assert!(cards.get(&CardId::Shields).is_none());
    cards.insert(shields_card());
    let card = cards.get(&CardId::Shields).unwrap();
    assert_eq!(card.name, "Shields");
    assert!(cards.get(&CardId::Phasers).is_none());
}

#[test]
fn test_shuffle_preserves_cards() {
    let mut deck = vec![
        CardId::Shields,
        CardId::Shields,
        CardId::Phasers,
        CardId::Shields,
    ];
    shuffle_deck(&mut deck);
    assert_eq!(deck.len(), 4);
    let shields = deck.iter().filter(|c| **c == CardId::Shields).count();
    let phasers = deck.iter().filter(|c| **c == CardId::Phasers).count();
    assert_eq!(shields, 3);
    assert_eq!(phasers, 1);
}

#[test]
fn test_sat_add_saturates() {
    assert_eq!(sat_add(1, 2), 3);
    assert_eq!(sat_add(i64::MAX, 1), i64::MAX);
    assert_eq!(sat_add(i64::MIN, -1), i64::MIN);
    assert_eq!(sat_add(i64::MAX, -1), i64::MAX - 1);
}

#[test]
fn test_accumulate_saturates_through_apply() {
    // Attribute accumulation saturates instead of wrapping.
    let mut game = GameState::new(CardCollection::new(), vec![]);
    let mut s = State::new();
    s.insert(Attribute::Hull, 10);
    s.insert(Attribute::Shields, i64::MAX);
    let id = game.add_entity(
        None,
        Entity {
            name: "Player".to_owned(),
            role: Role::Player,
            state: s,
        },
    );

    let mut delta = State::new();
    delta.insert(Attribute::Shields, 1);
    game.apply_effect((id, delta)).unwrap();
    assert_eq!(
        game.get_state(&id).unwrap().get(Attribute::Shields).unwrap(),
        i64::MAX
    );
}

#[test]
fn test_merged_delta_sums_effects() {
    // Two effects of one card are merged into a single delta before the
    // target is touched: two hull hits arrive as one -2 change.
    let mut cards = CardCollection::new();
    cards.insert(Card {
        id: CardId::Phasers,
        name: "Phasers".to_owned(),
        target: TargetPolicy::SingleOpponent,
        effects: vec![Effect::DamageHull, Effect::DamageHull],
    });
    let mut game = GameState::new(cards, vec![]);
    game.hand = vec![CardId::Phasers];
    let enemy = entity_with(10, 0, "Battleship", Role::Enemy);
    let enemy_id = game.add_entity(None, enemy);

    game.set_action(Action::PlayCard(enemy_id, 0));
    tick(&mut game).unwrap();
    assert_eq!(
        game.get_state(&enemy_id).unwrap().get(Attribute::Hull).unwrap(),
        8
    );
    assert_eq!(game.discard, vec![CardId::Phasers]);
    assert!(game.hand.is_empty());
}
