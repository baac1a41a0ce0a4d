use card_combat::engine::Action;
use card_combat::engine::TargetPolicy;
use card_combat::gui::Combat;
use card_combat::gui::GuiStateMachine;
use card_combat::gui::SelectOutcome;

#[test]
fn test_transitions() {
    let card_idx = 0;
    let enemy_id = 1;

    // Initial state
    let combat_state = Combat {
        enemy_id,
        card_idx: None,
    };

    // Simulate playing a card that needs a target
    let targeting_state =
        match combat_state.select_card(card_idx, TargetPolicy::SingleOpponent, 0) {
            SelectOutcome::Choose(ts) => ts,
            SelectOutcome::Play(_, _) => panic!("expected a target selection"),
        };
    assert_eq!(targeting_state.targets, vec![enemy_id]);
    assert_eq!(targeting_state.card_idx, card_idx);

    // Simulate choosing enemy as target
    let target_select_complete_state = targeting_state.choose_target(0).unwrap();

    assert_eq!(target_select_complete_state.target, enemy_id);
}

#[test]
fn test_workflow_emits_play_card() {
    // Selecting a card that needs an opponent, then selecting the
    // enemy, emits exactly PlayCard(enemy, card index) and returns the
    // workflow to combat with nothing pending.
    let enemy_id = 9;
    let player_id = 3;
    let combat = Combat::new(enemy_id);

    let targeting = match combat.select_card(2, TargetPolicy::SingleOpponent, player_id) {
        SelectOutcome::Choose(ts) => ts,
        SelectOutcome::Play(_, _) => panic!("expected a target selection"),
    };
    assert_eq!(targeting.card_idx, 2);
    assert_eq!(targeting.targets, vec![enemy_id]);

    let complete = targeting.choose_target(0).unwrap();
    let (action, back) = complete.into_action();
    assert_eq!(action, Action::PlayCard(enemy_id, 2));
    assert_eq!(back, Combat::new(enemy_id));
    assert_eq!(back.card_idx, None);
}

#[test]
fn test_workflow_self_targeting_card() {
    // A card that targets the player itself needs no target selection:
    // the action comes out at once.
    let enemy_id = 9;
    let player_id = 3;
    let combat = Combat::new(enemy_id);

    match combat.select_card(1, TargetPolicy::SelfOnly, player_id) {
        SelectOutcome::Play(action, back) => {
            assert_eq!(action, Action::PlayCard(player_id, 1));
            assert_eq!(back.card_idx, None);
        }
        SelectOutcome::Choose(_) => panic!("expected an immediate play"),
    }
}

#[test]
fn test_workflow_cancel() {
    // Cancelling a target selection returns to combat with nothing
    // pending, and no action is emitted.
    let enemy_id = 5;
    let combat = Combat::new(enemy_id);

    let targeting = match combat.select_card(0, TargetPolicy::SingleOpponent, 1) {
        SelectOutcome::Choose(ts) => ts,
        SelectOutcome::Play(_, _) => panic!("expected a target selection"),
    };

    let back = targeting.cancel();
    assert_eq!(back, Combat::new(enemy_id));
    assert_eq!(back.card_idx, None);
}

#[test]
fn test_choose_target_out_of_range() {
    // Choosing a candidate position that does not exist hands the
    // selection back unchanged.
    let combat = Combat::new(4);
    let targeting = match combat.select_card(0, TargetPolicy::SingleOpponent, 1) {
        SelectOutcome::Choose(ts) => ts,
        SelectOutcome::Play(_, _) => panic!("expected a target selection"),
    };
    let back = targeting.clone().choose_target(3).unwrap_err();
    assert_eq!(back, targeting);
}

#[test]
fn test_state_machine_starts_in_combat() {
    let machine = GuiStateMachine::new(8);
    match machine {
        GuiStateMachine::Combat(c) => {
            assert_eq!(c.enemy_id, 8);
            assert_eq!(c.card_idx, None);
        }
        _ => panic!("expected the combat state"),
    }
}
