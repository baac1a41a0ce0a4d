//! The interaction workflow: a typestate sequence that guards which user
//! choices are legal before a play action is handed to the engine. Each
//! transition consumes the prior state by value, so a stale state cannot
//! be reused, and a resolved target can only be read from the one state
//! that carries it — an unfinished selection simply has no target field.

use vstd::prelude::*;

use crate::engine::Action;
use crate::engine::EntityId;
use crate::engine::TargetPolicy;

verus! {

/// The initial workflow state: combat is in progress and no card has
/// been committed yet.
#[derive(Debug, Eq, PartialEq, Structural, Copy, Clone)]
pub struct Combat {
    /// The opposing entity shown to the player.
    pub enemy_id: EntityId,
    /// A card index still pending from an unfinished selection, if any.
    pub card_idx: Option<usize>,
}

/// The workflow state after a card needing a target was chosen: the
/// chosen card index and the candidate targets on offer. No resolved
/// target exists yet, so none can be read.
#[derive(Debug, PartialEq, Clone)]
pub struct TargetSelect {
    pub enemy_id: EntityId,
    pub card_idx: usize,
    /// The entities the player may choose between.
    pub targets: Vec<EntityId>,
}

/// The terminal workflow state: a card and a target are both fixed.
/// This is the only state that carries a resolved target.
#[derive(Debug, Eq, PartialEq, Structural, Copy, Clone)]
pub struct TargetSelectComplete {
    pub enemy_id: EntityId,
    pub card_idx: usize,
    /// The selected target for the played card.
    pub target: EntityId,
}

/// What selecting a card leads to: either the play is already complete
/// (the card targets the player itself), or a target must be chosen.
#[derive(Debug, PartialEq)]
pub enum SelectOutcome {
    /// The completed action, and the combat state to return to.
    Play(Action, Combat),
    /// A target is still needed.
    Choose(TargetSelect),
}

impl Combat {
    /// Starts the workflow over with no pending card selection.
    pub fn new(enemy_id: EntityId) -> (r: Combat)
        ensures
            r == (Combat { enemy_id, card_idx: None }),
    {
        Combat { enemy_id, card_idx: None }
    }

    /// Commits to a card. A card that targets the player itself emits a
    /// completed play at once and the workflow stays in combat; a card
    /// that needs an opponent moves on to target selection, offering the
    /// one opposing entity as candidate.
    pub fn select_card(self, card_idx: usize, policy: TargetPolicy, player_id: EntityId) -> (r:
        SelectOutcome)
        ensures
            match policy {
                TargetPolicy::SelfOnly => r == SelectOutcome::Play(
                    Action::PlayCard(player_id, card_idx),
                    Combat { enemy_id: self.enemy_id, card_idx: None },
                ),
                TargetPolicy::SingleOpponent => {
                    &&& r matches SelectOutcome::Choose(ts)
                    &&& ts.enemy_id == self.enemy_id
                    &&& ts.card_idx == card_idx
                    &&& ts.targets@ == seq![self.enemy_id]
                },
            },
    {
        match policy {
            TargetPolicy::SelfOnly => SelectOutcome::Play(
                Action::PlayCard(player_id, card_idx),
                Combat { enemy_id: self.enemy_id, card_idx: None },
            ),
            TargetPolicy::SingleOpponent => {
                let mut targets: Vec<EntityId> = Vec::new();
                targets.push(self.enemy_id);
                proof {
                    assert(targets@ =~= seq![self.enemy_id]);
                }
                SelectOutcome::Choose(
                    TargetSelect { enemy_id: self.enemy_id, card_idx, targets },
                )
            },
        }
    }
}

impl TargetSelect {
    /// Chooses the candidate at the given position, resolving the
    /// selection. A position with no candidate hands the selection back
    /// unchanged, so the player can choose again.
    pub fn choose_target(self, choice: usize) -> (r: Result<TargetSelectComplete, TargetSelect>)
        ensures
            match r {
                Ok(done) => {
                    &&& (choice as int) < self.targets@.len()
                    &&& done == (TargetSelectComplete {
                        enemy_id: self.enemy_id,
                        card_idx: self.card_idx,
                        target: self.targets@[choice as int],
                    })
                },
                Err(back) => (choice as int) >= self.targets@.len() && back == self,
            },
    {
        if choice < self.targets.len() {
            let target = self.targets[choice];
            Ok(
                TargetSelectComplete {
                    enemy_id: self.enemy_id,
                    card_idx: self.card_idx,
                    target,
                },
            )
        } else {
            Err(self)
        }
    }

    /// Abandons the in-progress selection and returns to combat with no
    /// pending card. No action is emitted.
    pub fn cancel(self) -> (r: Combat)
        ensures
            r == (Combat { enemy_id: self.enemy_id, card_idx: None }),
    {
        Combat { enemy_id: self.enemy_id, card_idx: None }
    }
}

impl TargetSelectComplete {
    /// Turns the resolved selection into the completed play action and
    /// returns the workflow to combat with no pending card.
    pub fn into_action(self) -> (r: (Action, Combat))
        ensures
            r.0 == Action::PlayCard(self.target, self.card_idx),
            r.1 == (Combat { enemy_id: self.enemy_id, card_idx: None }),
    {
        (
            Action::PlayCard(self.target, self.card_idx),
            Combat { enemy_id: self.enemy_id, card_idx: None },
        )
    }
}

/// The workflow as one value a host can hold: whichever state the
/// interaction currently sits in.
#[derive(Debug, PartialEq)]
pub enum GuiStateMachine {
    Combat(Combat),
    TargetSelect(TargetSelect),
    TargetSelectComplete(TargetSelectComplete),
}

impl GuiStateMachine {
    /// A fresh workflow: in combat, nothing pending.
    pub fn new(enemy_id: EntityId) -> (r: GuiStateMachine)
        ensures
            r == GuiStateMachine::Combat(Combat { enemy_id, card_idx: None }),
    {
        GuiStateMachine::Combat(Combat::new(enemy_id))
    }
}

} // verus!
