//! The combat engine core: attribute state, cards and their effects, the
//! draw/hand/discard piles, the entity registry, and the per-step turn
//! action processor (`tick`).

use std::collections::HashMap;

use vstd::multiset::Multiset;
use vstd::prelude::*;

verus! {

broadcast use vstd::std_specs::hash::group_hash_axioms;

/// Identifies a card definition in the catalog.
#[derive(Debug, Eq, PartialEq, Structural, Hash, Copy, Clone)]
pub enum CardId {
    Shields,
    Phasers,
}

/// A named numeric property of an entity.
#[derive(Debug, Eq, PartialEq, Structural, Hash, Copy, Clone)]
pub enum Attribute {
    Shields,
    Hull,
}

/// Opaque identifier of an entity, unique for the session.
pub type EntityId = u32;

/// The single pending operation the processor executes on the next tick.
#[derive(Debug, Eq, PartialEq, Structural, Copy, Clone)]
pub enum Action {
    /// Idle: the next tick changes nothing.
    Await,
    /// Draw one card, reshuffling the discard pile into the draw pile
    /// first if the draw pile is empty.
    Draw,
    /// Play the card at the given hand index against the given target.
    PlayCard(EntityId, usize),
    /// Start a turn by drawing a fresh hand.
    BeginTurn,
    /// End the turn by moving the whole hand onto the discard pile.
    EndTurn,
}

/// The typed errors the engine reports instead of aborting.
#[derive(Debug, Eq, PartialEq, Structural, Copy, Clone)]
pub enum EngineError {
    /// A CardId or EntityId has no corresponding definition or entity.
    LookupFailure,
    /// A hand index is out of bounds.
    InvalidIndex,
}

/// A mapping from `Attribute` to a signed value. An attribute is only
/// present once it has been set; an absent attribute counts as 0 when a
/// change is accumulated onto it. The same shape serves both as an
/// entity's current state and as a delta still to be applied.
#[derive(Debug, Eq, PartialEq, Structural, Copy, Clone)]
pub struct State {
    pub shields: Option<i64>,
    pub hull: Option<i64>,
}

/// A signed change to one or more attribute values, not yet applied.
pub type Delta = State;

/// Clamps a mathematical integer into the range of `i64`.
pub open spec fn sat64(x: int) -> int {
    if x < i64::MIN as int {
        i64::MIN as int
    } else if x > i64::MAX as int {
        i64::MAX as int
    } else {
        x
    }
}

/// `i64` addition that saturates at the ends of the range.
pub fn sat_add(a: i64, b: i64) -> (r: i64)
    ensures
        r as int == sat64(a + b),
{
    if b >= 0 {
        if a > i64::MAX - b {
            i64::MAX
        } else {
            a + b
        }
    } else {
        if a < i64::MIN - b {
            i64::MIN
        } else {
            a + b
        }
    }
}

impl State {
    /// The value stored for an attribute, if any.
    pub open spec fn spec_get(self, attr: Attribute) -> Option<i64> {
        match attr {
            Attribute::Shields => self.shields,
            Attribute::Hull => self.hull,
        }
    }

    /// An empty state: no attribute has been set.
    pub fn new() -> (r: State)
        ensures
            forall|a: Attribute| r.spec_get(a) == Option::<i64>::None,
    {
        State { shields: None, hull: None }
    }

    /// Sets an attribute to a value, leaving every other attribute as it was.
    pub fn insert(&mut self, attr: Attribute, value: i64)
        ensures
            final(self).spec_get(attr) == Some(value),
            forall|a: Attribute| a != attr ==> final(self).spec_get(a) == old(self).spec_get(a),
    {
        match attr {
            Attribute::Shields => {
                self.shields = Some(value);
            },
            Attribute::Hull => {
                self.hull = Some(value);
            },
        }
    }

    /// Reads the value stored for an attribute, if any.
    pub fn get(&self, attr: Attribute) -> (r: Option<i64>)
        ensures
            r == self.spec_get(attr),
    {
        match attr {
            Attribute::Shields => self.shields,
            Attribute::Hull => self.hull,
        }
    }

    /// Accumulates a delta onto this mapping: per-key signed summation,
    /// an absent key counting as 0, saturating at the ends of the `i64`
    /// range. Keys absent from the delta stay untouched.
    pub fn accumulate(&mut self, delta: &Delta)
        ensures
            *final(self) == apply_delta(*old(self), *delta),
    {
        if let Some(d) = delta.shields {
            let base = match self.shields {
                Some(v) => v,
                None => 0,
            };
            self.shields = Some(sat_add(base, d));
        }
        if let Some(d) = delta.hull {
            let base = match self.hull {
                Some(v) => v,
                None => 0,
            };
            self.hull = Some(sat_add(base, d));
        }
    }
}

/// The value an optional attribute holds, an absent attribute counting
/// as 0.
pub open spec fn opt_value_or_zero(v: Option<i64>) -> int {
    match v {
        Some(x) => x as int,
        None => 0,
    }
}

/// Accumulates a change onto one attribute slot: an attribute absent
/// from the delta stays untouched; one present is added onto the stored
/// value (an absent stored value counting as 0), saturating at the ends
/// of the `i64` range.
pub open spec fn apply_opt(s: Option<i64>, d: Option<i64>) -> Option<i64> {
    match d {
        None => s,
        Some(dv) => Some(sat64(opt_value_or_zero(s) + dv) as i64),
    }
}

/// Accumulates a delta onto an attribute mapping, key by key. The same
/// per-key signed summation serves twice: merging the deltas of a card's
/// effects into one, and applying that merged delta to an entity's state.
pub open spec fn apply_delta(s: State, d: Delta) -> State {
    State { shields: apply_opt(s.shields, d.shields), hull: apply_opt(s.hull, d.hull) }
}

/// The one merged delta of a sequence of effects: their deltas summed
/// key by key, in declaration order, before anything is applied.
pub open spec fn merged_delta(effects: Seq<Effect>) -> Delta
    decreases effects.len(),
{
    if effects.len() == 0 {
        State { shields: None, hull: None }
    } else {
        apply_delta(merged_delta(effects.drop_last()), effects.last().spec_calculate())
    }
}

/// Whether a state's hull is present and at or below zero — the terminal
/// rule that takes an entity out of play.
pub open spec fn hull_depleted(s: State) -> bool {
    match s.hull {
        Some(h) => h <= 0,
        None => false,
    }
}

/// Declares which entities are legal targets for a card.
#[derive(Debug, Eq, PartialEq, Structural, Copy, Clone)]
pub enum TargetPolicy {
    /// The card can only be played on the player itself.
    SelfOnly,
    /// The card is played on one chosen opposing entity.
    SingleOpponent,
}

/// A pure computation producing a delta for a target entity. The effect
/// set is closed: each variant carries what it needs, and one interpreter
/// (`calculate`) evaluates them all.
#[derive(Debug, Eq, PartialEq, Structural, Copy, Clone)]
pub enum Effect {
    /// Raises the target's shields by one.
    IncreaseShields,
    /// Lowers the target's hull by one.
    DamageHull,
}

impl Effect {
    /// The delta an effect produces. Effects are deterministic: the
    /// result depends on the effect alone, never on the game snapshot,
    /// so two evaluations within one resolution always agree.
    pub open spec fn spec_calculate(self) -> Delta {
        match self {
            Effect::IncreaseShields => State { shields: Some(1i64), hull: None },
            Effect::DamageHull => State { shields: None, hull: Some(-1i64) },
        }
    }

    /// Evaluates the effect against a read-only snapshot and a target,
    /// returning the delta to merge. Nothing is mutated.
    pub fn calculate(&self, _game: &GameState, _ent_id: EntityId) -> (r: Delta)
        ensures
            r == self.spec_calculate(),
    {
        match self {
            Effect::IncreaseShields => State { shields: Some(1i64), hull: None },
            Effect::DamageHull => State { shields: None, hull: Some(-1i64) },
        }
    }
}

/// An immutable card definition: identity, display name, target policy,
/// and the ordered effects resolved when the card is played.
#[derive(Debug)]
pub struct Card {
    pub id: CardId,
    pub name: String,
    pub target: TargetPolicy,
    pub effects: Vec<Effect>,
}

/// The card catalog: a mapping from `CardId` to its one definition,
/// filled at game setup and read-only afterwards. The id space is a
/// closed enumeration, so the catalog keeps one slot per id.
#[derive(Debug)]
pub struct CardCollection {
    shields: Option<Card>,
    phasers: Option<Card>,
}

impl CardCollection {
    /// The definition stored for a card id, if any.
    pub closed spec fn spec_get(self, card_id: CardId) -> Option<Card> {
        match card_id {
            CardId::Shields => self.shields,
            CardId::Phasers => self.phasers,
        }
    }

    /// An empty catalog.
    pub fn new() -> (r: Self)
        ensures
            forall|id: CardId| r.spec_get(id) == Option::<Card>::None,
    {
        Self { shields: None, phasers: None }
    }

    /// Stores a card under its own id, replacing any previous definition.
    pub fn insert(&mut self, card: Card)
        ensures
            final(self).spec_get(card.id) == Some(card),
            forall|id: CardId| id != card.id ==> final(self).spec_get(id) == old(self).spec_get(id),
    {
        match card.id {
            CardId::Shields => {
                self.shields = Some(card);
            },
            CardId::Phasers => {
                self.phasers = Some(card);
            },
        }
    }

    /// Looks a card up by id.
    pub fn get(&self, card_id: &CardId) -> (r: Option<&Card>)
        ensures
            match r {
                Some(card) => self.spec_get(*card_id) == Some(*card),
                None => self.spec_get(*card_id) == Option::<Card>::None,
            },
    {
        match card_id {
            CardId::Shields => self.shields.as_ref(),
            CardId::Phasers => self.phasers.as_ref(),
        }
    }
}

/// Marks which side an entity fights on. Data only: both roles share one
/// shape and one set of rules.
#[derive(Debug, Eq, PartialEq, Structural, Copy, Clone)]
pub enum Role {
    Player,
    Enemy,
}

/// A participant in combat. Its identity lives in the registry that owns
/// it; the entity itself carries only what the identity maps to.
#[derive(Debug)]
pub struct Entity {
    pub name: String,
    pub role: Role,
    pub state: State,
}

/// The aggregate session state: the catalog, the three piles, the pending
/// action, the entity registry, and the two distinguished entity ids.
#[derive(Debug)]
pub struct GameState {
    pub cards: CardCollection,
    pub draw: Vec<CardId>,
    pub hand: Vec<CardId>,
    pub discard: Vec<CardId>,
    pub action: Action,
    /// The ids of the entities currently in play, in registration order.
    pub entities: Vec<EntityId>,
    /// The state of each live entity, keyed by id.
    pub entity_state: HashMap<EntityId, Entity>,
    pub player: EntityId,
    pub enemy: Option<EntityId>,
    /// The next id handed out when registration does not request one.
    /// Kept above every id ever handed out, so fresh ids never collide.
    pub next_id: u64,
}

impl GameState {
    /// Registry consistency: the live id list and the id-to-entity map
    /// hold exactly the same ids, each at most once, and every live id
    /// is below the fresh-id counter.
    pub open spec fn wf(self) -> bool {
        &&& self.entities@.no_duplicates()
        &&& forall|i: int|
            0 <= i < self.entities@.len() ==> self.entity_state@.contains_key(
                #[trigger] self.entities@[i],
            )
        &&& forall|id: EntityId| #![trigger self.entity_state@.contains_key(id)]
            self.entity_state@.contains_key(id) ==> self.entities@.contains(id) && (id as int)
                < self.next_id
        &&& self.next_id <= u32::MAX as u64 + 1
    }

    /// Whether an entity with this id is currently in play.
    pub open spec fn live(self, id: EntityId) -> bool {
        self.entity_state@.contains_key(id)
    }

    /// A fresh id can still be assigned without reusing a live one.
    pub open spec fn fresh_id_available(self) -> bool {
        self.next_id <= u32::MAX as u64
    }

    /// Creates a session with the given catalog and initial draw pile,
    /// no cards in hand or discard, no entities, and nothing pending.
    pub fn new(cards: CardCollection, deck: Vec<CardId>) -> (r: GameState)
        ensures
            r.wf(),
            r.cards == cards,
            r.draw == deck,
            r.hand@ == Seq::<CardId>::empty(),
            r.discard@ == Seq::<CardId>::empty(),
            r.action == Action::Await,
            r.entities@ == Seq::<EntityId>::empty(),
            r.entity_state@ == Map::<EntityId, Entity>::empty(),
            r.player == 0,
            r.enemy == Option::<EntityId>::None,
            r.fresh_id_available(),
    {
        GameState {
            cards,
            draw: deck,
            hand: Vec::new(),
            discard: Vec::new(),
            action: Action::Await,
            entities: Vec::new(),
            entity_state: HashMap::new(),
            player: 0,
            enemy: None,
            next_id: 0,
        }
    }

    /// Whether an entity with this id is currently in play.
    pub fn has_entity(&self, entity_id: &EntityId) -> (r: bool)
        ensures
            r == self.live(*entity_id),
    {
        self.entity_state.contains_key(entity_id)
    }

    /// Registers an entity, under the requested id if one is given and
    /// otherwise under a fresh id that is not live. Registering under a
    /// live id replaces that entity. The returned id is the one the
    /// entity is now registered under.
    pub fn add_entity(&mut self, requested: Option<EntityId>, entity: Entity) -> (r: EntityId)
        requires
            old(self).wf(),
            requested is None ==> old(self).fresh_id_available(),
        ensures
            final(self).wf(),
            final(self).entity_state@ == old(self).entity_state@.insert(r, entity),
            (match requested {
                Some(id) => r == id,
                None => !old(self).live(r),
            }),
            old(self).live(r) ==> final(self).entities@ == old(self).entities@,
            !old(self).live(r) ==> final(self).entities@ == old(self).entities@.push(r),
            final(self).live(r),
            forall|id: EntityId| #[trigger]
                old(self).live(id) ==> final(self).live(id),
            final(self).cards == old(self).cards,
            final(self).draw == old(self).draw,
            final(self).hand == old(self).hand,
            final(self).discard == old(self).discard,
            final(self).action == old(self).action,
            final(self).player == old(self).player,
            final(self).enemy == old(self).enemy,
    {
        let id = match requested {
            Some(id) => id,
            None => #[verifier::truncate] (self.next_id as u32),
        };
        if !self.has_entity(&id) {
            self.entities.push(id);
        }
        if id as u64 >= self.next_id {
            self.next_id = id as u64 + 1;
        }
        self.entity_state.insert(id, entity);
        proof {
            assert forall|jd: EntityId| #[trigger]
                self.entity_state@.contains_key(jd) implies self.entities@.contains(jd) by {
                if jd == id {
                    if old(self).live(id) {
                        assert(old(self).entities@.contains(id));
                        let k = choose|k: int|
                            0 <= k < old(self).entities@.len() && old(self).entities@[k] == id;
                        assert(self.entities@[k] == id);
                    } else {
                        assert(self.entities@.last() == id);
                    }
                } else {
                    assert(old(self).entities@.contains(jd));
                    let k = choose|k: int|
                        0 <= k < old(self).entities@.len() && old(self).entities@[k] == jd;
                    assert(self.entities@[k] == jd);
                }
            }
        }
        id
    }

    /// Removes an entity from play: its id leaves the live list and its
    /// entity leaves the map, both at once. An id that is not live is
    /// reported as a lookup failure, with nothing changed.
    pub fn remove_entity(&mut self, entity_id: &EntityId) -> (r: Result<(), EngineError>)
        requires
            old(self).wf(),
        ensures
            final(self).wf(),
            match r {
                Ok(_) => {
                    &&& old(self).live(*entity_id)
                    &&& final(self).entity_state@ == old(self).entity_state@.remove(*entity_id)
                    &&& final(self).entities@ == old(self).entities@.remove_value(*entity_id)
                },
                Err(e) => {
                    &&& e == EngineError::LookupFailure
                    &&& !old(self).live(*entity_id)
                    &&& *final(self) == *old(self)
                },
            },
            final(self).cards == old(self).cards,
            final(self).draw == old(self).draw,
            final(self).hand == old(self).hand,
            final(self).discard == old(self).discard,
            final(self).action == old(self).action,
            final(self).player == old(self).player,
            final(self).enemy == old(self).enemy,
            final(self).next_id == old(self).next_id,
    {
        let mut i: usize = 0;
        while i < self.entities.len()
            invariant
                *self == *old(self),
                old(self).wf(),
                i <= self.entities@.len(),
                forall|j: int| 0 <= j < i ==> self.entities@[j] != *entity_id,
            decreases self.entities@.len() - i,
        {
            if self.entities[i] == *entity_id {
                proof {
                    self.entities@.index_of_first_ensures(*entity_id);
                    assert(self.entities@.contains(*entity_id));
                    assert(self.entities@.index_of_first(*entity_id) == Some(i as int));
                }
                self.entities.remove(i);
                let _ = self.entity_state.remove(entity_id);
                proof {
                    let ghost gi = i as int;
                    assert(old(self).entities@[gi] == *entity_id);
                    assert(self.entity_state@ =~= old(self).entity_state@.remove(*entity_id));
                    assert(self.entities@ == old(self).entities@.remove_value(*entity_id));
                    assert forall|jd: EntityId| #[trigger]
                        self.entity_state@.contains_key(jd) implies self.entities@.contains(
                        jd,
                    ) by {
                        assert(jd != *entity_id);
                        assert(old(self).entity_state@.contains_key(jd));
                        assert(old(self).entities@.contains(jd));
                        let k = choose|k: int|
                            0 <= k < old(self).entities@.len() && old(self).entities@[k] == jd;
                        assert(k != gi);
                        if k < gi {
                            assert(self.entities@[k] == jd);
                        } else {
                            assert(self.entities@[k - 1] == jd);
                        }
                    }
                    assert forall|k: int|
                        0 <= k < self.entities@.len() implies self.entity_state@.contains_key(
                        #[trigger] self.entities@[k],
                    ) by {
                        if k < gi {
                            assert(self.entities@[k] == old(self).entities@[k]);
                            assert(old(self).entities@[k] != *entity_id);
                            assert(old(self).entity_state@.contains_key(old(self).entities@[k]));
                        } else {
                            assert(self.entities@[k] == old(self).entities@[k + 1]);
                            assert(old(self).entities@[k + 1] != old(self).entities@[gi]);
                            assert(old(self).entity_state@.contains_key(
                                old(self).entities@[k + 1],
                            ));
                        }
                    }
                }
                return Ok(());
            }
            i += 1;
        }
        proof {
            if old(self).live(*entity_id) {
                assert(old(self).entities@.contains(*entity_id));
            }
        }
        Err(EngineError::LookupFailure)
    }

    /// Reads a live entity's state; an id that is not live is reported
    /// as a lookup failure.
    pub fn get_state(&self, entity_id: &EntityId) -> (r: Result<&State, EngineError>)
        ensures
            match r {
                Ok(s) => self.live(*entity_id) && *s == self.entity_state@[*entity_id].state,
                Err(e) => e == EngineError::LookupFailure && !self.live(*entity_id),
            },
    {
        match self.entity_state.get(entity_id) {
            Some(entity) => Ok(&entity.state),
            None => Err(EngineError::LookupFailure),
        }
    }

    /// Reads a live entity whole; an id that is not live is reported as
    /// a lookup failure.
    pub fn get_entity(&self, entity_id: &EntityId) -> (r: Result<&Entity, EngineError>)
        ensures
            match r {
                Ok(e) => self.live(*entity_id) && *e == self.entity_state@[*entity_id],
                Err(e) => e == EngineError::LookupFailure && !self.live(*entity_id),
            },
    {
        match self.entity_state.get(entity_id) {
            Some(entity) => Ok(entity),
            None => Err(EngineError::LookupFailure),
        }
    }

    /// Sets the action consumed by the next tick.
    pub fn set_action(&mut self, action: Action)
        ensures
            *final(self) == (GameState { action, ..*old(self) }),
    {
        self.action = action;
    }

    /// Applies a delta to a live target through the registry: its state
    /// accumulates the delta, and if the hull is then present and at or
    /// below zero the target is removed from play on the spot. A target
    /// that is not live is reported as a lookup failure, with nothing
    /// changed.
    pub fn apply_effect(&mut self, state_change: (EntityId, Delta)) -> (r: Result<
        (),
        EngineError,
    >)
        requires
            old(self).wf(),
        ensures
            final(self).wf(),
            match r {
                Ok(_) => {
                    &&& old(self).live(state_change.0)
                    &&& entity_update_rel(*old(self), *final(self), state_change.0, state_change.1)
                    &&& final(self).live(state_change.0) <==> !hull_depleted(
                        apply_delta(
                            old(self).entity_state@[state_change.0].state,
                            state_change.1,
                        ),
                    )
                },
                Err(e) => {
                    &&& e == EngineError::LookupFailure
                    &&& !old(self).live(state_change.0)
                    &&& *final(self) == *old(self)
                },
            },
            final(self).cards == old(self).cards,
            final(self).draw == old(self).draw,
            final(self).hand == old(self).hand,
            final(self).discard == old(self).discard,
            final(self).action == old(self).action,
            final(self).player == old(self).player,
            final(self).enemy == old(self).enemy,
            final(self).next_id == old(self).next_id,
    {
        let (entity_id, delta) = state_change;
        let current: State = match self.get_state(&entity_id) {
            Ok(s) => *s,
            Err(e) => {
                return Err(e);
            },
        };
        let mut new_state = current;
        new_state.accumulate(&delta);
        let depleted = match new_state.hull {
            Some(h) => h <= 0,
            None => false,
        };
        if depleted {
            match self.remove_entity(&entity_id) {
                Ok(_) => {},
                Err(_) => {
                    proof {
                        assert(false);
                    }
                },
            }
        } else {
            let mut entity = match self.entity_state.remove(&entity_id) {
                Some(e) => e,
                None => {
                    proof {
                        assert(false);
                    }
                    return Err(EngineError::LookupFailure);
                },
            };
            entity.state = new_state;
            self.entity_state.insert(entity_id, entity);
            proof {
                assert(self.entity_state@ =~= old(self).entity_state@.insert(
                    entity_id,
                    Entity {
                        name: old(self).entity_state@[entity_id].name,
                        role: old(self).entity_state@[entity_id].role,
                        state: new_state,
                    },
                ));
                assert forall|jd: EntityId| #[trigger]
                    self.entity_state@.contains_key(jd) implies self.entities@.contains(jd)
                    && (jd as int) < self.next_id by {
                    assert(old(self).entity_state@.contains_key(jd));
                }
                assert forall|k: int|
                    0 <= k < self.entities@.len() implies self.entity_state@.contains_key(
                    #[trigger] self.entities@[k],
                ) by {
                    assert(old(self).entity_state@.contains_key(old(self).entities@[k]));
                }
            }
        }
        Ok(())
    }
}

/// How applying a delta to a live target relates the entity registry
/// before and after: the target's state accumulates the delta; if its
/// hull is then present and at or below zero the target leaves both the
/// live list and the map, otherwise it stays, updated, with every other
/// entity untouched.
pub open spec fn entity_update_rel(
    pre: GameState,
    post: GameState,
    id: EntityId,
    delta: Delta,
) -> bool {
    let new_state = apply_delta(pre.entity_state@[id].state, delta);
    if hull_depleted(new_state) {
        &&& post.entity_state@ == pre.entity_state@.remove(id)
        &&& post.entities@ == pre.entities@.remove_value(id)
    } else {
        &&& post.entity_state@ == pre.entity_state@.insert(
            id,
            Entity {
                name: pre.entity_state@[id].name,
                role: pre.entity_state@[id].role,
                state: new_state,
            },
        )
        &&& post.entities@ == pre.entities@
    }
}

/// Everything the draw/hand/discard piles hold, taken together. No pile
/// operation may create or destroy a card, so this is the conserved
/// quantity of the pile manager.
pub open spec fn pile_total(g: GameState) -> Multiset<CardId> {
    g.draw@.to_multiset().add(g.hand@.to_multiset()).add(g.discard@.to_multiset())
}

/// Everything outside the three piles is the same in both states.
pub open spec fn non_pile_unchanged(a: GameState, b: GameState) -> bool {
    &&& b.cards == a.cards
    &&& b.action == a.action
    &&& b.entities == a.entities
    &&& b.entity_state == a.entity_state
    &&& b.player == a.player
    &&& b.enemy == a.enemy
    &&& b.next_id == a.next_id
}

/// How one draw step relates the state before to the state after. If the
/// draw pile has cards, its top card moves to the hand. If it is empty
/// but the discard pile is not, the discard pile first becomes the draw
/// pile in some permutation, and then the top card moves to the hand. If
/// both are empty, nothing happens at all.
pub open spec fn draw_one_rel(a: GameState, b: GameState) -> bool {
    &&& non_pile_unchanged(a, b)
    &&& if a.draw@.len() > 0 {
        &&& b.draw@ == a.draw@.drop_last()
        &&& b.hand@ == a.hand@.push(a.draw@.last())
        &&& b.discard@ == a.discard@
    } else if a.discard@.len() > 0 {
        &&& b.discard@.len() == 0
        &&& b.draw@.len() == a.discard@.len() - 1
        &&& exists|c: CardId|
            #![trigger b.draw@.to_multiset().insert(c)]
            b.hand@ == a.hand@.push(c) && b.draw@.to_multiset().insert(c)
                == a.discard@.to_multiset()
    } else {
        &&& b.draw@ == a.draw@
        &&& b.hand@ == a.hand@
        &&& b.discard@ == a.discard@
    }
}

/// How `n` draw steps relate the state before to the state after: some
/// chain of `n` single draws leads from the one to the other.
pub open spec fn draw_many_rel(a: GameState, b: GameState, n: nat) -> bool
    decreases n,
{
    if n == 0 {
        b == a
    } else {
        exists|mid: GameState|
            #![trigger draw_one_rel(mid, b)]
            draw_many_rel(a, mid, (n - 1) as nat) && draw_one_rel(mid, b)
    }
}

/// One draw step conserves the combined pile contents.
pub proof fn lemma_draw_one_conserves(a: GameState, b: GameState)
    requires
        draw_one_rel(a, b),
    ensures
        pile_total(b) == pile_total(a),
{
    broadcast use vstd::seq_lib::group_to_multiset_ensures;

    if a.draw@.len() > 0 {
        assert(a.draw@.remove(a.draw@.len() - 1) =~= a.draw@.drop_last());
        assert(b.draw@.to_multiset() == a.draw@.to_multiset().remove(a.draw@.last()));
        assert(a.draw@.to_multiset().count(a.draw@.last()) > 0);
        assert(pile_total(b) =~= pile_total(a));
    } else if a.discard@.len() > 0 {
        let c = choose|c: CardId|
            #![trigger b.draw@.to_multiset().insert(c)]
            b.hand@ == a.hand@.push(c) && b.draw@.to_multiset().insert(c)
                == a.discard@.to_multiset();
        assert(b.hand@.to_multiset() == a.hand@.to_multiset().insert(c));
        assert(b.discard@ =~= Seq::<CardId>::empty());
        assert(a.draw@ =~= Seq::<CardId>::empty());
        assert(pile_total(b) =~= pile_total(a));
    } else {
        assert(pile_total(b) =~= pile_total(a));
    }
}

/// Drawing any number of cards conserves the combined pile contents:
/// no card is created or destroyed, only moved between piles.
pub proof fn lemma_draw_many_conserves(a: GameState, b: GameState, n: nat)
    requires
        draw_many_rel(a, b, n),
    ensures
        pile_total(b) == pile_total(a),
    decreases n,
{
    if n != 0 {
        let mid = choose|mid: GameState|
            #![trigger draw_one_rel(mid, b)]
            draw_many_rel(a, mid, (n - 1) as nat) && draw_one_rel(mid, b);
        lemma_draw_many_conserves(a, mid, (n - 1) as nat);
        lemma_draw_one_conserves(mid, b);
    }
}

/// With an empty draw pile and a non-empty discard pile, one draw step
/// reshuffles: the prior discard contents become the new draw pile plus
/// the one card drawn into the hand (a permutation of the whole discard
/// pile), and the discard pile itself is left empty.
pub proof fn lemma_draw_reshuffles(a: GameState, b: GameState)
    requires
        draw_one_rel(a, b),
        a.draw@.len() == 0,
        a.discard@.len() > 0,
    ensures
        b.discard@.len() == 0,
        b.hand@.len() == a.hand@.len() + 1,
        b.hand@.subrange(0, a.hand@.len() as int) == a.hand@,
        b.draw@.to_multiset().insert(b.hand@.last()) == a.discard@.to_multiset(),
        b.draw@.len() == a.discard@.len() - 1,
{
    let c = choose|c: CardId|
        #![trigger b.draw@.to_multiset().insert(c)]
        b.hand@ == a.hand@.push(c) && b.draw@.to_multiset().insert(c) == a.discard@.to_multiset();
    assert(b.hand@.last() == c);
    assert(b.hand@.subrange(0, a.hand@.len() as int) =~= a.hand@);
}

/// A chain of draws stays a chain when one more draw follows it.
proof fn lemma_draw_many_step(a: GameState, mid: GameState, b: GameState, n: nat)
    requires
        draw_many_rel(a, mid, n),
        draw_one_rel(mid, b),
    ensures
        draw_many_rel(a, b, n + 1),
{
}

/// How a successful play relates the state before to the state after:
/// the played card has left the hand and sits at the tail of the discard
/// pile, the draw pile and catalog are untouched, and the target's state
/// reflects the single merged delta of all the card's effects — applied
/// once, as one accumulated change.
pub open spec fn play_card_rel(pre: GameState, post: GameState, target: EntityId, idx: int) -> bool {
    let cid = pre.hand@[idx];
    match pre.cards.spec_get(cid) {
        Some(card) => {
            &&& post.hand@ == pre.hand@.remove(idx)
            &&& post.discard@ == pre.discard@.push(cid)
            &&& post.draw@ == pre.draw@
            &&& entity_update_rel(pre, post, target, merged_delta(card.effects@))
            &&& post.cards == pre.cards
            &&& post.action == pre.action
            &&& post.player == pre.player
            &&& post.enemy == pre.enemy
            &&& post.next_id == pre.next_id
        },
        None => false,
    }
}

/// Progresses the game forward by consuming exactly the one pending
/// action. The action itself is left as it is: the host decides what is
/// pending next, including resetting it to `Await`. Every reported error
/// leaves the game exactly as it was.
pub fn tick(game: &mut GameState) -> (r: Result<(), EngineError>)
    requires
        old(game).wf(),
    ensures
        final(game).wf(),
        final(game).action == old(game).action,
        match old(game).action {
            Action::Await => r is Ok && *final(game) == *old(game),
            Action::Draw => r is Ok && draw_one_rel(*old(game), *final(game)) && pile_total(
                *final(game),
            ) == pile_total(*old(game)),
            Action::BeginTurn => {
                &&& r is Ok
                &&& draw_many_rel(*old(game), *final(game), 4)
                &&& pile_total(*final(game)) == pile_total(*old(game))
                &&& non_pile_unchanged(*old(game), *final(game))
            },
            Action::EndTurn => {
                &&& r is Ok
                &&& final(game).discard@ == old(game).discard@ + old(game).hand@
                &&& final(game).hand@ == Seq::<CardId>::empty()
                &&& final(game).draw == old(game).draw
                &&& non_pile_unchanged(*old(game), *final(game))
                &&& pile_total(*final(game)) == pile_total(*old(game))
            },
            Action::PlayCard(target_id, card_idx) => match r {
                Ok(_) => {
                    &&& (card_idx as int) < old(game).hand@.len()
                    &&& old(game).cards.spec_get(old(game).hand@[card_idx as int]) is Some
                    &&& old(game).live(target_id)
                    &&& play_card_rel(*old(game), *final(game), target_id, card_idx as int)
                },
                Err(e) => {
                    &&& *final(game) == *old(game)
                    &&& if (card_idx as int) >= old(game).hand@.len() {
                        e == EngineError::InvalidIndex
                    } else {
                        e == EngineError::LookupFailure && (!old(game).live(target_id) || old(
                            game,
                        ).cards.spec_get(old(game).hand@[card_idx as int]) is None)
                    }
                },
            },
        },
{
    let action = game.action;
    match action {
        Action::Await => Ok(()),
        Action::Draw => {
            draw_one(game);
            Ok(())
        },
        Action::BeginTurn => {
            draw_hand(game, 4);
            Ok(())
        },
        Action::EndTurn => {
            discard_hand(game);
            Ok(())
        },
        Action::PlayCard(target_id, card_idx) => {
            if card_idx >= game.hand.len() {
                return Err(EngineError::InvalidIndex);
            }
            if !game.has_entity(&target_id) {
                return Err(EngineError::LookupFailure);
            }
            let card_id = game.hand[card_idx];
            let n = match game.cards.get(&card_id) {
                Some(card) => card.effects.len(),
                None => {
                    return Err(EngineError::LookupFailure);
                },
            };
            let ghost effects = game.cards.spec_get(card_id)->Some_0.effects@;

            // Evaluate every effect against the read-only snapshot and
            // merge the deltas into one accumulated delta.
            let mut accum = State::new();
            proof {
                assert(effects.subrange(0, 0) =~= Seq::<Effect>::empty());
                assert(accum.spec_get(Attribute::Shields) == Option::<i64>::None);
                assert(accum.spec_get(Attribute::Hull) == Option::<i64>::None);
                assert(accum == merged_delta(effects.subrange(0, 0)));
            }
            let mut i: usize = 0;
            while i < n
                invariant
                    *game == *old(game),
                    old(game).wf(),
                    i <= n,
                    (card_idx as int) < game.hand@.len(),
                    card_id == game.hand@[card_idx as int],
                    game.cards.spec_get(card_id) is Some,
                    effects == game.cards.spec_get(card_id)->Some_0.effects@,
                    n == effects.len(),
                    game.live(target_id),
                    accum == merged_delta(effects.subrange(0, i as int)),
                decreases n - i,
            {
                let delta = match game.cards.get(&card_id) {
                    Some(card) => card.effects[i].calculate(game, target_id),
                    None => {
                        proof {
                            assert(false);
                        }
                        State::new()
                    },
                };
                accum.accumulate(&delta);
                proof {
                    assert(effects.subrange(0, i + 1).drop_last() =~= effects.subrange(
                        0,
                        i as int,
                    ));
                    assert(effects.subrange(0, i + 1).last() == effects[i as int]);
                }
                i += 1;
            }
            proof {
                assert(effects.subrange(0, n as int) =~= effects);
            }

            // Move the card to the discard pile before applying the
            // merged delta, so the application cannot disturb the move.
            let ghost pre = *game;
            match play_from_hand(game, card_idx) {
                Ok(_) => {},
                Err(_) => {
                    proof {
                        assert(false);
                    }
                },
            }
            let ghost mid = *game;
            match game.apply_effect((target_id, accum)) {
                Ok(_) => {},
                Err(_) => {
                    proof {
                        assert(false);
                    }
                },
            }
            proof {
                assert(mid.entity_state == pre.entity_state);
                assert(entity_update_rel(pre, *game, target_id, accum));
                assert(play_card_rel(pre, *game, target_id, card_idx as int));
            }
            Ok(())
        },
    }
}

/// Relies on rand's `SliceRandom::shuffle` with `rand::thread_rng`: an
/// in-place Fisher-Yates permutation of the slice. Which permutation
/// comes out depends on the thread-local generator, so the contract
/// states only what holds of every outcome: the same cards remain, in
/// some order.
#[verifier::external_body]
pub fn shuffle_deck(deck: &mut Vec<CardId>)
    ensures
        final(deck)@.to_multiset() == old(deck)@.to_multiset(),
        final(deck)@.len() == old(deck)@.len(),
{
    let mut rng = rand::thread_rng();
    rand::seq::SliceRandom::shuffle(deck.as_mut_slice(), &mut rng);
}

/// Draws one card into the hand, reshuffling the discard pile into the
/// empty draw pile first when needed. With both piles empty this draws
/// silently nothing.
pub fn draw_one(game: &mut GameState)
    ensures
        draw_one_rel(*old(game), *final(game)),
        pile_total(*final(game)) == pile_total(*old(game)),
{
    broadcast use vstd::seq_lib::group_to_multiset_ensures;

    let ghost pre = *old(game);
    if game.draw.len() == 0 {
        shuffle_deck(&mut game.discard);
        proof {
            assert(game.discard@.to_multiset() == pre.discard@.to_multiset());
        }
        game.draw.append(&mut game.discard);
        proof {
            assert(game.draw@ =~= Seq::<CardId>::empty() + game.draw@);
            assert(game.draw@.to_multiset() == pre.discard@.to_multiset());
            assert(game.draw@.len() == pre.discard@.len()) by {
                assert(game.draw@.to_multiset().len() == pre.discard@.to_multiset().len());
            }
        }
    }
    let ghost mid = *game;
    match game.draw.pop() {
        Some(card) => {
            game.hand.push(card);
            proof {
                assert(mid.draw@.len() > 0);
                assert(card == mid.draw@.last());
                assert(game.draw@ =~= mid.draw@.drop_last());
                if pre.draw@.len() == 0 {
                    assert(pre.discard@.len() > 0);
                    assert(mid.draw@.remove(mid.draw@.len() - 1) =~= mid.draw@.drop_last());
                    assert(game.draw@.to_multiset() == mid.draw@.to_multiset().remove(card));
                    assert(mid.draw@.to_multiset().count(card) > 0);
                    assert(game.draw@.to_multiset().insert(card) =~= mid.draw@.to_multiset());
                    assert(game.hand@ == pre.hand@.push(card));
                    assert(draw_one_rel(pre, *game));
                }
            }
        },
        None => {
            proof {
                if pre.draw@.len() == 0 && pre.discard@.len() > 0 {
                    assert(mid.draw@.len() > 0);  // contradicts pop returning None
                }
                assert(game.draw@ =~= pre.draw@);
                assert(game.discard@ =~= pre.discard@);
            }
        },
    }
    proof {
        lemma_draw_one_conserves(pre, *game);
    }
}

/// Moves `count` cards from the draw pile to the hand by `count` single
/// draw steps, each reshuffling on its own if it finds the draw pile
/// empty. The combined pile contents are conserved.
pub fn draw_hand(game: &mut GameState, count: usize)
    ensures
        draw_many_rel(*old(game), *final(game), count as nat),
        pile_total(*final(game)) == pile_total(*old(game)),
        non_pile_unchanged(*old(game), *final(game)),
{
    let ghost pre = *old(game);
    let mut i: usize = 0;
    while i < count
        invariant
            i <= count,
            draw_many_rel(pre, *game, i as nat),
            pile_total(*game) == pile_total(pre),
            non_pile_unchanged(pre, *game),
        decreases count - i,
    {
        let ghost prev = *game;
        draw_one(game);
        proof {
            lemma_draw_many_step(pre, prev, *game, i as nat);
        }
        i += 1;
    }
}

/// Moves the whole hand, in its current order, onto the discard pile,
/// leaving the hand empty.
pub fn discard_hand(game: &mut GameState)
    ensures
        final(game).discard@ == old(game).discard@ + old(game).hand@,
        final(game).hand@ == Seq::<CardId>::empty(),
        final(game).draw == old(game).draw,
        non_pile_unchanged(*old(game), *final(game)),
        pile_total(*final(game)) == pile_total(*old(game)),
{
    game.discard.append(&mut game.hand);
    proof {
        broadcast use vstd::seq_lib::group_to_multiset_ensures;

        vstd::seq_lib::lemma_multiset_commutative(old(game).discard@, old(game).hand@);
        assert(game.hand@.to_multiset() =~= Multiset::<CardId>::empty()) by {
            vstd::multiset::lemma_multiset_empty_len(game.hand@.to_multiset());
        }
        assert(pile_total(*game) =~= pile_total(*old(game)));
    }
}

/// Removes the card at a hand index and appends it to the discard pile,
/// before any effect of it is resolved. An index out of bounds is
/// reported as such, with nothing changed.
pub fn play_from_hand(game: &mut GameState, hand_idx: usize) -> (r: Result<
    CardId,
    EngineError,
>)
    ensures
        match r {
            Ok(card_id) => {
                &&& (hand_idx as int) < old(game).hand@.len()
                &&& card_id == old(game).hand@[hand_idx as int]
                &&& final(game).hand@ == old(game).hand@.remove(hand_idx as int)
                &&& final(game).discard@ == old(game).discard@.push(card_id)
                &&& final(game).draw == old(game).draw
                &&& non_pile_unchanged(*old(game), *final(game))
            },
            Err(e) => {
                &&& e == EngineError::InvalidIndex
                &&& (hand_idx as int) >= old(game).hand@.len()
                &&& *final(game) == *old(game)
            },
        },
        pile_total(*final(game)) == pile_total(*old(game)),
    {
        broadcast use vstd::seq_lib::group_to_multiset_ensures;

        if hand_idx >= game.hand.len() {
            return Err(EngineError::InvalidIndex);
        }
        let card_id = game.hand[hand_idx];
        game.discard.push(card_id);
        let _ = game.hand.remove(hand_idx);
        proof {
            assert(game.hand@.to_multiset() == old(game).hand@.to_multiset().remove(card_id));
            assert(old(game).hand@.to_multiset().count(card_id) > 0) by {
                assert(old(game).hand@.contains(card_id));
            }
            assert(game.discard@.to_multiset() == old(game).discard@.to_multiset().insert(
                card_id,
            ));
            assert(pile_total(*game) =~= pile_total(*old(game)));
        }
        Ok(card_id)
    }

} // verus!
