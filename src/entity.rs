use vstd::prelude::*;

verus! {

/// What the contracts see of an [`Entity`].
pub struct EntityView {
    pub key: Seq<char>,
    pub balance: u128,
    pub label: Seq<char>,
}

impl EntityView {
    /// The same entity with its balance replaced.
    pub open spec fn with_balance(self, balance: u128) -> EntityView {
        EntityView { key: self.key, balance, label: self.label }
    }
}

/// A cached record: an identity key, the balance last fetched for it, and a
/// free-form label that other handlers may keep and that reconciliation
/// never touches.
#[derive(Clone, Debug, PartialEq, Eq)]
pub struct Entity {
    pub key: String,
    pub balance: u128,
    pub label: String,
}

impl View for Entity {
    type V = EntityView;

    open spec fn view(&self) -> EntityView {
        EntityView { key: self.key@, balance: self.balance, label: self.label@ }
    }
}

impl Entity {
    /// A new entity with an empty label.
    pub fn new(key: String, balance: u128) -> (e: Entity)
        ensures
            e@ == (EntityView { key: key@, balance, label: Seq::empty() }),
    {
        Entity { key, balance, label: String::new() }
    }

    /// A copy of this entity, field for field.
    pub fn duplicate(&self) -> (e: Entity)
        ensures
            e@ == self@,
    {
        Entity { key: self.key.clone(), balance: self.balance, label: self.label.clone() }
    }

    /// A copy of this entity whose balance is `balance`.
    pub fn with_balance(&self, balance: u128) -> (e: Entity)
        ensures
            e@ == self@.with_balance(balance),
    {
        Entity { key: self.key.clone(), balance, label: self.label.clone() }
    }
}

} // verus!

verus! {

/// The views of a sequence of entities, one for one.
pub open spec fn views_of(s: Seq<Entity>) -> Seq<EntityView> {
    s.map_values(|e: Entity| e@)
}

} // verus!
