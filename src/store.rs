use vstd::prelude::*;

use crate::entity::{Entity, EntityView, views_of};
use crate::text::{
    KeyError, ascii_lowercase, contains_text, fold_case, is_infix, lower_of, principal_accepts,
    principal_key,
};

verus! {

/// Whether `i` is the position of the first entity of `s` whose key is `key`.
pub open spec fn is_first_with_key(s: Seq<EntityView>, key: Seq<char>, i: int) -> bool {
    &&& 0 <= i < s.len()
    &&& s[i].key == key
    &&& forall|j: int| 0 <= j < i ==> #[trigger] s[j].key != key
}

/// The position of the first entity of `s` whose key is `key`, if there is one.
pub open spec fn key_index(s: Seq<EntityView>, key: Seq<char>) -> Option<int> {
    if exists|i: int| is_first_with_key(s, key, i) {
        Some(choose|i: int| is_first_with_key(s, key, i))
    } else {
        None
    }
}

/// The first position with a given key is unique, so `key_index` names it.
pub proof fn lemma_key_index_is_first(s: Seq<EntityView>, key: Seq<char>, i: int)
    requires
        is_first_with_key(s, key, i),
    ensures
        key_index(s, key) == Some(i),
{
    let j = choose|j: int| is_first_with_key(s, key, j);
    assert(is_first_with_key(s, key, j));
    if j < i {
        assert(s[j].key != key);
    } else if i < j {
        assert(s[i].key != key);
    }
}

/// With no entity keyed `key`, `key_index` finds nothing.
proof fn lemma_key_index_none(s: Seq<EntityView>, key: Seq<char>)
    requires
        forall|j: int| 0 <= j < s.len() ==> #[trigger] s[j].key != key,
    ensures
        key_index(s, key) is None,
{
}

/// Whether the key of `e`, folded to lower case, holds `folded_query`.
pub open spec fn key_matches(e: EntityView, folded_query: Seq<char>) -> bool {
    is_infix(folded_query, lower_of(e.key))
}

/// The entities of `s` whose folded key holds `folded_query`, in order.
pub open spec fn matching(s: Seq<EntityView>, folded_query: Seq<char>) -> Seq<EntityView> {
    s.filter(|e: EntityView| key_matches(e, folded_query))
}

/// The entity table. Identifiers are handed out as `1, 2, 3, ...` in order
/// of insertion and never reused, so the entity with identifier `id` is the
/// one at position `id - 1` of the view.
pub struct EntityStore {
    entries: Vec<Entity>,
}

impl View for EntityStore {
    type V = Seq<EntityView>;

    closed spec fn view(&self) -> Seq<EntityView> {
        views_of(self.entries@)
    }
}

impl EntityStore {
    /// An empty store.
    pub fn new() -> (s: EntityStore)
        ensures
            s@ == Seq::<EntityView>::empty(),
    {
        let s = EntityStore { entries: Vec::new() };
        assert(s@ =~= Seq::<EntityView>::empty());
        s
    }

    /// The number of entities held.
    pub fn len(&self) -> (n: usize)
        ensures
            n == self@.len(),
    {
        self.entries.len()
    }

    /// Adds an entity with key `key`, balance `initial_balance` and an empty
    /// label, and returns its identifier, one more than the number held
    /// before.
    pub fn insert(&mut self, key: String, initial_balance: u128) -> (id: usize)
        requires
            old(self)@.len() < usize::MAX,
        ensures
            id == old(self)@.len() + 1,
            final(self)@ == old(self)@.push(
                EntityView { key: key@, balance: initial_balance, label: Seq::empty() },
            ),
    {
        let id = self.entries.len() + 1;
        self.entries.push(Entity::new(key, initial_balance));
        assert(self@ =~= old(self)@.push(
            EntityView { key: key@, balance: initial_balance, label: Seq::empty() },
        ));
        id
    }

    /// The entity with identifier `id`, if there is one.
    pub fn get(&self, id: usize) -> (r: Option<&Entity>)
        ensures
            match r {
                Some(e) => 1 <= id <= self@.len() && e@ == self@[id - 1],
                None => !(1 <= id <= self@.len()),
            },
    {
        if 1 <= id && id <= self.entries.len() {
            Some(&self.entries[id - 1])
        } else {
            None
        }
    }

    /// A copy of every entity, in identifier order.
    pub fn list(&self) -> (r: Vec<Entity>)
        ensures
            views_of(r@) == self@,
    {
        let mut r: Vec<Entity> = Vec::new();
        let mut i: usize = 0;
        while i < self.entries.len()
            invariant
                i <= self.entries@.len(),
                views_of(r@) =~= self@.subrange(0, i as int),
            decreases self.entries@.len() - i,
        {
            let e = self.entries[i].duplicate();
            let ghost prev = r@;
            r.push(e);
            assert(views_of(r@) =~= views_of(prev).push(self@[i as int]));
            i = i + 1;
            assert(views_of(r@) =~= self@.subrange(0, i as int));
        }
        assert(self@.subrange(0, i as int) =~= self@);
        r
    }

    /// The identifier and a copy of the first entity whose key is `key`, if
    /// there is one.
    pub fn find_by_key(&self, key: &str) -> (r: Option<(usize, Entity)>)
        ensures
            match r {
                Some((id, e)) => key_index(self@, key@) == Some(id - 1) && e@ == self@[id - 1],
                None => key_index(self@, key@) is None,
            },
    {
        let wanted = key.to_owned();
        let mut i: usize = 0;
        while i < self.entries.len()
            invariant
                i <= self.entries@.len(),
                wanted@ == key@,
                forall|j: int| 0 <= j < i ==> #[trigger] self@[j].key != key@,
            decreases self.entries@.len() - i,
        {
            if self.entries[i].key == wanted {
                proof {
                    lemma_key_index_is_first(self@, key@, i as int);
                }
                return Some((i + 1, self.entries[i].duplicate()));
            }
            i = i + 1;
        }
        proof {
            lemma_key_index_none(self@, key@);
        }
        None
    }

    /// Replaces the entity with identifier `id` by `entity` and says whether
    /// it did; where there is no such identifier nothing changes.
    pub fn update(&mut self, id: usize, entity: Entity) -> (replaced: bool)
        ensures
            replaced == (1 <= id <= old(self)@.len()),
            replaced ==> final(self)@ == old(self)@.update(id - 1, entity@),
            !replaced ==> final(self)@ == old(self)@,
    {
        if 1 <= id && id <= self.entries.len() {
            let ghost e = entity@;
            self.entries.set(id - 1, entity);
            assert(self@ =~= old(self)@.update(id - 1, e));
            true
        } else {
            false
        }
    }

    /// Adds an entity for the principal written `text`, keyed by its
    /// textual form in lower case, and returns its identifier. Text that
    /// names no principal is refused and nothing is added.
    pub fn add_principal(&mut self, text: &str, initial_balance: u128) -> (r: Result<
        usize,
        KeyError,
    >)
        requires
            old(self)@.len() < usize::MAX,
        ensures
            r is Ok <==> principal_accepts(text@),
            r matches Ok(id) ==> id == old(self)@.len() + 1 && final(self)@ == old(self)@.push(
                EntityView {
                    key: ascii_lowercase(text@),
                    balance: initial_balance,
                    label: Seq::empty(),
                },
            ),
            r is Err ==> final(self)@ == old(self)@,
    {
        match principal_key(text) {
            Ok(key) => Ok(self.insert(key, initial_balance)),
            Err(e) => Err(e),
        }
    }

    /// Copies of the entities whose key holds `query`, both folded to lower
    /// case, in identifier order.
    pub fn search(&self, query: &str) -> (r: Vec<Entity>)
        ensures
            views_of(r@) == matching(self@, lower_of(query@)),
    {
        let folded_query = fold_case(query);
        let mut r: Vec<Entity> = Vec::new();
        let mut i: usize = 0;
        while i < self.entries.len()
            invariant
                i <= self.entries@.len(),
                folded_query@ == lower_of(query@),
                views_of(r@) == matching(self@.subrange(0, i as int), lower_of(query@)),
            decreases self.entries@.len() - i,
        {
            let e = &self.entries[i];
            let folded_key = fold_case(e.key.as_str());
            let hit = contains_text(folded_key.as_str(), folded_query.as_str());
            let ghost prev = r@;
            proof {
                let fq = lower_of(query@);
                assert(self@.subrange(0, i + 1) =~= self@.subrange(0, i as int).push(self@[i as int]));
                self@.subrange(0, i as int).lemma_filter_push(
                    self@[i as int],
                    |v: EntityView| key_matches(v, fq),
                );
            }
            if hit {
                r.push(e.duplicate());
                assert(views_of(r@) =~= views_of(prev).push(self@[i as int]));
            }
            i = i + 1;
        }
        assert(self@.subrange(0, i as int) =~= self@);
        r
    }
}

} // verus!
