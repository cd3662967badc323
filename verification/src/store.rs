//! The shared list store: validated, durable-style CRUD with strictly
//! increasing identifiers and a total order on the rows.
//!
//! All callers of both front-ends are funneled through one store value (the
//! surrounding process serializes access through a single-worker queue), so
//! the contracts here speak of one mutation at a time; `add_chain` and
//! `lemma_serialized_adds` state what a serialized batch of additions
//! guarantees about the identifiers it hands out.

use vstd::prelude::*;

verus! {

/// The longest name the store accepts, in characters.
pub const MAX_NAME_LEN: usize = 100;

/// One entry of the shopping list: the identifier the store assigned and the
/// name exactly as the caller gave it (no normalization, no trimming).
pub struct ListItem {
    pub id: u64,
    pub name: String,
}

/// The mathematical value of a `ListItem`.
pub struct ItemView {
    pub id: u64,
    pub name: Seq<char>,
}

impl View for ListItem {
    type V = ItemView;

    open spec fn view(&self) -> ItemView {
        ItemView { id: self.id, name: self.name@ }
    }
}

impl Clone for ListItem {
    fn clone(&self) -> (r: Self)
        ensures
            r@ == self@,
    {
        ListItem { id: self.id, name: self.name.clone() }
    }
}

/// Why a name was rejected before anything was persisted.
#[derive(Clone, Copy, Debug, PartialEq, Eq, Structural)]
pub enum ValidationError {
    EmptyName,
    NameTooLong,
}

/// The store's error taxonomy. `Validation` and `NotFound` are produced by
/// the store itself; `Unavailable` is reserved for the durable medium around
/// it (the process reports it when that medium cannot be reached or written).
#[derive(Clone, Copy, Debug, PartialEq, Eq, Structural)]
pub enum StoreError {
    Validation(ValidationError),
    NotFound(u64),
    Unavailable,
}

/// A name may be persisted exactly when it is non-empty and at most
/// `MAX_NAME_LEN` characters long.
pub open spec fn valid_name(name: Seq<char>) -> bool {
    1 <= name.len() <= MAX_NAME_LEN
}

/// Some row of `items` carries the identifier `id`.
pub open spec fn has_id(items: Seq<ItemView>, id: u64) -> bool {
    exists|i: int| 0 <= i < items.len() && #[trigger] items[i].id == id
}

/// The shared shopping list. Its view is the sequence of rows in the order
/// `list` returns them: ascending by id.
pub struct ListRepo {
    items: Vec<ListItem>,
    next_id: u64,
}

impl View for ListRepo {
    type V = Seq<ItemView>;

    closed spec fn view(&self) -> Seq<ItemView> {
        self.items@.map(|i: int, it: ListItem| it@)
    }
}

impl ListRepo {
    /// The identifier the next successful `add_item` will assign. Strictly
    /// larger than every identifier ever issued, so ids are never reused.
    pub closed spec fn next_id_spec(&self) -> u64 {
        self.next_id
    }

    /// Well-formedness: rows are sorted by strictly ascending id, every id is
    /// below the next one to be issued, and every stored name is valid.
    pub open spec fn wf(&self) -> bool {
        &&& forall|i: int, j: int|
            #![trigger self@[i], self@[j]]
            0 <= i < j < self@.len() ==> self@[i].id < self@[j].id
        &&& forall|i: int| 0 <= i < self@.len() ==> (#[trigger] self@[i]).id < self.next_id_spec()
        &&& forall|i: int| 0 <= i < self@.len() ==> valid_name((#[trigger] self@[i]).name)
        &&& self.next_id_spec() >= 1
    }

    /// A fresh, empty store; the first item will get id 1.
    pub fn new() -> (s: Self)
        ensures
            s.wf(),
            s@ == Seq::<ItemView>::empty(),
            s.next_id_spec() == 1,
    {
        let s = ListRepo { items: Vec::new(), next_id: 1 };
        proof {
            assert(s@ =~= Seq::<ItemView>::empty());
        }
        s
    }

    /// Whether the store can still assign a fresh identifier: `add_item`
    /// requires it, so a caller that cannot know it statically tests it.
    pub fn can_assign_id(&self) -> (r: bool)
        ensures
            r == (self.next_id_spec() < u64::MAX),
    {
        self.next_id < u64::MAX
    }

    /// Validates `name`, and on success persists a new row under the next
    /// monotonic id and returns the created item. On a validation error no
    /// row is created and the store is unchanged.
    pub fn add_item(&mut self, name: &str) -> (r: Result<ListItem, StoreError>)
        requires
            old(self).wf(),
            old(self).next_id_spec() < u64::MAX,
        ensures
            final(self).wf(),
            r is Ok <==> valid_name(name@),
            match r {
                Ok(item) => item@.name == name@ && add_transition(*old(self), *final(self), item@),
                Err(e) => {
                    &&& *final(self) == *old(self)
                    &&& e == (if name@.len() == 0 {
                        StoreError::Validation(ValidationError::EmptyName)
                    } else {
                        StoreError::Validation(ValidationError::NameTooLong)
                    })
                },
            },
    {
        let len = name.unicode_len();
        if len == 0 {
            return Err(StoreError::Validation(ValidationError::EmptyName));
        }
        if len > MAX_NAME_LEN {
            return Err(StoreError::Validation(ValidationError::NameTooLong));
        }
        let item = ListItem { id: self.next_id, name: name.to_owned() };
        let stored = item.clone();
        self.items.push(stored);
        self.next_id = self.next_id + 1;
        proof {
            assert(self@ =~= old(self)@.push(item@));
        }
        Ok(item)
    }

    /// Deletes the row with identifier `id`; `NotFound` if no current row has
    /// that id (including ids that were already removed), in which case the
    /// store is unchanged. The id is not reissued later either way.
    pub fn remove_item(&mut self, id: u64) -> (r: Result<(), StoreError>)
        requires
            old(self).wf(),
        ensures
            final(self).wf(),
            final(self).next_id_spec() == old(self).next_id_spec(),
            r is Ok <==> has_id(old(self)@, id),
            r is Err ==> *final(self) == *old(self) && r == Err::<(), StoreError>(
                StoreError::NotFound(id),
            ),
            r is Ok ==> exists|i: int|
                0 <= i < old(self)@.len() && (#[trigger] old(self)@[i]).id == id
                    && final(self)@ == old(self)@.remove(i),
    {
        let mut idx: usize = 0;
        while idx < self.items.len()
            invariant
                0 <= idx <= self.items@.len(),
                forall|k: int| 0 <= k < idx ==> (#[trigger] self@[k]).id != id,
                *self == *old(self),
                old(self).wf(),
            decreases self.items@.len() - idx,
        {
            if self.items[idx].id == id {
                proof {
                    assert(old(self)@[idx as int].id == id);
                }
                self.items.remove(idx);
                proof {
                    let ghost i = idx as int;
                    assert(self@ =~= old(self)@.remove(i));
                    old(self)@.remove_ensures(i);
                }
                return Ok(());
            }
            idx = idx + 1;
        }
        Err(StoreError::NotFound(id))
    }

    /// Returns a snapshot of all current rows, ordered by ascending id
    /// (the order is guaranteed by `wf`). Reads only; the store is unchanged.
    pub fn list(&self) -> (r: Vec<ListItem>)
        requires
            self.wf(),
        ensures
            r@.len() == self@.len(),
            forall|i: int| 0 <= i < r@.len() ==> (#[trigger] r@[i])@ == self@[i],
    {
        let mut r: Vec<ListItem> = Vec::new();
        let mut idx: usize = 0;
        while idx < self.items.len()
            invariant
                0 <= idx <= self.items@.len(),
                r@.len() == idx,
                forall|k: int| 0 <= k < idx ==> (#[trigger] r@[k])@ == self@[k],
            decreases self.items@.len() - idx,
        {
            let it = &self.items[idx];
            r.push(it.clone());
            idx = idx + 1;
        }
        r
    }

    /// Deletes all rows unconditionally; succeeds even when the list is
    /// already empty. Issued ids are not reused afterwards.
    pub fn clear(&mut self)
        requires
            old(self).wf(),
        ensures
            final(self).wf(),
            final(self)@ == Seq::<ItemView>::empty(),
            final(self).next_id_spec() == old(self).next_id_spec(),
    {
        self.items.clear();
        proof {
            assert(self@ =~= Seq::<ItemView>::empty());
        }
    }

    /// Reinstates a durably stored row when the process restarts. Succeeds
    /// exactly when the row can extend the store without breaking any
    /// invariant: valid name, id at least the next to be issued (rows must
    /// arrive in ascending id order), and room left to issue ids after it.
    pub fn restore_item(&mut self, id: u64, name: &str) -> (ok: bool)
        requires
            old(self).wf(),
        ensures
            final(self).wf(),
            ok <==> valid_name(name@) && id >= old(self).next_id_spec() && id < u64::MAX,
            ok ==> final(self)@ == old(self)@.push(ItemView { id, name: name@ })
                && final(self).next_id_spec() == id + 1,
            !ok ==> *final(self) == *old(self),
    {
        let len = name.unicode_len();
        if len == 0 || len > MAX_NAME_LEN || id < self.next_id || id == u64::MAX {
            return false;
        }
        self.items.push(ListItem { id, name: name.to_owned() });
        self.next_id = id + 1;
        proof {
            assert(self@ =~= old(self)@.push(ItemView { id, name: name@ }));
        }
        true
    }
}

/// One successful `add_item` step: `item` carries a valid name, gets exactly
/// the id the store was about to issue, is appended at the end, and the next
/// id moves past it.
pub open spec fn add_transition(pre: ListRepo, post: ListRepo, item: ItemView) -> bool {
    &&& valid_name(item.name)
    &&& item.id == pre.next_id_spec()
    &&& post@ == pre@.push(item)
    &&& post.next_id_spec() == pre.next_id_spec() + 1
}

/// A successful addition preserves the store invariant.
pub proof fn lemma_add_preserves_wf(pre: ListRepo, post: ListRepo, item: ItemView)
    requires
        pre.wf(),
        add_transition(pre, post, item),
    ensures
        post.wf(),
{
    assert(forall|i: int| 0 <= i < pre@.len() ==> post@[i] == pre@[i]);
}

/// After `add_item(name)` succeeds, the listed rows contain an item with that
/// name under an id that no row carried before the call.
pub proof fn lemma_add_lists_new_item(pre: ListRepo, post: ListRepo, item: ItemView)
    requires
        pre.wf(),
        add_transition(pre, post, item),
    ensures
        exists|j: int|
            0 <= j < post@.len() && #[trigger] post@[j].name == item.name && post@[j].id
                == item.id,
        forall|i: int| 0 <= i < pre@.len() ==> (#[trigger] pre@[i]).id != item.id,
{
    assert(post@[post@.len() - 1].name == item.name);
}

/// A batch of additions as the single-worker queue serializes it: state `k`
/// steps to state `k + 1` by adding `items[k]`.
pub open spec fn add_chain(states: Seq<ListRepo>, items: Seq<ItemView>) -> bool {
    &&& states.len() == items.len() + 1
    &&& forall|k: int|
        0 <= k < items.len() ==> add_transition(states[k], states[k + 1], #[trigger] items[k])
}

/// Along a serialized batch of additions, every intermediate store is
/// well-formed and the next id grows by exactly one per step.
pub proof fn lemma_chain_invariant(states: Seq<ListRepo>, items: Seq<ItemView>, k: int)
    requires
        states.len() == items.len() + 1,
        states[0].wf(),
        add_chain(states, items),
        0 <= k <= items.len(),
    ensures
        states[k].wf(),
        states[k].next_id_spec() == states[0].next_id_spec() + k,
    decreases k,
{
    if k > 0 {
        lemma_chain_invariant(states, items, k - 1);
        lemma_add_preserves_wf(states[k - 1], states[k], items[k - 1]);
    }
}

/// However many concurrent callers issued them, the additions of one
/// serialized batch hand out pairwise distinct ids, and every id handed out
/// is at least the batch-start next id — hence greater than every id any row
/// carried when the batch started.
pub proof fn lemma_serialized_adds(states: Seq<ListRepo>, items: Seq<ItemView>)
    requires
        states.len() >= 1,
        states[0].wf(),
        add_chain(states, items),
    ensures
        forall|a: int, b: int|
            0 <= a < b < items.len() ==> (#[trigger] items[a]).id != (#[trigger] items[b]).id,
        forall|k: int|
            0 <= k < items.len() ==> (#[trigger] items[k]).id >= states[0].next_id_spec(),
        forall|k: int, i: int|
            0 <= k < items.len() && 0 <= i < states[0]@.len() ==> (#[trigger] items[k]).id > (
            #[trigger] states[0]@[i]).id,
{
    assert forall|k: int| 0 <= k < items.len() implies (#[trigger] items[k]).id
        == states[0].next_id_spec() + k by {
        lemma_chain_invariant(states, items, k);
    }
}

} // verus!
