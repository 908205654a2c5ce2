//! The components of one entity, by category.
//!
//! [`Components`] maps a category key to the ordered collection of the
//! components in that category. A key occurs at most once; a collection may
//! hold any number of components, also of different concrete types.

use crate::component::all_of_type;
use crate::component::concrete_type;
use crate::component::handles_of;
use crate::component::typed;
use crate::component::Component;
use crate::component::Handle;
use crate::component::TypeKey;
use crate::component::Typed;
use std::any::TypeId;
use std::sync::Arc;
use vstd::multiset::Multiset;
use vstd::prelude::*;

verus! {

/// The collection that `map` holds under `key`: empty where the key is absent.
pub open spec fn collection_of(map: Map<Seq<char>, Seq<Handle>>, key: Seq<char>) -> Seq<Handle> {
    if map.dom().contains(key) {
        map[key]
    } else {
        Seq::empty()
    }
}

/// `map` after `handle` has been added under `key`: the handle stands at the
/// end of the key's collection, which is created if the key was absent.
pub open spec fn with_added(
    map: Map<Seq<char>, Seq<Handle>>,
    key: Seq<char>,
    handle: Handle,
) -> Map<Seq<char>, Seq<Handle>> {
    map.insert(key, collection_of(map, key).push(handle))
}

/// The items of `items` whose verdict is `false`, in their order.
pub open spec fn kept(items: Seq<Handle>, verdicts: Seq<bool>) -> Seq<Handle>
    decreases items.len(),
{
    if items.len() == 0 || verdicts.len() == 0 {
        Seq::empty()
    } else if verdicts.last() {
        kept(items.drop_last(), verdicts.drop_last())
    } else {
        kept(items.drop_last(), verdicts.drop_last()).push(items.last())
    }
}

/// Whether `verdicts` holds, item by item, an answer that `matches` may give
/// for the items of `items`.
pub open spec fn answers_of<F: Fn(&Handle) -> bool>(
    matches: &F,
    items: Seq<Handle>,
    verdicts: Seq<bool>,
) -> bool {
    &&& verdicts.len() == items.len()
    &&& forall|i: int|
        0 <= i < items.len() ==> matches.ensures((&items[i],), #[trigger] verdicts[i])
}

/// The handles of `items` whose concrete type is `wanted`, in their order.
pub open spec fn of_concrete_type(items: Seq<Handle>, wanted: TypeId) -> Seq<Handle> {
    items.filter(|handle: Handle| concrete_type(handle) == wanted)
}

/// `map` after the additions `adds`, each a key and a handle, have been made
/// one after another.
pub open spec fn after_adds(
    map: Map<Seq<char>, Seq<Handle>>,
    adds: Seq<(Seq<char>, Handle)>,
) -> Map<Seq<char>, Seq<Handle>>
    decreases adds.len(),
{
    if adds.len() == 0 {
        map
    } else {
        with_added(after_adds(map, adds.drop_last()), adds.last().0, adds.last().1)
    }
}

/// The handles that `adds` adds under `key`, in the order of `adds`.
pub open spec fn added_under(adds: Seq<(Seq<char>, Handle)>, key: Seq<char>) -> Seq<Handle>
    decreases adds.len(),
{
    if adds.len() == 0 {
        Seq::empty()
    } else if adds.last().0 == key {
        added_under(adds.drop_last(), key).push(adds.last().1)
    } else {
        added_under(adds.drop_last(), key)
    }
}

/// After any sequence of additions, the collection under a key is what it
/// was before, followed by the handles that were added under that key, in
/// the order in which the additions were made. Nothing is lost and nothing
/// else appears.
pub proof fn law_adds_append_in_order(
    map: Map<Seq<char>, Seq<Handle>>,
    adds: Seq<(Seq<char>, Handle)>,
    key: Seq<char>,
)
    ensures
        collection_of(after_adds(map, adds), key) == collection_of(map, key) + added_under(
            adds,
            key,
        ),
    decreases adds.len(),
{
    if adds.len() == 0 {
        assert(collection_of(map, key) + Seq::<Handle>::empty() =~= collection_of(map, key));
    } else {
        law_adds_append_in_order(map, adds.drop_last(), key);
        let earlier = after_adds(map, adds.drop_last());
        if adds.last().0 == key {
            assert(collection_of(map, key) + added_under(adds.drop_last(), key).push(
                adds.last().1,
            ) =~= (collection_of(map, key) + added_under(adds.drop_last(), key)).push(
                adds.last().1,
            ));
        }
    }
}

/// After any sequence of additions, a handle occurs under a key as often as
/// it did before plus as often as it was added under that key. The count
/// depends only on which additions were made, not on their order.
pub proof fn law_adds_lose_nothing(
    map: Map<Seq<char>, Seq<Handle>>,
    adds: Seq<(Seq<char>, Handle)>,
    key: Seq<char>,
    handle: Handle,
)
    ensures
        collection_of(after_adds(map, adds), key).to_multiset().count(handle) == collection_of(
            map,
            key,
        ).to_multiset().count(handle) + adds.to_multiset().count((key, handle)),
    decreases adds.len(),
{
    broadcast use vstd::multiset::group_multiset_axioms;

    if adds.len() == 0 {
        assert(adds.to_multiset() =~= Multiset::<(Seq<char>, Handle)>::empty()) by {
            adds.to_multiset_ensures();
            assert(adds.to_multiset().len() == 0);
            vstd::multiset::lemma_multiset_empty_len(adds.to_multiset());
        }
    } else {
        let earlier_adds = adds.drop_last();
        let last = adds.last();
        law_adds_lose_nothing(map, earlier_adds, key, handle);
        let earlier = after_adds(map, earlier_adds);
        assert(adds =~= earlier_adds.push(last));
        vstd::seq_lib::to_multiset_build(earlier_adds, last);
        assert(adds.to_multiset() =~= earlier_adds.to_multiset().insert(last));
        if last.0 == key {
            vstd::seq_lib::to_multiset_build(collection_of(earlier, key), last.1);
        }
    }
}

/// Two sequences of additions that differ only in their order leave, under
/// every key, collections that hold the same handles equally often.
pub proof fn law_adds_in_any_order(
    map: Map<Seq<char>, Seq<Handle>>,
    first: Seq<(Seq<char>, Handle)>,
    second: Seq<(Seq<char>, Handle)>,
    key: Seq<char>,
)
    requires
        first.to_multiset() == second.to_multiset(),
    ensures
        collection_of(after_adds(map, first), key).to_multiset() == collection_of(
            after_adds(map, second),
            key,
        ).to_multiset(),
{
    let a = collection_of(after_adds(map, first), key).to_multiset();
    let b = collection_of(after_adds(map, second), key).to_multiset();
    assert forall|handle: Handle| a.count(handle) == b.count(handle) by {
        law_adds_lose_nothing(map, first, key, handle);
        law_adds_lose_nothing(map, second, key, handle);
    }
    assert(a =~= b);
}

/// A handle that is added under a key is found under that key by its
/// concrete type, behind the handles of that type that were there before.
pub proof fn law_added_is_found(map: Map<Seq<char>, Seq<Handle>>, key: Seq<char>, handle: Handle)
    ensures
        of_concrete_type(collection_of(with_added(map, key, handle), key), concrete_type(handle))
            == of_concrete_type(collection_of(map, key), concrete_type(handle)).push(handle),
{
    reveal(Seq::filter);
    assert(collection_of(map, key).push(handle).drop_last() =~= collection_of(map, key));
}

/// A selection by concrete type holds exactly the handles of that type: each
/// of them as often as the collection holds it, and no handle of another
/// type.
pub proof fn law_selection_by_type_is_exact(items: Seq<Handle>, wanted: TypeId, handle: Handle)
    ensures
        of_concrete_type(items, wanted).to_multiset().count(handle) == if concrete_type(handle)
            == wanted {
            items.to_multiset().count(handle)
        } else {
            0
        },
    decreases items.len(),
{
    broadcast use vstd::multiset::group_multiset_axioms;

    reveal(Seq::filter);
    let test = |h: Handle| concrete_type(h) == wanted;
    if items.len() == 0 {
        assert(items.to_multiset() =~= Multiset::<Handle>::empty()) by {
            items.to_multiset_ensures();
            vstd::multiset::lemma_multiset_empty_len(items.to_multiset());
        }
        assert(items.filter(test) =~= Seq::<Handle>::empty());
    } else {
        let shorter = items.drop_last();
        law_selection_by_type_is_exact(shorter, wanted, handle);
        assert(items =~= shorter.push(items.last()));
        vstd::seq_lib::to_multiset_build(shorter, items.last());
        if test(items.last()) {
            vstd::seq_lib::to_multiset_build(shorter.filter(test), items.last());
        }
    }
}

/// Where the answers of a removal's test are those of the predicate `test`,
/// what the removal keeps is the collection filtered by the negation of
/// `test`.
pub proof fn law_kept_is_filter(items: Seq<Handle>, verdicts: Seq<bool>, test: spec_fn(Handle) -> bool)
    requires
        verdicts.len() == items.len(),
        forall|i: int| 0 <= i < items.len() ==> #[trigger] verdicts[i] == test(items[i]),
    ensures
        kept(items, verdicts) == items.filter(|handle: Handle| !test(handle)),
    decreases items.len(),
{
    reveal(Seq::filter);
    if items.len() > 0 {
        law_kept_is_filter(items.drop_last(), verdicts.drop_last(), test);
    }
}

/// The handles of `items` that `matches` does not accept, in their order.
/// `verdicts` records what `matches` answered for each item.
fn unmatched<F: Fn(&Handle) -> bool>(items: &Vec<Handle>, matches: &F) -> (r: (
    Vec<Handle>,
    Ghost<Seq<bool>>,
))
    requires
        forall|handle: &Handle| matches.requires((handle,)),
    ensures
        answers_of(matches, items@, r.1@),
        r.0@ == kept(items@, r.1@),
{
    let mut rest: Vec<Handle> = Vec::new();
    let ghost mut verdicts: Seq<bool> = Seq::empty();
    let mut i: usize = 0;
    while i < items.len()
        invariant
            i <= items@.len(),
            verdicts.len() == i,
            forall|handle: &Handle| matches.requires((handle,)),
            forall|j: int| 0 <= j < i ==> matches.ensures((&items@[j],), #[trigger] verdicts[j]),
            rest@ == kept(items@.subrange(0, i as int), verdicts),
        decreases items@.len() - i,
    {
        let verdict = matches(&items[i]);
        proof {
            let shorter = items@.subrange(0, i as int);
            let longer = items@.subrange(0, i + 1);
            assert(longer.drop_last() =~= shorter);
            assert(verdicts.push(verdict).drop_last() =~= verdicts);
            verdicts = verdicts.push(verdict);
        }
        if !verdict {
            rest.push(items[i].duplicate());
        }
        i = i + 1;
    }
    proof {
        assert(items@.subrange(0, i as int) =~= items@);
    }
    (rest, Ghost(verdicts))
}

/// The handles of `items` whose concrete type is `wanted`, in their order.
fn select_type(items: &Vec<Handle>, wanted: &TypeId) -> (r: Vec<Handle>)
    ensures
        r@ == of_concrete_type(items@, *wanted),
{
    let mut chosen: Vec<Handle> = Vec::new();
    let mut i: usize = 0;
    while i < items.len()
        invariant
            i <= items@.len(),
            chosen@ == of_concrete_type(items@.subrange(0, i as int), *wanted),
        decreases items@.len() - i,
    {
        proof {
            let shorter = items@.subrange(0, i as int);
            let longer = items@.subrange(0, i + 1);
            assert(longer.drop_last() =~= shorter);
            reveal(Seq::filter);
        }
        if items[i].has_type(wanted) {
            chosen.push(items[i].duplicate());
        }
        i = i + 1;
    }
    proof {
        assert(items@.subrange(0, i as int) =~= items@);
    }
    chosen
}

/// One category: its key and its components in the order they were added.
struct Category {
    key: Arc<String>,
    items: Vec<Handle>,
}

/// The components of one entity, by category.
pub struct Components {
    categories: Vec<Category>,
}

impl View for Components {
    type V = Map<Seq<char>, Seq<Handle>>;

    /// The collection of each category that is present, by its key.
    closed spec fn view(&self) -> Map<Seq<char>, Seq<Handle>> {
        Map::new(
            |key: Seq<char>| self.has_key(key),
            |key: Seq<char>| self.categories@[self.position(key)].items@,
        )
    }
}

impl Components {
    /// No key occurs twice.
    #[verifier::type_invariant]
    spec fn keys_are_distinct(self) -> bool {
        forall|i: int, j: int|
            0 <= i < j < self.categories@.len() ==> (#[trigger] self.categories@[i]).key@ != (
            #[trigger] self.categories@[j]).key@
    }

    spec fn has_key(self, key: Seq<char>) -> bool {
        exists|i: int| 0 <= i < self.categories@.len() && (#[trigger] self.categories@[i]).key@ == key
    }

    spec fn position(self, key: Seq<char>) -> int {
        choose|i: int| 0 <= i < self.categories@.len() && (#[trigger] self.categories@[i]).key@ == key
    }

    /// The collection under `key`: empty where the key is absent.
    pub open spec fn collection(self, key: Seq<char>) -> Seq<Handle> {
        collection_of(self@, key)
    }

    /// Where `key` stands, the view holds that category's items.
    proof fn lemma_view_at(self, i: int)
        requires
            self.keys_are_distinct(),
            0 <= i < self.categories@.len(),
        ensures
            self@.dom().contains(self.categories@[i].key@),
            self@[self.categories@[i].key@] == self.categories@[i].items@,
            self.position(self.categories@[i].key@) == i,
    {
        let key = self.categories@[i].key@;
        assert(self.has_key(key));
        let p = self.position(key);
        assert(0 <= p < self.categories@.len() && self.categories@[p].key@ == key);
        if p < i {
            assert(self.categories@[p].key@ != self.categories@[i].key@);
        }
        if i < p {
            assert(self.categories@[i].key@ != self.categories@[p].key@);
        }
    }

    /// Changing the items of the category at `i` changes the view under
    /// that category's key and nowhere else.
    proof fn lemma_items_replaced(before: Components, after: Components, i: int)
        requires
            before.keys_are_distinct(),
            0 <= i < before.categories@.len(),
            after.categories@.len() == before.categories@.len(),
            forall|j: int|
                0 <= j < before.categories@.len() ==> (#[trigger] after.categories@[j]).key@
                    == before.categories@[j].key@,
            forall|j: int|
                0 <= j < before.categories@.len() && j != i ==> (
                #[trigger] after.categories@[j]).items@ == before.categories@[j].items@,
        ensures
            after.keys_are_distinct(),
            after@ == before@.insert(before.categories@[i].key@, after.categories@[i].items@),
    {
        assert(after.keys_are_distinct()) by {
            assert forall|a: int, b: int| 0 <= a < b < after.categories@.len() implies (
            #[trigger] after.categories@[a]).key@ != (#[trigger] after.categories@[b]).key@ by {
                assert(before.categories@[a].key@ != before.categories@[b].key@);
            }
        }
        assert forall|k: Seq<char>| after.has_key(k) == before.has_key(k) by {
            if before.has_key(k) {
                assert(after.categories@[before.position(k)].key@ == k);
            }
            if after.has_key(k) {
                assert(before.categories@[after.position(k)].key@ == k);
            }
        }
        assert forall|k: Seq<char>| before.has_key(k) implies after@[k] == if k
            == before.categories@[i].key@ {
            after.categories@[i].items@
        } else {
            before@[k]
        } by {
            let p = before.position(k);
            before.lemma_view_at(p);
            after.lemma_view_at(p);
            before.lemma_view_at(i);
        }
        before.lemma_view_at(i);
        assert(after@ =~= before@.insert(
            before.categories@[i].key@,
            after.categories@[i].items@,
        ));
    }

    /// A category with a new key at the end adds that key to the view and
    /// changes nothing else.
    proof fn lemma_category_appended(before: Components, after: Components)
        requires
            before.keys_are_distinct(),
            after.categories@.len() == before.categories@.len() + 1,
            forall|j: int|
                0 <= j < before.categories@.len() ==> #[trigger] after.categories@[j]
                    == before.categories@[j],
            !before.has_key(after.categories@.last().key@),
        ensures
            after.keys_are_distinct(),
            after@ == before@.insert(
                after.categories@.last().key@,
                after.categories@.last().items@,
            ),
    {
        let n = before.categories@.len() as int;
        let key = after.categories@[n].key@;
        assert(after.keys_are_distinct()) by {
            assert forall|a: int, b: int| 0 <= a < b < after.categories@.len() implies (
            #[trigger] after.categories@[a]).key@ != (#[trigger] after.categories@[b]).key@ by {
                if b < n {
                    assert(before.categories@[a].key@ != before.categories@[b].key@);
                } else {
                    assert(before.categories@[a].key@ != key);
                }
            }
        }
        after.lemma_view_at(n);
        assert forall|k: Seq<char>| after.has_key(k) == (before.has_key(k) || k == key) by {
            if before.has_key(k) {
                assert(after.categories@[before.position(k)].key@ == k);
            }
            if after.has_key(k) && k != key {
                assert(before.categories@[after.position(k)].key@ == k);
            }
        }
        assert forall|k: Seq<char>| before.has_key(k) implies after@[k] == before@[k] by {
            let p = before.position(k);
            before.lemma_view_at(p);
            after.lemma_view_at(p);
        }
        assert(after@ =~= before@.insert(key, after.categories@[n].items@));
    }

    /// No components at all.
    pub fn new() -> (r: Components)
        ensures
            r@ == Map::<Seq<char>, Seq<Handle>>::empty(),
    {
        let r = Components { categories: Vec::new() };
        assert(r@ =~= Map::<Seq<char>, Seq<Handle>>::empty());
        r
    }

    /// The position of the category with the given key.
    fn find(&self, key: &String) -> (r: Option<usize>)
        ensures
            match r {
                Some(i) => i < self.categories@.len() && self.categories@[i as int].key@ == key@,
                None => !self.has_key(key@),
            },
    {
        let mut i: usize = 0;
        while i < self.categories.len()
            invariant
                i <= self.categories@.len(),
                forall|j: int| 0 <= j < i ==> (#[trigger] self.categories@[j]).key@ != key@,
            decreases self.categories@.len() - i,
        {
            if *self.categories[i].key == *key {
                return Some(i);
            }
            i = i + 1;
        }
        None
    }

    /// Whether a category with the given key is present.
    pub fn contains_category(&self, key: &String) -> (r: bool)
        ensures
            r == self@.dom().contains(key@),
    {
        self.find(key).is_some()
    }

    /// How many components stand under `key`.
    pub fn count(&self, key: &String) -> (r: usize)
        ensures
            r == self.collection(key@).len(),
    {
        proof {
            use_type_invariant(self);
        }
        match self.find(key) {
            Some(i) => {
                proof {
                    self.lemma_view_at(i as int);
                }
                self.categories[i].items.len()
            },
            None => 0,
        }
    }

    /// Appends `handle` to the collection under `key`, and creates the
    /// category if the key is absent.
    pub fn add(&mut self, key: Arc<String>, handle: Handle)
        ensures
            final(self)@ == with_added(old(self)@, key@, handle),
    {
        proof {
            use_type_invariant(&*self);
        }
        let ghost before = *self;
        let found = self.find(&key);
        let mut categories: Vec<Category> = Vec::new();
        std::mem::swap(&mut categories, &mut self.categories);
        match found {
            Some(i) => {
                categories[i].items.push(handle);
                std::mem::swap(&mut categories, &mut self.categories);
                proof {
                    before.lemma_view_at(i as int);
                    Self::lemma_items_replaced(before, *self, i as int);
                }
            },
            None => {
                let mut items: Vec<Handle> = Vec::new();
                items.push(handle);
                categories.push(Category { key, items });
                std::mem::swap(&mut categories, &mut self.categories);
                proof {
                    Self::lemma_category_appended(before, *self);
                    assert(items@ =~= Seq::<Handle>::empty().push(handle));
                }
            },
        }
    }

    /// Removes from the collection under `key` every component that `matches`
    /// accepts, and keeps the others in their order. Nothing changes where
    /// the key is absent. `matches` is asked once for each component of the
    /// collection, from the first to the last; where its answer is a function
    /// of the component, what is kept is a filter of the collection (see
    /// [`law_kept_is_filter`]).
    pub fn remove_where<F: Fn(&Handle) -> bool>(&mut self, key: &String, matches: &F)
        requires
            forall|handle: &Handle| matches.requires((handle,)),
        ensures
            !old(self)@.dom().contains(key@) ==> final(self)@ == old(self)@,
            old(self)@.dom().contains(key@) ==> exists|verdicts: Seq<bool>|
                #[trigger] answers_of(matches, old(self)@[key@], verdicts) && final(self)@ == old(
                    self,
                )@.insert(key@, kept(old(self)@[key@], verdicts)),
    {
        proof {
            use_type_invariant(&*self);
        }
        let ghost before = *self;
        let found = self.find(key);
        match found {
            Some(i) => {
                proof {
                    before.lemma_view_at(i as int);
                }
                let (rest, Ghost(verdicts)) = unmatched(&self.categories[i].items, matches);
                let mut categories: Vec<Category> = Vec::new();
                std::mem::swap(&mut categories, &mut self.categories);
                categories[i].items = rest;
                std::mem::swap(&mut categories, &mut self.categories);
                proof {
                    Self::lemma_items_replaced(before, *self, i as int);
                    assert(answers_of(matches, before@[key@], verdicts));
                }
            },
            None => {},
        }
    }

    /// The components under `key` whose concrete type is `wanted`, in their
    /// order: all of them, and no component of another type. The result is
    /// empty where the key is absent.
    pub fn of_type(&self, key: &String, wanted: &TypeId) -> (r: Vec<Handle>)
        ensures
            r@ == of_concrete_type(self.collection(key@), *wanted),
    {
        proof {
            use_type_invariant(self);
        }
        match self.find(key) {
            Some(i) => {
                proof {
                    self.lemma_view_at(i as int);
                }
                select_type(&self.categories[i].items, wanted)
            },
            None => {
                proof {
                    reveal(Seq::filter);
                }
                Vec::new()
            },
        }
    }

    /// The components under `key` whose concrete type is `T`, each as a `T`
    /// beside its handle, in their order: exactly those that
    /// [`Components::of_type`] finds for the type that `ty` carries.
    pub fn get_type<T: Component>(&self, key: &String, ty: &TypeKey<T>) -> (r: Vec<Typed<T>>)
        ensures
            handles_of(r@) == of_concrete_type(self.collection(key@), ty.id()),
            all_of_type(handles_of(r@), ty.id()),
    {
        let wanted = ty.type_id();
        let handles = self.of_type(key, &wanted);
        proof {
            let all = self.collection(key@);
            let test = |handle: Handle| concrete_type(handle) == wanted;
            assert forall|i: int| 0 <= i < handles@.len() implies concrete_type(
                #[trigger] handles@[i],
            ) == ty.id() by {
                all.lemma_filter_pred(test, i);
            }
        }
        typed(&handles, ty)
    }
}

} // verus!
