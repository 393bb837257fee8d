//! The scene: elements in paint order, and the operations on them.

use vstd::prelude::*;
use crate::element::{Element, ElementV, hit_spec, HitFacts};
use crate::ids::ElementId;

verus! {

/// The elements of a board. Later elements are painted on top.
#[derive(Debug)]
pub struct Scene<F> {
    pub elements: Vec<Element<F>>,
}

/// The values of a list of elements.
pub open spec fn views<F>(s: Seq<Element<F>>) -> Seq<ElementV<F>> {
    Seq::new(s.len(), |i: int| s[i]@)
}

impl<F> View for Scene<F> {
    type V = Seq<ElementV<F>>;

    open spec fn view(&self) -> Seq<ElementV<F>> {
        views(self.elements@)
    }
}

/// Whether some element has the identity `id`.
pub open spec fn has_id<F>(s: Seq<ElementV<F>>, id: ElementId) -> bool {
    exists|i: int| 0 <= i < s.len() && #[trigger] s[i].id == id
}

/// The place of the first element with the identity `id`, from `from` on;
/// the length when there is none.
pub open spec fn first_place<F>(s: Seq<ElementV<F>>, id: ElementId, from: int) -> int
    decreases s.len() - from,
{
    if from >= s.len() || s[from].id == id {
        from
    } else {
        first_place(s, id, from + 1)
    }
}

/// The place of the first element with the identity `id`.
pub open spec fn place_of<F>(s: Seq<ElementV<F>>, id: ElementId) -> int {
    first_place(s, id, 0)
}

pub proof fn lemma_first_place<F>(s: Seq<ElementV<F>>, id: ElementId, from: int)
    requires
        0 <= from <= s.len(),
    ensures
        from <= first_place(s, id, from) <= s.len(),
        first_place(s, id, from) < s.len() ==> s[first_place(s, id, from)].id == id,
        forall|k: int| from <= k < first_place(s, id, from) ==> (#[trigger] s[k]).id != id,
    decreases s.len() - from,
{
    if from < s.len() && s[from].id != id {
        lemma_first_place(s, id, from + 1);
    }
}

/// An element with the identity is found exactly when there is one.
pub proof fn lemma_place_of<F>(s: Seq<ElementV<F>>, id: ElementId)
    ensures
        0 <= place_of(s, id) <= s.len(),
        has_id(s, id) <==> place_of(s, id) < s.len(),
        has_id(s, id) ==> s[place_of(s, id)].id == id,
        forall|k: int| 0 <= k < place_of(s, id) ==> (#[trigger] s[k]).id != id,
{
    lemma_first_place(s, id, 0);
}

/// No two elements share an identity.
pub open spec fn unique_ids<F>(s: Seq<ElementV<F>>) -> bool {
    forall|i: int, j: int| 0 <= i < j < s.len() ==> (#[trigger] s[i]).id != (#[trigger] s[j]).id
}

/// Whether a list of identities holds `id`.
pub fn holds(ids: &[ElementId], id: ElementId) -> (r: bool)
    ensures
        r == ids@.contains(id),
{
    let mut i: usize = 0;
    while i < ids.len()
        invariant
            i <= ids.len(),
            forall|k: int| 0 <= k < i ==> ids@[k] != id,
        decreases ids.len() - i,
    {
        if ids[i] == id {
            assert(ids@[i as int] == id);
            return true;
        }
        i += 1;
    }
    false
}

/// The predicate of being `id`.
pub open spec fn just(id: ElementId) -> spec_fn(ElementId) -> bool {
    |x: ElementId| x == id
}

/// How often `ids` holds `id`.
pub open spec fn occurrences(ids: Seq<ElementId>, id: ElementId) -> nat {
    ids.filter(just(id)).len()
}

/// Counts how often a list of identities holds `id`.
pub fn count_of(ids: &[ElementId], id: ElementId) -> (r: usize)
    ensures
        r == occurrences(ids@, id),
        r > 0 <==> ids@.contains(id),
{
    let ghost p = just(id);
    let mut n: usize = 0;
    let mut i: usize = 0;
    assert(ids@.take(0).filter(p).len() == 0) by {
        reveal(Seq::filter);
    }
    while i < ids.len()
        invariant
            n <= i <= ids.len(),
            p == just(id),
            n == ids@.take(i as int).filter(p).len(),
            n > 0 <==> exists|k: int| 0 <= k < i && ids@[k] == id,
        decreases ids.len() - i,
    {
        proof {
            reveal(Seq::filter);
            assert(ids@.take(i + 1).drop_last() =~= ids@.take(i as int));
        }
        if ids[i] == id {
            n += 1;
            assert(ids@[i as int] == id);
        }
        i += 1;
    }
    assert(ids@.take(ids@.len() as int) =~= ids@);
    n
}

/// The predicate of being listed in `ids`.
pub open spec fn listed<F>(ids: Seq<ElementId>) -> spec_fn(ElementV<F>) -> bool {
    |e: ElementV<F>| ids.contains(e.id)
}

/// The complement of a predicate.
pub open spec fn not<T>(p: spec_fn(T) -> bool) -> spec_fn(T) -> bool {
    |x: T| !p(x)
}

/// The items that satisfy `p` moved behind the others; both keep their order.
pub open spec fn to_front<T>(s: Seq<T>, p: spec_fn(T) -> bool) -> Seq<T> {
    s.filter(not(p)) + s.filter(p)
}

/// The items that satisfy `p` moved before the others; both keep their order.
pub open spec fn to_back<T>(s: Seq<T>, p: spec_fn(T) -> bool) -> Seq<T> {
    s.filter(p) + s.filter(not(p))
}

/// Every item that satisfies `p` moved one place up, past the item above it,
/// as far as that one does not satisfy `p` itself.
pub open spec fn raised<T>(s: Seq<T>, p: spec_fn(T) -> bool) -> Seq<T>
    decreases s.len(),
{
    if s.len() < 2 {
        s
    } else {
        let t = raised(s.skip(1), p);
        if p(s[0]) && !p(t[0]) {
            seq![t[0], s[0]] + t.skip(1)
        } else {
            seq![s[0]] + t
        }
    }
}

/// Every item that satisfies `p` moved one place down, past the item below it,
/// as far as that one does not satisfy `p` itself.
pub open spec fn lowered<T>(s: Seq<T>, p: spec_fn(T) -> bool) -> Seq<T>
    decreases s.len(),
{
    if s.len() < 2 {
        s
    } else {
        let t = lowered(s.drop_last(), p);
        if p(s.last()) && !p(t.last()) {
            t.drop_last().push(s.last()).push(t.last())
        } else {
            t.push(s.last())
        }
    }
}

/// Whether some item that satisfies `p` lies below one that does not.
pub open spec fn lies_below<T>(s: Seq<T>, p: spec_fn(T) -> bool) -> bool {
    exists|i: int, j: int| 0 <= i < j < s.len() && p(#[trigger] s[i]) && !p(#[trigger] s[j])
}

/// Whether some item that satisfies `p` lies above one that does not.
pub open spec fn lies_above<T>(s: Seq<T>, p: spec_fn(T) -> bool) -> bool {
    exists|i: int, j: int| 0 <= j < i < s.len() && p(#[trigger] s[i]) && !p(#[trigger] s[j])
}

/// Whether some item that satisfies `p` has one that does not right above it.
pub open spec fn can_rise<T>(s: Seq<T>, p: spec_fn(T) -> bool) -> bool {
    exists|i: int| 0 <= i < s.len() - 1 && p(#[trigger] s[i]) && !p(s[i + 1])
}

/// Whether some item that satisfies `p` has one that does not right below it.
pub open spec fn can_sink<T>(s: Seq<T>, p: spec_fn(T) -> bool) -> bool {
    exists|i: int| 0 < i < s.len() && p(#[trigger] s[i]) && !p(s[i - 1])
}

/// The identities of the items that are marked.
pub open spec fn marked_ids<F>(s: Seq<ElementV<F>>, marks: Seq<bool>) -> Seq<ElementId>
    decreases s.len(),
{
    if s.len() == 0 {
        Seq::empty()
    } else if marks[s.len() - 1] {
        marked_ids(s.drop_last(), marks).push(s.last().id)
    } else {
        marked_ids(s.drop_last(), marks)
    }
}

/// The topmost element that is hit.
pub open spec fn top_hit<F>(s: Seq<ElementV<F>>, facts: Seq<HitFacts>) -> Option<ElementId>
    decreases s.len(),
{
    if s.len() == 0 {
        None
    } else if hit_spec(s.last().kind, facts[s.len() - 1]) {
        Some(s.last().id)
    } else {
        top_hit(s.drop_last(), facts)
    }
}

/// The first identity whose hyphenated form begins with `prefix`.
pub open spec fn prefix_match<F>(s: Seq<ElementV<F>>, prefix: Seq<char>) -> Option<ElementId>
    decreases s.len(),
{
    if s.len() == 0 {
        None
    } else if crate::text::begins_with(crate::ids::hyphenated(s[0].id.value), prefix) {
        Some(s[0].id)
    } else {
        prefix_match(s.skip(1), prefix)
    }
}

/// Copies a list of elements.
pub fn copy_elements<F: Copy>(v: &Vec<Element<F>>) -> (r: Vec<Element<F>>)
    ensures
        views(r@) == views(v@),
{
    let mut r: Vec<Element<F>> = Vec::new();
    let mut i: usize = 0;
    while i < v.len()
        invariant
            i <= v.len(),
            r@.len() == i,
            forall|k: int| 0 <= k < i ==> (#[trigger] r@[k])@ == v@[k]@,
        decreases v.len() - i,
    {
        r.push(v[i].clone());
        i += 1;
    }
    assert(views(r@) =~= views(v@));
    r
}

impl<F: Copy> Scene<F> {
    /// An empty scene.
    pub fn new() -> (r: Self)
        ensures
            r@ == Seq::<ElementV<F>>::empty(),
    {
        let r: Scene<F> = Scene { elements: Vec::new() };
        assert(r@ =~= Seq::<ElementV<F>>::empty());
        r
    }

    /// Puts an element on top and returns its identity.
    pub fn add(&mut self, element: Element<F>) -> (r: ElementId)
        ensures
            r == element.id,
            final(self)@ == old(self)@.push(element@),
    {
        let id: ElementId = element.id;
        self.elements.push(element);
        assert(self@ =~= old(self)@.push(element@));
        id
    }

    /// The place of the first element with the identity `id`.
    pub fn index_of(&self, id: ElementId) -> (r: Option<usize>)
        ensures
            match r {
                Some(i) => i == place_of(self@, id) && i < self@.len() && self@[i as int].id == id,
                None => !has_id(self@, id),
            },
    {
        let mut i: usize = 0;
        while i < self.elements.len()
            invariant
                i <= self.elements.len(),
                place_of(self@, id) == first_place(self@, id, i as int),
                forall|k: int| 0 <= k < i ==> (#[trigger] self@[k]).id != id,
            decreases self.elements.len() - i,
        {
            assert(self@[i as int].id == self.elements@[i as int].id);
            if self.elements[i].id == id {
                return Some(i);
            }
            i += 1;
        }
        None
    }

    /// Takes out the first element with the identity `id`.
    pub fn remove(&mut self, id: ElementId) -> (r: Option<Element<F>>)
        ensures
            match r {
                Some(e) => has_id(old(self)@, id) && e@ == old(self)@[place_of(old(self)@, id)]
                    && final(self)@ == old(self)@.remove(place_of(old(self)@, id)),
                None => !has_id(old(self)@, id) && final(self)@ == old(self)@,
            },
    {
        match self.index_of(id) {
            Some(i) => {
                let e: Element<F> = self.elements.remove(i);
                assert(self@ =~= old(self)@.remove(i as int));
                Some(e)
            },
            None => None,
        }
    }

    /// The first element with the identity `id`.
    pub fn get(&self, id: ElementId) -> (r: Option<&Element<F>>)
        ensures
            match r {
                Some(e) => has_id(self@, id) && e@ == self@[place_of(self@, id)],
                None => !has_id(self@, id),
            },
    {
        match self.index_of(id) {
            Some(i) => Some(&self.elements[i]),
            None => None,
        }
    }

    /// The first element with the identity `id`, to change it in place.
    pub fn get_mut(&mut self, id: ElementId) -> (r: Option<&mut Element<F>>)
        ensures
            r is Some == has_id(old(self)@, id),
            r matches Some(e) ==> {
                &&& e@ == old(self)@[place_of(old(self)@, id)]
                &&& final(self)@ == old(self)@.update(place_of(old(self)@, id), final(e)@)
            },
            r is None ==> final(self)@ == old(self)@,
    {
        match self.index_of(id) {
            Some(i) => Some(&mut self.elements[i]),
            None => None,
        }
    }

    /// Whether some element has the identity `id`.
    pub fn contains(&self, id: ElementId) -> (r: bool)
        ensures
            r == has_id(self@, id),
    {
        self.index_of(id).is_some()
    }

    /// The identity of the first element whose hyphenated identity begins
    /// with `prefix`.
    pub fn find_by_id_prefix(&self, prefix: &str) -> (r: Option<ElementId>)
        ensures
            r == prefix_match(self@, prefix@),
    {
        let mut i: usize = 0;
        assert(self@.skip(0) =~= self@);
        while i < self.elements.len()
            invariant
                i <= self.elements.len(),
                prefix_match(self@, prefix@) == prefix_match(self@.skip(i as int), prefix@),
            decreases self.elements.len() - i,
        {
            let id: ElementId = self.elements[i].id;
            assert(self@.skip(i as int)[0].id == id);
            assert(self@.skip(i as int).skip(1) =~= self@.skip(i + 1));
            if id.has_prefix(prefix) {
                return Some(id);
            }
            i += 1;
        }
        None
    }

    /// The topmost element that is hit, given for each element the outcomes of
    /// the geometric tests.
    pub fn hit_test(&self, facts: &Vec<HitFacts>) -> (r: Option<ElementId>)
        requires
            facts@.len() == self@.len(),
        ensures
            r == top_hit(self@, facts@),
    {
        let mut i: usize = self.elements.len();
        assert(self@.take(self@.len() as int) =~= self@);
        while i > 0
            invariant
                i <= self.elements.len(),
                facts@.len() == self@.len(),
                top_hit(self@, facts@) == top_hit(self@.take(i as int), facts@),
            decreases i,
        {
            i -= 1;
            assert(self@.take(i + 1).drop_last() =~= self@.take(i as int));
            assert(self@.take(i + 1).last() == self.elements@[i as int]@);
            if self.elements[i].hit_test(facts[i]) {
                return Some(self.elements[i].id);
            }
        }
        None
    }

    /// The identities of the elements that touch a region, in paint order,
    /// given for each element whether it does.
    pub fn elements_in(&self, inside: &Vec<bool>) -> (r: Vec<ElementId>)
        requires
            inside@.len() == self@.len(),
        ensures
            r@ == marked_ids(self@, inside@),
    {
        let mut r: Vec<ElementId> = Vec::new();
        let mut i: usize = 0;
        while i < self.elements.len()
            invariant
                i <= self.elements.len(),
                inside@.len() == self@.len(),
                r@ == marked_ids(self@.take(i as int), inside@),
            decreases self.elements.len() - i,
        {
            assert(self@.take(i + 1).drop_last() =~= self@.take(i as int));
            assert(self@.take(i + 1).last() == self.elements@[i as int]@);
            if inside[i] {
                r.push(self.elements[i].id);
            }
            i += 1;
        }
        assert(self@.take(self@.len() as int) =~= self@);
        r
    }

    /// Replaces all elements.
    pub fn restore(&mut self, elements: Vec<Element<F>>)
        ensures
            final(self)@ == views(elements@),
    {
        self.elements = elements;
    }

    /// Splits off the listed elements: the unlisted and the listed ones, both
    /// in paint order.
    fn split_listed(&mut self, ids: &[ElementId]) -> (r: (Vec<Element<F>>, Vec<Element<F>>))
        ensures
            views(r.0@) == old(self)@.filter(not(listed(ids@))),
            views(r.1@) == old(self)@.filter(listed(ids@)),
            final(self)@.len() == 0,
    {
        let ghost all = self@;
        let ghost p = listed::<F>(ids@);
        let mut rest: Vec<Element<F>> = Vec::new();
        let mut picked: Vec<Element<F>> = Vec::new();
        let mut pending: Vec<Element<F>> = Vec::new();
        let ghost exec_all = self.elements@;
        while self.elements.len() > 0
            invariant
                self.elements@.len() + pending@.len() == exec_all.len(),
                self.elements@ == exec_all.take(self.elements@.len() as int),
                forall|k: int|
                    0 <= k < pending@.len() ==> #[trigger] pending@[k] == exec_all[exec_all.len() - 1
                        - k],
            decreases self.elements.len(),
        {
            let e: Option<Element<F>> = self.elements.pop();
            match e {
                Some(e) => {
                    pending.push(e);
                },
                None => {},
            }
            assert(self.elements@ =~= exec_all.take(self.elements@.len() as int));
        }
        let ghost mut done: int = 0;
        assert(all.take(0) =~= Seq::<ElementV<F>>::empty());
        proof {
            reveal(Seq::filter);
        }
        assert(views(rest@) =~= all.take(0).filter(not(p)));
        assert(views(picked@) =~= all.take(0).filter(p));
        while pending.len() > 0
            invariant
                p == listed::<F>(ids@),
                all == views(exec_all),
                self.elements@.len() == 0,
                done + pending@.len() == exec_all.len(),
                0 <= done,
                forall|k: int|
                    0 <= k < pending@.len() ==> #[trigger] pending@[k] == exec_all[exec_all.len() - 1
                        - k],
                views(rest@) == all.take(done).filter(not(p)),
                views(picked@) == all.take(done).filter(p),
            decreases pending.len(),
        {
            let e: Option<Element<F>> = pending.pop();
            match e {
                Some(e) => {
                    proof {
                        reveal(Seq::filter);
                        assert(e == exec_all[done]);
                        assert(all.take(done + 1).drop_last() =~= all.take(done));
                        assert(all.take(done + 1).last() == e@);
                    }
                    let ghost r0 = views(rest@);
                    let ghost p0 = views(picked@);
                    if holds(ids, e.id) {
                        picked.push(e);
                        assert(views(picked@) =~= p0.push(e@));
                    } else {
                        rest.push(e);
                        assert(views(rest@) =~= r0.push(e@));
                    }
                    proof {
                        done = done + 1;
                    }
                },
                None => {},
            }
        }
        assert(all.take(all.len() as int) =~= all);
        (rest, picked)
    }

    /// Moves the listed elements to the top, keeping their order.
    pub fn move_to_front(&mut self, ids: &[ElementId])
        ensures
            final(self)@ == to_front(old(self)@, listed(ids@)),
    {
        let mut parts: (Vec<Element<F>>, Vec<Element<F>>) = self.split_listed(ids);
        let ghost a = views(parts.0@);
        let ghost b = views(parts.1@);
        parts.0.append(&mut parts.1);
        assert(views(parts.0@) =~= a + b);
        self.elements = parts.0;
    }

    /// Moves the listed elements to the bottom, keeping their order.
    pub fn send_to_back(&mut self, ids: &[ElementId])
        ensures
            final(self)@ == to_back(old(self)@, listed(ids@)),
    {
        let mut parts: (Vec<Element<F>>, Vec<Element<F>>) = self.split_listed(ids);
        let ghost a = views(parts.0@);
        let ghost b = views(parts.1@);
        parts.1.append(&mut parts.0);
        assert(views(parts.1@) =~= b + a);
        self.elements = parts.1;
    }

    /// Moves the listed elements one place up.
    pub fn bring_forward(&mut self, ids: &[ElementId])
        ensures
            final(self)@ == raised(old(self)@, listed(ids@)),
    {
        let ghost all = self@;
        let ghost p = listed::<F>(ids@);
        if self.elements.len() < 2 {
            return;
        }
        let mut i: usize = self.elements.len() - 1;
        proof {
            assert(all.skip(i as int).len() == 1);
            assert(self@ =~= all.take(i as int) + raised(all.skip(i as int), p));
        }
        while i > 0
            invariant
                p == listed::<F>(ids@),
                i < self@.len(),
                self@.len() == all.len(),
                self@ == all.take(i as int) + raised(all.skip(i as int), p),
            decreases i,
        {
            i -= 1;
            let ghost before = self@;
            proof {
                lemma_raised_len(all.skip(i + 1), p);
                assert(all.skip(i as int).skip(1) =~= all.skip(i + 1));
                assert(before[i as int] == all[i as int]);
                assert(before[i + 1] == raised(all.skip(i + 1), p)[0]);
                assert(self.elements@[i as int]@ == before[i as int]);
                assert(self.elements@[i + 1]@ == before[i + 1]);
            }
            let ghost t = raised(all.skip(i + 1), p);
            if holds(ids, self.elements[i].id) && !holds(ids, self.elements[i + 1].id) {
                let e: Element<F> = self.elements.remove(i);
                self.elements.insert(i + 1, e);
                assert(self@ =~= before.update(i as int, before[i + 1]).update(
                    i + 1,
                    before[i as int],
                ));
                assert(raised(all.skip(i as int), p) == seq![t[0], all[i as int]] + t.skip(1));
            } else {
                assert(raised(all.skip(i as int), p) == seq![all[i as int]] + t);
            }
            assert(self@ =~= all.take(i as int) + raised(all.skip(i as int), p));
        }
        assert(all.skip(0) =~= all);
        assert(self@ =~= raised(all, p));
    }

    /// Moves the listed elements one place down.
    pub fn send_backward(&mut self, ids: &[ElementId])
        ensures
            final(self)@ == lowered(old(self)@, listed(ids@)),
    {
        let ghost all = self@;
        let ghost p = listed::<F>(ids@);
        if self.elements.len() < 2 {
            return;
        }
        let mut i: usize = 1;
        proof {
            assert(all.take(1).len() == 1);
            assert(self@ =~= lowered(all.take(1), p) + all.skip(1));
        }
        while i < self.elements.len()
            invariant
                p == listed::<F>(ids@),
                1 <= i <= self@.len(),
                self@.len() == all.len(),
                self@ == lowered(all.take(i as int), p) + all.skip(i as int),
            decreases self.elements.len() - i,
        {
            let ghost before = self@;
            proof {
                lemma_lowered_len(all.take(i as int), p);
                assert(all.take(i + 1).drop_last() =~= all.take(i as int));
                assert(before[i as int] == all[i as int]);
                assert(before[i - 1] == lowered(all.take(i as int), p).last());
                assert(self.elements@[i as int]@ == before[i as int]);
                assert(self.elements@[i - 1]@ == before[i - 1]);
            }
            let ghost t = lowered(all.take(i as int), p);
            if holds(ids, self.elements[i].id) && !holds(ids, self.elements[i - 1].id) {
                let e: Element<F> = self.elements.remove(i);
                self.elements.insert(i - 1, e);
                assert(self@ =~= before.update(i as int, before[i - 1]).update(
                    i - 1,
                    before[i as int],
                ));
                assert(lowered(all.take(i + 1), p) == t.drop_last().push(all[i as int]).push(
                    t.last(),
                ));
            } else {
                assert(lowered(all.take(i + 1), p) == t.push(all[i as int]));
            }
            i += 1;
            assert(self@ =~= lowered(all.take(i as int), p) + all.skip(i as int));
        }
        assert(all.take(all.len() as int) =~= all);
        assert(self@ =~= lowered(all, p));
    }

    /// Whether the listed elements are not all on top yet: some listed element
    /// lies below an unlisted one.
    pub fn can_front(&self, ids: &[ElementId]) -> (r: bool)
        ensures
            r == lies_below(self@, listed(ids@)),
    {
        let ghost p = listed::<F>(ids@);
        let mut top: usize = self.elements.len();
        while top > 0 && holds(ids, self.elements[top - 1].id)
            invariant
                top <= self@.len(),
                p == listed::<F>(ids@),
                forall|k: int| top <= k < self@.len() ==> p(#[trigger] self@[k]),
            decreases top,
        {
            assert(self@[top - 1] == self.elements@[top - 1]@);
            top -= 1;
        }
        if top == 0 {
            return false;
        }
        assert(self@[top - 1] == self.elements@[top - 1]@);
        let mut i: usize = 0;
        while i < top - 1
            invariant
                1 <= top <= self@.len(),
                i < top,
                p == listed::<F>(ids@),
                !p(self@[top - 1]),
                forall|k: int| 0 <= k < i ==> !p(#[trigger] self@[k]),
            decreases top - i,
        {
            assert(self@[i as int] == self.elements@[i as int]@);
            if holds(ids, self.elements[i].id) {
                assert(p(self@[i as int]) && !p(self@[top - 1]));
                return true;
            }
            i += 1;
        }
        false
    }

    /// Whether the listed elements are not all at the bottom yet: some listed
    /// element lies above an unlisted one.
    pub fn can_back(&self, ids: &[ElementId]) -> (r: bool)
        ensures
            r == lies_above(self@, listed(ids@)),
    {
        let ghost p = listed::<F>(ids@);
        let n: usize = self.elements.len();
        let mut low: usize = 0;
        while low < n && holds(ids, self.elements[low].id)
            invariant
                n == self@.len(),
                low <= n,
                p == listed::<F>(ids@),
                forall|k: int| 0 <= k < low ==> p(#[trigger] self@[k]),
            decreases n - low,
        {
            assert(self@[low as int] == self.elements@[low as int]@);
            low += 1;
        }
        if low == n {
            return false;
        }
        assert(self@[low as int] == self.elements@[low as int]@);
        let mut i: usize = n - 1;
        while i > low
            invariant
                n == self@.len(),
                low <= i < n,
                p == listed::<F>(ids@),
                !p(self@[low as int]),
                forall|k: int| i < k < n ==> !p(#[trigger] self@[k]),
            decreases i,
        {
            assert(self@[i as int] == self.elements@[i as int]@);
            if holds(ids, self.elements[i].id) {
                assert(p(self@[i as int]) && !p(self@[low as int]));
                return true;
            }
            i -= 1;
        }
        false
    }

    /// Whether some listed element has an unlisted one right above it.
    pub fn can_forward(&self, ids: &[ElementId]) -> (r: bool)
        ensures
            r == can_rise(self@, listed(ids@)),
    {
        let ghost p = listed::<F>(ids@);
        let n: usize = self.elements.len();
        if n < 2 {
            return false;
        }
        let mut i: usize = 0;
        while i < n - 1
            invariant
                p == listed::<F>(ids@),
                n == self@.len(),
                i < n,
                forall|k: int| 0 <= k < i && k + 1 < self@.len() ==> !(p(#[trigger] self@[k]) && !p(self@[k + 1])),
            decreases n - i,
        {
            assert(self@[i as int] == self.elements@[i as int]@);
            assert(self@[i + 1] == self.elements@[i + 1]@);
            if holds(ids, self.elements[i].id) && !holds(ids, self.elements[i + 1].id) {
                assert(p(self@[i as int]) && !p(self@[i + 1]));
                return true;
            }
            i += 1;
        }
        false
    }

    /// Whether some listed element has an unlisted one right below it.
    pub fn can_backward(&self, ids: &[ElementId]) -> (r: bool)
        ensures
            r == can_sink(self@, listed(ids@)),
    {
        let ghost p = listed::<F>(ids@);
        let mut i: usize = 1;
        while i < self.elements.len()
            invariant
                p == listed::<F>(ids@),
                1 <= i,
                forall|k: int| 0 < k < i && k < self@.len() ==> !(p(#[trigger] self@[k]) && !p(self@[k - 1])),
            decreases self.elements.len() - i,
        {
            assert(self@[i as int] == self.elements@[i as int]@);
            assert(self@[i - 1] == self.elements@[i - 1]@);
            if holds(ids, self.elements[i].id) && !holds(ids, self.elements[i - 1].id) {
                assert(p(self@[i as int]) && !p(self@[i - 1]));
                return true;
            }
            i += 1;
        }
        false
    }
}

proof fn lemma_raised_len<T>(s: Seq<T>, p: spec_fn(T) -> bool)
    ensures
        raised(s, p).len() == s.len(),
    decreases s.len(),
{
    if s.len() >= 2 {
        lemma_raised_len(s.skip(1), p);
    }
}

proof fn lemma_lowered_len<T>(s: Seq<T>, p: spec_fn(T) -> bool)
    ensures
        lowered(s, p).len() == s.len(),
    decreases s.len(),
{
    if s.len() >= 2 {
        lemma_lowered_len(s.drop_last(), p);
    }
}

} // verus!
