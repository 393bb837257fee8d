//! The textures of pixel canvases and their drying strokes.
//!
//! A texture that is replaced or whose canvas is gone becomes stale; stale
//! textures wait to be released. No texture is ever dropped on the way.

use vstd::prelude::*;
use vstd::multiset::Multiset;
use crate::element::{CanvasBrush, Element, ElementKind, ElementV, KindV};
use crate::fingerprint::fingerprint;
use crate::ids::ElementId;
use crate::scene::{has_id, Scene};

verus! {

/// The most live textures.
pub const MAX_TEXTURES: usize = 512;

/// How long a committed watercolour stroke dries, in milliseconds.
pub const WET_MS: u64 = 2500;

/// Something kept for an element.
pub struct Slot<V> {
    pub id: ElementId,
    pub value: V,
}

/// The place of the first slot of an element, from `from` on; the length when
/// there is none.
pub open spec fn slot_from<V>(s: Seq<Slot<V>>, id: ElementId, from: int) -> int
    decreases s.len() - from,
{
    if from >= s.len() || s[from].id == id {
        from
    } else {
        slot_from(s, id, from + 1)
    }
}

/// The place of the slot of an element; the length when there is none.
pub open spec fn slot_of<V>(s: Seq<Slot<V>>, id: ElementId) -> int {
    slot_from(s, id, 0)
}

/// Whether no element has two slots.
pub open spec fn one_each<V>(s: Seq<Slot<V>>) -> bool {
    forall|i: int, j: int| 0 <= i < j < s.len() ==> (#[trigger] s[i]).id != (#[trigger] s[j]).id
}

/// The slots with that of one element replaced, or added at the end.
pub open spec fn with_slot<V>(s: Seq<Slot<V>>, id: ElementId, value: V) -> Seq<Slot<V>> {
    if slot_of(s, id) < s.len() {
        s.update(slot_of(s, id), Slot { id, value })
    } else {
        s.push(Slot { id, value })
    }
}

/// The slots without that of one element.
pub open spec fn without_slot<V>(s: Seq<Slot<V>>, id: ElementId) -> Seq<Slot<V>> {
    if slot_of(s, id) < s.len() {
        s.remove(slot_of(s, id))
    } else {
        s
    }
}

/// What is kept for an element.
pub open spec fn slot_value<V>(s: Seq<Slot<V>>, id: ElementId) -> Option<V> {
    if slot_of(s, id) < s.len() {
        Some(s[slot_of(s, id)].value)
    } else {
        None
    }
}

pub(crate) proof fn lemma_slot_from<V>(s: Seq<Slot<V>>, id: ElementId, from: int)
    requires
        0 <= from <= s.len(),
    ensures
        from <= slot_from(s, id, from) <= s.len(),
        slot_from(s, id, from) < s.len() ==> s[slot_from(s, id, from)].id == id,
        forall|k: int| from <= k < slot_from(s, id, from) ==> (#[trigger] s[k]).id != id,
    decreases s.len() - from,
{
    if from < s.len() && s[from].id != id {
        lemma_slot_from(s, id, from + 1);
    }
}

/// The first slot of an element is where it is found.
pub(crate) proof fn lemma_slot_at<V>(s: Seq<Slot<V>>, id: ElementId, from: int, at: int)
    requires
        0 <= from <= at <= s.len(),
        at < s.len() ==> s[at].id == id,
        forall|k: int| from <= k < at ==> (#[trigger] s[k]).id != id,
    ensures
        slot_from(s, id, from) == at,
    decreases at - from,
{
    if from < at {
        lemma_slot_at(s, id, from + 1, at);
    }
}

pub(crate) proof fn lemma_with_slot<V>(s: Seq<Slot<V>>, id: ElementId, value: V)
    ensures
        one_each(s) ==> one_each(with_slot(s, id, value)),
        slot_of(with_slot(s, id, value), id) == slot_of(s, id),
        slot_value(with_slot(s, id, value), id) == Some(value),
{
    lemma_slot_from(s, id, 0);
    lemma_slot_at(with_slot(s, id, value), id, 0, slot_of(s, id));
}

pub(crate) proof fn lemma_without_slot<V>(s: Seq<Slot<V>>, id: ElementId)
    requires
        one_each(s),
    ensures
        one_each(without_slot(s, id)),
        slot_of(without_slot(s, id), id) == without_slot(s, id).len(),
{
    lemma_slot_from(s, id, 0);
    let r = without_slot(s, id);
    assert forall|k: int| 0 <= k < r.len() implies (#[trigger] r[k]).id != id by {
        if slot_of(s, id) < s.len() {
            let i = slot_of(s, id);
            if k < i {
                assert(s[k].id != s[i].id);
            } else {
                assert(s[i].id != s[k + 1].id);
            }
        }
    }
    lemma_slot_at(r, id, 0, r.len() as int);
}

pub(crate) proof fn lemma_filter_one_each<V>(s: Seq<Slot<V>>, p: spec_fn(Slot<V>) -> bool)
    requires
        one_each(s),
    ensures
        one_each(s.filter(p)),
        forall|x: Slot<V>| #[trigger] s.filter(p).contains(x) ==> s.contains(x),
    decreases s.len(),
{
    reveal(Seq::filter);
    if s.len() > 0 {
        let d = s.drop_last();
        let f = d.filter(p);
        let x = s.last();
        lemma_filter_one_each(d, p);
        assert forall|i: int| 0 <= i < f.len() implies (#[trigger] f[i]).id != x.id by {
            assert(f.contains(f[i]));
            let k = choose|k: int| 0 <= k < d.len() && d[k] == f[i];
            assert(s[k].id != s[s.len() - 1].id);
        }
        assert forall|y: Slot<V>| #[trigger] s.filter(p).contains(y) implies s.contains(y) by {
            let i = choose|i: int| 0 <= i < s.filter(p).len() && s.filter(p)[i] == y;
            if i < f.len() {
                assert(f.contains(f[i]));
                let k = choose|k: int| 0 <= k < d.len() && d[k] == f[i];
                assert(s[k] == y);
            } else {
                assert(s[s.len() - 1] == y);
            }
        }
    }
}

fn find_slot<V>(v: &Vec<Slot<V>>, id: ElementId) -> (r: usize)
    ensures
        r == slot_of(v@, id),
        r <= v@.len(),
        r < v@.len() ==> v@[r as int].id == id,
{
    let mut i: usize = 0;
    while i < v.len() && v[i].id != id
        invariant
            i <= v.len(),
            slot_of(v@, id) == slot_from(v@, id, i as int),
        decreases v.len() - i,
    {
        i += 1;
    }
    i
}

/// Puts a value into the slot of an element and gives back the one before.
fn put_slot<V>(v: &mut Vec<Slot<V>>, id: ElementId, value: V) -> (r: Option<V>)
    ensures
        final(v)@ == with_slot(old(v)@, id, value),
        r == slot_value(old(v)@, id),
        one_each(old(v)@) ==> one_each(final(v)@),
{
    let ghost before = v@;
    proof {
        lemma_with_slot(before, id, value);
    }
    let i: usize = find_slot(v, id);
    let slot: Slot<V> = Slot { id, value };
    if i < v.len() {
        let last: Slot<V> = v.remove(i);
        v.insert(i, slot);
        assert(v@ =~= before.update(i as int, slot));
        Some(last.value)
    } else {
        v.push(slot);
        None
    }
}

/// Empties the slot of an element and gives back its value.
fn take_slot<V>(v: &mut Vec<Slot<V>>, id: ElementId) -> (r: Option<V>)
    ensures
        final(v)@ == without_slot(old(v)@, id),
        r == slot_value(old(v)@, id),
        one_each(old(v)@) ==> one_each(final(v)@),
{
    proof {
        if one_each(v@) {
            lemma_without_slot(v@, id);
        }
    }
    let i: usize = find_slot(v, id);
    if i < v.len() {
        let last: Slot<V> = v.remove(i);
        Some(last.value)
    } else {
        None
    }
}

/// A texture and the fingerprint that it was drawn for.
pub struct Texture<T> {
    pub fingerprint: u64,
    pub image: T,
}

/// The value of a [`CanvasCache`].
pub ghost struct CanvasCacheV<T> {
    pub textures: Seq<Slot<Texture<T>>>,
    pub frames: Seq<Slot<T>>,
    pub stale: Seq<T>,
    pub wet: Seq<Slot<Seq<Option<u64>>>>,
}

/// The texture cache of the canvases on a board.
pub struct CanvasCache<T> {
    textures: Vec<Slot<Texture<T>>>,
    frames: Vec<Slot<T>>,
    stale: Vec<T>,
    wet: Vec<Slot<Vec<Option<u64>>>>,
}

/// The values of the commit lists.
pub open spec fn wet_views(s: Seq<Slot<Vec<Option<u64>>>>) -> Seq<Slot<Seq<Option<u64>>>> {
    Seq::new(s.len(), |i: int| Slot { id: s[i].id, value: s[i].value@ })
}

proof fn lemma_wet_views(s: Seq<Slot<Vec<Option<u64>>>>, id: ElementId)
    ensures
        slot_of(wet_views(s), id) == slot_of(s, id),
        slot_value(s, id) matches Some(v) ==> slot_value(wet_views(s), id) == Some(v@),
        slot_value(s, id) is None ==> slot_value(wet_views(s), id) is None,
        one_each(wet_views(s)) == one_each(s),
{
    let w = wet_views(s);
    lemma_slot_from(s, id, 0);
    assert forall|k: int| 0 <= k < s.len() implies (#[trigger] w[k]).id == s[k].id by {}
    lemma_slot_at(w, id, 0, slot_of(s, id));
    if one_each(w) {
        assert forall|i: int, j: int| 0 <= i < j < s.len() implies (#[trigger] s[i]).id != (
        #[trigger] s[j]).id by {
            assert(w[i].id != w[j].id);
        }
    }
}

impl<T> View for CanvasCache<T> {
    type V = CanvasCacheV<T>;

    closed spec fn view(&self) -> CanvasCacheV<T> {
        CanvasCacheV {
            textures: self.textures@,
            frames: self.frames@,
            stale: self.stale@,
            wet: wet_views(self.wet@),
        }
    }
}

/// The images of textures.
pub open spec fn images<T>(s: Seq<Slot<Texture<T>>>) -> Seq<T> {
    Seq::new(s.len(), |i: int| s[i].value.image)
}

/// The values of slots.
pub open spec fn values<V>(s: Seq<Slot<V>>) -> Seq<V> {
    Seq::new(s.len(), |i: int| s[i].value)
}

/// The commit list of an element; empty when there is none.
pub open spec fn commits(s: Seq<Slot<Seq<Option<u64>>>>, id: ElementId) -> Seq<Option<u64>> {
    match slot_value(s, id) {
        Some(list) => list,
        None => Seq::empty(),
    }
}

/// The stale textures and, behind them, a frame that was given up.
pub open spec fn staled<T>(stale: Seq<T>, gone: Option<T>) -> Seq<T> {
    match gone {
        Some(frame) => stale.push(frame),
        None => stale,
    }
}

/// When a stroke that is committed at `now` starts to dry: at once for
/// watercolour; the other brushes need no drying.
pub open spec fn drying_since(brush: CanvasBrush, now: u64) -> Option<u64> {
    if brush == CanvasBrush::Watercolor {
        Some(now)
    } else {
        None
    }
}

/// The entries of strokes that are committed together.
pub open spec fn drying(brushes: Seq<CanvasBrush>, now: u64) -> Seq<Option<u64>> {
    Seq::new(brushes.len(), |i: int| drying_since(brushes[i], now))
}

/// A commit list brought to the length of `n` strokes: strokes that it does
/// not reach, such as those read from a file, have dried; entries of strokes
/// that are gone are dropped.
pub open spec fn parallel(list: Seq<Option<u64>>, n: nat) -> Seq<Option<u64>> {
    Seq::new(
        n,
        |i: int|
            if i < list.len() {
                list[i]
            } else {
                None
            },
    )
}

/// The commit lists after a batch of strokes was committed to an element that
/// had `before` strokes.
pub open spec fn seeded(
    s: Seq<Slot<Seq<Option<u64>>>>,
    id: ElementId,
    before: nat,
    brushes: Seq<CanvasBrush>,
    now: u64,
) -> Seq<Slot<Seq<Option<u64>>>> {
    with_slot(s, id, parallel(commits(s, id), before) + drying(brushes, now))
}

/// Whether some stroke of a commit list is still wet at `now`: it was committed
/// less than the drying time ago.
pub open spec fn any_wet(list: Seq<Option<u64>>, now: u64) -> bool {
    exists|i: int| 0 <= i < list.len() && #[trigger] is_wet(list[i], now)
}

/// Whether a stroke is wet at `now`.
pub open spec fn is_wet(commit: Option<u64>, now: u64) -> bool {
    commit matches Some(t) && now - t < WET_MS
}

/// Decides whether any stroke of a commit list is still wet.
pub fn still_wet(commits: &Vec<Option<u64>>, now: u64) -> (r: bool)
    ensures
        r == any_wet(commits@, now),
{
    let mut i: usize = 0;
    while i < commits.len()
        invariant
            i <= commits.len(),
            forall|k: int| 0 <= k < i ==> !#[trigger] is_wet(commits@[k], now),
        decreases commits.len() - i,
    {
        if let Some(t) = commits[i] {
            if now < t || now - t < WET_MS {
                assert(is_wet(commits@[i as int], now));
                return true;
            }
        }
        i += 1;
    }
    false
}

/// Brings a commit list to the length of `n` strokes.
fn fit(list: &Vec<Option<u64>>, n: usize) -> (r: Vec<Option<u64>>)
    ensures
        r@ == parallel(list@, n as nat),
{
    let mut r: Vec<Option<u64>> = Vec::new();
    while r.len() < n
        invariant
            r@ == parallel(list@, r@.len()),
            r@.len() <= n,
        decreases n - r.len(),
    {
        let k: usize = r.len();
        let entry: Option<u64> = if k < list.len() {
            list[k]
        } else {
            None
        };
        r.push(entry);
        assert(r@ =~= parallel(list@, r@.len()));
    }
    r
}

/// Commit times run parallel to the strokes: a stroke that is committed to a
/// canvas of `before` strokes has the entry behind theirs, the strokes before it
/// keep theirs, and those that were never committed here do not animate.
pub proof fn law_commits_run_parallel(
    s: Seq<Slot<Seq<Option<u64>>>>,
    id: ElementId,
    before: nat,
    brush: CanvasBrush,
    now: u64,
)
    ensures
        ({
            let old_list = commits(s, id);
            let list = commits(seeded(s, id, before, seq![brush], now), id);
            &&& list.len() == before + 1
            &&& list[before as int] == drying_since(brush, now)
            &&& forall|i: int|
                0 <= i < before ==> #[trigger] list[i] == (if i < old_list.len() {
                    old_list[i]
                } else {
                    None
                })
        }),
{
    let list = parallel(commits(s, id), before) + drying(seq![brush], now);
    lemma_with_slot(s, id, list);
    assert(commits(seeded(s, id, before, seq![brush], now), id) == list);
}

impl<T> CanvasCacheV<T> {
    /// The commit times of the strokes that a canvas still has, when it has a
    /// commit list that is not empty.
    pub open spec fn wet_list(self, el: ElementV<u64>) -> Option<Seq<Option<u64>>> {
        let list = commits(self.wet, el.id);
        match el.kind {
            KindV::Canvas { strokes } => if list.len() == 0 {
                None
            } else if list.len() > strokes.len() {
                Some(list.take(strokes.len() as int))
            } else {
                Some(list)
            },
            _ => None,
        }
    }

    /// Nothing cached.
    pub open spec fn empty() -> Self {
        CanvasCacheV {
            textures: Seq::empty(),
            frames: Seq::empty(),
            stale: Seq::empty(),
            wet: Seq::empty(),
        }
    }

    /// A full cache gives up all its textures.
    pub open spec fn made_room(self) -> Self {
        if self.textures.len() >= MAX_TEXTURES {
            CanvasCacheV {
                textures: Seq::empty(),
                stale: self.stale + images(self.textures),
                ..self
            }
        } else {
            self
        }
    }

    /// The cache with a fresh texture of an element; the one it replaces
    /// becomes stale.
    pub open spec fn stored(self, id: ElementId, fingerprint: u64, image: T) -> Self {
        let c = self.made_room();
        CanvasCacheV {
            textures: with_slot(c.textures, id, Texture { fingerprint, image }),
            stale: match slot_value(c.textures, id) {
                Some(t) => c.stale.push(t.image),
                None => c.stale,
            },
            ..c
        }
    }

    /// The cache with a fresh animation frame of an element; the frame it
    /// replaces becomes stale.
    pub open spec fn framed(self, id: ElementId, frame: T) -> Self {
        CanvasCacheV {
            frames: with_slot(self.frames, id, frame),
            stale: staled(self.stale, slot_value(self.frames, id)),
            ..self
        }
    }

    /// The cache once an element has dried: its last frame is stale and its
    /// commit list is gone.
    pub open spec fn settled(self, id: ElementId) -> Self {
        CanvasCacheV {
            frames: without_slot(self.frames, id),
            stale: staled(self.stale, slot_value(self.frames, id)),
            wet: without_slot(self.wet, id),
            ..self
        }
    }

    /// The commit times that a canvas is animated by at `now`, and the cache
    /// after that was asked: while a stroke is wet nothing changes, and once all
    /// have dried the canvas is settled.
    pub open spec fn animation(self, el: ElementV<u64>, now: u64) -> (
        Option<Seq<Option<u64>>>,
        Self,
    ) {
        match self.wet_list(el) {
            Some(list) => if any_wet(list, now) {
                (Some(list), self)
            } else {
                (None, self.settled(el.id))
            },
            None => (None, self),
        }
    }

    /// Whether no element has two textures, two frames or two commit lists.
    pub open spec fn one_each(self) -> bool {
        one_each(self.textures) && one_each(self.frames) && one_each(self.wet)
    }

    /// The cache without anything for elements that are not `live`.
    pub open spec fn retained(self, live: spec_fn(ElementId) -> bool) -> Self {
        CanvasCacheV {
            textures: self.textures.filter(|x: Slot<Texture<T>>| live(x.id)),
            frames: self.frames.filter(|x: Slot<T>| live(x.id)),
            stale: self.stale + images(self.textures.filter(|x: Slot<Texture<T>>| !live(x.id)))
                + values(self.frames.filter(|x: Slot<T>| !live(x.id))),
            wet: self.wet.filter(|x: Slot<Seq<Option<u64>>>| live(x.id)),
        }
    }

    /// Every texture that the cache is answerable for.
    pub open spec fn held(self) -> Multiset<T> {
        images(self.textures).to_multiset().add(values(self.frames).to_multiset()).add(
            self.stale.to_multiset(),
        )
    }
}

/// The predicate of being in a scene.
pub open spec fn live_in<F>(s: Seq<crate::element::ElementV<F>>) -> spec_fn(ElementId) -> bool {
    |id: ElementId| has_id(s, id)
}

/// Splits slots into those of live elements and the others, both in order.
fn split_live<V, F: Copy>(v: Vec<Slot<V>>, scene: &Scene<F>) -> (r: (Vec<Slot<V>>, Vec<Slot<V>>))
    ensures
        r.0@ == v@.filter(|x: Slot<V>| has_id(scene@, x.id)),
        r.1@ == v@.filter(|x: Slot<V>| !has_id(scene@, x.id)),
{
    let ghost all = v@;
    let ghost p = |x: Slot<V>| has_id(scene@, x.id);
    let ghost q = |x: Slot<V>| !has_id(scene@, x.id);
    let mut rest: Vec<Slot<V>> = v;
    let mut kept: Vec<Slot<V>> = Vec::new();
    let mut gone: Vec<Slot<V>> = Vec::new();
    let ghost mut done: int = 0;
    proof {
        reveal(Seq::filter);
        assert(all.take(0) =~= Seq::<Slot<V>>::empty());
        assert(all.skip(0) =~= all);
    }
    while rest.len() > 0
        invariant
            0 <= done <= all.len(),
            p == (|x: Slot<V>| has_id(scene@, x.id)),
            q == (|x: Slot<V>| !has_id(scene@, x.id)),
            rest@ == all.skip(done),
            kept@ == all.take(done).filter(p),
            gone@ == all.take(done).filter(q),
        decreases rest.len(),
    {
        let x: Slot<V> = rest.remove(0);
        proof {
            reveal(Seq::filter);
            assert(x == all[done]);
            assert(all.take(done + 1).drop_last() =~= all.take(done));
            assert(all.skip(done).remove(0) =~= all.skip(done + 1));
            done = done + 1;
        }
        if scene.contains(x.id) {
            kept.push(x);
        } else {
            gone.push(x);
        }
    }
    assert(all.take(all.len() as int) =~= all);
    (kept, gone)
}

/// A copy of the first `k` entries of a commit list.
fn copy_commits(list: &Vec<Option<u64>>, k: usize) -> (r: Vec<Option<u64>>)
    requires
        k <= list@.len(),
    ensures
        r@ == list@.take(k as int),
{
    let mut out: Vec<Option<u64>> = Vec::new();
    let mut j: usize = 0;
    while j < k
        invariant
            j <= k <= list.len(),
            out@ == list@.take(j as int),
        decreases k - j,
    {
        out.push(list[j]);
        j += 1;
        assert(list@.take(j as int) =~= list@.take(j - 1).push(list@[j - 1]));
    }
    out
}

/// Moves all textures to the stale ones.
fn stale_textures<T>(textures: Vec<Slot<Texture<T>>>, stale: &mut Vec<T>)
    ensures
        final(stale)@ == old(stale)@ + images(textures@),
{
    let ghost before = stale@;
    let ghost all = textures@;
    let mut rest: Vec<Slot<Texture<T>>> = textures;
    let ghost mut done: int = 0;
    assert(all.skip(0) =~= all);
    assert(before + images(all.take(0)) =~= before);
    while rest.len() > 0
        invariant
            0 <= done <= all.len(),
            rest@ == all.skip(done),
            stale@ == before + images(all.take(done)),
        decreases rest.len(),
    {
        let x: Slot<Texture<T>> = rest.remove(0);
        stale.push(x.value.image);
        proof {
            assert(all.skip(done).remove(0) =~= all.skip(done + 1));
            assert(images(all.take(done + 1)) =~= images(all.take(done)).push(x.value.image));
            done = done + 1;
            assert(stale@ =~= before + images(all.take(done)));
        }
    }
    assert(all.take(all.len() as int) =~= all);
}

/// Moves all frames to the stale textures.
fn stale_frames<T>(frames: Vec<Slot<T>>, stale: &mut Vec<T>)
    ensures
        final(stale)@ == old(stale)@ + values(frames@),
{
    let ghost before = stale@;
    let ghost all = frames@;
    let mut rest: Vec<Slot<T>> = frames;
    let ghost mut done: int = 0;
    assert(all.skip(0) =~= all);
    assert(before + values(all.take(0)) =~= before);
    while rest.len() > 0
        invariant
            0 <= done <= all.len(),
            rest@ == all.skip(done),
            stale@ == before + values(all.take(done)),
        decreases rest.len(),
    {
        let x: Slot<T> = rest.remove(0);
        stale.push(x.value);
        proof {
            assert(all.skip(done).remove(0) =~= all.skip(done + 1));
            assert(values(all.take(done + 1)) =~= values(all.take(done)).push(x.value));
            done = done + 1;
            assert(stale@ =~= before + values(all.take(done)));
        }
    }
    assert(all.take(all.len() as int) =~= all);
}

impl<T> CanvasCache<T> {
    #[verifier::type_invariant]
    spec fn one_slot_each(self) -> bool {
        one_each(self.textures@) && one_each(self.frames@) && one_each(self.wet@)
    }

    /// Tells that no element has two textures, two frames or two commit lists.
    proof fn lemma_view_one_each(self)
        requires
            self.one_slot_each(),
        ensures
            self@.one_each(),
    {
        lemma_wet_views(self.wet@, ElementId { value: 0 });
    }

    /// An empty cache.
    pub fn new() -> (r: Self)
        ensures
            r@ == CanvasCacheV::<T>::empty(),
    {
        let r: CanvasCache<T> = CanvasCache {
            textures: Vec::new(),
            frames: Vec::new(),
            stale: Vec::new(),
            wet: Vec::new(),
        };
        assert(wet_views(r.wet@) =~= Seq::<Slot<Seq<Option<u64>>>>::empty());
        r
    }

    /// The texture of a canvas, when the stored one is still valid.
    pub fn image(&self, el: &Element<u64>) -> (r: Option<&T>)
        ensures
            ({
                let i = slot_of(self@.textures, el.id);
                let fp = crate::fingerprint::fnv1a(crate::fingerprint::element_bytes(el@));
                let hit = i < self@.textures.len() && self@.textures[i].value.fingerprint == fp;
                match r {
                    Some(t) => hit && *t == self@.textures[i].value.image,
                    None => !hit,
                }
            }),
    {
        let fp: u64 = fingerprint(el);
        let i: usize = find_slot(&self.textures, el.id);
        if i < self.textures.len() && self.textures[i].value.fingerprint == fp {
            return Some(&self.textures[i].value.image);
        }
        None
    }

    /// Takes the whole cache out, leaving an empty one.
    fn taken(&mut self) -> (r: CanvasCache<T>)
        ensures
            r == *old(self),
            final(self)@ == CanvasCacheV::<T>::empty(),
            one_each(r.textures@),
            one_each(r.frames@),
            one_each(r.wet@),
    {
        let mut r: CanvasCache<T> = CanvasCache::new();
        std::mem::swap(&mut r, self);
        proof {
            use_type_invariant(&r);
        }
        r
    }

    /// Stores a freshly drawn texture of a canvas.
    pub fn store(&mut self, el: &Element<u64>, image: T)
        ensures
            final(self)@ == old(self)@.stored(
                el.id,
                crate::fingerprint::fnv1a(crate::fingerprint::element_bytes(el@)),
                image,
            ),
            final(self)@.one_each(),
    {
        let fp: u64 = fingerprint(el);
        self.put(el.id, fp, image);
    }

    fn put(&mut self, id: ElementId, fp: u64, image: T)
        ensures
            final(self)@ == old(self)@.stored(id, fp, image),
            final(self)@.one_each(),
    {
        let CanvasCache { mut textures, frames, mut stale, wet } = self.taken();
        if textures.len() >= MAX_TEXTURES {
            stale_textures(textures, &mut stale);
            textures = Vec::new();
        }
        let last: Option<Texture<T>> = put_slot(
            &mut textures,
            id,
            Texture { fingerprint: fp, image },
        );
        if let Some(t) = last {
            stale.push(t.image);
        }
        *self = CanvasCache { textures, frames, stale, wet };
        proof {
            self.lemma_view_one_each();
        }
    }

    /// Enters a just committed stroke into the commit list of its canvas, which
    /// had `before` strokes; the list runs parallel to the strokes.
    pub fn stroke_committed(&mut self, id: ElementId, before: usize, brush: CanvasBrush, now: u64)
        ensures
            final(self)@ == (CanvasCacheV {
                wet: with_slot(
                    old(self)@.wet,
                    id,
                    parallel(commits(old(self)@.wet, id), before as nat).push(
                        drying_since(brush, now),
                    ),
                ),
                ..old(self)@
            }),
            final(self)@.one_each(),
    {
        self.seed_wet(id, before, &[brush], now);
        proof {
            let one: Seq<CanvasBrush> = seq![brush];
            let list = parallel(commits(old(self)@.wet, id), before as nat);
            assert(list + drying(one, now) =~= list.push(drying_since(brush, now)));
            assert([brush]@ =~= one);
        }
    }

    /// Enters a batch of strokes that were committed together to a canvas that
    /// had `before` strokes.
    pub fn seed_wet(&mut self, id: ElementId, before: usize, brushes: &[CanvasBrush], now: u64)
        ensures
            final(self)@ == (CanvasCacheV {
                wet: seeded(old(self)@.wet, id, before as nat, brushes@, now),
                ..old(self)@
            }),
            final(self)@.one_each(),
    {
        let ghost start = self@;
        let ghost old_wet = self.wet@;
        let CanvasCache { textures, frames, stale, mut wet } = self.taken();
        proof {
            lemma_wet_views(old_wet, id);
        }
        let i: usize = find_slot(&wet, id);
        let mut all: Vec<Option<u64>> = if i < wet.len() {
            fit(&wet[i].value, before)
        } else {
            fit(&Vec::new(), before)
        };
        assert(all@ =~= parallel(commits(start.wet, id), before as nat));
        let ghost head = all@;
        let mut k: usize = 0;
        assert(head + drying(brushes@.take(0), now) =~= head);
        while k < brushes.len()
            invariant
                k <= brushes.len(),
                all@ == head + drying(brushes@.take(k as int), now),
            decreases brushes.len() - k,
        {
            all.push(
                match brushes[k] {
                    CanvasBrush::Watercolor => Some(now),
                    _ => None,
                },
            );
            k += 1;
            assert(all@ =~= head + drying(brushes@.take(k as int), now));
        }
        assert(brushes@.take(brushes@.len() as int) =~= brushes@);
        let ghost list = all@;
        let _before: Option<Vec<Option<u64>>> = put_slot(&mut wet, id, all);
        *self = CanvasCache { textures, frames, stale, wet };
        proof {
            self.lemma_view_one_each();
            assert(wet_views(self.wet@) =~= with_slot(wet_views(old_wet), id, list));
        }
    }

    /// The commit times of the strokes that a canvas still has, when it has a
    /// commit list that is not empty; strokes beyond the list are settled.
    pub fn wet_strokes(&self, el: &Element<u64>) -> (r: Option<Vec<Option<u64>>>)
        ensures
            match (r, self@.wet_list(el@)) {
                (Some(v), Some(list)) => v@ == list,
                (None, None) => true,
                _ => false,
            },
    {
        let n: usize = match &el.kind {
            ElementKind::Canvas { strokes } => strokes.len(),
            _ => {
                return None;
            },
        };
        proof {
            lemma_wet_views(self.wet@, el.id);
        }
        let i: usize = find_slot(&self.wet, el.id);
        if i >= self.wet.len() {
            return None;
        }
        let list: &Vec<Option<u64>> = &self.wet[i].value;
        assert(list@ == commits(self@.wet, el.id));
        if list.len() == 0 {
            return None;
        }
        let k: usize = if list.len() > n {
            n
        } else {
            list.len()
        };
        assert(list@.take(list@.len() as int) =~= list@);
        Some(copy_commits(list, k))
    }

    /// Decides whether a canvas is animated at `now`: its commit times when a
    /// stroke is still wet. When all have dried, the animation ends.
    pub fn image_animated(&mut self, el: &Element<u64>, now: u64) -> (r: Option<Vec<Option<u64>>>)
        ensures
            match (r, old(self)@.animation(el@, now).0) {
                (Some(v), Some(list)) => v@ == list,
                (None, None) => true,
                _ => false,
            },
            final(self)@ == old(self)@.animation(el@, now).1,
            final(self)@.one_each(),
    {
        proof {
            use_type_invariant(&*self);
            self.lemma_view_one_each();
        }
        match self.wet_strokes(el) {
            Some(list) => if still_wet(&list, now) {
                Some(list)
            } else {
                self.settle(el.id);
                None
            },
            None => None,
        }
    }

    /// Ends the animation of a dried canvas.
    pub fn settle(&mut self, id: ElementId)
        ensures
            final(self)@ == old(self)@.settled(id),
            final(self)@.one_each(),
    {
        let ghost old_wet = self.wet@;
        proof {
            lemma_wet_views(old_wet, id);
            lemma_slot_from(old_wet, id, 0);
        }
        let CanvasCache { textures, mut frames, mut stale, mut wet } = self.taken();
        let last: Option<T> = take_slot(&mut frames, id);
        if let Some(frame) = last {
            stale.push(frame);
        }
        let _list: Option<Vec<Option<u64>>> = take_slot(&mut wet, id);
        *self = CanvasCache { textures, frames, stale, wet };
        proof {
            self.lemma_view_one_each();
            assert(wet_views(self.wet@) =~= without_slot(wet_views(old_wet), id));
        }
    }

    /// Keeps the latest animation frame of a canvas.
    pub fn push_frame(&mut self, id: ElementId, frame: T)
        ensures
            final(self)@ == old(self)@.framed(id, frame),
            final(self)@.one_each(),
    {
        let CanvasCache { textures, mut frames, mut stale, wet } = self.taken();
        let last: Option<T> = put_slot(&mut frames, id, frame);
        if let Some(gone) = last {
            stale.push(gone);
        }
        *self = CanvasCache { textures, frames, stale, wet };
        proof {
            self.lemma_view_one_each();
        }
    }

    /// Gives up everything that belongs to elements outside the scene.
    pub fn retain_scene<F: Copy>(&mut self, scene: &Scene<F>)
        ensures
            final(self)@ == old(self)@.retained(live_in(scene@)),
            final(self)@.one_each(),
    {
        let ghost live = live_in(scene@);
        let CanvasCache { textures, frames, mut stale, wet } = self.taken();
        let ghost (textures0, frames0, wet0) = (textures@, frames@, wet@);
        let t: (Vec<Slot<Texture<T>>>, Vec<Slot<Texture<T>>>) = split_live(textures, scene);
        let f: (Vec<Slot<T>>, Vec<Slot<T>>) = split_live(frames, scene);
        let w: (Vec<Slot<Vec<Option<u64>>>>, Vec<Slot<Vec<Option<u64>>>>) = split_live(wet, scene);
        stale_textures(t.1, &mut stale);
        stale_frames(f.1, &mut stale);
        proof {
            lemma_filter_one_each(textures0, |x: Slot<Texture<T>>| has_id(scene@, x.id));
            lemma_filter_one_each(frames0, |x: Slot<T>| has_id(scene@, x.id));
            lemma_filter_one_each(wet0, |x: Slot<Vec<Option<u64>>>| has_id(scene@, x.id));
        }
        *self = CanvasCache { textures: t.0, frames: f.0, stale, wet: w.0 };
        proof {
            self.lemma_view_one_each();
            lemma_wet_filter(wet0, live);
            assert((|x: Slot<Texture<T>>| live(x.id)) =~= (|x: Slot<Texture<T>>|
                has_id(scene@, x.id)));
            assert((|x: Slot<Texture<T>>| !live(x.id)) =~= (|x: Slot<Texture<T>>|
                !has_id(scene@, x.id)));
            assert((|x: Slot<T>| live(x.id)) =~= (|x: Slot<T>| has_id(scene@, x.id)));
            assert((|x: Slot<T>| !live(x.id)) =~= (|x: Slot<T>| !has_id(scene@, x.id)));
            assert((|x: Slot<Vec<Option<u64>>>| live(x.id)) =~= (|x: Slot<Vec<Option<u64>>>|
                has_id(scene@, x.id)));
        }
    }

    /// Hands out the stale textures.
    pub fn take_stale(&mut self) -> (r: Vec<T>)
        ensures
            r@ == old(self)@.stale,
            final(self)@ == (CanvasCacheV { stale: Seq::empty(), ..old(self)@ }),
            final(self)@.one_each(),
    {
        let CanvasCache { textures, frames, stale, wet } = self.taken();
        *self = CanvasCache { textures, frames, stale: Vec::new(), wet };
        proof {
            self.lemma_view_one_each();
        }
        stale
    }
}

proof fn lemma_wet_filter(s: Seq<Slot<Vec<Option<u64>>>>, live: spec_fn(ElementId) -> bool)
    ensures
        wet_views(s.filter(|x: Slot<Vec<Option<u64>>>| live(x.id))) == wet_views(s).filter(
            |x: Slot<Seq<Option<u64>>>| live(x.id),
        ),
    decreases s.len(),
{
    reveal(Seq::filter);
    let p = |x: Slot<Vec<Option<u64>>>| live(x.id);
    let q = |x: Slot<Seq<Option<u64>>>| live(x.id);
    if s.len() == 0 {
        assert(wet_views(s.filter(p)) =~= wet_views(s).filter(q));
    } else {
        lemma_wet_filter(s.drop_last(), live);
        assert(wet_views(s).drop_last() =~= wet_views(s.drop_last()));
        let last = Slot { id: s.last().id, value: s.last().value@ };
        assert(wet_views(s).last() == last);
        let d = s.drop_last().filter(p);
        assert(wet_views(d.push(s.last())) =~= wet_views(d).push(last));
    }
}

} // verus!
