//! Undo and redo by snapshots of the scene.

use vstd::prelude::*;
use crate::element::{Element, ElementV};
use crate::scene::{copy_elements, views, Scene};

verus! {

/// The most snapshots that are kept for undoing.
pub const HISTORY_LIMIT: usize = 100;

/// Snapshots to go back to and to come forward to, most recent last.
#[derive(Debug)]
pub struct History<F> {
    undo_stack: Vec<Vec<Element<F>>>,
    redo_stack: Vec<Vec<Element<F>>>,
}

/// The value of a [`History`].
#[verifier::ext_equal]
pub ghost struct HistoryV<F> {
    pub undo: Seq<Seq<ElementV<F>>>,
    pub redo: Seq<Seq<ElementV<F>>>,
}

/// The values of a stack of snapshots.
pub open spec fn stack_views<F>(s: Seq<Vec<Element<F>>>) -> Seq<Seq<ElementV<F>>> {
    Seq::new(s.len(), |i: int| views(s[i]@))
}

impl<F> View for History<F> {
    type V = HistoryV<F>;

    closed spec fn view(&self) -> HistoryV<F> {
        HistoryV { undo: stack_views(self.undo_stack@), redo: stack_views(self.redo_stack@) }
    }
}

impl<F> HistoryV<F> {
    /// Nothing to undo, nothing to redo.
    pub open spec fn empty() -> Self {
        HistoryV { undo: Seq::empty(), redo: Seq::empty() }
    }

    /// The scene recorded as the latest snapshot; the oldest one goes when
    /// there are too many, and nothing is left to redo.
    pub open spec fn recorded(self, scene: Seq<ElementV<F>>) -> Self {
        let undo = self.undo.push(scene);
        HistoryV {
            undo: if undo.len() > HISTORY_LIMIT {
                undo.skip(1)
            } else {
                undo
            },
            redo: Seq::empty(),
        }
    }

    /// The history after undoing from `scene`.
    pub open spec fn undone(self, scene: Seq<ElementV<F>>) -> Self {
        if self.undo.len() > 0 {
            HistoryV { undo: self.undo.drop_last(), redo: self.redo.push(scene) }
        } else {
            self
        }
    }

    /// The scene after undoing from `scene`.
    pub open spec fn undone_scene(self, scene: Seq<ElementV<F>>) -> Seq<ElementV<F>> {
        if self.undo.len() > 0 {
            self.undo.last()
        } else {
            scene
        }
    }

    /// The history after redoing from `scene`.
    pub open spec fn redone(self, scene: Seq<ElementV<F>>) -> Self {
        if self.redo.len() > 0 {
            HistoryV { undo: self.undo.push(scene), redo: self.redo.drop_last() }
        } else {
            self
        }
    }

    /// The scene after redoing from `scene`.
    pub open spec fn redone_scene(self, scene: Seq<ElementV<F>>) -> Seq<ElementV<F>> {
        if self.redo.len() > 0 {
            self.redo.last()
        } else {
            scene
        }
    }

    /// The history after the scenes were recorded one after the other.
    pub open spec fn recorded_all(self, scenes: Seq<Seq<ElementV<F>>>) -> Self
        decreases scenes.len(),
    {
        if scenes.len() == 0 {
            self
        } else {
            self.recorded_all(scenes.drop_last()).recorded(scenes.last())
        }
    }

    /// The history and the scene after undoing `k` times from `scene`.
    pub open spec fn undone_times(self, scene: Seq<ElementV<F>>, k: nat) -> (
        Self,
        Seq<ElementV<F>>,
    )
        decreases k,
    {
        if k == 0 {
            (self, scene)
        } else {
            let (h, s) = self.undone_times(scene, (k - 1) as nat);
            (h.undone(s), h.undone_scene(s))
        }
    }

    /// The snapshots on both sides stay within the limit together.
    pub open spec fn bounded(self) -> bool {
        self.undo.len() + self.redo.len() <= HISTORY_LIMIT
    }
}

impl<F: Copy> History<F> {
    /// An empty history.
    pub fn new() -> (r: Self)
        ensures
            r@ == HistoryV::<F>::empty(),
    {
        let r: History<F> = History { undo_stack: Vec::new(), redo_stack: Vec::new() };
        assert(r@ =~= HistoryV::<F>::empty());
        r
    }

    /// Records the scene before it is changed.
    pub fn record(&mut self, scene: &Scene<F>)
        ensures
            final(self)@ == old(self)@.recorded(scene@),
    {
        let ghost before = self@;
        self.undo_stack.push(copy_elements(&scene.elements));
        assert(stack_views(self.undo_stack@) =~= before.undo.push(scene@));
        if self.undo_stack.len() > HISTORY_LIMIT {
            let _oldest: Vec<Element<F>> = self.undo_stack.remove(0);
            assert(stack_views(self.undo_stack@) =~= before.undo.push(scene@).skip(1));
        }
        self.redo_stack = Vec::new();
        assert(self@ =~= before.recorded(scene@));
    }

    /// Whether there is a snapshot to go back to.
    pub fn can_undo(&self) -> (r: bool)
        ensures
            r == (self@.undo.len() > 0),
    {
        self.undo_stack.len() > 0
    }

    /// Whether there is a snapshot to come forward to.
    pub fn can_redo(&self) -> (r: bool)
        ensures
            r == (self@.redo.len() > 0),
    {
        self.redo_stack.len() > 0
    }

    /// Goes back one snapshot, if there is one.
    pub fn undo(&mut self, scene: &mut Scene<F>) -> (r: bool)
        ensures
            r == (old(self)@.undo.len() > 0),
            final(self)@ == old(self)@.undone(old(scene)@),
            final(scene)@ == old(self)@.undone_scene(old(scene)@),
    {
        let ghost h = self@;
        let ghost s = scene@;
        match self.undo_stack.pop() {
            Some(previous) => {
                let mut swapped: Vec<Element<F>> = previous;
                assert(views(swapped@) == h.undo.last());
                std::mem::swap(&mut swapped, &mut scene.elements);
                self.redo_stack.push(swapped);
                assert(self@ =~= h.undone(s));
                true
            },
            None => false,
        }
    }

    /// Comes forward one snapshot, if there is one.
    pub fn redo(&mut self, scene: &mut Scene<F>) -> (r: bool)
        ensures
            r == (old(self)@.redo.len() > 0),
            final(self)@ == old(self)@.redone(old(scene)@),
            final(scene)@ == old(self)@.redone_scene(old(scene)@),
    {
        let ghost h = self@;
        let ghost s = scene@;
        match self.redo_stack.pop() {
            Some(next) => {
                let mut swapped: Vec<Element<F>> = next;
                assert(views(swapped@) == h.redo.last());
                std::mem::swap(&mut swapped, &mut scene.elements);
                self.undo_stack.push(swapped);
                assert(self@ =~= h.redone(s));
                true
            },
            None => false,
        }
    }
}

/// Undoing after a recorded change gives the recorded scene back, whatever
/// the change was; redoing then gives the changed scene back and leaves the
/// history as it was.
pub proof fn law_undo_redo_roundtrip<F>(
    h: HistoryV<F>,
    before: Seq<ElementV<F>>,
    after: Seq<ElementV<F>>,
)
    ensures
        ({
            let r = h.recorded(before);
            let u = r.undone(after);
            &&& r.undo.len() > 0
            &&& r.undone_scene(after) == before
            &&& u.redo.len() > 0
            &&& u.redone_scene(before) == after
            &&& u.redone(before) == r
        }),
{
    let r = h.recorded(before);
    let u = r.undone(after);
    assert(r.undo.last() == before);
    assert(u.redone(before).undo =~= r.undo);
    assert(u.redone(before).redo =~= r.redo);
}

/// Redoing right after undoing, and undoing right after redoing, give scene
/// and history back.
pub proof fn law_undo_and_redo_are_inverse<F>(h: HistoryV<F>, s: Seq<ElementV<F>>)
    ensures
        h.undo.len() > 0 ==> h.undone(s).redone_scene(h.undone_scene(s)) == s && h.undone(s).redone(
            h.undone_scene(s),
        ) == h,
        h.redo.len() > 0 ==> h.redone(s).undone_scene(h.redone_scene(s)) == s && h.redone(s).undone(
            h.redone_scene(s),
        ) == h,
{
    if h.undo.len() > 0 {
        let b = h.undone(s).redone(h.undone_scene(s));
        assert(b.undo =~= h.undo);
        assert(b.redo =~= h.redo);
    }
    if h.redo.len() > 0 {
        let b = h.redone(s).undone(h.redone_scene(s));
        assert(b.undo =~= h.undo);
        assert(b.redo =~= h.redo);
    }
}

/// A new recorded change leaves nothing to redo.
pub proof fn law_recording_clears_redo<F>(h: HistoryV<F>, s: Seq<ElementV<F>>)
    ensures
        h.recorded(s).redo.len() == 0,
{
}

/// The history never holds more snapshots than its limit.
pub proof fn law_history_is_bounded<F>(h: HistoryV<F>, s: Seq<ElementV<F>>)
    requires
        h.bounded(),
    ensures
        HistoryV::<F>::empty().bounded(),
        h.recorded(s).bounded(),
        h.undone(s).bounded(),
        h.redone(s).bounded(),
{
}

/// The number of snapshots that are left of `n` records.
pub open spec fn kept(n: nat) -> nat {
    if n > HISTORY_LIMIT {
        HISTORY_LIMIT as nat
    } else {
        n
    }
}

/// After `n` records exactly as many undos succeed as snapshots are kept, and
/// they give the recorded scenes back, newest first: the oldest snapshots are
/// the ones that were dropped. One undo more changes nothing.
pub proof fn law_undos_give_the_newest_records_back<F>(
    scenes: Seq<Seq<ElementV<F>>>,
    scene: Seq<ElementV<F>>,
)
    ensures
        ({
            let n = scenes.len();
            let h = HistoryV::<F>::empty().recorded_all(scenes);
            &&& forall|k: nat|
                k < kept(n) ==> (#[trigger] h.undone_times(scene, k)).0.undo.len() > 0
            &&& forall|k: nat|
                0 < k <= kept(n) ==> (#[trigger] h.undone_times(scene, k)).1 == scenes[n - k]
            &&& h.undone_times(scene, kept(n)).0.undo.len() == 0
            &&& h.undone_times(scene, kept(n) + 1) == h.undone_times(scene, kept(n))
        }),
{
    let n = scenes.len();
    let h = HistoryV::<F>::empty().recorded_all(scenes);
    lemma_recorded_all(scenes);
    assert forall|k: nat| k <= kept(n) implies (#[trigger] h.undone_times(scene, k)).0.undo.len()
        == kept(n) - k && (k > 0 ==> h.undone_times(scene, k).1 == scenes[n - k]) by {
        lemma_undone_times(h, scene, k);
    }
}

proof fn lemma_recorded_all<F>(scenes: Seq<Seq<ElementV<F>>>)
    ensures
        HistoryV::<F>::empty().recorded_all(scenes).undo == scenes.skip(
            scenes.len() - kept(scenes.len()),
        ),
    decreases scenes.len(),
{
    let all = HistoryV::<F>::empty().recorded_all(scenes).undo;
    let left = scenes.skip(scenes.len() - kept(scenes.len()));
    if scenes.len() > 0 {
        lemma_recorded_all(scenes.drop_last());
    }
    assert(all =~= left);
}

proof fn lemma_undone_times<F>(h: HistoryV<F>, scene: Seq<ElementV<F>>, k: nat)
    requires
        k <= h.undo.len(),
    ensures
        h.undone_times(scene, k).0.undo == h.undo.take(h.undo.len() - k),
        k > 0 ==> h.undone_times(scene, k).1 == h.undo[h.undo.len() - k],
    decreases k,
{
    if k > 0 {
        lemma_undone_times(h, scene, (k - 1) as nat);
        assert(h.undo.take(h.undo.len() - (k - 1)).drop_last() =~= h.undo.take(
            h.undo.len() - k,
        ));
    } else {
        assert(h.undo.take(h.undo.len() as int) =~= h.undo);
    }
}

} // verus!
