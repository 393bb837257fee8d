//! Render caches: geometry per element, shaped text per fingerprint, and the
//! textures of pixel canvases.

use vstd::prelude::*;
use std::collections::HashMap;
use crate::element::Element;
use crate::fingerprint::fingerprint;

verus! {

/// The most entries of a geometry or text cache.
pub const MAX_ENTRIES: usize = 8192;

/// The contents of a cache after `v` was stored under `k`: a full cache is
/// emptied first.
pub open spec fn stored<K, V>(m: Map<K, V>, k: K, v: V) -> Map<K, V> {
    (if m.len() >= MAX_ENTRIES {
        Map::empty()
    } else {
        m
    }).insert(k, v)
}

/// Whether the geometry of an element is in the cache: it was stored for the
/// same identity under the same fingerprint.
pub open spec fn geometry_hit<T>(m: Map<u128, (u64, T)>, el: Element<u64>) -> bool {
    m.dom().contains(el.id.value) && m[el.id.value].0 == crate::fingerprint::fnv1a(
        crate::fingerprint::element_bytes(el@),
    )
}

/// World geometry per element, valid while the element's fingerprint stays
/// the same.
pub struct RenderCache<T> {
    entries: HashMap<u128, (u64, T)>,
}

impl<T> View for RenderCache<T> {
    type V = Map<u128, (u64, T)>;

    closed spec fn view(&self) -> Map<u128, (u64, T)> {
        self.entries@
    }
}

impl<T> RenderCache<T> {
    /// An empty cache.
    pub fn new() -> (r: Self)
        ensures
            r@ == Map::<u128, (u64, T)>::empty(),
    {
        RenderCache { entries: HashMap::new() }
    }

    /// The geometry of `el`, when what is stored for it is still valid.
    pub fn geometry(&self, el: &Element<u64>) -> (r: Option<&T>)
        ensures
            match r {
                Some(g) => geometry_hit(self@, *el) && *g == self@[el.id.value].1,
                None => !geometry_hit(self@, *el),
            },
    {
        broadcast use vstd::std_specs::hash::group_hash_axioms;

        let fp: u64 = fingerprint(el);
        match self.entries.get(&el.id.value) {
            Some(e) => {
                if e.0 == fp {
                    Some(&e.1)
                } else {
                    None
                }
            },
            None => None,
        }
    }

    /// Stores freshly computed geometry of `el`.
    pub fn store(&mut self, el: &Element<u64>, geom: T)
        ensures
            final(self)@ == stored(
                old(self)@,
                el.id.value,
                (
                    crate::fingerprint::fnv1a(crate::fingerprint::element_bytes(el@)),
                    geom,
                ),
            ),
    {
        broadcast use vstd::std_specs::hash::group_hash_axioms;

        let fp: u64 = fingerprint(el);
        if self.entries.len() >= MAX_ENTRIES {
            self.entries.clear();
        }
        self.entries.insert(el.id.value, (fp, geom));
    }
}

/// Shaped text per shaping fingerprint.
pub struct TextCache<T> {
    entries: HashMap<u64, T>,
}

impl<T> View for TextCache<T> {
    type V = Map<u64, T>;

    closed spec fn view(&self) -> Map<u64, T> {
        self.entries@
    }
}

impl<T> TextCache<T> {
    /// An empty cache.
    pub fn new() -> (r: Self)
        ensures
            r@ == Map::<u64, T>::empty(),
    {
        TextCache { entries: HashMap::new() }
    }

    /// The shaped text that is stored under a fingerprint.
    pub fn shaped(&self, fp: u64) -> (r: Option<&T>)
        ensures
            match r {
                Some(t) => self@.dom().contains(fp) && *t == self@[fp],
                None => !self@.dom().contains(fp),
            },
    {
        broadcast use vstd::std_specs::hash::group_hash_axioms;

        self.entries.get(&fp)
    }

    /// Stores freshly shaped text.
    pub fn store(&mut self, fp: u64, shaped: T)
        ensures
            final(self)@ == stored(old(self)@, fp, shaped),
    {
        broadcast use vstd::std_specs::hash::group_hash_axioms;

        if self.entries.len() >= MAX_ENTRIES {
            self.entries.clear();
        }
        self.entries.insert(fp, shaped);
    }
}

/// What was stored is found again under the same key and nothing else is
/// disturbed, short of the emptying of a full cache; a cache never outgrows
/// its limit.
pub proof fn law_store_then_find<K, V>(m: Map<K, V>, k: K, v: V)
    requires
        m.dom().finite(),
        m.len() <= MAX_ENTRIES,
    ensures
        stored(m, k, v).dom().contains(k),
        stored(m, k, v)[k] == v,
        stored(m, k, v).dom().finite(),
        stored(m, k, v).len() <= MAX_ENTRIES,
        forall|j: K|
            m.len() < MAX_ENTRIES && j != k && m.dom().contains(j) ==> #[trigger] stored(
                m,
                k,
                v,
            ).dom().contains(j) && stored(m, k, v)[j] == m[j],
{
}

/// Geometry that was stored for an element is a hit for exactly the elements
/// of the same identity whose fingerprint is the same.
pub proof fn law_geometry_hits_until_fingerprint_changes<T>(
    m: Map<u128, (u64, T)>,
    el: Element<u64>,
    other: Element<u64>,
    geom: T,
)
    requires
        other.id == el.id,
    ensures
        ({
            let fp = |e: Element<u64>|
                crate::fingerprint::fnv1a(crate::fingerprint::element_bytes(e@));
            let after = stored(m, el.id.value, (fp(el), geom));
            &&& geometry_hit(after, el)
            &&& geometry_hit(after, other) <==> fp(other) == fp(el)
        }),
{
}

} // verus!
