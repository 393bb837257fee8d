//! What the canvas textures and their drying promise across calls.

use vstd::prelude::*;
use vstd::multiset::Multiset;
use crate::canvas_cache::{
    any_wet, images, is_wet, lemma_filter_one_each, lemma_slot_from, lemma_with_slot,
    lemma_without_slot, one_each, slot_of, slot_value, staled, values, with_slot, CanvasCacheV, Slot, Texture,
    MAX_TEXTURES,
};
use crate::element::ElementV;
use crate::ids::ElementId;

verus! {

/// Nothing that the cache does gives an element a second texture, a second frame
/// or a second commit list.
pub proof fn law_slots_stay_single<T>(
    c: CanvasCacheV<T>,
    id: ElementId,
    fingerprint: u64,
    image: T,
    list: Seq<Option<u64>>,
    live: spec_fn(ElementId) -> bool,
)
    requires
        c.one_each(),
    ensures
        c.stored(id, fingerprint, image).one_each(),
        c.framed(id, image).one_each(),
        c.settled(id).one_each(),
        c.retained(live).one_each(),
        one_each(with_slot(c.wet, id, list)),
{
    lemma_with_slot(c.made_room().textures, id, Texture { fingerprint, image });
    lemma_with_slot(c.frames, id, image);
    lemma_with_slot(c.wet, id, list);
    lemma_without_slot(c.frames, id);
    lemma_without_slot(c.wet, id);
    lemma_filter_one_each(c.textures, |x: Slot<Texture<T>>| live(x.id));
    lemma_filter_one_each(c.frames, |x: Slot<T>| live(x.id));
    lemma_filter_one_each(c.wet, |x: Slot<Seq<Option<u64>>>| live(x.id));
}

/// While a canvas dries it has exactly one frame: each new one makes its
/// predecessor stale, and no other texture. Asking for the commit times changes
/// nothing.
pub proof fn law_one_frame_while_drying<T>(
    c: CanvasCacheV<T>,
    el: ElementV<u64>,
    now: u64,
    frame: T,
)
    requires
        c.one_each(),
        c.wet_list(el) matches Some(list) && any_wet(list, now),
    ensures
        c.animation(el, now) == (c.wet_list(el), c),
        ({
            let d = c.framed(el.id, frame);
            &&& d.one_each()
            &&& slot_value(d.frames, el.id) == Some(frame)
            &&& d.stale == staled(c.stale, slot_value(c.frames, el.id))
            &&& d.textures == c.textures
            &&& d.wet == c.wet
        }),
{
    lemma_with_slot(c.frames, el.id, frame);
}

/// A dried canvas gives up its last frame once: the call that finds it dry makes
/// that frame stale, and every later one, whatever strokes the canvas has by
/// then, gives nothing and changes nothing.
pub proof fn law_a_dried_canvas_stays_dry<T>(
    c: CanvasCacheV<T>,
    el: ElementV<u64>,
    now: u64,
    next: ElementV<u64>,
    later: u64,
)
    requires
        c.one_each(),
        c.wet_list(el) matches Some(list) && !any_wet(list, now),
        next.id == el.id,
    ensures
        ({
            let d = c.animation(el, now).1;
            &&& c.animation(el, now).0 is None
            &&& d.stale == staled(c.stale, slot_value(c.frames, el.id))
            &&& slot_of(d.frames, el.id) == d.frames.len()
            &&& slot_of(d.wet, el.id) == d.wet.len()
            &&& d.textures == c.textures
            &&& d.animation(next, later) == (None::<Seq<Option<u64>>>, d)
            &&& d.settled(el.id) == d
        }),
{
    lemma_without_slot(c.frames, el.id);
    lemma_without_slot(c.wet, el.id);
}

/// What has dried stays dry.
pub proof fn law_drying_ends(list: Seq<Option<u64>>, now: u64, later: u64)
    requires
        !any_wet(list, now),
        now <= later,
    ensures
        !any_wet(list, later),
{
    if any_wet(list, later) {
        let i = choose|i: int| 0 <= i < list.len() && #[trigger] is_wet(list[i], later);
        assert(is_wet(list[i], now));
    }
}

proof fn lemma_push_multiset<A>(s: Seq<A>, a: A)
    ensures
        s.push(a).to_multiset() == s.to_multiset().insert(a),
{
    broadcast use vstd::seq_lib::group_to_multiset_ensures;

}

proof fn lemma_add_multiset<A>(s: Seq<A>, t: Seq<A>)
    ensures
        (s + t).to_multiset() == s.to_multiset().add(t.to_multiset()),
{
    vstd::seq_lib::lemma_multiset_commutative(s, t);
}

proof fn lemma_update_multiset<A>(s: Seq<A>, i: int, a: A)
    requires
        0 <= i < s.len(),
    ensures
        s.update(i, a).to_multiset().insert(s[i]) == s.to_multiset().insert(a),
{
    broadcast use vstd::seq_lib::group_to_multiset_ensures;

    let u = s.update(i, a);
    assert(u =~= s.take(i).push(a) + s.skip(i + 1));
    assert(s =~= s.take(i).push(s[i]) + s.skip(i + 1));
    lemma_add_multiset(s.take(i).push(a), s.skip(i + 1));
    lemma_add_multiset(s.take(i).push(s[i]), s.skip(i + 1));
    lemma_push_multiset(s.take(i), a);
    lemma_push_multiset(s.take(i), s[i]);
    assert(u.to_multiset().insert(s[i]) =~= s.to_multiset().insert(a));
}

proof fn lemma_remove_multiset<A>(s: Seq<A>, i: int)
    requires
        0 <= i < s.len(),
    ensures
        s.remove(i).to_multiset().insert(s[i]) == s.to_multiset(),
{
    let u = s.remove(i);
    assert(u =~= s.take(i) + s.skip(i + 1));
    assert(s =~= s.take(i).push(s[i]) + s.skip(i + 1));
    lemma_add_multiset(s.take(i), s.skip(i + 1));
    lemma_add_multiset(s.take(i).push(s[i]), s.skip(i + 1));
    lemma_push_multiset(s.take(i), s[i]);
    assert(u.to_multiset().insert(s[i]) =~= s.to_multiset());
}

proof fn lemma_room_holds<T>(c: CanvasCacheV<T>)
    ensures
        c.made_room().held() == c.held(),
{
    if c.textures.len() >= MAX_TEXTURES {
        let e = Seq::<Slot<Texture<T>>>::empty();
        lemma_add_multiset(c.stale, images(c.textures));
        assert(images(e) =~= Seq::<T>::empty());
        assert(Seq::<T>::empty().to_multiset() =~= Multiset::empty()) by {
            broadcast use vstd::seq_lib::group_to_multiset_ensures;

        }
        assert(c.made_room().held() =~= c.held());
    }
}

/// Storing a texture or a frame takes exactly that one on; settling a canvas
/// and dropping what left the scene lose none and add none.
pub proof fn law_no_texture_is_lost<T>(
    c: CanvasCacheV<T>,
    id: ElementId,
    fingerprint: u64,
    image: T,
    live: spec_fn(ElementId) -> bool,
)
    ensures
        c.stored(id, fingerprint, image).held() == c.held().insert(image),
        c.framed(id, image).held() == c.held().insert(image),
        c.settled(id).held() == c.held(),
        c.retained(live).held() == c.held(),
{
    lemma_stored_holds(c, id, fingerprint, image);
    lemma_framed_holds(c, id, image);
    lemma_settled_holds(c, id);
    lemma_retained_holds(c, live);
}

proof fn lemma_insert_count<A>(m: Multiset<A>, y: A, x: A)
    ensures
        m.insert(y).count(x) == m.count(x) + (if x == y {
            1nat
        } else {
            0nat
        }),
{
    if x == y {
        vstd::multiset::lemma_insert_increases_count_by_1(m, x);
    } else {
        vstd::multiset::lemma_insert_other_elements_unchanged(m, y, x);
    }
}

proof fn lemma_exchange<A>(
    a: Multiset<A>,
    b: Multiset<A>,
    f: Multiset<A>,
    s: Multiset<A>,
    o: A,
    i: A,
)
    requires
        a.insert(o) == b.insert(i),
    ensures
        a.add(f).add(s.insert(o)) == b.add(f).add(s).insert(i),
{
    let l = a.add(f).add(s.insert(o));
    let r = b.add(f).add(s).insert(i);
    assert forall|x: A| #[trigger] l.count(x) == r.count(x) by {
        lemma_insert_count(a, o, x);
        lemma_insert_count(b, i, x);
        lemma_insert_count(s, o, x);
        lemma_insert_count(b.add(f).add(s), i, x);
        assert(a.insert(o).count(x) == b.insert(i).count(x));
    }
    assert(l =~= r);
}

proof fn lemma_stored_holds<T>(c: CanvasCacheV<T>, id: ElementId, fingerprint: u64, image: T)
    ensures
        c.stored(id, fingerprint, image).held() == c.held().insert(image),
{
    lemma_room_holds(c);
    let r = c.made_room();
    let i = slot_of(r.textures, id);
    lemma_slot_from(r.textures, id, 0);
    let d = c.stored(id, fingerprint, image);
    if i < r.textures.len() {
        let old_image = r.textures[i].value.image;
        assert(images(d.textures) =~= images(r.textures).update(i, image));
        lemma_update_multiset(images(r.textures), i, image);
        lemma_push_multiset(r.stale, old_image);
        lemma_exchange(
            images(d.textures).to_multiset(),
            images(r.textures).to_multiset(),
            values(r.frames).to_multiset(),
            r.stale.to_multiset(),
            old_image,
            image,
        );
    } else {
        assert(images(d.textures) =~= images(r.textures).push(image));
        lemma_push_multiset(images(r.textures), image);
        assert(d.held() =~= r.held().insert(image));
    }
}

proof fn lemma_framed_holds<T>(c: CanvasCacheV<T>, id: ElementId, image: T)
    ensures
        c.framed(id, image).held() == c.held().insert(image),
{
    let i = slot_of(c.frames, id);
    lemma_slot_from(c.frames, id, 0);
    let d = c.framed(id, image);
    if i < c.frames.len() {
        assert(values(d.frames) =~= values(c.frames).update(i, image));
        lemma_update_multiset(values(c.frames), i, image);
        lemma_push_multiset(c.stale, c.frames[i].value);
        let (a, b) = (values(d.frames).to_multiset(), values(c.frames).to_multiset());
        let (t, z) = (images(c.textures).to_multiset(), c.stale.to_multiset());
        lemma_exchange(a, b, t, z, c.frames[i].value, image);
        assert(d.held() =~= a.add(t).add(z.insert(c.frames[i].value)));
        assert(c.held().insert(image) =~= b.add(t).add(z).insert(image));
    } else {
        assert(values(d.frames) =~= values(c.frames).push(image));
        lemma_push_multiset(values(c.frames), image);
        assert(d.held() =~= c.held().insert(image));
    }
}

proof fn lemma_settled_holds<T>(c: CanvasCacheV<T>, id: ElementId)
    ensures
        c.settled(id).held() == c.held(),
{
    let i = slot_of(c.frames, id);
    lemma_slot_from(c.frames, id, 0);
    let d = c.settled(id);
    if i < c.frames.len() {
        assert(values(d.frames) =~= values(c.frames).remove(i));
        lemma_remove_multiset(values(c.frames), i);
        lemma_push_multiset(c.stale, c.frames[i].value);
        assert(d.held() =~= c.held());
    }
}

proof fn lemma_split_images<T>(s: Seq<Slot<Texture<T>>>, live: spec_fn(ElementId) -> bool)
    ensures
        images(s.filter(|x: Slot<Texture<T>>| live(x.id))).to_multiset().add(
            images(s.filter(|x: Slot<Texture<T>>| !live(x.id))).to_multiset(),
        ) == images(s).to_multiset(),
    decreases s.len(),
{
    reveal(Seq::filter);
    let p = |x: Slot<Texture<T>>| live(x.id);
    let q = |x: Slot<Texture<T>>| !live(x.id);
    if s.len() == 0 {
        assert(images(s.filter(p)) =~= Seq::<T>::empty());
        assert(images(s.filter(q)) =~= Seq::<T>::empty());
        assert(images(s) =~= Seq::<T>::empty());
        assert(Seq::<T>::empty().to_multiset() =~= Multiset::empty()) by {
            broadcast use vstd::seq_lib::group_to_multiset_ensures;

        }
        assert(Multiset::<T>::empty().add(Multiset::empty()) =~= Multiset::empty());
    } else {
        let d = s.drop_last();
        let x = s.last();
        lemma_split_images(d, live);
        assert(images(s) =~= images(d).push(x.value.image));
        lemma_push_multiset(images(d), x.value.image);
        if live(x.id) {
            assert(images(d.filter(p).push(x)) =~= images(d.filter(p)).push(x.value.image));
            lemma_push_multiset(images(d.filter(p)), x.value.image);
        } else {
            assert(images(d.filter(q).push(x)) =~= images(d.filter(q)).push(x.value.image));
            lemma_push_multiset(images(d.filter(q)), x.value.image);
        }
        assert(images(s.filter(p)).to_multiset().add(images(s.filter(q)).to_multiset()) =~= images(
            s,
        ).to_multiset());
    }
}

proof fn lemma_split_values<T>(s: Seq<Slot<T>>, live: spec_fn(ElementId) -> bool)
    ensures
        values(s.filter(|x: Slot<T>| live(x.id))).to_multiset().add(
            values(s.filter(|x: Slot<T>| !live(x.id))).to_multiset(),
        ) == values(s).to_multiset(),
    decreases s.len(),
{
    reveal(Seq::filter);
    let p = |x: Slot<T>| live(x.id);
    let q = |x: Slot<T>| !live(x.id);
    if s.len() == 0 {
        assert(values(s.filter(p)) =~= Seq::<T>::empty());
        assert(values(s.filter(q)) =~= Seq::<T>::empty());
        assert(values(s) =~= Seq::<T>::empty());
        assert(Seq::<T>::empty().to_multiset() =~= Multiset::empty()) by {
            broadcast use vstd::seq_lib::group_to_multiset_ensures;

        }
        assert(Multiset::<T>::empty().add(Multiset::empty()) =~= Multiset::empty());
    } else {
        let d = s.drop_last();
        let x = s.last();
        lemma_split_values(d, live);
        assert(values(s) =~= values(d).push(x.value));
        lemma_push_multiset(values(d), x.value);
        if live(x.id) {
            assert(values(d.filter(p).push(x)) =~= values(d.filter(p)).push(x.value));
            lemma_push_multiset(values(d.filter(p)), x.value);
        } else {
            assert(values(d.filter(q).push(x)) =~= values(d.filter(q)).push(x.value));
            lemma_push_multiset(values(d.filter(q)), x.value);
        }
        assert(values(s.filter(p)).to_multiset().add(values(s.filter(q)).to_multiset()) =~= values(
            s,
        ).to_multiset());
    }
}

proof fn lemma_retained_holds<T>(c: CanvasCacheV<T>, live: spec_fn(ElementId) -> bool)
    ensures
        c.retained(live).held() == c.held(),
{
    let gone = images(c.textures.filter(|x: Slot<Texture<T>>| !live(x.id)));
    let old_frames = values(c.frames.filter(|x: Slot<T>| !live(x.id)));
    lemma_split_images(c.textures, live);
    lemma_split_values(c.frames, live);
    lemma_add_multiset(c.stale, gone);
    lemma_add_multiset(c.stale + gone, old_frames);
    assert(c.retained(live).held() =~= c.held());
}

/// A texture that was stored is the one its element has, under the fingerprint it
/// was drawn for; unless the cache was full, the other elements keep theirs.
pub proof fn law_stored_textures_are_found<T>(
    c: CanvasCacheV<T>,
    id: ElementId,
    fingerprint: u64,
    image: T,
    other: ElementId,
)
    ensures
        ({
            let d = c.stored(id, fingerprint, image);
            &&& slot_value(d.textures, id) == Some(Texture { fingerprint, image })
            &&& other != id && c.textures.len() < MAX_TEXTURES ==> slot_value(d.textures, other)
                == slot_value(c.textures, other)
            &&& d.frames == c.frames && d.wet == c.wet
            &&& d.textures.len() <= MAX_TEXTURES
        }),
{
    let d = c.stored(id, fingerprint, image);
    let t = Texture { fingerprint, image };
    lemma_with_slot(c.made_room().textures, id, t);
    lemma_slot_from(c.made_room().textures, id, 0);
    assert(d.textures == with_slot(c.made_room().textures, id, t));
    assert(slot_value(d.textures, id) == Some(t));
    assert(d.textures.len() <= MAX_TEXTURES);
    if other != id && c.textures.len() < MAX_TEXTURES {
        lemma_other_slot(c.textures, id, Texture { fingerprint, image }, other);
    }
}

proof fn lemma_other_slot<V>(s: Seq<Slot<V>>, id: ElementId, value: V, other: ElementId)
    requires
        other != id,
    ensures
        slot_value(with_slot(s, id, value), other) == slot_value(s, other),
{
    let t = with_slot(s, id, value);
    lemma_slot_from(s, id, 0);
    lemma_slot_from(s, other, 0);
    let k = slot_of(s, other);
    if k < s.len() {
        crate::canvas_cache::lemma_slot_at(t, other, 0, k);
    } else {
        crate::canvas_cache::lemma_slot_at(t, other, 0, t.len() as int);
    }
}

/// What is dropped with the elements that left the scene is what belonged to them:
/// the textures, frames and commit lists of live elements all stay.
pub proof fn law_live_elements_keep_their_textures<T>(
    c: CanvasCacheV<T>,
    live: spec_fn(ElementId) -> bool,
    i: int,
)
    ensures
        ({
            let d = c.retained(live);
            &&& 0 <= i < c.textures.len() && live(c.textures[i].id) ==> d.textures.contains(
                c.textures[i],
            )
            &&& 0 <= i < c.frames.len() && live(c.frames[i].id) ==> d.frames.contains(c.frames[i])
            &&& 0 <= i < c.wet.len() && live(c.wet[i].id) ==> d.wet.contains(c.wet[i])
            &&& 0 <= i < d.textures.len() ==> live(d.textures[i].id)
            &&& 0 <= i < d.frames.len() ==> live(d.frames[i].id)
            &&& 0 <= i < d.wet.len() ==> live(d.wet[i].id)
        }),
{
    let d = c.retained(live);
    let p = |x: Slot<Texture<T>>| live(x.id);
    let q = |x: Slot<T>| live(x.id);
    let r = |x: Slot<Seq<Option<u64>>>| live(x.id);
    if 0 <= i < c.textures.len() && live(c.textures[i].id) {
        c.textures.lemma_filter_contains(p, i);
    }
    if 0 <= i < c.frames.len() && live(c.frames[i].id) {
        c.frames.lemma_filter_contains(q, i);
    }
    if 0 <= i < c.wet.len() && live(c.wet[i].id) {
        c.wet.lemma_filter_contains(r, i);
    }
    if 0 <= i < d.textures.len() {
        c.textures.lemma_filter_pred(p, i);
    }
    if 0 <= i < d.frames.len() {
        c.frames.lemma_filter_pred(q, i);
    }
    if 0 <= i < d.wet.len() {
        c.wet.lemma_filter_pred(r, i);
    }
}

/// A stroke is wet from its commit until the drying time has passed, and one that
/// was never committed here is dry.
pub proof fn law_strokes_dry_in_time(committed: u64, now: u64)
    ensures
        is_wet(Some(committed), now) <==> now < committed + 2500,
        !is_wet(None, now),
{
}

/// Watercolour is the brush that dries: a stroke of it dries from its commit on, and
/// one of any other brush is dry at once. What a list does not reach is dry, and
/// what it has is kept.
pub proof fn law_only_watercolour_dries(
    brush: crate::element::CanvasBrush,
    now: u64,
    list: Seq<Option<u64>>,
    n: nat,
    i: int,
)
    requires
        0 <= i < n,
    ensures
        brush == crate::element::CanvasBrush::Watercolor <==> crate::canvas_cache::drying_since(
            brush,
            now,
        ) == Some(now),
        brush != crate::element::CanvasBrush::Watercolor <==> crate::canvas_cache::drying_since(
            brush,
            now,
        ) is None,
        crate::canvas_cache::parallel(list, n).len() == n,
        i < list.len() ==> crate::canvas_cache::parallel(list, n)[i] == list[i],
        i >= list.len() ==> crate::canvas_cache::parallel(list, n)[i] is None,
{
}

/// The commit times of a canvas are those of the strokes it still has; there are none
/// without a list, and none for what is no canvas.
pub proof fn law_wet_lists_are_cut_to_the_strokes<T>(c: CanvasCacheV<T>, el: ElementV<u64>, i: int)
    ensures
        c.wet_list(el) is Some <==> el.kind is Canvas && (slot_value(c.wet, el.id) matches Some(l)
            && l.len() > 0),
        c.wet_list(el) matches Some(list) ==> {
            let all = slot_value(c.wet, el.id)->Some_0;
            &&& list.len() <= all.len() && list.len() <= el.kind->strokes.len()
            &&& list.len() == all.len() || list.len() == el.kind->strokes.len()
            &&& 0 <= i < list.len() ==> list[i] == all[i]
        },
{
}

} // verus!
