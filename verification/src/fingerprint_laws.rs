//! What the fingerprint distinguishes: two elements that feed the hash the same
//! bytes agree in everything that rendering reads.

use vstd::prelude::*;
use vstd::arithmetic::power::lemma_pow1;
use vstd::arithmetic::power::lemma_pow_adds;
use vstd::arithmetic::power::lemma_pow_positive;
use vstd::arithmetic::power::pow;
use vstd::arithmetic::div_mod::lemma_div_denominator;
use vstd::arithmetic::div_mod::lemma_fundamental_div_mod;
use vstd::bytes::lemma_auto_spec_u64_to_from_le_bytes;
use vstd::bytes::spec_u64_to_le_bytes_to_open;
use vstd::utf8::encode_scalar;
use vstd::utf8::encode_utf8;
use vstd::utf8::encode_utf8_decode_utf8;
use crate::element::{
    ElementStyle, ElementV, KindV, LineType, Shadow, StrokeStyle, StrokeV, WBounds, WPoint,
};
use crate::fingerprint::{
    align_code, brush_code, canvas_brush_code, coords, element_bytes, element_onto,
    fill_code, flag, fnv1a, fnv_step, head_onto, kind_onto, num, nums,
    opt_color, opt_id, opt_num, opt_shadow, points_bytes, shaping_bytes, stroke_onto, strokes_onto,
    style_onto, text_bytes, FNV_PRIME,
};
use crate::ids::id_bytes;
use crate::ids::ElementId;

verus! {

/// Two pieces that are equal or differ at a place that both have: neither is
/// a proper beginning of the other.
spec fn settled(p: Seq<u8>, q: Seq<u8>) -> bool {
    p == q || exists|i: int| 0 <= i < p.len() && i < q.len() && p[i] != q[i]
}

proof fn lemma_cancel(p: Seq<u8>, q: Seq<u8>, r: Seq<u8>, s: Seq<u8>)
    requires
        settled(p, q),
        p + r == q + s,
    ensures
        p == q,
        r == s,
{
    if p != q {
        let i = choose|i: int| 0 <= i < p.len() && i < q.len() && p[i] != q[i];
        assert((p + r)[i] == p[i]);
        assert((q + s)[i] == q[i]);
    }
    assert(r =~= (p + r).skip(p.len() as int));
    assert(s =~= (q + s).skip(q.len() as int));
}

proof fn lemma_same_len_settled(p: Seq<u8>, q: Seq<u8>)
    requires
        p.len() == q.len(),
    ensures
        settled(p, q),
{
    if !(exists|i: int| 0 <= i < p.len() && i < q.len() && p[i] != q[i]) {
        assert(p =~= q);
    }
}

proof fn lemma_extend_settled(p: Seq<u8>, q: Seq<u8>, r: Seq<u8>, s: Seq<u8>)
    requires
        settled(p, q),
        p != q,
    ensures
        settled(p + r, q + s),
{
    let i = choose|i: int| 0 <= i < p.len() && i < q.len() && p[i] != q[i];
    assert((p + r)[i] != (q + s)[i]);
}

proof fn lemma_num(x: u64, y: u64)
    ensures
        num(x).len() == 8,
        num(y).len() == 8,
        settled(num(x), num(y)),
        num(x) == num(y) ==> x == y,
{
    lemma_auto_spec_u64_to_from_le_bytes();
    assert(num(x).len() == 8 && num(y).len() == 8);
    lemma_same_len_settled(num(x), num(y));
}

proof fn lemma_flag(x: bool, y: bool)
    ensures
        flag(x).len() == 1,
        settled(flag(x), flag(y)),
        flag(x) == flag(y) ==> x == y,
{
    lemma_same_len_settled(flag(x), flag(y));
    if flag(x) == flag(y) {
        assert(flag(x)[0] == flag(y)[0]);
    }
}

proof fn lemma_flags_apart(r: Seq<u8>, s: Seq<u8>)
    ensures
        settled(flag(true) + r, flag(false) + s),
        settled(flag(false) + s, flag(true) + r),
        flag(true) + r != flag(false) + s,
{
    assert((flag(true) + r)[0] == 1u8);
    assert((flag(false) + s)[0] == 0u8);
}

proof fn lemma_opt_num(x: Option<u64>, y: Option<u64>)
    ensures
        settled(opt_num(x), opt_num(y)),
        opt_num(x) == opt_num(y) ==> x == y,
{
    let e = Seq::<u8>::empty();
    assert(flag(false) + e =~= flag(false));
    match (x, y) {
        (Some(a), Some(b)) => {
            lemma_num(a, b);
            lemma_same_len_settled(opt_num(x), opt_num(y));
            if opt_num(x) == opt_num(y) {
                lemma_cancel(flag(true), flag(true), num(a), num(b));
            }
        },
        (Some(a), None) => {
            lemma_flags_apart(num(a), e);
        },
        (None, Some(b)) => {
            lemma_flags_apart(num(b), e);
        },
        (None, None) => {},
    }
}

proof fn lemma_opt_color(x: Option<u32>, y: Option<u32>)
    ensures
        settled(opt_color(x), opt_color(y)),
        opt_color(x) == opt_color(y) ==> x == y,
{
    let f = |c: Option<u32>|
        match c {
            Some(v) => Some(v as u64),
            None => None,
        };
    assert(opt_color(x) == opt_num(f(x)));
    assert(opt_color(y) == opt_num(f(y)));
    lemma_opt_num(f(x), f(y));
}

proof fn lemma_opt_shadow(x: Option<Shadow<u64>>, y: Option<Shadow<u64>>)
    ensures
        settled(opt_shadow(x), opt_shadow(y)),
        opt_shadow(x) == opt_shadow(y) ==> x == y,
{
    let e = Seq::<u8>::empty();
    assert(flag(false) + e =~= flag(false));
    match (x, y) {
        (Some(a), Some(b)) => {
            lemma_num(a.dx, b.dx);
            lemma_num(a.dy, b.dy);
            lemma_same_len_settled(opt_shadow(x), opt_shadow(y));
            if opt_shadow(x) == opt_shadow(y) {
                assert(opt_shadow(x) =~= flag(true) + (num(a.dx) + num(a.dy)));
                assert(opt_shadow(y) =~= flag(true) + (num(b.dx) + num(b.dy)));
                lemma_cancel(flag(true), flag(true), num(a.dx) + num(a.dy), num(b.dx) + num(b.dy));
                lemma_cancel(num(a.dx), num(b.dx), num(a.dy), num(b.dy));
            }
        },
        (Some(a), None) => {
            assert(opt_shadow(x) =~= flag(true) + (num(a.dx) + num(a.dy)));
            lemma_flags_apart(num(a.dx) + num(a.dy), e);
        },
        (None, Some(b)) => {
            assert(opt_shadow(y) =~= flag(true) + (num(b.dx) + num(b.dy)));
            lemma_flags_apart(num(b.dx) + num(b.dy), e);
        },
        (None, None) => {},
    }
}

proof fn lemma_high_part(a: u128, b: u128, k: nat)
    requires
        id_bytes(a) == id_bytes(b),
        k <= 16,
    ensures
        a as int / pow(256, (16 - k) as nat) == b as int / pow(256, (16 - k) as nat),
    decreases k,
{
    if k == 0 {
        assert(pow(256, 16) == 0x1_0000_0000_0000_0000_0000_0000_0000_0000) by {
            lemma_pow1(256);
            lemma_pow_adds(256, 1, 1);
            assert(pow(256, 2) == 0x1_0000);
            lemma_pow_adds(256, 2, 2);
            assert(pow(256, 4) == 0x1_0000_0000);
            lemma_pow_adds(256, 4, 4);
            assert(pow(256, 8) == 0x1_0000_0000_0000_0000);
            lemma_pow_adds(256, 8, 8);
        }
        assert(a as int / pow(256, 16) == 0);
        assert(b as int / pow(256, 16) == 0);
    } else {
        lemma_high_part(a, b, (k - 1) as nat);
        let e = (16 - k) as nat;
        let p = pow(256, e);
        lemma_pow_positive(256, e);
        lemma_pow1(256);
        lemma_pow_adds(256, e, 1);
        assert(pow(256, (16 - (k - 1)) as nat) == p * 256);
        lemma_div_denominator(a as int, p, 256);
        lemma_div_denominator(b as int, p, 256);
        let qa = a as int / p;
        let qb = b as int / p;
        assert(id_bytes(a)[k - 1] == (qa % 256) as u8);
        assert(id_bytes(b)[k - 1] == (qb % 256) as u8);
        assert(qa % 256 == qb % 256);
        assert(qa / 256 == qb / 256);
        lemma_fundamental_div_mod(qa, 256);
        lemma_fundamental_div_mod(qb, 256);
    }
}

proof fn lemma_id(a: ElementId, b: ElementId)
    ensures
        settled(id_bytes(a.value), id_bytes(b.value)),
        id_bytes(a.value) == id_bytes(b.value) ==> a == b,
{
    lemma_same_len_settled(id_bytes(a.value), id_bytes(b.value));
    if id_bytes(a.value) == id_bytes(b.value) {
        lemma_high_part(a.value, b.value, 16);
        assert(pow(256, 0) == 1) by {
            vstd::arithmetic::power::lemma_pow0(256);
        }
    }
}

proof fn lemma_opt_id(x: Option<ElementId>, y: Option<ElementId>)
    ensures
        settled(opt_id(x), opt_id(y)),
        opt_id(x) == opt_id(y) ==> x == y,
{
    let e = Seq::<u8>::empty();
    assert(flag(false) + e =~= flag(false));
    match (x, y) {
        (Some(a), Some(b)) => {
            lemma_id(a, b);
            lemma_same_len_settled(opt_id(x), opt_id(y));
            if opt_id(x) == opt_id(y) {
                lemma_cancel(flag(true), flag(true), id_bytes(a.value), id_bytes(b.value));
            }
        },
        (Some(a), None) => {
            lemma_flags_apart(id_bytes(a.value), e);
        },
        (None, Some(b)) => {
            lemma_flags_apart(id_bytes(b.value), e);
        },
        (None, None) => {},
    }
}

proof fn lemma_nums(a: Seq<u64>, b: Seq<u64>)
    ensures
        nums(a).len() == 8 * a.len(),
        nums(a) == nums(b) ==> a == b,
    decreases a.len(),
{
    lemma_nums_len(a);
    lemma_nums_len(b);
    if nums(a) == nums(b) {
        assert(a.len() == b.len());
        if a.len() > 0 {
            lemma_num(a.last(), b.last());
            lemma_nums_len(a.drop_last());
            lemma_nums_len(b.drop_last());
            lemma_same_len_settled(nums(a.drop_last()), nums(b.drop_last()));
            lemma_cancel(nums(a.drop_last()), nums(b.drop_last()), num(a.last()), num(b.last()));
            lemma_nums(a.drop_last(), b.drop_last());
            assert(a =~= a.drop_last().push(a.last()));
            assert(b =~= b.drop_last().push(b.last()));
        } else {
            assert(a =~= b);
        }
    }
}

proof fn lemma_nums_len(a: Seq<u64>)
    ensures
        nums(a).len() == 8 * a.len(),
    decreases a.len(),
{
    if a.len() > 0 {
        lemma_nums_len(a.drop_last());
        lemma_num(a.last(), 0);
    }
}

proof fn lemma_coords_len(a: Seq<WPoint<u64>>)
    ensures
        coords(a).len() == 16 * a.len(),
    decreases a.len(),
{
    if a.len() > 0 {
        lemma_coords_len(a.drop_last());
        lemma_num(a.last().x, 0);
        lemma_num(a.last().y, 0);
    }
}

proof fn lemma_coords(a: Seq<WPoint<u64>>, b: Seq<WPoint<u64>>)
    requires
        a.len() == b.len(),
        coords(a) == coords(b),
    ensures
        a == b,
    decreases a.len(),
{
    if a.len() > 0 {
        let (p, q) = (a.last(), b.last());
        lemma_num(p.x, q.x);
        lemma_num(p.y, q.y);
        lemma_coords_len(a.drop_last());
        lemma_coords_len(b.drop_last());
        lemma_same_len_settled(coords(a.drop_last()), coords(b.drop_last()));
        assert(coords(a) =~= coords(a.drop_last()) + (num(p.x) + num(p.y)));
        assert(coords(b) =~= coords(b.drop_last()) + (num(q.x) + num(q.y)));
        lemma_cancel(
            coords(a.drop_last()),
            coords(b.drop_last()),
            num(p.x) + num(p.y),
            num(q.x) + num(q.y),
        );
        lemma_cancel(num(p.x), num(q.x), num(p.y), num(q.y));
        lemma_coords(a.drop_last(), b.drop_last());
        assert(a =~= a.drop_last().push(p));
        assert(b =~= b.drop_last().push(q));
    } else {
        assert(a =~= b);
    }
}

proof fn lemma_points(a: Seq<WPoint<u64>>, b: Seq<WPoint<u64>>)
    requires
        a.len() <= u64::MAX,
        b.len() <= u64::MAX,
    ensures
        settled(points_bytes(a), points_bytes(b)),
        points_bytes(a) == points_bytes(b) ==> a == b,
{
    let (m, n) = (num(a.len() as u64), num(b.len() as u64));
    lemma_num(a.len() as u64, b.len() as u64);
    lemma_coords_len(a);
    lemma_coords_len(b);
    if a.len() == b.len() {
        lemma_same_len_settled(points_bytes(a), points_bytes(b));
        if points_bytes(a) == points_bytes(b) {
            lemma_cancel(m, n, coords(a), coords(b));
            lemma_coords(a, b);
        }
    } else {
        lemma_extend_settled(m, n, coords(a), coords(b));
        if points_bytes(a) == points_bytes(b) {
            lemma_cancel(m, n, coords(a), coords(b));
        }
    }
}

proof fn lemma_scalar_bytes(v: u32)
    ensures
        forall|i: int| 0 <= i < encode_scalar(v).len() ==> encode_scalar(v)[i] != 0xff,
{
    assert((v & 0x7F) as u8 != 0xff) by (bit_vector);
    assert((0xC0 | ((v >> 6) & 0x1F) as u8) != 0xff) by (bit_vector);
    assert((0xE0 | ((v >> 12) & 0x0F) as u8) != 0xff) by (bit_vector);
    assert((0xF0 | ((v >> 18) & 0x7) as u8) != 0xff) by (bit_vector);
    assert((0x80 | (v & 0x3F) as u8) != 0xff) by (bit_vector);
    assert((0x80 | ((v >> 6) & 0x3F) as u8) != 0xff) by (bit_vector);
    assert((0x80 | ((v >> 12) & 0x3F) as u8) != 0xff) by (bit_vector);
}

proof fn lemma_utf8_bytes(s: Seq<char>)
    ensures
        forall|i: int| 0 <= i < encode_utf8(s).len() ==> encode_utf8(s)[i] != 0xff,
    decreases s.len(),
{
    if s.len() > 0 {
        let (a, b) = (encode_scalar(s[0] as u32), encode_utf8(s.drop_first()));
        lemma_scalar_bytes(s[0] as u32);
        lemma_utf8_bytes(s.drop_first());
        assert forall|i: int| 0 <= i < (a + b).len() implies (a + b)[i] != 0xff by {
            if i < a.len() {
                assert((a + b)[i] == a[i]);
            } else {
                assert((a + b)[i] == b[i - a.len()]);
            }
        }
    }
}

proof fn lemma_text(a: Seq<char>, b: Seq<char>)
    ensures
        settled(text_bytes(a), text_bytes(b)),
        text_bytes(a) == text_bytes(b) ==> a == b,
{
    let (p, q) = (encode_utf8(a), encode_utf8(b));
    lemma_utf8_bytes(a);
    lemma_utf8_bytes(b);
    let (tp, tq) = (text_bytes(a), text_bytes(b));
    if tp == tq {
        assert(p =~= tp.drop_last());
        assert(q =~= tq.drop_last());
        encode_utf8_decode_utf8(a);
        encode_utf8_decode_utf8(b);
    } else if p.len() == q.len() {
        lemma_same_len_settled(tp, tq);
    } else if p.len() < q.len() {
        assert(tp[p.len() as int] == 0xff);
        assert(tq[p.len() as int] == q[p.len() as int]);
    } else {
        assert(tq[q.len() as int] == 0xff);
        assert(tp[q.len() as int] == p[q.len() as int]);
    }
}

/// Consecutive strings are kept apart by their terminators: equal bytes mean
/// equal strings one by one.
pub proof fn law_strings_do_not_run_together(
    a1: Seq<char>,
    a2: Seq<char>,
    b1: Seq<char>,
    b2: Seq<char>,
)
    requires
        text_bytes(a1) + text_bytes(a2) == text_bytes(b1) + text_bytes(b2),
    ensures
        a1 == b1,
        a2 == b2,
{
    lemma_text(a1, b1);
    lemma_cancel(text_bytes(a1), text_bytes(b1), text_bytes(a2), text_bytes(b2));
    lemma_text(a2, b2);
}

/// Pieces laid end to end.
spec fn laid(ps: Seq<Seq<u8>>) -> Seq<u8>
    decreases ps.len(),
{
    if ps.len() == 0 {
        Seq::empty()
    } else {
        laid(ps.drop_last()) + ps.last()
    }
}

proof fn lemma_laid_push(ps: Seq<Seq<u8>>, x: Seq<u8>)
    ensures
        laid(ps.push(x)) == laid(ps) + x,
{
    assert(ps.push(x).drop_last() =~= ps);
}

proof fn lemma_laid_step(acc: Seq<u8>, ps: Seq<Seq<u8>>, x: Seq<u8>)
    ensures
        acc + laid(ps.push(x)) == (acc + laid(ps)) + x,
{
    lemma_laid_push(ps, x);
    assert(acc + (laid(ps) + x) =~= (acc + laid(ps)) + x);
}

proof fn lemma_laid_first(ps: Seq<Seq<u8>>)
    requires
        ps.len() > 0,
    ensures
        laid(ps) == ps[0] + laid(ps.skip(1)),
    decreases ps.len(),
{
    if ps.len() == 1 {
        assert(ps.drop_last() =~= Seq::empty());
        assert(ps.skip(1) =~= Seq::empty());
        assert(laid(ps) =~= ps[0] + laid(ps.skip(1)));
    } else {
        lemma_laid_first(ps.drop_last());
        assert(ps.drop_last().skip(1) =~= ps.skip(1).drop_last());
        assert(laid(ps) =~= ps[0] + laid(ps.skip(1)));
    }
}

/// Pairwise settled pieces are recovered from their concatenation.
proof fn lemma_pieces(ps: Seq<Seq<u8>>, qs: Seq<Seq<u8>>, r: Seq<u8>, s: Seq<u8>)
    requires
        ps.len() == qs.len(),
        forall|k: int| 0 <= k < ps.len() ==> settled(#[trigger] ps[k], qs[k]),
        laid(ps) + r == laid(qs) + s,
    ensures
        ps == qs,
        r == s,
    decreases ps.len(),
{
    if ps.len() == 0 {
        assert(ps =~= qs);
        assert(laid(ps) + r =~= r);
        assert(laid(qs) + s =~= s);
    } else {
        lemma_laid_first(ps);
        lemma_laid_first(qs);
        let (p, q) = (ps.skip(1), qs.skip(1));
        assert(laid(ps) + r =~= ps[0] + (laid(p) + r));
        assert(laid(qs) + s =~= qs[0] + (laid(q) + s));
        assert(settled(ps[0], qs[0]));
        lemma_cancel(ps[0], qs[0], laid(p) + r, laid(q) + s);
        assert forall|k: int| 0 <= k < p.len() implies settled(#[trigger] p[k], q[k]) by {
            assert(p[k] == ps[k + 1]);
            assert(q[k] == qs[k + 1]);
        }
        lemma_pieces(p, q, r, s);
        assert(ps =~= seq![ps[0]] + p);
        assert(qs =~= seq![qs[0]] + q);
    }
}

/// The pieces of a style.
spec fn style_pieces(s: ElementStyle<u64>) -> Seq<Seq<u8>> {
    seq![
        num(s.stroke as u64),
        flag(s.stroke_none),
        opt_color(s.background),
        num(s.stroke_width),
        num(s.roughness),
        flag(s.stroke_style == StrokeStyle::Dashed),
        flag(s.line_type == LineType::Curved),
        num(fill_code(s.fill_style)),
        num(brush_code(s.brush)),
        opt_num(s.hachure_gap),
        opt_num(s.fill_weight),
        opt_num(s.hachure_angle),
        opt_num(s.dry_density),
        opt_num(s.dry_width),
        num(s.opacity),
        opt_shadow(s.shadow),
    ]
}

proof fn lemma_style_laid(acc: Seq<u8>, s: ElementStyle<u64>)
    ensures
        style_onto(acc, s) == acc + laid(style_pieces(s)),
{
    let p = Seq::<Seq<u8>>::empty();
    assert(acc + laid(p) =~= acc);
    lemma_laid_step(acc, p, num(s.stroke as u64));
    let p = p.push(num(s.stroke as u64));
    lemma_laid_step(acc, p, flag(s.stroke_none));
    let p = p.push(flag(s.stroke_none));
    lemma_laid_step(acc, p, opt_color(s.background));
    let p = p.push(opt_color(s.background));
    lemma_laid_step(acc, p, num(s.stroke_width));
    let p = p.push(num(s.stroke_width));
    lemma_laid_step(acc, p, num(s.roughness));
    let p = p.push(num(s.roughness));
    lemma_laid_step(acc, p, flag(s.stroke_style == StrokeStyle::Dashed));
    let p = p.push(flag(s.stroke_style == StrokeStyle::Dashed));
    lemma_laid_step(acc, p, flag(s.line_type == LineType::Curved));
    let p = p.push(flag(s.line_type == LineType::Curved));
    lemma_laid_step(acc, p, num(fill_code(s.fill_style)));
    let p = p.push(num(fill_code(s.fill_style)));
    lemma_laid_step(acc, p, num(brush_code(s.brush)));
    let p = p.push(num(brush_code(s.brush)));
    lemma_laid_step(acc, p, opt_num(s.hachure_gap));
    let p = p.push(opt_num(s.hachure_gap));
    lemma_laid_step(acc, p, opt_num(s.fill_weight));
    let p = p.push(opt_num(s.fill_weight));
    lemma_laid_step(acc, p, opt_num(s.hachure_angle));
    let p = p.push(opt_num(s.hachure_angle));
    lemma_laid_step(acc, p, opt_num(s.dry_density));
    let p = p.push(opt_num(s.dry_density));
    lemma_laid_step(acc, p, opt_num(s.dry_width));
    let p = p.push(opt_num(s.dry_width));
    lemma_laid_step(acc, p, num(s.opacity));
    let p = p.push(num(s.opacity));
    lemma_laid_step(acc, p, opt_shadow(s.shadow));
    let p = p.push(opt_shadow(s.shadow));
    assert(p =~= style_pieces(s));
}

/// The pieces of an element's identity, seed and box.
spec fn head_pieces(e: ElementV<u64>) -> Seq<Seq<u8>> {
    seq![
        id_bytes(e.id.value),
        num(e.seed),
        num(e.bounds.x),
        num(e.bounds.y),
        num(e.bounds.w),
        num(e.bounds.h),
    ]
}

proof fn lemma_head_laid(acc: Seq<u8>, e: ElementV<u64>)
    ensures
        head_onto(acc, e.id, e.seed, e.bounds) == acc + laid(head_pieces(e)),
{
    let p = Seq::<Seq<u8>>::empty();
    assert(acc + laid(p) =~= acc);
    lemma_laid_step(acc, p, id_bytes(e.id.value));
    let p = p.push(id_bytes(e.id.value));
    lemma_laid_step(acc, p, num(e.seed));
    let p = p.push(num(e.seed));
    lemma_laid_step(acc, p, num(e.bounds.x));
    let p = p.push(num(e.bounds.x));
    lemma_laid_step(acc, p, num(e.bounds.y));
    let p = p.push(num(e.bounds.y));
    lemma_laid_step(acc, p, num(e.bounds.w));
    let p = p.push(num(e.bounds.w));
    lemma_laid_step(acc, p, num(e.bounds.h));
    let p = p.push(num(e.bounds.h));
    assert(p =~= head_pieces(e));
}

proof fn lemma_style_settled(a: ElementStyle<u64>, b: ElementStyle<u64>)
    ensures
        forall|k: int| 0 <= k < 16 ==> settled(#[trigger] style_pieces(a)[k], style_pieces(b)[k]),
        style_pieces(a) == style_pieces(b) ==> a == b,
{
    lemma_num(a.stroke as u64, b.stroke as u64);
    lemma_flag(a.stroke_none, b.stroke_none);
    lemma_opt_color(a.background, b.background);
    lemma_num(a.stroke_width, b.stroke_width);
    lemma_num(a.roughness, b.roughness);
    lemma_flag(a.stroke_style == StrokeStyle::Dashed, b.stroke_style == StrokeStyle::Dashed);
    lemma_flag(a.line_type == LineType::Curved, b.line_type == LineType::Curved);
    lemma_num(fill_code(a.fill_style), fill_code(b.fill_style));
    lemma_num(brush_code(a.brush), brush_code(b.brush));
    lemma_opt_num(a.hachure_gap, b.hachure_gap);
    lemma_opt_num(a.fill_weight, b.fill_weight);
    lemma_opt_num(a.hachure_angle, b.hachure_angle);
    lemma_opt_num(a.dry_density, b.dry_density);
    lemma_opt_num(a.dry_width, b.dry_width);
    lemma_num(a.opacity, b.opacity);
    lemma_opt_shadow(a.shadow, b.shadow);
    if style_pieces(a) == style_pieces(b) {
        assert(style_pieces(a)[0] == style_pieces(b)[0]);
        assert(style_pieces(a)[1] == style_pieces(b)[1]);
        assert(style_pieces(a)[2] == style_pieces(b)[2]);
        assert(style_pieces(a)[3] == style_pieces(b)[3]);
        assert(style_pieces(a)[4] == style_pieces(b)[4]);
        assert(style_pieces(a)[5] == style_pieces(b)[5]);
        assert(style_pieces(a)[6] == style_pieces(b)[6]);
        assert(style_pieces(a)[7] == style_pieces(b)[7]);
        assert(style_pieces(a)[8] == style_pieces(b)[8]);
        assert(style_pieces(a)[9] == style_pieces(b)[9]);
        assert(style_pieces(a)[10] == style_pieces(b)[10]);
        assert(style_pieces(a)[11] == style_pieces(b)[11]);
        assert(style_pieces(a)[12] == style_pieces(b)[12]);
        assert(style_pieces(a)[13] == style_pieces(b)[13]);
        assert(style_pieces(a)[14] == style_pieces(b)[14]);
        assert(style_pieces(a)[15] == style_pieces(b)[15]);
    }
}

proof fn lemma_head_settled(a: ElementV<u64>, b: ElementV<u64>)
    ensures
        forall|k: int| 0 <= k < 6 ==> settled(#[trigger] head_pieces(a)[k], head_pieces(b)[k]),
        head_pieces(a) == head_pieces(b) ==> a.id == b.id && a.seed == b.seed && a.bounds
            == b.bounds,
{
    lemma_id(a.id, b.id);
    lemma_num(a.seed, b.seed);
    lemma_num(a.bounds.x, b.bounds.x);
    lemma_num(a.bounds.y, b.bounds.y);
    lemma_num(a.bounds.w, b.bounds.w);
    lemma_num(a.bounds.h, b.bounds.h);
    if head_pieces(a) == head_pieces(b) {
        assert(head_pieces(a)[0] == head_pieces(b)[0]);
        assert(head_pieces(a)[1] == head_pieces(b)[1]);
        assert(head_pieces(a)[2] == head_pieces(b)[2]);
        assert(head_pieces(a)[3] == head_pieces(b)[3]);
        assert(head_pieces(a)[4] == head_pieces(b)[4]);
        assert(head_pieces(a)[5] == head_pieces(b)[5]);
    }
}

/// The tag of a kind.
spec fn tag(k: KindV<u64>) -> u64 {
    match k {
        KindV::Rectangle => 1,
        KindV::Ellipse => 2,
        KindV::Diamond => 3,
        KindV::Line { .. } => 4,
        KindV::Arrow { .. } => 5,
        KindV::Freedraw { .. } => 6,
        KindV::Text { .. } => 7,
        KindV::Polygon { .. } => 8,
        KindV::Image { .. } => 9,
        KindV::Canvas { .. } => 10,
    }
}

/// One canvas stroke.
spec fn stroke_piece(s: StrokeV<u64>) -> Seq<u8> {
    points_bytes(s.points) + (nums(s.widths) + (num(s.color as u64) + (num(s.width) + (num(
        canvas_brush_code(s.brush),
    ) + num(s.opacity)))))
}

/// The pieces of canvas strokes.
spec fn stroke_pieces(s: Seq<StrokeV<u64>>) -> Seq<Seq<u8>> {
    Seq::new(s.len(), |i: int| stroke_piece(s[i]))
}

proof fn lemma_stroke_split(acc: Seq<u8>, s: StrokeV<u64>)
    ensures
        stroke_onto(acc, s) == acc + stroke_piece(s),
{
    let (p, w) = (points_bytes(s.points), nums(s.widths));
    let (c, x) = (num(s.color as u64), num(s.width));
    let (b, o) = (num(canvas_brush_code(s.brush)), num(s.opacity));
    lemma_assoc(acc, p, w + (c + (x + (b + o))));
    lemma_assoc(acc + p, w, c + (x + (b + o)));
    lemma_assoc(acc + p + w, c, x + (b + o));
    lemma_assoc(acc + p + w + c, x, b + o);
    lemma_assoc(acc + p + w + c + x, b, o);
}

proof fn lemma_strokes_laid(acc: Seq<u8>, s: Seq<StrokeV<u64>>)
    ensures
        strokes_onto(acc, s) == acc + laid(stroke_pieces(s)),
    decreases s.len(),
{
    if s.len() == 0 {
        assert(acc + laid(stroke_pieces(s)) =~= acc);
    } else {
        let d = s.drop_last();
        lemma_strokes_laid(acc, d);
        lemma_stroke_split(strokes_onto(acc, d), s.last());
        lemma_laid_step(acc, stroke_pieces(d), stroke_piece(s.last()));
        assert(stroke_pieces(s) =~= stroke_pieces(d).push(stroke_piece(s.last())));
    }
}

proof fn lemma_stroke(a: StrokeV<u64>, b: StrokeV<u64>)
    requires
        a.points.len() <= u64::MAX,
        b.points.len() <= u64::MAX,
        a.widths.len() == b.widths.len(),
    ensures
        settled(stroke_piece(a), stroke_piece(b)),
        stroke_piece(a) == stroke_piece(b) ==> a == b,
{
    let (o1, o2) = (num(a.opacity), num(b.opacity));
    let (b1, b2) = (num(canvas_brush_code(a.brush)), num(canvas_brush_code(b.brush)));
    let (x1, x2) = (num(a.width), num(b.width));
    let (c1, c2) = (num(a.color as u64), num(b.color as u64));
    let (r1, r2) = (c1 + (x1 + (b1 + o1)), c2 + (x2 + (b2 + o2)));
    let (q1, q2) = (nums(a.widths) + r1, nums(b.widths) + r2);
    lemma_points(a.points, b.points);
    lemma_nums(a.widths, b.widths);
    lemma_nums_len(b.widths);
    lemma_num(a.color as u64, b.color as u64);
    lemma_num(a.width, b.width);
    lemma_num(canvas_brush_code(a.brush), canvas_brush_code(b.brush));
    lemma_num(a.opacity, b.opacity);
    if points_bytes(a.points) == points_bytes(b.points) {
        lemma_same_len_settled(stroke_piece(a), stroke_piece(b));
    } else {
        lemma_extend_settled(points_bytes(a.points), points_bytes(b.points), q1, q2);
    }
    if stroke_piece(a) == stroke_piece(b) {
        lemma_cancel(points_bytes(a.points), points_bytes(b.points), q1, q2);
        lemma_same_len_settled(nums(a.widths), nums(b.widths));
        lemma_cancel(nums(a.widths), nums(b.widths), r1, r2);
        lemma_cancel(c1, c2, x1 + (b1 + o1), x2 + (b2 + o2));
        lemma_cancel(x1, x2, b1 + o1, b2 + o2);
        lemma_cancel(b1, b2, o1, o2);
    }
}

/// What follows the tag.
spec fn payload(k: KindV<u64>) -> Seq<u8> {
    match k {
        KindV::Line { points } => points_bytes(points),
        KindV::Arrow { points, end_arrowhead, start_arrowhead } => points_bytes(points) + (flag(
            end_arrowhead,
        ) + flag(start_arrowhead)),
        KindV::Freedraw { points, widths } => points_bytes(points) + nums(widths),
        KindV::Polygon { points, smooth } => flag(smooth) + points_bytes(points),
        KindV::Image { asset } => text_bytes(asset),
        KindV::Canvas { strokes } => num(strokes.len() as u64) + laid(stroke_pieces(strokes)),
        KindV::Text {
            text,
            font_size,
            font_family,
            wrap_width,
            min_height,
            container_id,
            text_align,
            anchor,
        } => text_bytes(text) + (num(font_size) + (text_bytes(font_family) + (opt_num(wrap_width)
            + (opt_num(min_height) + (opt_id(container_id) + num(align_code(text_align))))))),
        _ => Seq::empty(),
    }
}

proof fn lemma_assoc(a: Seq<u8>, b: Seq<u8>, c: Seq<u8>)
    ensures
        (a + b) + c == a + (b + c),
{
    assert((a + b) + c =~= a + (b + c));
}

proof fn lemma_kind_split(acc: Seq<u8>, k: KindV<u64>)
    ensures
        kind_onto(acc, k) == acc + (num(tag(k)) + payload(k)),
{
    let t = num(tag(k));
    lemma_assoc(acc, t, payload(k));
    match k {
        KindV::Arrow { points, end_arrowhead, start_arrowhead } => {
            let (p, e, s) = (points_bytes(points), flag(end_arrowhead), flag(start_arrowhead));
            lemma_assoc(acc + t, p, e + s);
            lemma_assoc(acc + t + p, e, s);
        },
        KindV::Freedraw { points, widths } => {
            lemma_assoc(acc + t, points_bytes(points), nums(widths));
        },
        KindV::Polygon { points, smooth } => {
            lemma_assoc(acc + t, flag(smooth), points_bytes(points));
        },
        KindV::Text {
            text,
            font_size,
            font_family,
            wrap_width,
            min_height,
            container_id,
            text_align,
            anchor,
        } => {
            let al = num(align_code(text_align));
            let r5 = opt_id(container_id) + al;
            let r4 = opt_num(min_height) + r5;
            let r3 = opt_num(wrap_width) + r4;
            let r2 = text_bytes(font_family) + r3;
            let r1 = num(font_size) + r2;
            let l1 = acc + t;
            let l2 = l1 + text_bytes(text);
            let l3 = l2 + num(font_size);
            let l4 = l3 + text_bytes(font_family);
            let l5 = l4 + opt_num(wrap_width);
            let l6 = l5 + opt_num(min_height);
            lemma_assoc(l1, text_bytes(text), r1);
            lemma_assoc(l2, num(font_size), r2);
            lemma_assoc(l3, text_bytes(font_family), r3);
            lemma_assoc(l4, opt_num(wrap_width), r4);
            lemma_assoc(l5, opt_num(min_height), r5);
            lemma_assoc(l6, opt_id(container_id), al);
        },
        KindV::Canvas { strokes } => {
            let n = num(strokes.len() as u64);
            lemma_strokes_laid(acc + t + n, strokes);
            lemma_assoc(acc + t, n, laid(stroke_pieces(strokes)));
        },
        KindV::Line { .. } => {},
        KindV::Image { .. } => {},
        _ => {
            assert(acc + t =~= acc + (t + Seq::empty()));
        },
    }
}

/// The list lengths of a kind fit the 64 bits that they are hashed with.
pub open spec fn lengths_fit(k: KindV<u64>) -> bool {
    &&& k.points().len() <= u64::MAX
    &&& k matches KindV::Canvas { strokes } ==> strokes.len() <= u64::MAX && forall|i: int|
        0 <= i < strokes.len() ==> (#[trigger] strokes[i]).points.len() <= u64::MAX
}

/// Two kinds whose canvas strokes, where both have them, carry equally many
/// widths: the number of widths of a canvas stroke is not hashed.
pub open spec fn widths_agree(a: KindV<u64>, b: KindV<u64>) -> bool {
    match (a, b) {
        (KindV::Canvas { strokes: s }, KindV::Canvas { strokes: t }) => forall|i: int|
            0 <= i < s.len() && i < t.len() ==> (#[trigger] s[i]).widths.len() == t[i].widths.len(),
        _ => true,
    }
}

/// Two kinds that rendering cannot tell apart: equal but for the anchor,
/// which only re-measuring reads.
pub open spec fn same_rendering(a: KindV<u64>, b: KindV<u64>) -> bool {
    match (a, b) {
        (
            KindV::Text {
                text,
                font_size,
                font_family,
                wrap_width,
                min_height,
                container_id,
                text_align,
                anchor,
            },
            KindV::Text { .. },
        ) => b == (KindV::Text {
            text,
            font_size,
            font_family,
            wrap_width,
            min_height,
            container_id,
            text_align,
            anchor: b->anchor,
        }),
        _ => a == b,
    }
}

proof fn lemma_payload(a: KindV<u64>, b: KindV<u64>)
    requires
        lengths_fit(a),
        lengths_fit(b),
        widths_agree(a, b),
        tag(a) == tag(b),
        payload(a) == payload(b),
    ensures
        same_rendering(a, b),
{
    match (a, b) {
        (KindV::Line { points: p }, KindV::Line { points: q }) => {
            lemma_points(p, q);
        },
        (
            KindV::Arrow { points: p, end_arrowhead: e1, start_arrowhead: s1 },
            KindV::Arrow { points: q, end_arrowhead: e2, start_arrowhead: s2 },
        ) => {
            lemma_points(p, q);
            lemma_flag(e1, e2);
            lemma_flag(s1, s2);
            lemma_cancel(
                points_bytes(p),
                points_bytes(q),
                flag(e1) + flag(s1),
                flag(e2) + flag(s2),
            );
            lemma_cancel(flag(e1), flag(e2), flag(s1), flag(s2));
        },
        (KindV::Freedraw { points: p, widths: v }, KindV::Freedraw { points: q, widths: w }) => {
            lemma_points(p, q);
            lemma_cancel(points_bytes(p), points_bytes(q), nums(v), nums(w));
            lemma_nums(v, w);
        },
        (KindV::Polygon { points: p, smooth: x }, KindV::Polygon { points: q, smooth: y }) => {
            lemma_flag(x, y);
            lemma_cancel(flag(x), flag(y), points_bytes(p), points_bytes(q));
            lemma_points(p, q);
        },
        (KindV::Image { asset: x }, KindV::Image { asset: y }) => {
            lemma_text(x, y);
        },
        (KindV::Canvas { strokes: s }, KindV::Canvas { strokes: t }) => {
            let (ps, qs) = (stroke_pieces(s), stroke_pieces(t));
            let e = Seq::<u8>::empty();
            lemma_num(s.len() as u64, t.len() as u64);
            lemma_cancel(num(s.len() as u64), num(t.len() as u64), laid(ps), laid(qs));
            assert forall|k: int| 0 <= k < ps.len() implies settled(#[trigger] ps[k], qs[k]) by {
                assert(s[k].widths.len() == t[k].widths.len());
                lemma_stroke(s[k], t[k]);
            }
            assert(laid(ps) + e =~= laid(ps));
            assert(laid(qs) + e =~= laid(qs));
            lemma_pieces(ps, qs, e, e);
            assert forall|k: int| 0 <= k < s.len() implies s[k] == t[k] by {
                assert(s[k].widths.len() == t[k].widths.len());
                lemma_stroke(s[k], t[k]);
                assert(ps[k] == qs[k]);
            }
            assert(s =~= t);
        },
        (
            KindV::Text {
                text: t1,
                font_size: f1,
                font_family: n1,
                wrap_width: w1,
                min_height: m1,
                container_id: c1,
                text_align: a1,
                anchor: _,
            },
            KindV::Text {
                text: t2,
                font_size: f2,
                font_family: n2,
                wrap_width: w2,
                min_height: m2,
                container_id: c2,
                text_align: a2,
                anchor: _,
            },
        ) => {
            let (al1, al2) = (num(align_code(a1)), num(align_code(a2)));
            let (r1, r2) = (opt_id(c1) + al1, opt_id(c2) + al2);
            let (q1, q2) = (opt_num(m1) + r1, opt_num(m2) + r2);
            let (p1, p2) = (opt_num(w1) + q1, opt_num(w2) + q2);
            let (o1, o2) = (text_bytes(n1) + p1, text_bytes(n2) + p2);
            lemma_text(t1, t2);
            lemma_num(f1, f2);
            lemma_text(n1, n2);
            lemma_opt_num(w1, w2);
            lemma_opt_num(m1, m2);
            lemma_opt_id(c1, c2);
            lemma_num(align_code(a1), align_code(a2));
            lemma_cancel(text_bytes(t1), text_bytes(t2), num(f1) + o1, num(f2) + o2);
            lemma_cancel(num(f1), num(f2), o1, o2);
            lemma_cancel(text_bytes(n1), text_bytes(n2), p1, p2);
            lemma_cancel(opt_num(w1), opt_num(w2), q1, q2);
            lemma_cancel(opt_num(m1), opt_num(m2), r1, r2);
            lemma_cancel(opt_id(c1), opt_id(c2), al1, al2);
        },
        _ => {},
    }
}

/// Every rendering-relevant input reaches the hash: elements that feed the
/// hash the same bytes are drawn the same way, canvases as far as their strokes
/// carry equally many widths.
pub proof fn law_fingerprint_covers_every_input(a: ElementV<u64>, b: ElementV<u64>)
    requires
        lengths_fit(a.kind),
        lengths_fit(b.kind),
        widths_agree(a.kind, b.kind),
        element_bytes(a) == element_bytes(b),
    ensures
        a.id == b.id,
        a.seed == b.seed,
        a.bounds == b.bounds,
        a.style == b.style,
        same_rendering(a.kind, b.kind),
{
    let e = Seq::<u8>::empty();
    let (ha, hb) = (head_pieces(a), head_pieces(b));
    let (sa, sb) = (style_pieces(a.style), style_pieces(b.style));
    let (ka, kb) = (num(tag(a.kind)) + payload(a.kind), num(tag(b.kind)) + payload(b.kind));
    lemma_head_laid(e, a);
    lemma_head_laid(e, b);
    let (xa, xb) = (head_onto(e, a.id, a.seed, a.bounds), head_onto(e, b.id, b.seed, b.bounds));
    lemma_style_laid(xa, a.style);
    lemma_style_laid(xb, b.style);
    lemma_kind_split(style_onto(xa, a.style), a.kind);
    lemma_kind_split(style_onto(xb, b.style), b.kind);
    assert(element_bytes(a) =~= laid(ha) + (laid(sa) + ka));
    assert(element_bytes(b) =~= laid(hb) + (laid(sb) + kb));
    lemma_head_settled(a, b);
    lemma_pieces(ha, hb, laid(sa) + ka, laid(sb) + kb);
    lemma_style_settled(a.style, b.style);
    lemma_pieces(sa, sb, ka, kb);
    lemma_num(tag(a.kind), tag(b.kind));
    lemma_cancel(num(tag(a.kind)), num(tag(b.kind)), payload(a.kind), payload(b.kind));
    lemma_payload(a.kind, b.kind);
}

proof fn lemma_shaping_split(t: Seq<char>, f: u64, n: Seq<char>, w: Option<u64>, c: [u64; 4], z: u64)
    ensures
        shaping_bytes(t, f, n, w, c, z) == text_bytes(t) + (num(f) + (text_bytes(n) + (opt_num(w)
            + (num(c[0]) + (num(c[1]) + (num(c[2]) + (num(c[3]) + num(z)))))))),
{
    let r6 = num(c[3]) + num(z);
    let r5 = num(c[2]) + r6;
    let r4 = num(c[1]) + r5;
    let r3 = num(c[0]) + r4;
    let r2 = opt_num(w) + r3;
    let r1 = text_bytes(n) + r2;
    let l1 = text_bytes(t);
    assert(Seq::<u8>::empty() + l1 =~= l1);
    let l2 = l1 + num(f);
    let l3 = l2 + text_bytes(n);
    let l4 = l3 + opt_num(w);
    let l5 = l4 + num(c[0]);
    let l6 = l5 + num(c[1]);
    let l7 = l6 + num(c[2]);
    lemma_assoc(l1, num(f), r1);
    lemma_assoc(l2, text_bytes(n), r2);
    lemma_assoc(l3, opt_num(w), r3);
    lemma_assoc(l4, num(c[0]), r4);
    lemma_assoc(l5, num(c[1]), r5);
    lemma_assoc(l6, num(c[2]), r6);
    lemma_assoc(l7, num(c[3]), num(z));
}

/// Every shaping input reaches the hash of shaped text.
pub proof fn law_shaping_fingerprint_covers_every_input(
    t1: Seq<char>,
    f1: u64,
    n1: Seq<char>,
    w1: Option<u64>,
    c1: [u64; 4],
    z1: u64,
    t2: Seq<char>,
    f2: u64,
    n2: Seq<char>,
    w2: Option<u64>,
    c2: [u64; 4],
    z2: u64,
)
    requires
        shaping_bytes(t1, f1, n1, w1, c1, z1) == shaping_bytes(t2, f2, n2, w2, c2, z2),
    ensures
        t1 == t2,
        f1 == f2,
        n1 == n2,
        w1 == w2,
        c1@ == c2@,
        z1 == z2,
{
    let (z1b, z2b) = (num(z1), num(z2));
    let (d1, d2) = (num(c1[3]) + z1b, num(c2[3]) + z2b);
    let (g1, g2) = (num(c1[2]) + d1, num(c2[2]) + d2);
    let (h1, h2) = (num(c1[1]) + g1, num(c2[1]) + g2);
    let (i1, i2) = (num(c1[0]) + h1, num(c2[0]) + h2);
    let (p1, p2) = (opt_num(w1) + i1, opt_num(w2) + i2);
    let (o1, o2) = (text_bytes(n1) + p1, text_bytes(n2) + p2);
    lemma_shaping_split(t1, f1, n1, w1, c1, z1);
    lemma_shaping_split(t2, f2, n2, w2, c2, z2);
    lemma_text(t1, t2);
    lemma_num(f1, f2);
    lemma_text(n1, n2);
    lemma_opt_num(w1, w2);
    lemma_num(c1[0], c2[0]);
    lemma_num(c1[1], c2[1]);
    lemma_num(c1[2], c2[2]);
    lemma_num(c1[3], c2[3]);
    lemma_num(z1, z2);
    lemma_cancel(text_bytes(t1), text_bytes(t2), num(f1) + o1, num(f2) + o2);
    lemma_cancel(num(f1), num(f2), o1, o2);
    lemma_cancel(text_bytes(n1), text_bytes(n2), p1, p2);
    lemma_cancel(opt_num(w1), opt_num(w2), i1, i2);
    lemma_cancel(num(c1[0]), num(c2[0]), h1, h2);
    lemma_cancel(num(c1[1]), num(c2[1]), g1, g2);
    lemma_cancel(num(c1[2]), num(c2[2]), d1, d2);
    lemma_cancel(num(c1[3]), num(c2[3]), z1b, z2b);
    assert(c1@ =~= c2@);
}

/// The hash after more bytes.
spec fn fnv_from(h: u64, s: Seq<u8>) -> u64
    decreases s.len(),
{
    if s.len() == 0 {
        h
    } else {
        fnv_step(fnv_from(h, s.drop_last()), s.last())
    }
}

proof fn lemma_fnv_from(p: Seq<u8>, s: Seq<u8>)
    ensures
        fnv1a(p + s) == fnv_from(fnv1a(p), s),
    decreases s.len(),
{
    if s.len() == 0 {
        assert(p + s =~= p);
    } else {
        lemma_fnv_from(p, s.drop_last());
        assert((p + s).drop_last() =~= p + s.drop_last());
    }
}

/// Multiplication by the hash's odd multiplier loses nothing modulo 2^64.
proof fn lemma_multiplier_is_invertible(x: u64, y: u64)
    requires
        (x * FNV_PRIME) % 0x1_0000_0000_0000_0000 == (y * FNV_PRIME) % 0x1_0000_0000_0000_0000,
    ensures
        x == y,
{
    let m: int = 0x1_0000_0000_0000_0000;
    let i = (x * FNV_PRIME) / m;
    let j = (y * FNV_PRIME) / m;
    let a = (x * FNV_PRIME) % m;
    assert(x * FNV_PRIME == m * i + a);
    assert(y * FNV_PRIME == m * j + a);
    // The inverse of the multiplier: their product is one more than a multiple
    // of 2^64.
    let q: int = 0xce965057aff6957b;
    let k: int = 887285111055;
    assert(FNV_PRIME * q == k * m + 1);
    let d = x - y;
    assert(d * FNV_PRIME == m * (i - j));
    assert(d * (k * m + 1) == m * ((i - j) * q)) by (nonlinear_arith)
        requires
            d * FNV_PRIME == m * (i - j),
            FNV_PRIME * q == k * m + 1,
    ;
    assert(d == m * ((i - j) * q - d * k)) by (nonlinear_arith)
        requires
            d * (k * m + 1) == m * ((i - j) * q),
    ;
    let t = (i - j) * q - d * k;
    assert(t == 0) by (nonlinear_arith)
        requires
            d == m * t,
            -m < d < m,
            m > 0,
    ;
}

proof fn lemma_step_injective(g: u64, h: u64, b: u8, c: u8)
    requires
        fnv_step(g, b) == fnv_step(h, c),
    ensures
        g == h ==> b == c,
        b == c ==> g == h,
{
    lemma_multiplier_is_invertible(g ^ (b as u64), h ^ (c as u64));
    let (x, y) = (b as u64, c as u64);
    assert(g == h ==> x == y) by (bit_vector)
        requires
            g ^ x == h ^ y,
    ;
    assert(x == y ==> g == h) by (bit_vector)
        requires
            g ^ x == h ^ y,
    ;
}

proof fn lemma_from_injective(g: u64, h: u64, s: Seq<u8>)
    requires
        fnv_from(g, s) == fnv_from(h, s),
    ensures
        g == h,
    decreases s.len(),
{
    if s.len() > 0 {
        lemma_step_injective(
            fnv_from(g, s.drop_last()),
            fnv_from(h, s.drop_last()),
            s.last(),
            s.last(),
        );
        lemma_from_injective(g, h, s.drop_last());
    }
}

/// Mixing a byte into a state stays within its block of 256.
proof fn lemma_mix(g: u64, b: u8)
    ensures
        -256 < (g ^ (b as u64)) - g < 256,
        (g ^ (b as u64)) / 256 == g / 256,
{
    let x = b as u64;
    assert((g ^ x) / 256 == g / 256) by (bit_vector)
        requires
            x < 256,
    ;
}

/// One step as an equation of integers.
proof fn lemma_step_value(g: u64, b: u8) -> (i: int)
    ensures
        fnv_step(g, b) == (g ^ (b as u64)) * 1099511628211 - 0x1_0000_0000_0000_0000 * i,
{
    let v: int = (g ^ (b as u64)) * 1099511628211;
    v / 0x1_0000_0000_0000_0000
}

proof fn lemma_small_multiple(k: int, v: int, n: int)
    requires
        0 < k,
        -n * k < k * v < n * k,
    ensures
        -n < v < n,
{
    assert(-n < v < n) by (nonlinear_arith)
        requires
            0 < k,
            -n * k < k * v < n * k,
    ;
}

/// The powers of the multiplier, 2^40 + 435: each is a part below 2^40, a multiple
/// of 2^40 and a multiple of 2^64.
proof fn lemma_weights(e1: int, e2: int, e3: int, e4: int)
    ensures
        1329227997362564068125063396651957931 * e1 + 1208925820571204291060521 * e2 + 1099511628211 * e3 + e4 == 0x100_0000_0000 * (
        567675 * e1 + 870 * e2 + e3) + (82312875 * e1 + 189225 * e2 + 435 * e3 + e4)
            + 0x1_0000_0000_0000_0000 * (0x100_0000_0519_0000 * e1 + 0x1_0000 * e2),
{
}

/// Small numbers of which the first is not zero do not cancel out when they are
/// weighted by the powers of 435; where they do, their weights' slopes do not.
proof fn lemma_slopes(e1: int, e2: int, e3: int, e4: int)
    requires
        e1 != 0,
        -512 < e2 < 512,
        -512 < e3 < 512,
        -512 < e4 < 512,
        82312875 * e1 + 189225 * e2 + 435 * e3 + e4 == 0,
    ensures
        567675 * e1 + 870 * e2 + e3 != 0,
        -0x100_0000 < 567675 * e1 + 870 * e2 + e3 < 0x100_0000,
{
    let t = 189225 * e1 + 435 * e2 + e3;
    assert(435 * t == -e4);
    lemma_small_multiple(435, t, 2);
    let u = 435 * e1 + e2;
    assert(435 * u == t - e3);
    lemma_small_multiple(435, u, 2);
    assert(435 * e1 == u - e2);
    lemma_small_multiple(435, e1, 2);
    assert(567675 * e1 + 870 * e2 + e3 == 189225 * e1 + 870 * u + e3);
}

/// Small numbers of which the first is not zero do not add up to a multiple of
/// 2^64 when they are weighted by the powers of the multiplier.
proof fn lemma_small_weights(e1: int, e2: int, e3: int, e4: int, z: int)
    requires
        -256 < e1 < 256,
        e1 != 0,
        -512 < e2 < 512,
        -512 < e3 < 512,
        -512 < e4 < 512,
    ensures
        1329227997362564068125063396651957931 * e1 + 1208925820571204291060521 * e2 + 1099511628211 * e3 + e4 != 0x1_0000_0000_0000_0000 * z,
{
    lemma_weights(e1, e2, e3, e4);
    let low = 82312875 * e1 + 189225 * e2 + 435 * e3 + e4;
    let mid = 567675 * e1 + 870 * e2 + e3;
    let w = z - (0x100_0000_0519_0000 * e1 + 0x1_0000 * e2);
    let v = 0x100_0000 * w - mid;
    if 0x100_0000_0000 * mid + low == 0x1_0000_0000_0000_0000 * w {
        assert(low == 0x100_0000_0000 * v);
        lemma_small_multiple(0x100_0000_0000, v, 1);
        lemma_slopes(e1, e2, e3, e4);
        lemma_small_multiple(0x100_0000, w, 1);
    }
}

proof fn lemma_from_four(h: u64, s: Seq<u8>)
    requires
        s.len() == 4,
    ensures
        fnv_from(h, s) == fnv_step(fnv_step(fnv_step(fnv_step(h, s[0]), s[1]), s[2]), s[3]),
{
    reveal_with_fuel(fnv_from, 5);
    assert(s.drop_last().drop_last().drop_last().drop_last().len() == 0);
}

/// Four bytes that differ in the first lead from one state to two.
proof fn lemma_four_bytes(h: u64, s: Seq<u8>, t: Seq<u8>)
    requires
        s.len() == 4,
        t.len() == 4,
        s[0] != t[0],
    ensures
        fnv_from(h, s) != fnv_from(h, t),
{
    lemma_from_four(h, s);
    lemma_from_four(h, t);
    let (s1, t1) = (fnv_step(h, s[0]), fnv_step(h, t[0]));
    let (s2, t2) = (fnv_step(s1, s[1]), fnv_step(t1, t[1]));
    let (s3, t3) = (fnv_step(s2, s[2]), fnv_step(t2, t[2]));
    if fnv_step(s3, s[3]) == fnv_step(t3, t[3]) {
        let x1: int = (h ^ (s[0] as u64)) as int;
        let y1: int = (h ^ (t[0] as u64)) as int;
        let x2: int = (s1 ^ (s[1] as u64)) as int;
        let y2: int = (t1 ^ (t[1] as u64)) as int;
        let x3: int = (s2 ^ (s[2] as u64)) as int;
        let y3: int = (t2 ^ (t[2] as u64)) as int;
        let x4: int = (s3 ^ (s[3] as u64)) as int;
        let y4: int = (t3 ^ (t[3] as u64)) as int;
        lemma_multiplier_is_invertible(x4 as u64, y4 as u64);
        lemma_mix(h, s[0]);
        lemma_mix(h, t[0]);
        lemma_mix(s1, s[1]);
        lemma_mix(t1, t[1]);
        lemma_mix(s2, s[2]);
        lemma_mix(t2, t[2]);
        lemma_mix(s3, s[3]);
        lemma_mix(t3, t[3]);
        if x1 == y1 {
            let (b, c) = (s[0] as u64, t[0] as u64);
            assert(b == c) by (bit_vector)
                requires
                    h ^ b == h ^ c,
            ;
        }
        let i1 = lemma_step_value(h, s[0]) - lemma_step_value(h, t[0]);
        let i2 = lemma_step_value(s1, s[1]) - lemma_step_value(t1, t[1]);
        let i3 = lemma_step_value(s2, s[2]) - lemma_step_value(t2, t[2]);
        let e2 = (x2 - y2) - (s1 - t1);
        let e3 = (x3 - y3) - (s2 - t2);
        let e4 = (x4 - y4) - (s3 - t3);
        assert(s1 - t1 == 1099511628211 * (x1 - y1) - 0x1_0000_0000_0000_0000 * i1);
        assert(s2 - t2 == 1099511628211 * (x2 - y2) - 0x1_0000_0000_0000_0000 * i2);
        assert(s3 - t3 == 1099511628211 * (x3 - y3) - 0x1_0000_0000_0000_0000 * i3);
        lemma_small_weights(x1 - y1, e2, e3, e4, 1208925820571204291060521 * i1 + 1099511628211 * i2 + i3);
    }
}

/// Whether two byte sequences of one length differ, and only within four places
/// in a row.
pub open spec fn close(p: Seq<u8>, q: Seq<u8>) -> bool {
    p.len() == q.len() && p != q && exists|i: int| #[trigger] apart_from(p, q, i)
}

/// Whether two byte sequences agree but for the four places from `i` on.
pub open spec fn apart_from(p: Seq<u8>, q: Seq<u8>, i: int) -> bool {
    forall|j: int| 0 <= j < p.len() && !(i <= j < i + 4) ==> p[j] == q[j]
}

/// A change within four bytes in a row always changes the hash.
pub proof fn law_a_short_change_changes_the_hash(p: Seq<u8>, q: Seq<u8>)
    requires
        close(p, q),
    ensures
        fnv1a(p) != fnv1a(q),
{
    let i = choose|i: int| #[trigger] apart_from(p, q, i);
    if forall|j: int| 0 <= j < p.len() ==> p[j] == q[j] {
        assert(p =~= q);
    }
    let d = choose|j: int| 0 <= j < p.len() && p[j] != q[j];
    let f: int = if 0 <= i && p[i] != q[i] {
        i
    } else if 0 <= i + 1 && p[i + 1] != q[i + 1] {
        i + 1
    } else if 0 <= i + 2 && p[i + 2] != q[i + 2] {
        i + 2
    } else {
        i + 3
    };
    assert(i <= d < i + 4);
    lemma_first_apart(p, q, f);
}

proof fn lemma_first_apart(p: Seq<u8>, q: Seq<u8>, f: int)
    requires
        p.len() == q.len(),
        0 <= f < p.len(),
        p[f] != q[f],
        apart_from(p, q, f),
    ensures
        fnv1a(p) != fnv1a(q),
{
    // Bytes behind the end keep what the hashes say of each other.
    let pad = seq![0u8, 0u8, 0u8];
    let (s, t) = (p + pad, q + pad);
    let (head, tail) = (p.take(f), s.skip(f + 4));
    let (x, y) = (s.subrange(f, f + 4), t.subrange(f, f + 4));
    assert(s =~= (head + x) + tail);
    assert(t =~= (head + y) + tail);
    if fnv1a(p) == fnv1a(q) {
        lemma_fnv_from(p, pad);
        lemma_fnv_from(q, pad);
        lemma_fnv_from(head + x, tail);
        lemma_fnv_from(head + y, tail);
        lemma_from_injective(fnv1a(head + x), fnv1a(head + y), tail);
        lemma_fnv_from(head, x);
        lemma_fnv_from(head, y);
        lemma_four_bytes(fnv1a(head), x, y);
    }
}

proof fn lemma_close_inside(a: Seq<u8>, p: Seq<u8>, q: Seq<u8>, b: Seq<u8>)
    requires
        close(p, q),
    ensures
        close((a + p) + b, (a + q) + b),
{
    let i = choose|i: int| #[trigger] apart_from(p, q, i);
    let (s, t) = ((a + p) + b, (a + q) + b);
    let k = a.len() + i;
    assert forall|j: int| 0 <= j < s.len() && !(k <= j < k + 4) implies s[j] == t[j] by {
        if a.len() <= j < a.len() + p.len() {
            assert(p[j - a.len()] == q[j - a.len()]);
        }
    }
    assert(apart_from(s, t, k));
    if s == t {
        assert(p =~= s.subrange(a.len() as int, (a + p).len() as int));
        assert(q =~= t.subrange(a.len() as int, (a + p).len() as int));
    }
}

proof fn lemma_close_piece(ps: Seq<Seq<u8>>, k: int, x: Seq<u8>)
    requires
        0 <= k < ps.len(),
        close(ps[k], x),
    ensures
        close(laid(ps), laid(ps.update(k, x))),
    decreases ps.len(),
{
    let e = Seq::<u8>::empty();
    let qs = ps.update(k, x);
    if k == ps.len() - 1 {
        assert(qs.drop_last() =~= ps.drop_last());
        lemma_close_inside(laid(ps.drop_last()), ps[k], x, e);
        assert((laid(ps.drop_last()) + ps[k]) + e =~= laid(ps));
        assert((laid(ps.drop_last()) + x) + e =~= laid(qs));
    } else {
        assert(qs.drop_last() =~= ps.drop_last().update(k, x));
        lemma_close_piece(ps.drop_last(), k, x);
        lemma_close_inside(e, laid(ps.drop_last()), laid(qs.drop_last()), ps.last());
        assert((e + laid(ps.drop_last())) + ps.last() =~= laid(ps));
        assert((e + laid(qs.drop_last())) + ps.last() =~= laid(qs));
    }
}

proof fn lemma_flags_close(x: bool, y: bool)
    requires
        x != y,
    ensures
        close(flag(x), flag(y)),
{
    assert(flag(x)[0] != flag(y)[0]);
    assert(apart_from(flag(x), flag(y), 0));
}

/// Whether two numbers differ in one half of their bits only. So do the bit
/// patterns of two reals of at most twenty binary places.
pub open spec fn near(x: u64, y: u64) -> bool {
    x != y && (x / 0x1_0000_0000 == y / 0x1_0000_0000 || x % 0x1_0000_0000 == y % 0x1_0000_0000)
}

proof fn lemma_numbers_close(x: u64, y: u64)
    requires
        near(x, y),
    ensures
        close(num(x), num(y)),
{
    spec_u64_to_le_bytes_to_open(x);
    spec_u64_to_le_bytes_to_open(y);
    lemma_num(x, y);
    if x / 0x1_0000_0000 == y / 0x1_0000_0000 {
        assert((x >> 32) == (y >> 32) && (x >> 40) == (y >> 40) && (x >> 48) == (y >> 48) && (x
            >> 56) == (y >> 56)) by (bit_vector)
            requires
                x / 0x1_0000_0000 == y / 0x1_0000_0000,
        ;
        assert(apart_from(num(x), num(y), 0));
    } else {
        assert((x & 0xff) == (y & 0xff) && ((x >> 8) & 0xff) == ((y >> 8) & 0xff) && ((x >> 16)
            & 0xff) == ((y >> 16) & 0xff) && ((x >> 24) & 0xff) == ((y >> 24) & 0xff))
            by (bit_vector)
            requires
                x % 0x1_0000_0000 == y % 0x1_0000_0000,
        ;
        assert(apart_from(num(x), num(y), 4));
    }
}

/// Whether two optional numbers are both there and near.
pub open spec fn both_near(x: Option<u64>, y: Option<u64>) -> bool {
    x is Some && y is Some && near(x->0, y->0)
}

/// Whether two shadows are both there and one offset of theirs differs, and is
/// near.
pub open spec fn shadows_near(x: Option<Shadow<u64>>, y: Option<Shadow<u64>>) -> bool {
    match (x, y) {
        (Some(v), Some(w)) => (v.dx == w.dx && near(v.dy, w.dy)) || (v.dy == w.dy && near(
            v.dx,
            w.dx,
        )),
        _ => false,
    }
}

proof fn lemma_options_close(x: Option<u64>, y: Option<u64>)
    requires
        both_near(x, y),
    ensures
        close(opt_num(x), opt_num(y)),
{
    let e = Seq::<u8>::empty();
    lemma_numbers_close(x->0, y->0);
    lemma_close_inside(flag(true), num(x->0), num(y->0), e);
    assert((flag(true) + num(x->0)) + e =~= opt_num(x));
    assert((flag(true) + num(y->0)) + e =~= opt_num(y));
}

proof fn lemma_colors_close(x: Option<u32>, y: Option<u32>)
    requires
        x is Some,
        y is Some,
        x != y,
    ensures
        close(opt_color(x), opt_color(y)),
{
    lemma_options_close(Some(x->0 as u64), Some(y->0 as u64));
}

proof fn lemma_shadows_close(x: Option<Shadow<u64>>, y: Option<Shadow<u64>>)
    requires
        shadows_near(x, y),
    ensures
        close(opt_shadow(x), opt_shadow(y)),
{
    let e = Seq::<u8>::empty();
    let (v, w) = (x->0, y->0);
    if v.dx == w.dx {
        lemma_numbers_close(v.dy, w.dy);
        lemma_close_inside(flag(true) + num(v.dx), num(v.dy), num(w.dy), e);
        assert(((flag(true) + num(v.dx)) + num(v.dy)) + e =~= opt_shadow(x));
        assert(((flag(true) + num(v.dx)) + num(w.dy)) + e =~= opt_shadow(y));
    } else {
        lemma_numbers_close(v.dx, w.dx);
        lemma_close_inside(flag(true), num(v.dx), num(w.dx), num(v.dy));
    }
}

/// Whether two styles differ in one setting: any change of a colour, of a flag or
/// of a choice, and a near one of a number; what is optional is there in both.
pub open spec fn one_setting_apart(s: ElementStyle<u64>, t: ElementStyle<u64>) -> bool {
    ||| t == (ElementStyle { stroke: t.stroke, ..s }) && s.stroke != t.stroke
    ||| t == (ElementStyle { stroke_none: t.stroke_none, ..s }) && s.stroke_none != t.stroke_none
    ||| t == (ElementStyle { background: t.background, ..s }) && (s.background is Some && t.background is Some && s.background != t.background)
    ||| t == (ElementStyle { stroke_width: t.stroke_width, ..s }) && near(s.stroke_width, t.stroke_width)
    ||| t == (ElementStyle { roughness: t.roughness, ..s }) && near(s.roughness, t.roughness)
    ||| t == (ElementStyle { stroke_style: t.stroke_style, ..s }) && s.stroke_style != t.stroke_style
    ||| t == (ElementStyle { line_type: t.line_type, ..s }) && s.line_type != t.line_type
    ||| t == (ElementStyle { fill_style: t.fill_style, ..s }) && s.fill_style != t.fill_style
    ||| t == (ElementStyle { brush: t.brush, ..s }) && s.brush != t.brush
    ||| t == (ElementStyle { hachure_gap: t.hachure_gap, ..s }) && both_near(s.hachure_gap, t.hachure_gap)
    ||| t == (ElementStyle { fill_weight: t.fill_weight, ..s }) && both_near(s.fill_weight, t.fill_weight)
    ||| t == (ElementStyle { hachure_angle: t.hachure_angle, ..s }) && both_near(s.hachure_angle, t.hachure_angle)
    ||| t == (ElementStyle { dry_density: t.dry_density, ..s }) && both_near(s.dry_density, t.dry_density)
    ||| t == (ElementStyle { dry_width: t.dry_width, ..s }) && both_near(s.dry_width, t.dry_width)
    ||| t == (ElementStyle { opacity: t.opacity, ..s }) && near(s.opacity, t.opacity)
    ||| t == (ElementStyle { shadow: t.shadow, ..s }) && shadows_near(s.shadow, t.shadow)
}

/// Whether two boxes differ in one near number.
pub open spec fn one_side_apart(b: WBounds<u64>, c: WBounds<u64>) -> bool {
    ||| c == (WBounds { x: c.x, ..b }) && near(b.x, c.x)
    ||| c == (WBounds { y: c.y, ..b }) && near(b.y, c.y)
    ||| c == (WBounds { w: c.w, ..b }) && near(b.w, c.w)
    ||| c == (WBounds { h: c.h, ..b }) && near(b.h, c.h)
}

/// Whether two elements differ in one near number of the box, in a near seed or
/// in one setting of the style.
pub open spec fn one_input_apart(a: ElementV<u64>, b: ElementV<u64>) -> bool {
    ||| b == (ElementV { seed: b.seed, ..a }) && near(a.seed, b.seed)
    ||| b == (ElementV { bounds: b.bounds, ..a }) && one_side_apart(a.bounds, b.bounds)
    ||| b == (ElementV { style: b.style, ..a }) && one_setting_apart(a.style, b.style)
}

/// The fingerprint changes for certain when the seed, the box or one setting of
/// the style does within four bytes, whatever was hashed before. For other
/// changes the hashed bytes differ, and equal hashes of them cannot be ruled
/// out.
pub proof fn law_a_changed_input_changes_the_fingerprint(
    acc: Seq<u8>,
    a: ElementV<u64>,
    b: ElementV<u64>,
)
    requires
        one_input_apart(a, b),
    ensures
        fnv1a(element_onto(acc, a)) != fnv1a(element_onto(acc, b)),
{
    let (sa, sb) = (style_pieces(a.style), style_pieces(b.style));
    let (ha, hb) = (head_pieces(a), head_pieces(b));
    let (xa, xb) = (head_onto(acc, a.id, a.seed, a.bounds), head_onto(acc, b.id, b.seed, b.bounds));
    let ka = num(tag(a.kind)) + payload(a.kind);
    lemma_head_laid(acc, a);
    lemma_head_laid(acc, b);
    lemma_style_laid(xa, a.style);
    lemma_style_laid(xb, b.style);
    lemma_kind_split(style_onto(xa, a.style), a.kind);
    lemma_kind_split(style_onto(xb, b.style), b.kind);
    if a.style == b.style {
        lemma_head_close(a, b);
        lemma_close_inside(acc, laid(ha), laid(hb), laid(sa) + ka);
        assert(element_onto(acc, a) =~= (acc + laid(ha)) + (laid(sa) + ka));
        assert(element_onto(acc, b) =~= (acc + laid(hb)) + (laid(sa) + ka));
    } else {
        lemma_style_close(a.style, b.style);
        lemma_close_inside(xa, laid(sa), laid(sb), ka);
    }
    law_a_short_change_changes_the_hash(element_onto(acc, a), element_onto(acc, b));
}

proof fn lemma_head_close(a: ElementV<u64>, b: ElementV<u64>)
    requires
        one_input_apart(a, b),
        a.style == b.style,
    ensures
        close(laid(head_pieces(a)), laid(head_pieces(b))),
{
    let (ps, qs) = (head_pieces(a), head_pieces(b));
    let (c, d) = (a.bounds, b.bounds);
    let k: int = if a.seed != b.seed {
        lemma_numbers_close(a.seed, b.seed);
        1
    } else if c.x != d.x {
        lemma_numbers_close(c.x, d.x);
        2
    } else if c.y != d.y {
        lemma_numbers_close(c.y, d.y);
        3
    } else if c.w != d.w {
        lemma_numbers_close(c.w, d.w);
        4
    } else {
        lemma_numbers_close(c.h, d.h);
        5
    };
    assert(qs =~= ps.update(k, qs[k]));
    lemma_close_piece(ps, k, qs[k]);
}

proof fn lemma_style_close(s: ElementStyle<u64>, t: ElementStyle<u64>)
    requires
        one_setting_apart(s, t),
    ensures
        close(laid(style_pieces(s)), laid(style_pieces(t))),
{
    let (ps, qs) = (style_pieces(s), style_pieces(t));
    if s.stroke != t.stroke {
        lemma_numbers_close(s.stroke as u64, t.stroke as u64);
        assert(qs =~= ps.update(0, qs[0]));
        lemma_close_piece(ps, 0, qs[0]);
    } else if s.stroke_none != t.stroke_none {
        lemma_flags_close(s.stroke_none, t.stroke_none);
        assert(qs =~= ps.update(1, qs[1]));
        lemma_close_piece(ps, 1, qs[1]);
    } else if s.background != t.background {
        lemma_colors_close(s.background, t.background);
        assert(qs =~= ps.update(2, qs[2]));
        lemma_close_piece(ps, 2, qs[2]);
    } else if s.stroke_width != t.stroke_width {
        lemma_numbers_close(s.stroke_width, t.stroke_width);
        assert(qs =~= ps.update(3, qs[3]));
        lemma_close_piece(ps, 3, qs[3]);
    } else if s.roughness != t.roughness {
        lemma_numbers_close(s.roughness, t.roughness);
        assert(qs =~= ps.update(4, qs[4]));
        lemma_close_piece(ps, 4, qs[4]);
    } else if s.stroke_style != t.stroke_style {
        lemma_flags_close(
            s.stroke_style == StrokeStyle::Dashed,
            t.stroke_style == StrokeStyle::Dashed,
        );
        assert(qs =~= ps.update(5, qs[5]));
        lemma_close_piece(ps, 5, qs[5]);
    } else if s.line_type != t.line_type {
        lemma_flags_close(s.line_type == LineType::Curved, t.line_type == LineType::Curved);
        assert(qs =~= ps.update(6, qs[6]));
        lemma_close_piece(ps, 6, qs[6]);
    } else if s.fill_style != t.fill_style {
        lemma_numbers_close(fill_code(s.fill_style), fill_code(t.fill_style));
        assert(qs =~= ps.update(7, qs[7]));
        lemma_close_piece(ps, 7, qs[7]);
    } else if s.brush != t.brush {
        lemma_numbers_close(brush_code(s.brush), brush_code(t.brush));
        assert(qs =~= ps.update(8, qs[8]));
        lemma_close_piece(ps, 8, qs[8]);
    } else if s.hachure_gap != t.hachure_gap {
        lemma_options_close(s.hachure_gap, t.hachure_gap);
        assert(qs =~= ps.update(9, qs[9]));
        lemma_close_piece(ps, 9, qs[9]);
    } else if s.fill_weight != t.fill_weight {
        lemma_options_close(s.fill_weight, t.fill_weight);
        assert(qs =~= ps.update(10, qs[10]));
        lemma_close_piece(ps, 10, qs[10]);
    } else if s.hachure_angle != t.hachure_angle {
        lemma_options_close(s.hachure_angle, t.hachure_angle);
        assert(qs =~= ps.update(11, qs[11]));
        lemma_close_piece(ps, 11, qs[11]);
    } else if s.dry_density != t.dry_density {
        lemma_options_close(s.dry_density, t.dry_density);
        assert(qs =~= ps.update(12, qs[12]));
        lemma_close_piece(ps, 12, qs[12]);
    } else if s.dry_width != t.dry_width {
        lemma_options_close(s.dry_width, t.dry_width);
        assert(qs =~= ps.update(13, qs[13]));
        lemma_close_piece(ps, 13, qs[13]);
    } else if s.opacity != t.opacity {
        lemma_numbers_close(s.opacity, t.opacity);
        assert(qs =~= ps.update(14, qs[14]));
        lemma_close_piece(ps, 14, qs[14]);
    } else if s.shadow != t.shadow {
        lemma_shadows_close(s.shadow, t.shadow);
        assert(qs =~= ps.update(15, qs[15]));
        lemma_close_piece(ps, 15, qs[15]);
    }
}

} // verus!
