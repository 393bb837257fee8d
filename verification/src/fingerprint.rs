//! Element fingerprints: a 64-bit hash over every input that rendering reads,
//! so that a cached rendering is reused exactly while nothing relevant
//! changed. Real numbers enter by their bit patterns.

use vstd::prelude::*;
use vstd::bytes::spec_u64_to_le_bytes;
use vstd::bytes::u64_to_le_bytes;
use crate::element::{
    stroke_views, Brush, CanvasBrush, CanvasStroke, Element, ElementKind, ElementStyle, ElementV,
    FillStyle, KindV, LineType, Shadow, StrokeStyle, StrokeV, TextAlign, WBounds, WPoint,
};
use crate::ids::id_bytes;
use crate::ids::ElementId;

verus! {

/// The start value of the hash.
pub const FNV_OFFSET: u64 = 0xcbf29ce484222325;

/// The multiplier of the hash.
pub const FNV_PRIME: u64 = 0x100000001b3;

/// One step of the hash: mix in a byte, then multiply modulo 2^64.
pub open spec fn fnv_step(h: u64, b: u8) -> u64 {
    (((h ^ (b as u64)) * FNV_PRIME) % 0x1_0000_0000_0000_0000) as u64
}

/// The FNV-1a hash of a byte sequence.
pub open spec fn fnv1a(bytes: Seq<u8>) -> u64
    decreases bytes.len(),
{
    if bytes.len() == 0 {
        FNV_OFFSET
    } else {
        fnv_step(fnv1a(bytes.drop_last()), bytes.last())
    }
}

/// The bytes of a number: least significant first.
pub open spec fn num(v: u64) -> Seq<u8> {
    spec_u64_to_le_bytes(v)
}

/// The byte of a flag.
pub open spec fn flag(v: bool) -> Seq<u8> {
    seq![if v {
        1u8
    } else {
        0u8
    }]
}

/// A string: its UTF-8 bytes and a terminator that no UTF-8 holds.
pub open spec fn text_bytes(s: Seq<char>) -> Seq<u8> {
    vstd::utf8::encode_utf8(s).push(0xff)
}

/// An optional number: a flag, then the number when there is one.
pub open spec fn opt_num(v: Option<u64>) -> Seq<u8> {
    match v {
        Some(x) => flag(true) + num(x),
        None => flag(false),
    }
}

/// An optional identity: a flag, then its bytes when there is one.
pub open spec fn opt_id(v: Option<ElementId>) -> Seq<u8> {
    match v {
        Some(x) => flag(true) + id_bytes(x.value),
        None => flag(false),
    }
}

/// A list of numbers, one after another.
pub open spec fn nums(s: Seq<u64>) -> Seq<u8>
    decreases s.len(),
{
    if s.len() == 0 {
        Seq::empty()
    } else {
        nums(s.drop_last()) + num(s.last())
    }
}

/// The coordinates of points, x before y.
pub open spec fn coords(s: Seq<WPoint<u64>>) -> Seq<u8>
    decreases s.len(),
{
    if s.len() == 0 {
        Seq::empty()
    } else {
        coords(s.drop_last()) + num(s.last().x) + num(s.last().y)
    }
}

/// A list of points: their number, then their coordinates.
pub open spec fn points_bytes(s: Seq<WPoint<u64>>) -> Seq<u8> {
    num(s.len() as u64) + coords(s)
}

/// The code of a fill style.
pub open spec fn fill_code(f: FillStyle) -> u64 {
    match f {
        FillStyle::Hachure => 0,
        FillStyle::Dense => 1,
        FillStyle::Solid => 2,
        FillStyle::Watercolor => 3,
        FillStyle::Gradient => 4,
    }
}

/// The code of an optional brush.
pub open spec fn brush_code(b: Option<Brush>) -> u64 {
    match b {
        None => 0,
        Some(Brush::Ink) => 1,
        Some(Brush::Pencil) => 2,
        Some(Brush::DryBrush) => 3,
    }
}

/// The code of a canvas brush.
pub open spec fn canvas_brush_code(b: CanvasBrush) -> u64 {
    match b {
        CanvasBrush::Ink => 0,
        CanvasBrush::Watercolor => 1,
        CanvasBrush::DryBrush => 2,
    }
}

/// The code of a text alignment.
pub open spec fn align_code(a: TextAlign) -> u64 {
    match a {
        TextAlign::Left => 0,
        TextAlign::Center => 1,
        TextAlign::Right => 2,
    }
}

/// An optional colour: a flag, then the colour when there is one.
pub open spec fn opt_color(c: Option<u32>) -> Seq<u8> {
    match c {
        Some(x) => flag(true) + num(x as u64),
        None => flag(false),
    }
}

/// An optional shadow: a flag, then its offset when there is one.
pub open spec fn opt_shadow(s: Option<Shadow<u64>>) -> Seq<u8> {
    match s {
        Some(x) => flag(true) + num(x.dx) + num(x.dy),
        None => flag(false),
    }
}

/// `acc` followed by the identity, seed and box of an element.
pub open spec fn head_onto(acc: Seq<u8>, id: ElementId, seed: u64, b: WBounds<u64>) -> Seq<u8> {
    acc + id_bytes(id.value) + num(seed) + num(b.x) + num(b.y) + num(b.w) + num(b.h)
}

/// `acc` followed by the style of an element.
pub open spec fn style_onto(acc: Seq<u8>, s: ElementStyle<u64>) -> Seq<u8> {
    acc + num(s.stroke as u64) + flag(s.stroke_none) + opt_color(s.background) + num(s.stroke_width)
        + num(s.roughness) + flag(s.stroke_style == StrokeStyle::Dashed) + flag(
        s.line_type == LineType::Curved,
    ) + num(fill_code(s.fill_style)) + num(brush_code(s.brush)) + opt_num(s.hachure_gap) + opt_num(
        s.fill_weight,
    ) + opt_num(s.hachure_angle) + opt_num(s.dry_density) + opt_num(s.dry_width) + num(s.opacity)
        + opt_shadow(s.shadow)
}

/// `acc` followed by one canvas stroke.
pub open spec fn stroke_onto(acc: Seq<u8>, s: StrokeV<u64>) -> Seq<u8> {
    acc + points_bytes(s.points) + nums(s.widths) + num(s.color as u64) + num(s.width) + num(
        canvas_brush_code(s.brush),
    ) + num(s.opacity)
}

/// `acc` followed by canvas strokes in order.
pub open spec fn strokes_onto(acc: Seq<u8>, s: Seq<StrokeV<u64>>) -> Seq<u8>
    decreases s.len(),
{
    if s.len() == 0 {
        acc
    } else {
        stroke_onto(strokes_onto(acc, s.drop_last()), s.last())
    }
}

/// `acc` followed by the kind tag of an element and its payload.
pub open spec fn kind_onto(acc: Seq<u8>, k: KindV<u64>) -> Seq<u8> {
    match k {
        KindV::Rectangle => acc + num(1),
        KindV::Ellipse => acc + num(2),
        KindV::Diamond => acc + num(3),
        KindV::Line { points } => acc + num(4) + points_bytes(points),
        KindV::Arrow { points, end_arrowhead, start_arrowhead } => acc + num(5) + points_bytes(
            points,
        ) + flag(end_arrowhead) + flag(start_arrowhead),
        KindV::Freedraw { points, widths } => acc + num(6) + points_bytes(points) + nums(widths),
        KindV::Polygon { points, smooth } => acc + num(8) + flag(smooth) + points_bytes(points),
        KindV::Image { asset } => acc + num(9) + text_bytes(asset),
        KindV::Canvas { strokes } => strokes_onto(acc + num(10) + num(strokes.len() as u64), strokes),
        KindV::Text {
            text,
            font_size,
            font_family,
            wrap_width,
            min_height,
            container_id,
            text_align,
            anchor,
        } => acc + num(7) + text_bytes(text) + num(font_size) + text_bytes(font_family) + opt_num(
            wrap_width,
        ) + opt_num(min_height) + opt_id(container_id) + num(align_code(text_align)),
    }
}

/// `acc` followed by every rendering-relevant input of an element.
pub open spec fn element_onto(acc: Seq<u8>, e: ElementV<u64>) -> Seq<u8> {
    kind_onto(style_onto(head_onto(acc, e.id, e.seed, e.bounds), e.style), e.kind)
}

/// The bytes that an element's fingerprint hashes.
pub open spec fn element_bytes(e: ElementV<u64>) -> Seq<u8> {
    element_onto(Seq::empty(), e)
}

/// The bytes that the fingerprint of shaped text hashes.
pub open spec fn shaping_bytes(
    text: Seq<char>,
    font_size: u64,
    font_family: Seq<char>,
    wrap_width: Option<u64>,
    color: [u64; 4],
    zoom: u64,
) -> Seq<u8> {
    Seq::<u8>::empty() + text_bytes(text) + num(font_size) + text_bytes(font_family) + opt_num(
        wrap_width,
    ) + num(color[0]) + num(color[1]) + num(color[2]) + num(color[3]) + num(zoom)
}

/// An FNV-1a hasher. Its view is the sequence of bytes fed so far.
pub struct Fnv {
    state: u64,
    fed: Ghost<Seq<u8>>,
}

impl View for Fnv {
    type V = Seq<u8>;

    closed spec fn view(&self) -> Seq<u8> {
        self.fed@
    }
}

impl Fnv {
    #[verifier::type_invariant]
    spec fn consistent(self) -> bool {
        self.state == fnv1a(self.fed@)
    }

    /// A hasher that has been fed nothing.
    pub fn new() -> (r: Self)
        ensures
            r@ == Seq::<u8>::empty(),
    {
        Fnv { state: FNV_OFFSET, fed: Ghost(Seq::empty()) }
    }

    /// The hash of what was fed.
    pub fn finish(&self) -> (r: u64)
        ensures
            r == fnv1a(self@),
    {
        proof {
            use_type_invariant(self);
        }
        self.state
    }

    /// Feeds one byte.
    pub fn write_byte(&mut self, b: u8)
        ensures
            final(self)@ == old(self)@.push(b),
    {
        proof {
            use_type_invariant(&*self);
        }
        let ghost next = self.fed@.push(b);
        assert(next.drop_last() =~= self.fed@);
        let h: u64 = (self.state ^ (b as u64)).wrapping_mul(FNV_PRIME);
        *self = Fnv { state: h, fed: Ghost(next) };
    }

    /// Feeds bytes.
    pub fn write(&mut self, bytes: &[u8])
        ensures
            final(self)@ == old(self)@ + bytes@,
    {
        let mut i: usize = 0;
        let ghost start = self@;
        assert(start + bytes@.take(0) =~= start);
        while i < bytes.len()
            invariant
                i <= bytes.len(),
                self@ == start + bytes@.take(i as int),
            decreases bytes.len() - i,
        {
            self.write_byte(bytes[i]);
            i += 1;
            assert(start + bytes@.take(i as int) =~= (start + bytes@.take(i - 1)).push(
                bytes@[i - 1],
            ));
        }
        assert(bytes@.take(bytes@.len() as int) =~= bytes@);
    }

    /// Feeds a number.
    pub fn write_u64(&mut self, v: u64)
        ensures
            final(self)@ == old(self)@ + num(v),
    {
        let b: Vec<u8> = u64_to_le_bytes(v);
        self.write(b.as_slice());
    }

    /// Feeds a flag.
    pub fn write_bool(&mut self, v: bool)
        ensures
            final(self)@ == old(self)@ + flag(v),
    {
        let b: u8 = if v {
            1
        } else {
            0
        };
        let ghost start = self@;
        self.write_byte(b);
        assert(start.push(b) =~= start + flag(v));
    }

    /// Feeds a string and its terminator.
    pub fn write_str(&mut self, s: &str)
        ensures
            final(self)@ == old(self)@ + text_bytes(s@),
    {
        let ghost start = self@;
        self.write(s.as_bytes());
        self.write_byte(0xff);
        assert((start + vstd::utf8::encode_utf8(s@)).push(0xff) =~= start + text_bytes(s@));
    }

    /// Feeds an optional number.
    pub fn write_opt(&mut self, v: Option<u64>)
        ensures
            final(self)@ == old(self)@ + opt_num(v),
    {
        let ghost start = self@;
        match v {
            Some(x) => {
                self.write_bool(true);
                self.write_u64(x);
                assert((start + flag(true)) + num(x) =~= start + (flag(true) + num(x)));
            },
            None => {
                self.write_bool(false);
            },
        }
    }

    /// Feeds an optional identity.
    pub fn write_opt_id(&mut self, v: Option<ElementId>)
        ensures
            final(self)@ == old(self)@ + opt_id(v),
    {
        let ghost start = self@;
        match v {
            Some(x) => {
                self.write_bool(true);
                self.write(&x.bytes());
                assert((start + flag(true)) + id_bytes(x.value) =~= start + (flag(true) + id_bytes(
                    x.value,
                )));
            },
            None => {
                self.write_bool(false);
            },
        }
    }

    /// Feeds numbers one after another.
    pub fn write_nums(&mut self, v: &Vec<u64>)
        ensures
            final(self)@ == old(self)@ + nums(v@),
    {
        let ghost start = self@;
        let mut i: usize = 0;
        assert(start + nums(v@.take(0)) =~= start);
        while i < v.len()
            invariant
                i <= v.len(),
                self@ == start + nums(v@.take(i as int)),
            decreases v.len() - i,
        {
            self.write_u64(v[i]);
            i += 1;
            assert(v@.take(i as int).drop_last() =~= v@.take(i - 1));
            assert((start + nums(v@.take(i - 1))) + num(v@[i - 1]) =~= start + nums(
                v@.take(i as int),
            ));
        }
        assert(v@.take(v@.len() as int) =~= v@);
    }

    /// Feeds a list of points.
    pub fn write_points(&mut self, v: &Vec<WPoint<u64>>)
        ensures
            final(self)@ == old(self)@ + points_bytes(v@),
    {
        let ghost before = self@;
        self.write_u64(v.len() as u64);
        let ghost start = self@;
        let mut i: usize = 0;
        assert(start + coords(v@.take(0)) =~= start);
        while i < v.len()
            invariant
                i <= v.len(),
                self@ == start + coords(v@.take(i as int)),
            decreases v.len() - i,
        {
            self.write_u64(v[i].x);
            self.write_u64(v[i].y);
            i += 1;
            let ghost p = v@[i - 1];
            assert(v@.take(i as int).drop_last() =~= v@.take(i - 1));
            assert((start + coords(v@.take(i - 1))) + num(p.x) + num(p.y) =~= start + coords(
                v@.take(i as int),
            ));
        }
        assert(v@.take(v@.len() as int) =~= v@);
        assert(before + num(v@.len() as u64) + coords(v@) =~= before + points_bytes(v@));
    }

    /// Feeds the identity, seed and box of an element.
    fn write_head(&mut self, id: ElementId, seed: u64, b: WBounds<u64>)
        ensures
            final(self)@ == head_onto(old(self)@, id, seed, b),
    {
        self.write(&id.bytes());
        self.write_u64(seed);
        self.write_u64(b.x);
        self.write_u64(b.y);
        self.write_u64(b.w);
        self.write_u64(b.h);
    }

    /// Feeds a style.
    fn write_style(&mut self, s: &ElementStyle<u64>)
        ensures
            final(self)@ == style_onto(old(self)@, *s),
    {
        self.write_u64(s.stroke as u64);
        self.write_bool(s.stroke_none);
        self.write_opt_color(s.background);
        self.write_u64(s.stroke_width);
        self.write_u64(s.roughness);
        self.write_bool(s.stroke_style == StrokeStyle::Dashed);
        self.write_bool(s.line_type == LineType::Curved);
        self.write_u64(
            match s.fill_style {
                FillStyle::Hachure => 0,
                FillStyle::Dense => 1,
                FillStyle::Solid => 2,
                FillStyle::Watercolor => 3,
                FillStyle::Gradient => 4,
            },
        );
        self.write_u64(
            match s.brush {
                None => 0,
                Some(Brush::Ink) => 1,
                Some(Brush::Pencil) => 2,
                Some(Brush::DryBrush) => 3,
            },
        );
        self.write_opt(s.hachure_gap);
        self.write_opt(s.fill_weight);
        self.write_opt(s.hachure_angle);
        self.write_opt(s.dry_density);
        self.write_opt(s.dry_width);
        self.write_u64(s.opacity);
        self.write_opt_shadow(s.shadow);
    }

    fn write_opt_color(&mut self, c: Option<u32>)
        ensures
            final(self)@ == old(self)@ + opt_color(c),
    {
        let ghost start = self@;
        match c {
            Some(x) => {
                self.write_bool(true);
                self.write_u64(x as u64);
                assert((start + flag(true)) + num(x as u64) =~= start + (flag(true) + num(
                    x as u64,
                )));
            },
            None => {
                self.write_bool(false);
            },
        }
    }

    fn write_opt_shadow(&mut self, s: Option<Shadow<u64>>)
        ensures
            final(self)@ == old(self)@ + opt_shadow(s),
    {
        let ghost start = self@;
        match s {
            Some(x) => {
                self.write_bool(true);
                self.write_u64(x.dx);
                self.write_u64(x.dy);
                assert((start + flag(true)) + num(x.dx) + num(x.dy) =~= start + (flag(true) + num(
                    x.dx,
                ) + num(x.dy)));
            },
            None => {
                self.write_bool(false);
            },
        }
    }

    fn write_strokes(&mut self, v: &Vec<CanvasStroke<u64>>)
        ensures
            final(self)@ == strokes_onto(old(self)@, stroke_views(v@)),
    {
        let ghost start = self@;
        let ghost all = stroke_views(v@);
        let mut i: usize = 0;
        while i < v.len()
            invariant
                i <= v.len(),
                all == stroke_views(v@),
                self@ == strokes_onto(start, all.take(i as int)),
            decreases v.len() - i,
        {
            let s: &CanvasStroke<u64> = &v[i];
            self.write_points(&s.points);
            self.write_nums(&s.widths);
            self.write_u64(s.color as u64);
            self.write_u64(s.width);
            self.write_u64(
                match s.brush {
                    CanvasBrush::Ink => 0,
                    CanvasBrush::Watercolor => 1,
                    CanvasBrush::DryBrush => 2,
                },
            );
            self.write_u64(s.opacity);
            i += 1;
            assert(all.take(i as int).drop_last() =~= all.take(i - 1));
            assert(all.take(i as int).last() == v@[i - 1]@);
        }
        assert(all.take(all.len() as int) =~= all);
    }

    fn write_kind(&mut self, k: &ElementKind<u64>)
        ensures
            final(self)@ == kind_onto(old(self)@, k@),
    {
        match k {
            ElementKind::Rectangle => {
                self.write_u64(1);
            },
            ElementKind::Ellipse => {
                self.write_u64(2);
            },
            ElementKind::Diamond => {
                self.write_u64(3);
            },
            ElementKind::Line { points } => {
                self.write_u64(4);
                self.write_points(points);
            },
            ElementKind::Arrow { points, end_arrowhead, start_arrowhead } => {
                self.write_u64(5);
                self.write_points(points);
                self.write_bool(*end_arrowhead);
                self.write_bool(*start_arrowhead);
            },
            ElementKind::Freedraw { points, widths } => {
                self.write_u64(6);
                self.write_points(points);
                self.write_nums(widths);
            },
            ElementKind::Polygon { points, smooth } => {
                self.write_u64(8);
                self.write_bool(*smooth);
                self.write_points(points);
            },
            ElementKind::Image { asset } => {
                self.write_u64(9);
                self.write_str(asset.as_str());
            },
            ElementKind::Canvas { strokes } => {
                self.write_u64(10);
                self.write_u64(strokes.len() as u64);
                self.write_strokes(strokes);
            },
            ElementKind::Text {
                text,
                font_size,
                font_family,
                wrap_width,
                min_height,
                container_id,
                text_align,
                anchor: _,
            } => {
                self.write_u64(7);
                self.write_str(text.as_str());
                self.write_u64(*font_size);
                self.write_str(font_family.as_str());
                self.write_opt(*wrap_width);
                self.write_opt(*min_height);
                self.write_opt_id(*container_id);
                self.write_u64(
                    match text_align {
                        TextAlign::Left => 0,
                        TextAlign::Center => 1,
                        TextAlign::Right => 2,
                    },
                );
            },
        }
    }
}

/// Feeds every rendering-relevant input of an element.
pub fn fingerprint_into(h: &mut Fnv, el: &Element<u64>)
    ensures
        final(h)@ == element_onto(old(h)@, el@),
{
    h.write_head(el.id, el.seed, el.bounds);
    h.write_style(&el.style);
    h.write_kind(&el.kind);
}

/// The fingerprint of an element whose numbers are bit patterns.
pub fn fingerprint(el: &Element<u64>) -> (r: u64)
    ensures
        r == fnv1a(element_bytes(el@)),
{
    let mut h: Fnv = Fnv::new();
    fingerprint_into(&mut h, el);
    h.finish()
}

/// The fingerprint of text shaped at given parameters: everything that
/// shaping reads, and nothing else.
pub fn text_fingerprint(
    text: &str,
    font_size: u64,
    font_family: &str,
    wrap_width: Option<u64>,
    color: [u64; 4],
    zoom: u64,
) -> (r: u64)
    ensures
        r == fnv1a(shaping_bytes(text@, font_size, font_family@, wrap_width, color, zoom)),
{
    let mut h: Fnv = Fnv::new();
    h.write_str(text);
    h.write_u64(font_size);
    h.write_str(font_family);
    h.write_opt(wrap_width);
    h.write_u64(color[0]);
    h.write_u64(color[1]);
    h.write_u64(color[2]);
    h.write_u64(color[3]);
    h.write_u64(zoom);
    h.finish()
}

} // verus!
