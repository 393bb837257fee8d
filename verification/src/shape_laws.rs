//! What templates, pages, strokes and pixels keep of what they are made from.

use vstd::prelude::*;
use crate::chrome::kind_label_of;
use crate::element::{ElementStyle, ElementV, KindV, Shadow, WPoint};
use crate::element_laws::same_but_points;
use crate::ids::ElementId;
use crate::ink::{InkV, SampleFacts};
use crate::pages::{page_title, ratio_size, PageRatio};
use crate::pen::{sample_of, PEN_PRESSURE_MAX, PT_PEN};
use crate::raster::{
    on_canvas, pixel_offset, surface_pixel, touches, touching, with_pixel, SegRange,
};
use crate::scene::{has_id, lemma_place_of, place_of};
use crate::templates::{
    all_hints, copied, first_few, first_line, forbidden, hint, hints_for, joined_by, outline_points,
    parse_kind, solid, solid_label, text_lines, turned_kind, turned_style,
    turns_into_points, TemplateKind,
};
use crate::text::trim_spec;

verus! {

/// A turned rectangle or rhombus is a straight polygon and a turned ellipse a
/// smooth one, through the turned points; a path stays what it was, through the
/// turned points; texts, images and canvases do not turn.
pub proof fn law_turned_shapes_go_through_the_turned_points<F>(k: KindV<F>, points: Seq<WPoint<F>>)
    ensures
        ({
            let t = turned_kind(k, points);
            &&& k is Rectangle || k is Diamond ==> t == (KindV::Polygon { points, smooth: false })
            &&& k is Ellipse ==> t == (KindV::Polygon { points, smooth: true })
            &&& k is Line || k is Arrow || k is Freedraw || k is Polygon ==> t.points() == points
                && same_but_points(k, t)
            &&& k is Text || k is Image || k is Canvas ==> t == k && !turns_into_points(k)
            &&& turns_into_points(k) ==> t.points() == points
            &&& k is Rectangle || k is Diamond ==> outline_points(k) == 4
            &&& k is Line || k is Arrow || k is Freedraw || k is Polygon ==> outline_points(k)
                == k.points().len()
            &&& turns_into_points(k) <==> k is Rectangle || k is Diamond || k is Ellipse || k is Line
                || k is Arrow || k is Freedraw || k is Polygon
        }),
{
}

/// Only the shadow of a style turns along, and only where there is one.
pub proof fn law_only_shadows_turn<F>(s: ElementStyle<F>, shadow: Shadow<F>)
    ensures
        s.shadow is Some ==> turned_style(s, shadow).shadow == Some(shadow),
        s.shadow is None ==> turned_style(s, shadow) == s,
        turned_style(s, shadow) == (ElementStyle { shadow: turned_style(s, shadow).shadow, ..s }),
{
}

/// The copy of an element has the fresh identity and is otherwise the element: a
/// label of a copied container labels the copy of that container.
pub proof fn law_copies_are_like_their_originals<F>(
    s: Seq<ElementV<F>>,
    fresh: Seq<ElementId>,
    i: int,
)
    requires
        fresh.len() == s.len(),
        0 <= i < s.len(),
    ensures
        ({
            let c = copied(s, fresh, i);
            &&& c.id == fresh[i]
            &&& c.bounds == s[i].bounds && c.style == s[i].style && c.seed == s[i].seed
            &&& !(s[i].kind is Text) ==> c.kind == s[i].kind
            &&& s[i].kind is Text ==> {
                &&& c.kind is Text
                &&& c.kind->Text_text == s[i].kind->Text_text
                &&& c.kind->font_size == s[i].kind->font_size
                &&& c.kind->font_family == s[i].kind->font_family
                &&& c.kind->wrap_width == s[i].kind->wrap_width
                &&& c.kind->min_height == s[i].kind->min_height
                &&& c.kind->text_align == s[i].kind->text_align
                &&& c.kind->anchor == s[i].kind->anchor
                &&& match s[i].kind->container_id {
                    Some(k) => if has_id(s, k) {
                        c.kind->container_id == Some(copied(s, fresh, place_of(s, k)).id)
                    } else {
                        c.kind->container_id is None
                    },
                    None => c.kind->container_id is None,
                }
            }
        }),
{
    if s[i].kind is Text {
        if let Some(k) = s[i].kind->container_id {
            lemma_place_of(s, k);
        }
    }
}

/// The kind of a template is read from its English name or from either of its
/// Chinese ones, whatever white space is around it, and from nothing else.
pub proof fn law_template_kinds_are_read_by_name(s: Seq<char>)
    ensures
        ({
            let t = trim_spec(s);
            &&& t == "character"@ || t == "角色"@ || t == "人物"@ <==> parse_kind(s) == Some(
                TemplateKind::Character,
            )
            &&& t == "scene"@ || t == "场景"@ || t == "背景"@ <==> parse_kind(s) == Some(
                TemplateKind::Scene,
            )
            &&& t == "prop"@ || t == "道具"@ || t == "物件"@ <==> parse_kind(s) == Some(
                TemplateKind::Prop,
            )
        }),
{
    reveal_strlit("character");
    reveal_strlit("角色");
    reveal_strlit("人物");
    reveal_strlit("scene");
    reveal_strlit("场景");
    reveal_strlit("背景");
    reveal_strlit("prop");
    reveal_strlit("道具");
    reveal_strlit("物件");
    assert("character"@.len() == 9 && "scene"@.len() == 5 && "prop"@.len() == 4);
    assert("角色"@[0] == '角' && "人物"@[0] == '人' && "场景"@[0] == '场' && "背景"@[0] == '背'
        && "道具"@[0] == '道' && "物件"@[0] == '物');
    assert("角色"@.len() == 2 && "人物"@.len() == 2 && "场景"@.len() == 2 && "背景"@.len() == 2
        && "道具"@.len() == 2 && "物件"@.len() == 2);
}

/// A template name may not hold what a file name may not.
pub proof fn law_separators_are_forbidden(c: char)
    ensures
        c == '/' || c == '\\' || c == ':' || c == '*' || c == '?' || c == '"' || c == '<' || c == '>'
            || c == '|' ==> forbidden(c),
        c == '\n' || c == '\t' || c as u32 == 0 ==> forbidden(c),
        'a' <= c <= 'z' || 'A' <= c <= 'Z' || '0' <= c <= '9' || c == ' ' || c == '-' || c == '_' || c
            == '.' ==> !forbidden(c),
        0x3001 <= c as u32 ==> !forbidden(c),
{
}

/// The texts of a template are the first lines of its text elements that are not
/// empty, in paint order.
pub proof fn law_summaries_hold_first_lines<F>(s: Seq<ElementV<F>>, i: int)
    requires
        0 <= i < s.len(),
    ensures
        (s[i].kind matches KindV::Text { text, .. } && first_line(text).len() > 0) ==> text_lines(
            s,
        ).contains(first_line(s[i].kind->Text_text)),
        forall|k: int|
            0 <= k < text_lines(s).len() ==> exists|j: int|
                0 <= j < s.len() && (#[trigger] s[j]).kind is Text && first_line(
                    s[j].kind->Text_text,
                ) == #[trigger] text_lines(s)[k] && text_lines(s)[k].len() > 0,
        text_lines(s).len() <= s.len(),
    decreases s.len(),
{
    let d = s.drop_last();
    let (r, q) = (text_lines(s), text_lines(d));
    if d.len() > 0 {
        law_summaries_hold_first_lines(
            d,
            if i < d.len() {
                i
            } else {
                0
            },
        );
    } else {
        assert(q.len() == 0);
    }
    assert forall|k: int| 0 <= k < r.len() implies exists|j: int|
        0 <= j < s.len() && (#[trigger] s[j]).kind is Text && first_line(s[j].kind->Text_text)
            == #[trigger] r[k] && r[k].len() > 0 by {
        if k < q.len() {
            assert(r[k] == q[k]);
            let j = choose|j: int|
                0 <= j < d.len() && (#[trigger] d[j]).kind is Text && first_line(
                    d[j].kind->Text_text,
                ) == q[k] && q[k].len() > 0;
            assert(s[j] == d[j]);
        } else {
            assert(s[s.len() - 1].kind is Text);
        }
    }
    if i == s.len() - 1 {
        if s[i].kind is Text && first_line(s[i].kind->Text_text).len() > 0 {
            assert(r[q.len() as int] == first_line(s[i].kind->Text_text));
        }
    } else if s[i].kind is Text && first_line(s[i].kind->Text_text).len() > 0 {
        assert(d[i] == s[i]);
        let x = first_line(s[i].kind->Text_text);
        let k = choose|k: int| 0 <= k < q.len() && q[k] == x;
        assert(r[k] == x);
    }
}

/// The first few of a list are its beginning, all of it when it is short.
pub proof fn law_the_first_few_are_the_beginning<A>(s: Seq<A>, n: nat)
    ensures
        first_few(s, n).len() <= n,
        first_few(s, n).len() == s.len() || first_few(s, n).len() == n,
        s.take(first_few(s, n).len() as int) == first_few(s, n),
{
    assert(s.take(s.len() as int) =~= s);
}

/// Shapes, polygons and pictures are solid, and are called in a hint as on the
/// info card.
pub proof fn law_solid_elements_are_called_by_their_kind<F>(k: KindV<F>)
    ensures
        solid(k) <==> k is Rectangle || k is Ellipse || k is Diamond || k is Polygon || k is Image,
        solid(k) ==> solid_label(k) == kind_label_of(k),
{
}

/// Whether `h` is the hint of an overlap with element `j`.
pub open spec fn hinted<F>(
    new: ElementV<F>,
    existing: Seq<ElementV<F>>,
    overlaps: Seq<Option<String>>,
    j: int,
    h: Seq<char>,
) -> bool {
    0 <= j < existing.len() && overlaps[j] is Some && solid(new.kind) && solid(existing[j].kind) && h
        == hint(new, existing[j], overlaps[j]->Some_0@)
}

/// Whether `h` is the hint of some overlap.
pub open spec fn some_hinted<F>(
    new: ElementV<F>,
    existing: Seq<ElementV<F>>,
    overlaps: Seq<Option<String>>,
    h: Seq<char>,
) -> bool {
    exists|j: int| #[trigger] hinted(new, existing, overlaps, j, h)
}

proof fn lemma_hints_for<F>(
    new: ElementV<F>,
    existing: Seq<ElementV<F>>,
    overlaps: Seq<Option<String>>,
)
    ensures
        forall|j: int|
            #![trigger existing[j]]
            0 <= j < existing.len() && overlaps[j] is Some && solid(new.kind) && solid(
                existing[j].kind,
            ) ==> hints_for(new, existing, overlaps).contains(
                hint(new, existing[j], overlaps[j]->Some_0@),
            ),
        forall|h: Seq<char>| #[trigger]
            hints_for(new, existing, overlaps).contains(h) ==> some_hinted(
                new,
                existing,
                overlaps,
                h,
            ),
        hints_for(new, existing, overlaps).len() <= existing.len(),
    decreases existing.len(),
{
    if existing.len() > 0 {
        let d = existing.drop_last();
        lemma_hints_for(new, d, overlaps);
        let (r, q) = (hints_for(new, existing, overlaps), hints_for(new, d, overlaps));
        assert forall|j: int|
            #![trigger existing[j]]
            0 <= j < existing.len() && overlaps[j] is Some && solid(new.kind) && solid(
                existing[j].kind,
            ) implies r.contains(hint(new, existing[j], overlaps[j]->Some_0@)) by {
            let x = hint(new, existing[j], overlaps[j]->Some_0@);
            if j < d.len() {
                assert(d[j] == existing[j]);
                let k = choose|k: int| 0 <= k < q.len() && q[k] == x;
                assert(r[k] == x);
            } else {
                assert(r[q.len() as int] == x);
            }
        }
        assert forall|h: Seq<char>| #[trigger] r.contains(h) implies some_hinted(
            new,
            existing,
            overlaps,
            h,
        ) by {
            let k = choose|k: int| 0 <= k < r.len() && r[k] == h;
            if k < q.len() {
                assert(q[k] == h);
                assert(q.contains(h));
                let j = choose|j: int| #[trigger] hinted(new, d, overlaps, j, h);
                assert(existing[j] == d[j]);
                assert(hinted(new, existing, overlaps, j, h));
            } else {
                assert(hinted(new, existing, overlaps, existing.len() - 1, h));
            }
        }
    } else {
        assert(hints_for(new, existing, overlaps).len() == 0);
    }
}

/// There is a hint for each solid element that overlaps a new solid one, and for
/// nothing else.
pub proof fn law_overlaps_of_solid_elements_are_hinted<F>(
    new: ElementV<F>,
    existing: Seq<ElementV<F>>,
    overlaps: Seq<Option<String>>,
    j: int,
)
    requires
        0 <= j < existing.len(),
    ensures
        overlaps[j] is Some && solid(new.kind) && solid(existing[j].kind) ==> hints_for(
            new,
            existing,
            overlaps,
        ).contains(hint(new, existing[j], overlaps[j]->Some_0@)),
        !solid(new.kind) ==> hints_for(new, existing, overlaps).len() == 0,
        (forall|k: int| 0 <= k < existing.len() ==> !(overlaps[k] is Some && solid(
            (#[trigger] existing[k]).kind,
        ))) ==> hints_for(new, existing, overlaps).len() == 0,
{
    lemma_hints_for(new, existing, overlaps);
    let r = hints_for(new, existing, overlaps);
    if r.len() > 0 {
        assert(r.contains(r[0]));
        let k = choose|k: int| #[trigger] hinted(new, existing, overlaps, k, r[0]);
        assert(solid(existing[k].kind));
    }
}

/// Texts are joined in order with the separator between each two.
pub proof fn law_joined_texts_keep_their_order(s: Seq<String>, sep: Seq<char>)
    ensures
        s.len() == 0 ==> joined_by(s, sep).len() == 0,
        s.len() == 1 ==> joined_by(s, sep) == s[0]@,
        s.len() > 1 ==> joined_by(s, sep) == joined_by(s.drop_last(), sep) + sep + s.last()@,
{
}

/// A page without a title of its own is called by its number.
pub proof fn law_pages_are_titled_or_numbered(title: Option<Seq<char>>, number: nat)
    ensures
        (title matches Some(t) && trim_spec(t).len() > 0) ==> page_title(title, number) == trim_spec(
            title->Some_0,
        ),
        !(title matches Some(t) && trim_spec(t).len() > 0) ==> page_title(title, number) == "第 "@
            + crate::text::decimal(number) + " 页"@,
{
}

/// A wide ratio is wider than high, a tall one higher than wide, and turning a
/// ratio by a right angle turns its page.
pub proof fn law_ratios_turn_with_their_pages()
    ensures
        ratio_size(PageRatio::Ratio16_9).0 == ratio_size(PageRatio::Ratio9_16).1,
        ratio_size(PageRatio::Ratio16_9).1 == ratio_size(PageRatio::Ratio9_16).0,
        ratio_size(PageRatio::Ratio4_3).0 == ratio_size(PageRatio::Ratio3_4).1,
        ratio_size(PageRatio::Ratio4_3).1 == ratio_size(PageRatio::Ratio3_4).0,
        ratio_size(PageRatio::Ratio1_1).0 == ratio_size(PageRatio::Ratio1_1).1,
        ratio_size(PageRatio::Ratio16_9).0 * 9 == ratio_size(PageRatio::Ratio16_9).1 * 16,
        ratio_size(PageRatio::Ratio4_3).0 * 3 == ratio_size(PageRatio::Ratio4_3).1 * 4,
{
}

/// The first sample of a stroke lies where the pointer is; a later one that is not
/// too close lies where it was smoothed to, behind the others, with its width when
/// the stroke tapers. The pressure average follows the sample when the pen gave a
/// pressure or time has passed. A sample that is too close changes nothing.
pub proof fn law_samples_are_appended<F>(
    c: InkV<F>,
    raw: WPoint<F>,
    at: F,
    hardware: bool,
    t: SampleFacts<F>,
)
    ensures
        ({
            let n = c.pushed(raw, at, hardware, t);
            let first = c.points.len() == 0;
            &&& !first && t.too_close ==> n == c
            &&& first || !t.too_close ==> {
                &&& n.points == c.points.push(
                    if first {
                        raw
                    } else {
                        t.smoothed
                    },
                )
                &&& n.smooth_pt == n.points.last()
                &&& n.last_raw == Some((raw, at))
                &&& c.taper ==> n.widths == c.widths.push(t.width)
                &&& !c.taper ==> n.widths == c.widths
                &&& hardware || (!first && c.last_raw is Some && t.advanced) ==> n.p_ema == t.blended
                &&& !(hardware || (!first && c.last_raw is Some && t.advanced)) ==> n.p_ema
                    == c.p_ema
            }
            &&& n.taper == c.taper && n.zoom == c.zoom && n.min_dist == c.min_dist
        }),
{
}

/// Only a pen has samples; its pressure is what it reports, up to the greatest
/// there is, and its other end erases.
pub proof fn law_pens_report_their_pressure(pointer_type: i32, pressure: u32, flags: u32)
    ensures
        pointer_type == PT_PEN <==> sample_of(pointer_type, pressure, flags) is Some,
        sample_of(pointer_type, pressure, flags) matches Some(s) ==> {
            &&& pressure <= PEN_PRESSURE_MAX ==> s.pressure == pressure
            &&& pressure > PEN_PRESSURE_MAX ==> s.pressure == PEN_PRESSURE_MAX
            &&& s.eraser == ((flags / 4) % 2 == 1)
        },
        PEN_PRESSURE_MAX == 1024,
        PT_PEN == 3,
{
    assert((flags & 4 != 0) == ((flags / 4) % 2 == 1)) by (bit_vector);
}

/// A surface pixel holds the blue, the green and the red of its colour, in this
/// order, and is opaque; without a colour it is clear.
pub proof fn law_surface_pixels_hold_their_colour(c: u32)
    ensures
        ({
            let p = surface_pixel(Some(c));
            &&& p.len() == 4
            &&& p[0] as int + p[1] as int * 0x100 + p[2] as int * 0x10000 == c % 0x100_0000
            &&& p[3] == 0xff
        }),
        surface_pixel(None).len() == 4,
        surface_pixel(None)[3] == 0,
{
    assert(c % 0x100_0000 == c % 0x100 + ((c / 0x100) % 0x100) * 0x100 + ((c / 0x10000) % 0x100)
        * 0x10000);
}

/// Every pixel of a canvas has four bytes of its own in the buffer: rows follow
/// each other, and pixels follow each other in a row.
pub proof fn law_pixels_have_their_own_bytes(pw: u32, ph: u32, x: i32, y: i32, u: i32, v: i32)
    requires
        on_canvas(pw, ph, x, y),
        on_canvas(pw, ph, u, v),
    ensures
        0 <= pixel_offset(pw, x, y),
        pixel_offset(pw, x, y) + 4 <= pw * ph * 4,
        pixel_offset(pw, x, y) % 4 == 0,
        (x != u || y != v) ==> pixel_offset(pw, x, y) + 4 <= pixel_offset(pw, u, v) || pixel_offset(
            pw,
            u,
            v,
        ) + 4 <= pixel_offset(pw, x, y),
        x == 0 && y == 0 ==> pixel_offset(pw, x, y) == 0,
        y == v && u == x + 1 ==> pixel_offset(pw, u, v) == pixel_offset(pw, x, y) + 4,
        y < v ==> pixel_offset(pw, x, y) < pixel_offset(pw, u, v),
{
    assert(0 <= y * pw && y * pw + pw <= pw * ph) by (nonlinear_arith)
        requires
            0 <= y < ph,
            0 <= pw,
    ;
    assert(y == 0 ==> y * pw == 0) by (nonlinear_arith);
    assert(y < v ==> y * pw + pw <= v * pw) by (nonlinear_arith)
        requires
            0 <= pw,
    ;
    assert(v < y ==> v * pw + pw <= y * pw) by (nonlinear_arith)
        requires
            0 <= pw,
    ;
}

/// A cell lists exactly the segments whose range holds it, in their order.
pub proof fn law_cells_list_the_segments_near_them(
    ranges: Seq<SegRange>,
    n: nat,
    col: int,
    row: int,
    k: int,
)
    requires
        n <= ranges.len() <= u32::MAX,
        0 <= k < n,
    ensures
        touching(ranges, n, col, row).contains(k as u32) <==> ranges[k].c0 <= col <= ranges[k].c1
            && ranges[k].r0 <= row <= ranges[k].r1,
        forall|i: int, j: int|
            0 <= i < j < touching(ranges, n, col, row).len() ==> touching(ranges, n, col, row)[i]
                < touching(ranges, n, col, row)[j],
        forall|i: int|
            0 <= i < touching(ranges, n, col, row).len() ==> (#[trigger] touching(
                ranges,
                n,
                col,
                row,
            )[i]) < n,
    decreases n,
{
    let r = touching(ranges, n, col, row);
    let q = touching(ranges, (n - 1) as nat, col, row);
    if n > 1 {
        law_cells_list_the_segments_near_them(
            ranges,
            (n - 1) as nat,
            col,
            row,
            if k < n - 1 {
                k
            } else {
                0
            },
        );
    } else {
        assert(touching(ranges, 0, col, row).len() == 0);
    }
    if k == n - 1 {
        if touches(ranges[k], col, row) {
            assert(r[q.len() as int] == k as u32);
        } else if r.contains(k as u32) {
            let i = choose|i: int| 0 <= i < r.len() && r[i] == k as u32;
            assert(q[i] < n - 1);
        }
    } else {
        if q.contains(k as u32) {
            let i = choose|i: int| 0 <= i < q.len() && q[i] == k as u32;
            assert(r[i] == k as u32);
        }
        if r.contains(k as u32) {
            let i = choose|i: int| 0 <= i < r.len() && r[i] == k as u32;
            assert(i < q.len());
            assert(q[i] == k as u32);
        }
    }
}

/// The hints of a batch are those of each new element, in their order.
pub proof fn law_every_new_element_is_hinted_for<F>(
    incoming: Seq<ElementV<F>>,
    existing: Seq<ElementV<F>>,
    overlaps: Seq<Vec<Option<String>>>,
    i: int,
    k: int,
)
    requires
        0 <= i < incoming.len(),
        0 <= k < hints_for(incoming[i], existing, overlaps[i]@).len(),
    ensures
        all_hints(incoming, existing, overlaps).contains(
            hints_for(incoming[i], existing, overlaps[i]@)[k],
        ),
    decreases incoming.len(),
{
    let d = incoming.drop_last();
    let x = hints_for(incoming[i], existing, overlaps[i]@)[k];
    let (r, q) = (all_hints(incoming, existing, overlaps), all_hints(d, existing, overlaps));
    if i < d.len() {
        law_every_new_element_is_hinted_for(d, existing, overlaps, i, k);
        let j = choose|j: int| 0 <= j < q.len() && q[j] == x;
        assert(r[j] == x);
    } else {
        assert(r[q.len() + k] == x);
    }
}

/// A pixel that was set is read back, and every byte that is not its own is as it
/// was; what lies off the canvas changes nothing.
pub proof fn law_a_pixel_is_read_back(
    buf: Seq<u8>,
    pw: u32,
    ph: u32,
    x: i32,
    y: i32,
    px: Seq<u8>,
    k: int,
)
    requires
        buf.len() == pw * ph * 4,
        px.len() == 4,
        0 <= k < buf.len(),
    ensures
        with_pixel(buf, pw, ph, x, y, px).len() == buf.len(),
        !on_canvas(pw, ph, x, y) ==> with_pixel(buf, pw, ph, x, y, px) == buf,
        on_canvas(pw, ph, x, y) ==> {
            let at = pixel_offset(pw, x, y);
            &&& with_pixel(buf, pw, ph, x, y, px).subrange(at, at + 4) == px
            &&& !(at <= k < at + 4) ==> with_pixel(buf, pw, ph, x, y, px)[k] == buf[k]
        },
        on_canvas(pw, ph, x, y) <==> 0 <= x && x < pw && 0 <= y && y < ph,
{
    if on_canvas(pw, ph, x, y) {
        law_pixels_have_their_own_bytes(pw, ph, x, y, x, y);
        let at = pixel_offset(pw, x, y);
        assert(with_pixel(buf, pw, ph, x, y, px).subrange(at, at + 4) =~= px);
    }
}

/// The pressure for ink is that of a fresh pen sample, and none comes from the
/// eraser end or from an old sample.
pub proof fn law_only_the_pen_tip_presses(s: crate::pen::PenSlot, now: u64)
    ensures
        s.pressure(now) is Some ==> s.last is Some && !s.last->Some_0.eraser && s.pressure(now)
            == Some(s.last->Some_0.pressure),
        s.last is Some && s.last->Some_0.eraser ==> s.pressure(now) is None,
        now > s.seen_ms + crate::pen::PEN_FRESH_MS ==> s.pressure(now) is None,
        now <= s.seen_ms + crate::pen::PEN_FRESH_MS && s.last is Some && !s.last->Some_0.eraser
            ==> s.pressure(now) is Some,
{
}

} // verus!
