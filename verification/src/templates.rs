//! Reusable templates: categories, file names and summaries.

use vstd::prelude::*;
use vstd::string::StringExecFns;
use crate::element::{Element, ElementKind, ElementStyle, ElementV, KindV, Shadow, WBounds, WPoint};
use crate::ids::{is_random, seed_shaped, ElementId};
use crate::scene::{copy_elements, first_place, place_of, views};
use crate::text::{
    chars_of, decimal_text, is_text_le, joined, lemma_text_le_total, lemma_text_le_transitive,
    same_text, string_of, text_le, trim_chars, trim_text,
};

verus! {

/// The category of a template.
#[derive(Clone, Copy, Debug, PartialEq, Eq, Structural)]
pub enum TemplateKind {
    Character,
    Scene,
    Prop,
}

/// The displayed name of a category.
pub open spec fn kind_label(k: TemplateKind) -> Seq<char> {
    match k {
        TemplateKind::Character => "角色"@,
        TemplateKind::Scene => "场景"@,
        TemplateKind::Prop => "道具"@,
    }
}

/// The category that a word names, surrounding white space ignored.
pub open spec fn parse_kind(s: Seq<char>) -> Option<TemplateKind> {
    let t = crate::text::trim_spec(s);
    if t == "character"@ || t == "角色"@ || t == "人物"@ {
        Some(TemplateKind::Character)
    } else if t == "scene"@ || t == "场景"@ || t == "背景"@ {
        Some(TemplateKind::Scene)
    } else if t == "prop"@ || t == "道具"@ || t == "物件"@ {
        Some(TemplateKind::Prop)
    } else {
        None
    }
}

impl TemplateKind {
    /// Reads a category name.
    pub fn parse(s: &str) -> (r: Option<TemplateKind>)
        ensures
            r == parse_kind(s@),
    {
        let t: String = trim_text(s);
        let t: &str = t.as_str();
        if same_text(t, "character") || same_text(t, "角色") || same_text(t, "人物") {
            Some(TemplateKind::Character)
        } else if same_text(t, "scene") || same_text(t, "场景") || same_text(t, "背景") {
            Some(TemplateKind::Scene)
        } else if same_text(t, "prop") || same_text(t, "道具") || same_text(t, "物件") {
            Some(TemplateKind::Prop)
        } else {
            None
        }
    }

    /// The displayed name of the category.
    pub fn label(&self) -> (r: &'static str)
        ensures
            r@ == kind_label(*self),
    {
        match self {
            TemplateKind::Character => "角色",
            TemplateKind::Scene => "场景",
            TemplateKind::Prop => "道具",
        }
    }
}

/// Characters that a template name may not hold.
pub open spec fn forbidden(c: char) -> bool {
    crate::text::is_control_code(c) || c == '/' || c == '\\' || c == ':' || c == '*' || c == '?' || c
        == '"' || c == '<' || c == '>' || c == '|'
}

fn is_forbidden(c: char) -> (r: bool)
    ensures
        r == forbidden(c),
{
    crate::text::is_control(c) || c == '/' || c == '\\' || c == ':' || c == '*' || c == '?' || c == '"' || c
        == '<' || c == '>' || c == '|'
}

/// The longest template name, in characters.
pub const MAX_NAME_CHARS: usize = 24;

/// A raw name without surrounding white space and forbidden characters.
pub open spec fn cleaned_name(raw: Seq<char>) -> Seq<char> {
    crate::text::trim_spec(crate::text::trim_spec(raw).filter(|c: char| !forbidden(c)))
}

/// The first `MAX_NAME_CHARS` characters of `s`.
pub open spec fn capped(s: Seq<char>) -> Seq<char> {
    if s.len() > MAX_NAME_CHARS {
        s.take(MAX_NAME_CHARS as int)
    } else {
        s
    }
}

/// Makes a raw name usable as a file name, or reports that nothing is left.
pub fn sanitize_name(raw: &str) -> (r: Result<String, String>)
    ensures
        match r {
            Ok(n) => cleaned_name(raw@).len() > 0 && n@ == capped(cleaned_name(raw@)),
            Err(e) => cleaned_name(raw@).len() == 0 && e@ == "模板名不能为空"@,
        },
{
    let v: Vec<char> = trim_chars(&chars_of(raw));
    let mut kept: Vec<char> = Vec::new();
    let mut i: usize = 0;
    let ghost keep = |c: char| !forbidden(c);
    assert(v@.take(0) =~= Seq::<char>::empty());
    proof {
        reveal(Seq::filter);
    }
    while i < v.len()
        invariant
            i <= v.len(),
            keep == (|c: char| !forbidden(c)),
            kept@ == v@.take(i as int).filter(keep),
        decreases v.len() - i,
    {
        proof {
            reveal(Seq::filter);
            assert(v@.take(i + 1).drop_last() =~= v@.take(i as int));
        }
        if !is_forbidden(v[i]) {
            kept.push(v[i]);
        }
        i += 1;
    }
    assert(v@.take(v@.len() as int) =~= v@);
    let cleaned: Vec<char> = trim_chars(&kept);
    if cleaned.len() == 0 {
        return Err("模板名不能为空".to_owned());
    }
    let n: usize = if cleaned.len() > MAX_NAME_CHARS {
        MAX_NAME_CHARS
    } else {
        cleaned.len()
    };
    let mut out: Vec<char> = Vec::new();
    let mut j: usize = 0;
    while j < n
        invariant
            j <= n <= cleaned.len(),
            out@ == cleaned@.take(j as int),
        decreases n - j,
    {
        out.push(cleaned[j]);
        j += 1;
        assert(cleaned@.take(j as int) =~= cleaned@.take(j - 1).push(cleaned@[j - 1]));
    }
    assert(cleaned@.take(cleaned@.len() as int) =~= cleaned@);
    Ok(string_of(&out))
}

/// The file name of a template.
pub fn template_path(name: &str) -> (r: String)
    ensures
        r@ == name@ + ".json"@,
{
    joined(name, ".json")
}

/// A sanitised name has at most [`MAX_NAME_CHARS`] characters, none of them
/// forbidden, and does not begin with white space.
pub proof fn law_sanitized_names_are_clean(raw: Seq<char>)
    ensures
        capped(cleaned_name(raw)).len() <= MAX_NAME_CHARS,
        forall|i: int|
            0 <= i < capped(cleaned_name(raw)).len() ==> !forbidden(
                #[trigger] capped(cleaned_name(raw))[i],
            ),
        cleaned_name(raw).len() > 0 ==> !crate::text::is_white_space(capped(cleaned_name(raw))[0]),
{
    let keep = |c: char| !forbidden(c);
    let f = crate::text::trim_spec(raw).filter(keep);
    let c = cleaned_name(raw);
    crate::text::lemma_trim_ends(f);
    let k = lemma_trim_is_part(f);
    assert forall|i: int| 0 <= i < capped(c).len() implies !forbidden(#[trigger] capped(c)[i]) by {
        assert(capped(c)[i] == c[i]);
        assert(c[i] == f[k + i]);
        crate::text::trim_spec(raw).lemma_filter_pred(keep, k + i);
    }
}

proof fn lemma_trim_is_part(s: Seq<char>) -> (k: int)
    ensures
        0 <= k,
        k + crate::text::trim_spec(s).len() <= s.len(),
        crate::text::trim_spec(s) == s.subrange(k, k + crate::text::trim_spec(s).len()),
{
    let a = crate::text::trim_start_spec(s);
    let k = lemma_trim_start_part(s);
    let n = lemma_trim_end_part(a);
    assert(s.subrange(k, k + n) =~= a.take(n));
    k
}

proof fn lemma_trim_start_part(s: Seq<char>) -> (k: int)
    ensures
        0 <= k <= s.len(),
        crate::text::trim_start_spec(s) == s.skip(k),
    decreases s.len(),
{
    if s.len() > 0 && crate::text::is_white_space(s[0]) {
        let k = lemma_trim_start_part(s.skip(1));
        assert(s.skip(1).skip(k) =~= s.skip(k + 1));
        k + 1
    } else {
        assert(s.skip(0) =~= s);
        0
    }
}

proof fn lemma_trim_end_part(s: Seq<char>) -> (n: int)
    ensures
        0 <= n <= s.len(),
        crate::text::trim_end_spec(s) == s.take(n),
        crate::text::trim_end_spec(s).len() == n,
    decreases s.len(),
{
    if s.len() > 0 && crate::text::is_white_space(s.last()) {
        let n = lemma_trim_end_part(s.drop_last());
        assert(s.drop_last().take(n) =~= s.take(n));
        n
    } else {
        assert(s.take(s.len() as int) =~= s);
        s.len() as int
    }
}

/// Every displayed category name is read back as its category.
pub proof fn law_parse_reads_kind_label(k: TemplateKind)
    ensures
        parse_kind(kind_label(k)) == Some(k),
{
    reveal_strlit("角色");
    reveal_strlit("场景");
    reveal_strlit("道具");
    reveal_strlit("人物");
    reveal_strlit("背景");
    reveal_strlit("物件");
    reveal_strlit("character");
    reveal_strlit("scene");
    reveal_strlit("prop");
    let s = kind_label(k);
    assert(crate::text::trim_spec(s) == s);
    assert("场景"@[0] != "角色"@[0]);
    assert("场景"@[0] != "人物"@[0]);
    assert("道具"@[0] != "角色"@[0]);
    assert("道具"@[0] != "人物"@[0]);
    assert("道具"@[0] != "场景"@[0]);
    assert("道具"@[0] != "背景"@[0]);
}

/// A saved template: its name, its category and its elements.
#[derive(Debug)]
pub struct ComicTemplate<F> {
    pub name: String,
    pub kind: TemplateKind,
    pub elements: Vec<Element<F>>,
}

impl<F: Copy> Clone for ComicTemplate<F> {
    fn clone(&self) -> (r: Self)
        ensures
            r.name@ == self.name@,
            r.kind == self.kind,
            views(r.elements@) == views(self.elements@),
    {
        ComicTemplate {
            name: self.name.clone(),
            kind: self.kind,
            elements: copy_elements(&self.elements),
        }
    }
}

/// What a list of templates shows of one.
#[derive(Clone, Debug)]
pub struct TemplateSummary<F> {
    pub name: String,
    pub kind: TemplateKind,
    pub element_count: usize,
    pub w: F,
    pub h: F,
    pub texts: Vec<String>,
}

/// Whether summaries are in the order of their names.
pub open spec fn in_name_order<F>(v: Seq<TemplateSummary<F>>) -> bool {
    forall|i: int, j: int|
        0 <= i < j < v.len() ==> text_le((#[trigger] v[i]).name@, (#[trigger] v[j]).name@)
}

/// Puts summaries in the order of their names.
pub fn by_name<F>(v: Vec<TemplateSummary<F>>) -> (r: Vec<TemplateSummary<F>>)
    ensures
        r@.to_multiset() == v@.to_multiset(),
        in_name_order(r@),
{
    let ghost all = v@;
    let mut rest: Vec<TemplateSummary<F>> = v;
    let mut r: Vec<TemplateSummary<F>> = Vec::new();
    assert(r@ + rest@ =~= all);
    while rest.len() > 0
        invariant
            (r@ + rest@).to_multiset() == all.to_multiset(),
            in_name_order(r@),
        decreases rest.len(),
    {
        let ghost before = r@;
        let ghost left = rest@;
        let x: TemplateSummary<F> = rest.remove(0);
        let mut k: usize = r.len();
        while k > 0 && !is_text_le(r[k - 1].name.as_str(), x.name.as_str())
            invariant
                k <= r.len(),
                r@ == before,
                in_name_order(before),
                forall|j: int| k <= j < r@.len() ==> text_le(x.name@, (#[trigger] r@[j]).name@),
            decreases k,
        {
            proof {
                lemma_text_le_total(r@[k - 1].name@, x.name@);
            }
            k -= 1;
        }
        r.insert(k, x);
        proof {
            assert(r@ == before.insert(k as int, x));
            assert forall|i: int, j: int| 0 <= i < j < r@.len() implies text_le(
                (#[trigger] r@[i]).name@,
                (#[trigger] r@[j]).name@,
            ) by {
                if i < k && j == k {
                    if i < k - 1 {
                        assert(text_le(before[i].name@, before[k - 1].name@));
                        lemma_text_le_transitive(before[i].name@, before[k - 1].name@, x.name@);
                    }
                } else if i < k && j > k {
                    assert(text_le(before[i].name@, before[j - 1].name@));
                } else if i == k {
                    assert(text_le(x.name@, before[j - 1].name@));
                } else if i > k {
                    assert(text_le(before[i - 1].name@, before[j - 1].name@));
                } else {
                    assert(text_le(before[i].name@, before[j].name@));
                }
            }
            vstd::seq_lib::to_multiset_insert(before, k as int, x);
            vstd::seq_lib::to_multiset_remove(left, 0);
            vstd::seq_lib::lemma_multiset_commutative(r@, rest@);
            vstd::seq_lib::lemma_multiset_commutative(before, left);
            left.to_multiset_ensures();
            assert(left.contains(left[0]));
            assert((r@ + rest@).to_multiset() =~= (before + left).to_multiset());
        }
    }
    assert(r@ + rest@ =~= r@);
    r
}

/// Strings joined by `sep`.
pub open spec fn joined_by(s: Seq<String>, sep: Seq<char>) -> Seq<char>
    decreases s.len(),
{
    if s.len() == 0 {
        Seq::empty()
    } else if s.len() == 1 {
        s[0]@
    } else {
        joined_by(s.drop_last(), sep) + sep + s.last()@
    }
}

fn join_texts(v: &Vec<String>, sep: &str) -> (r: String)
    ensures
        r@ == joined_by(v@, sep@),
{
    let mut r: String = String::new();
    let mut i: usize = 0;
    assert(v@.take(0) =~= Seq::<String>::empty());
    while i < v.len()
        invariant
            i <= v.len(),
            r@ == joined_by(v@.take(i as int), sep@),
        decreases v.len() - i,
    {
        if i > 0 {
            r.append(sep);
        }
        r.append(v[i].as_str());
        i += 1;
        assert(v@.take(i as int).drop_last() =~= v@.take(i - 1));
        assert(i == 1 ==> r@ =~= v@[0]@);
    }
    assert(v@.take(v@.len() as int) =~= v@);
    r
}

impl<F: Copy> TemplateSummary<F> {
    /// One line about the template; `w` and `h` are its size as written.
    pub fn one_line(&self, w: &str, h: &str) -> (r: String)
        ensures
            r@ == self.name@ + "（"@ + kind_label(self.kind) + "）"@ + crate::text::decimal(
                self.element_count as nat,
            ) + " 个元素 "@ + w@ + "×"@ + h@ + (if self.texts@.len() == 0 {
                Seq::empty()
            } else {
                "，文字："@ + joined_by(self.texts@, "、"@)
            }),
    {
        let mut r: String = self.name.clone();
        r.append("（");
        r.append(self.kind.label());
        r.append("）");
        let n: String = decimal_text(self.element_count as u64);
        r.append(n.as_str());
        r.append(" 个元素 ");
        r.append(w);
        r.append("×");
        r.append(h);
        let ghost base = r@;
        if self.texts.len() > 0 {
            let t: String = join_texts(&self.texts, "、");
            r.append("，文字：");
            r.append(t.as_str());
            assert(r@ =~= base + ("，文字："@ + joined_by(self.texts@, "、"@)));
        } else {
            assert(base =~= base + Seq::<char>::empty());
        }
        r
    }
}

/// The place of the first line feed, from `from` on; the length when there is
/// none.
pub open spec fn line_end(s: Seq<char>, from: int) -> int
    decreases s.len() - from,
{
    if from >= s.len() || s[from] == '\n' {
        from
    } else {
        line_end(s, from + 1)
    }
}

/// The first line of a text, without its line ending.
pub open spec fn first_line(s: Seq<char>) -> Seq<char> {
    let n = line_end(s, 0);
    if n < s.len() && n > 0 && s[n - 1] == '\r' {
        s.take(n - 1)
    } else {
        s.take(n)
    }
}

pub fn first_line_of(text: &str) -> (r: String)
    ensures
        r@ == first_line(text@),
{
    let v: Vec<char> = chars_of(text);
    let mut n: usize = 0;
    while n < v.len() && v[n] != '\n'
        invariant
            n <= v.len(),
            line_end(v@, 0) == line_end(v@, n as int),
        decreases v.len() - n,
    {
        n += 1;
    }
    let k: usize = if n < v.len() && n > 0 && v[n - 1] == '\r' {
        n - 1
    } else {
        n
    };
    let mut out: Vec<char> = Vec::new();
    let mut i: usize = 0;
    while i < k
        invariant
            i <= k <= v.len(),
            out@ == v@.take(i as int),
        decreases k - i,
    {
        out.push(v[i]);
        i += 1;
        assert(v@.take(i as int) =~= v@.take(i - 1).push(v@[i - 1]));
    }
    string_of(&out)
}

/// The first lines of the texts in a list of elements, blank ones left out.
pub open spec fn text_lines<F>(s: Seq<ElementV<F>>) -> Seq<Seq<char>>
    decreases s.len(),
{
    if s.len() == 0 {
        Seq::empty()
    } else {
        let d = text_lines(s.drop_last());
        match s.last().kind {
            KindV::Text { text, .. } if first_line(text).len() > 0 => d.push(first_line(text)),
            _ => d,
        }
    }
}

/// The most texts that a summary shows.
pub const MAX_SUMMARY_TEXTS: usize = 3;

/// The values of a list of strings.
pub open spec fn strings(s: Seq<String>) -> Seq<Seq<char>> {
    Seq::new(s.len(), |i: int| s[i]@)
}

/// The first few of a sequence.
pub open spec fn first_few<A>(s: Seq<A>, n: nat) -> Seq<A> {
    if s.len() > n {
        s.take(n as int)
    } else {
        s
    }
}

/// The first lines of the first few texts of a template.
pub fn summary_texts<F: Copy>(elements: &Vec<Element<F>>) -> (r: Vec<String>)
    ensures
        strings(r@) == first_few(text_lines(views(elements@)), MAX_SUMMARY_TEXTS as nat),
{
    let mut r: Vec<String> = Vec::new();
    let ghost all = views(elements@);
    let mut i: usize = 0;
    assert(all.take(0) =~= Seq::<ElementV<F>>::empty());
    assert(strings(r@) =~= Seq::<Seq<char>>::empty());
    while i < elements.len()
        invariant
            i <= elements.len(),
            all == views(elements@),
            r@.len() <= MAX_SUMMARY_TEXTS,
            strings(r@) == first_few(text_lines(all.take(i as int)), MAX_SUMMARY_TEXTS as nat),
        decreases elements.len() - i,
    {
        let ghost before = strings(r@);
        let ghost lines = text_lines(all.take(i as int));
        assert(all.take(i + 1).drop_last() =~= all.take(i as int));
        assert(all.take(i + 1).last() == elements@[i as int]@);
        match &elements[i].kind {
            ElementKind::Text { text, .. } => {
                let line: String = first_line_of(text.as_str());
                if !line.as_str().is_empty() {
                    if r.len() < MAX_SUMMARY_TEXTS {
                        r.push(line);
                        assert(strings(r@) =~= before.push(line@));
                    } else {
                        assert(lines.push(line@).take(3) =~= lines.take(3) || lines.len() < 3);
                        assert(first_few(lines, 3) =~= lines.take(3));
                        assert(first_few(lines.push(line@), 3) =~= lines.take(3));
                    }
                }
            },
            _ => {},
        }
        i += 1;
    }
    assert(all.take(all.len() as int) =~= all);
    r
}

/// Why a template cannot be stamped.
#[derive(Clone, Copy, Debug, PartialEq, Eq, Structural)]
pub enum StampError {
    /// It has no elements.
    Empty,
    /// The scale is not a number between one twentieth and eight.
    Scale,
    /// The rotation is not a number of degrees between -45 and 45.
    Rotation,
    /// A coordinate is not a finite number.
    Coordinates,
}

/// Whether a template can be stamped, given whether the scale, the rotation
/// and the coordinates are acceptable; the first complaint wins.
pub fn check_stamp<F: Copy>(
    t: &ComicTemplate<F>,
    scale_ok: bool,
    rotation_ok: bool,
    coordinates_ok: bool,
) -> (r: Result<(), StampError>)
    ensures
        r == (if t.elements@.len() == 0 {
            Err::<(), StampError>(StampError::Empty)
        } else if !scale_ok {
            Err(StampError::Scale)
        } else if !rotation_ok {
            Err(StampError::Rotation)
        } else if !coordinates_ok {
            Err(StampError::Coordinates)
        } else {
            Ok(())
        }),
{
    if t.elements.len() == 0 {
        return Err(StampError::Empty);
    }
    if !scale_ok {
        return Err(StampError::Scale);
    }
    if !rotation_ok {
        return Err(StampError::Rotation);
    }
    if !coordinates_ok {
        return Err(StampError::Coordinates);
    }
    Ok(())
}

/// The message of a refused save: a template needs at least one element.
pub fn check_savable<F: Copy>(t: &ComicTemplate<F>) -> (r: Result<(), String>)
    ensures
        match r {
            Ok(_) => t.elements@.len() > 0,
            Err(e) => t.elements@.len() == 0 && e@ == "模板不能为空（至少要有一个元素）"@,
        },
{
    if t.elements.len() == 0 {
        return Err("模板不能为空（至少要有一个元素）".to_owned());
    }
    Ok(())
}

/// The message for a template that does not exist.
pub fn missing_message(name: &str) -> (r: String)
    ensures
        r@ == "模板「"@ + name@
            + "」不存在：先调用 list_templates 查看已有模板，或先用绘图工具画出再用 save_template 保存"@,
{
    let a: String = joined("模板「", name);
    joined(
        a.as_str(),
        "」不存在：先调用 list_templates 查看已有模板，或先用绘图工具画出再用 save_template 保存",
    )
}

/// The number of points that a turned ellipse is drawn through.
pub const ELLIPSE_POINTS: usize = 24;

/// The geometry of an element after a turn: its box, of which only the corner
/// counts for what cannot be turned, the points of its outline relative to the
/// box, and the offset of its shadow.
#[derive(Debug)]
pub struct Turned<F> {
    pub bounds: WBounds<F>,
    pub points: Vec<WPoint<F>>,
    pub shadow: Shadow<F>,
}

/// The kind of an element after a turn: rectangles and rhombi become straight
/// polygons, ellipses smooth ones, paths keep their kind, and what cannot be
/// turned stays what it is.
pub open spec fn turned_kind<F>(k: KindV<F>, points: Seq<WPoint<F>>) -> KindV<F> {
    match k {
        KindV::Rectangle => KindV::Polygon { points, smooth: false },
        KindV::Diamond => KindV::Polygon { points, smooth: false },
        KindV::Ellipse => KindV::Polygon { points, smooth: true },
        _ => k.with_points(points),
    }
}

/// The number of points that the outline of an element has after a turn: four
/// corners, the points of an ellipse, or as many as a path has.
pub open spec fn outline_points<F>(k: KindV<F>) -> nat {
    match k {
        KindV::Rectangle => 4,
        KindV::Diamond => 4,
        KindV::Ellipse => ELLIPSE_POINTS as nat,
        _ => k.points().len(),
    }
}

/// The style of an element after a turn: only its shadow turns along.
pub open spec fn turned_style<F>(s: ElementStyle<F>, shadow: Shadow<F>) -> ElementStyle<F> {
    ElementStyle {
        shadow: match s.shadow {
            Some(_) => Some(shadow),
            None => None,
        },
        ..s
    }
}

/// Whether an element is redrawn from points after a turn.
pub open spec fn turns_into_points<F>(k: KindV<F>) -> bool {
    !(k is Text || k is Image || k is Canvas)
}

/// Turns an element. What is redrawn from points gets a new seed; texts,
/// images and canvases only move and keep their width and height.
pub fn rotate_element<F: Copy>(el: &Element<F>, t: Turned<F>) -> (r: Element<F>)
    requires
        turns_into_points(el.kind@) ==> t.points@.len() == outline_points(el.kind@),
    ensures
        r.id == el.id,
        r.bounds == (if turns_into_points(el.kind@) {
            t.bounds
        } else {
            WBounds { x: t.bounds.x, y: t.bounds.y, ..el.bounds }
        }),
        r.style == turned_style(el.style, t.shadow),
        r.kind@ == turned_kind(el.kind@, t.points@),
        r.kind@.points().len() == outline_points(el.kind@),
        turns_into_points(el.kind@) ==> seed_shaped(r.seed),
        !turns_into_points(el.kind@) ==> r.seed == el.seed,
{
    let mut style: ElementStyle<F> = el.style;
    match style.shadow {
        Some(_) => {
            style.shadow = Some(t.shadow);
        },
        None => {},
    }
    let bounds: WBounds<F> = t.bounds;
    let points: Vec<WPoint<F>> = t.points;
    let id: ElementId = el.id;
    match &el.kind {
        ElementKind::Rectangle => Element::new_with_id(
            id,
            ElementKind::Polygon { points, smooth: false },
            bounds,
            style,
        ),
        ElementKind::Diamond => Element::new_with_id(
            id,
            ElementKind::Polygon { points, smooth: false },
            bounds,
            style,
        ),
        ElementKind::Ellipse => Element::new_with_id(
            id,
            ElementKind::Polygon { points, smooth: true },
            bounds,
            style,
        ),
        ElementKind::Line { .. } => Element::new_with_id(
            id,
            ElementKind::Line { points },
            bounds,
            style,
        ),
        ElementKind::Arrow { end_arrowhead, start_arrowhead, .. } => Element::new_with_id(
            id,
            ElementKind::Arrow {
                points,
                end_arrowhead: *end_arrowhead,
                start_arrowhead: *start_arrowhead,
            },
            bounds,
            style,
        ),
        ElementKind::Freedraw { widths, .. } => Element::new_with_id(
            id,
            ElementKind::Freedraw { points, widths: crate::element::copy_list(widths) },
            bounds,
            style,
        ),
        ElementKind::Polygon { smooth, .. } => Element::new_with_id(
            id,
            ElementKind::Polygon { points, smooth: *smooth },
            bounds,
            style,
        ),
        _ => {
            let mut out: Element<F> = el.clone();
            out.style = style;
            out.bounds.x = bounds.x;
            out.bounds.y = bounds.y;
            out
        },
    }
}

/// What a label is bound to in the copy: to the copy of its container, or to
/// nothing when the container is not among the copied elements.
pub open spec fn rebound<F>(
    s: Seq<ElementV<F>>,
    fresh: Seq<ElementId>,
    container: Option<ElementId>,
) -> Option<ElementId> {
    match container {
        Some(c) => if place_of(s, c) < s.len() {
            Some(fresh[place_of(s, c)])
        } else {
            None
        },
        None => None,
    }
}

/// The copy of element `i` under fresh identities.
pub open spec fn copied<F>(s: Seq<ElementV<F>>, fresh: Seq<ElementId>, i: int) -> ElementV<F> {
    ElementV {
        id: fresh[i],
        kind: match s[i].kind {
            KindV::Text {
                text,
                font_size,
                font_family,
                wrap_width,
                min_height,
                container_id,
                text_align,
                anchor,
            } => KindV::Text {
                text,
                font_size,
                font_family,
                wrap_width,
                min_height,
                container_id: rebound(s, fresh, container_id),
                text_align,
                anchor,
            },
            k => k,
        },
        ..s[i]
    }
}

fn rebind<F: Copy>(
    elements: &Vec<Element<F>>,
    fresh: &Vec<ElementId>,
    container: Option<ElementId>,
) -> (r: Option<ElementId>)
    requires
        fresh@.len() == elements@.len(),
    ensures
        r == rebound(views(elements@), fresh@, container),
{
    let ghost s = views(elements@);
    match container {
        Some(c) => {
            let mut i: usize = 0;
            while i < elements.len()
                invariant
                    i <= elements.len(),
                    s == views(elements@),
                    fresh@.len() == elements@.len(),
                    place_of(s, c) == first_place(s, c, i as int),
                    container == Some(c),
                decreases elements.len() - i,
            {
                assert(s[i as int].id == elements@[i as int].id);
                if elements[i].id == c {
                    return Some(fresh[i]);
                }
                i += 1;
            }
            None
        },
        None => None,
    }
}

/// Copies placed elements under the given identities and rebinds their
/// labels.
pub fn copy_with_ids<F: Copy>(elements: &Vec<Element<F>>, fresh: &Vec<ElementId>) -> (r: Vec<
    Element<F>,
>)
    requires
        fresh@.len() == elements@.len(),
    ensures
        views(r@) == Seq::new(
            elements@.len(),
            |i: int| copied(views(elements@), fresh@, i),
        ),
{
    let ghost s = views(elements@);
    let mut r: Vec<Element<F>> = Vec::new();
    let mut i: usize = 0;
    while i < elements.len()
        invariant
            i <= elements.len(),
            s == views(elements@),
            fresh@.len() == elements@.len(),
            r@.len() == i,
            forall|k: int| 0 <= k < i ==> (#[trigger] r@[k])@ == copied(s, fresh@, k),
        decreases elements.len() - i,
    {
        let mut e: Element<F> = elements[i].clone();
        assert(e@ == s[i as int]);
        let target: Option<ElementId> = rebind(elements, fresh, e.container_id());
        e.id = fresh[i];
        match &mut e.kind {
            ElementKind::Text { container_id, .. } => {
                *container_id = target;
            },
            _ => {},
        }
        r.push(e);
        i += 1;
    }
    assert(views(r@) =~= Seq::new(elements@.len(), |i: int| copied(s, fresh@, i)));
    r
}

/// Whether all identities can have been drawn at random.
pub open spec fn all_random(ids: Seq<ElementId>) -> bool {
    forall|i: int| 0 <= i < ids.len() ==> is_random(#[trigger] ids[i])
}

/// Stamps placed elements: copies them under random identities.
pub fn stamp<F: Copy>(placed: &Vec<Element<F>>) -> (r: Vec<Element<F>>)
    ensures
        exists|fresh: Seq<ElementId>|
            #![trigger all_random(fresh)]
            fresh.len() == placed@.len() && all_random(fresh) && views(r@) == Seq::new(
                placed@.len(),
                |i: int| copied(views(placed@), fresh, i),
            ),
{
    let mut fresh: Vec<ElementId> = Vec::new();
    while fresh.len() < placed.len()
        invariant
            fresh@.len() <= placed@.len(),
            all_random(fresh@),
        decreases placed.len() - fresh.len(),
    {
        fresh.push(ElementId::random());
    }
    let r: Vec<Element<F>> = copy_with_ids(placed, &fresh);
    r
}

/// A label in the copy is bound to an element of the copy or to nothing; it
/// is bound exactly when its original's container was copied along.
pub proof fn law_stamped_labels_stay_inside<F>(s: Seq<ElementV<F>>, fresh: Seq<ElementId>, i: int)
    requires
        fresh.len() == s.len(),
        0 <= i < s.len(),
    ensures
        match copied(s, fresh, i).kind.bound_to() {
            Some(c) => fresh.contains(c) && crate::scene::has_id(s, s[i].kind.bound_to().unwrap()),
            None => s[i].kind.bound_to().is_none() || !crate::scene::has_id(
                s,
                s[i].kind.bound_to().unwrap(),
            ),
        },
{
    match s[i].kind.bound_to() {
        Some(c) => {
            crate::scene::lemma_place_of(s, c);
        },
        None => {},
    }
}

/// Whether an element takes part in collision hints.
pub open spec fn solid<F>(k: KindV<F>) -> bool {
    k is Rectangle || k is Ellipse || k is Diamond || k is Polygon || k is Image
}

fn is_solid<F: Copy>(el: &Element<F>) -> (r: bool)
    ensures
        r == solid(el@.kind),
{
    match &el.kind {
        ElementKind::Rectangle => true,
        ElementKind::Ellipse => true,
        ElementKind::Diamond => true,
        ElementKind::Polygon { .. } => true,
        ElementKind::Image { .. } => true,
        _ => false,
    }
}

/// What a solid element is called in a hint.
pub open spec fn solid_label<F>(k: KindV<F>) -> Seq<char> {
    match k {
        KindV::Rectangle => "矩形"@,
        KindV::Ellipse => "椭圆"@,
        KindV::Diamond => "菱形"@,
        KindV::Polygon { .. } => "多边形"@,
        KindV::Image { .. } => "图片"@,
        _ => "元素"@,
    }
}

fn solid_label_of<F: Copy>(el: &Element<F>) -> (r: &'static str)
    ensures
        r@ == solid_label(el@.kind),
{
    match &el.kind {
        ElementKind::Rectangle => "矩形",
        ElementKind::Ellipse => "椭圆",
        ElementKind::Diamond => "菱形",
        ElementKind::Polygon { .. } => "多边形",
        ElementKind::Image { .. } => "图片",
        _ => "元素",
    }
}

/// The hint about a new element that covers an existing one.
pub open spec fn hint<F>(new: ElementV<F>, old_el: ElementV<F>, percent: Seq<char>) -> Seq<char> {
    "新"@ + solid_label(new.kind) + " "@ + crate::ids::hyphenated(new.id.value).take(8)
        + " 与既有"@ + solid_label(old_el.kind) + " "@ + crate::ids::hyphenated(
        old_el.id.value,
    ).take(8) + " 重叠 "@ + percent
        + "%——若是有意遮挡（桌挡腿/坐进沙发）可忽略，无意碰撞请用 update_element 挪开"@
}

fn hint_text<F: Copy>(new: &Element<F>, old_el: &Element<F>, percent: &str) -> (r: String)
    ensures
        r@ == hint(new@, old_el@, percent@),
{
    let mut r: String = joined("新", solid_label_of(new));
    r.append(" ");
    let a: String = new.id.short_text();
    r.append(a.as_str());
    r.append(" 与既有");
    r.append(solid_label_of(old_el));
    r.append(" ");
    let b: String = old_el.id.short_text();
    r.append(b.as_str());
    r.append(" 重叠 ");
    r.append(percent);
    r.append("%——若是有意遮挡（桌挡腿/坐进沙发）可忽略，无意碰撞请用 update_element 挪开");
    r
}

/// The hints for one new element against the first existing ones.
pub open spec fn hints_for<F>(
    new: ElementV<F>,
    existing: Seq<ElementV<F>>,
    overlaps: Seq<Option<String>>,
) -> Seq<Seq<char>>
    decreases existing.len(),
{
    if existing.len() == 0 {
        Seq::empty()
    } else {
        let d = hints_for(new, existing.drop_last(), overlaps);
        match overlaps[existing.len() - 1] {
            Some(percent) if solid(new.kind) && solid(existing.last().kind) => d.push(
                hint(new, existing.last(), percent@),
            ),
            _ => d,
        }
    }
}

/// All hints, new elements in order and existing ones in order for each.
pub open spec fn all_hints<F>(
    incoming: Seq<ElementV<F>>,
    existing: Seq<ElementV<F>>,
    overlaps: Seq<Vec<Option<String>>>,
) -> Seq<Seq<char>>
    decreases incoming.len(),
{
    if incoming.len() == 0 {
        Seq::empty()
    } else {
        all_hints(incoming.drop_last(), existing, overlaps) + hints_for(
            incoming.last(),
            existing,
            overlaps[incoming.len() - 1]@,
        )
    }
}

/// The most hints that are given.
pub const MAX_HINTS: usize = 3;

/// The first hints about new elements that cover existing ones. `overlaps`
/// tells, for each new and each existing element, how much of the smaller one
/// is covered, as a written percentage, where the two are of similar size,
/// neither is small, and at least half of the smaller one is covered.
pub fn overlap_warnings<F: Copy>(
    existing: &Vec<Element<F>>,
    incoming: &Vec<Element<F>>,
    overlaps: &Vec<Vec<Option<String>>>,
) -> (r: Vec<String>)
    requires
        overlaps@.len() == incoming@.len(),
        forall|i: int|
            0 <= i < overlaps@.len() ==> (#[trigger] overlaps@[i])@.len() == existing@.len(),
    ensures
        strings(r@) == first_few(
            all_hints(views(incoming@), views(existing@), overlaps@),
            MAX_HINTS as nat,
        ),
{
    let ghost inc = views(incoming@);
    let ghost exi = views(existing@);
    let mut r: Vec<String> = Vec::new();
    let mut i: usize = 0;
    assert(inc.take(0) =~= Seq::<ElementV<F>>::empty());
    assert(strings(r@) =~= Seq::<Seq<char>>::empty());
    while i < incoming.len()
        invariant
            i <= incoming.len(),
            inc == views(incoming@),
            exi == views(existing@),
            overlaps@.len() == incoming@.len(),
            forall|k: int|
                0 <= k < overlaps@.len() ==> (#[trigger] overlaps@[k])@.len() == existing@.len(),
            r@.len() < MAX_HINTS,
            strings(r@) == all_hints(inc.take(i as int), exi, overlaps@),
        decreases incoming.len() - i,
    {
        let ghost so_far = strings(r@);
        let ghost row = overlaps@[i as int]@;
        let mut j: usize = 0;
        assert(exi.take(0) =~= Seq::<ElementV<F>>::empty());
        assert(so_far + hints_for(inc[i as int], exi.take(0), row) =~= so_far);
        proof {
            assert(inc.take(i + 1).drop_last() =~= inc.take(i as int));
            assert(inc.take(i + 1).last() == inc[i as int]);
            lemma_hints_prefix(inc, exi, overlaps@, i + 1);
        }
        while j < existing.len()
            invariant
                i < incoming.len(),
                j <= existing.len(),
                inc == views(incoming@),
                exi == views(existing@),
                overlaps@.len() == incoming@.len(),
                row == overlaps@[i as int]@,
                row.len() == existing@.len(),
                so_far == all_hints(inc.take(i as int), exi, overlaps@),
                all_hints(inc.take(i + 1), exi, overlaps@) == so_far + hints_for(
                    inc[i as int],
                    exi,
                    row,
                ),
                all_hints(inc.take(i + 1), exi, overlaps@).is_prefix_of(
                    all_hints(inc, exi, overlaps@),
                ),
                r@.len() < MAX_HINTS,
                strings(r@) == so_far + hints_for(inc[i as int], exi.take(j as int), row),
            decreases existing.len() - j,
        {
            let ghost before = strings(r@);
            assert(exi.take(j + 1).drop_last() =~= exi.take(j as int));
            assert(exi.take(j + 1).last() == existing@[j as int]@);
            assert(inc[i as int] == incoming@[i as int]@);
            match &overlaps[i][j] {
                Some(percent) => {
                    if is_solid(&incoming[i]) && is_solid(&existing[j]) {
                        r.push(hint_text(&incoming[i], &existing[j], percent.as_str()));
                        assert(strings(r@) =~= before.push(r@.last()@));
                        assert(strings(r@) =~= so_far + hints_for(
                            inc[i as int],
                            exi.take(j + 1),
                            row,
                        ));
                        if r.len() >= MAX_HINTS {
                            proof {
                                let all = all_hints(inc, exi, overlaps@);
                                lemma_row_prefix(inc[i as int], exi, row, j + 1);
                                assert(strings(r@).is_prefix_of(all));
                                assert(first_few(all, 3) =~= strings(r@));
                            }
                            return r;
                        }
                    }
                },
                None => {},
            }
            j += 1;
        }
        assert(exi.take(exi.len() as int) =~= exi);
        i += 1;
    }
    assert(inc.take(inc.len() as int) =~= inc);
    r
}

proof fn lemma_row_prefix<F>(
    new: ElementV<F>,
    existing: Seq<ElementV<F>>,
    overlaps: Seq<Option<String>>,
    k: int,
)
    requires
        0 <= k <= existing.len(),
    ensures
        hints_for(new, existing.take(k), overlaps).is_prefix_of(hints_for(new, existing, overlaps)),
    decreases existing.len(),
{
    if k == existing.len() {
        assert(existing.take(k) =~= existing);
    } else {
        lemma_row_prefix(new, existing.drop_last(), overlaps, k);
        assert(existing.drop_last().take(k) =~= existing.take(k));
    }
}

proof fn lemma_hints_prefix<F>(
    incoming: Seq<ElementV<F>>,
    existing: Seq<ElementV<F>>,
    overlaps: Seq<Vec<Option<String>>>,
    k: int,
)
    requires
        0 <= k <= incoming.len(),
    ensures
        all_hints(incoming.take(k), existing, overlaps).is_prefix_of(
            all_hints(incoming, existing, overlaps),
        ),
    decreases incoming.len(),
{
    if k == incoming.len() {
        assert(incoming.take(k) =~= incoming);
    } else {
        lemma_hints_prefix(incoming.drop_last(), existing, overlaps, k);
        assert(incoming.drop_last().take(k) =~= incoming.take(k));
    }
}

} // verus!
