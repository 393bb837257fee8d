//! What editing text and changing styles leave on the board.

use vstd::prelude::*;
use crate::board::{ActiveTool, BoardV, DragV};
use crate::board_down::DownStep;
use crate::board_labels::{
    followers, follows, live_label, selected_texts, with_labels,
};
use crate::board_press::Press;
use crate::board_style::{touched_ids, StyleChange, TextChange};
use crate::board_text::{first_label, text_of, Fresh, LabelBox, Measured};
use crate::element::{ElementStyle, ElementV, KindV, WBounds, WPoint};
use crate::element_laws::{same_but_points, same_but_text};
use crate::gesture_laws::{gained, lemma_deselected};
use crate::ids::ElementId;
use crate::scene::{has_id, lemma_place_of, place_of, top_hit};
use crate::text::trim_spec;

verus! {

/// The characters of a text element; none for everything else.
pub proof fn law_only_texts_have_a_text<F>(k: KindV<F>)
    ensures
        k matches KindV::Text { text, .. } ==> text_of(k) == Some(text),
        !(k is Text) ==> text_of(k) is None,
{
}

/// An edit starts on a text and on nothing else, with the text's own font, box,
/// alignment and container. The scene and the selection stay.
pub proof fn law_an_edit_starts_on_a_text<F>(b: BoardV<F>, id: ElementId, is_new: bool)
    ensures
        ({
            let a = b.edit_started(id, is_new);
            let p = place_of(b.scene, id);
            &&& has_id(b.scene, id) && b.scene[p].kind is Text ==> {
                let k = b.scene[p].kind;
                a.editing matches Some(e) && {
                    &&& e.element_id == id
                    &&& e.font_size == k->font_size
                    &&& e.font_family == k->font_family
                    &&& e.wrap_width == k->wrap_width
                    &&& e.min_height == k->min_height
                    &&& e.container_id == k->container_id
                    &&& e.text_align == k->text_align
                    &&& e.is_new == is_new
                }
            }
            &&& !(has_id(b.scene, id) && b.scene[p].kind is Text) ==> a == b
            &&& a == (BoardV { editing: a.editing, ..b })
        }),
{
    reveal(BoardV::edit_started);
}

/// A committed edit is over. Its text stands in the edited element, which has the
/// measured extent and is otherwise as it was, a label at its place on its
/// container; every other element is as it was.
pub proof fn law_a_commit_writes_the_text<F>(b: BoardV<F>, text: Seq<char>, m: Measured<F>, k: int)
    requires
        b.editing is Some,
        has_id(b.scene, b.editing->Some_0.element_id),
        b.scene[place_of(b.scene, b.editing->Some_0.element_id)].kind is Text,
        trim_spec(text).len() > 0,
        0 <= k < b.scene.len(),
    ensures
        ({
            let a = b.committed(text, m);
            let e = b.editing->Some_0;
            let p = place_of(b.scene, e.element_id);
            let (was, now) = (b.scene[p], a.scene[p]);
            &&& a.editing is None
            &&& a.scene.len() == b.scene.len()
            &&& k != p ==> a.scene[k] == b.scene[k]
            &&& now.kind is Text && now.kind->Text_text == text
            &&& same_but_text(was.kind, now.kind)
            &&& now.id == was.id && now.style == was.style && now.seed == was.seed
            &&& was.kind->Text_text != text ==> {
                &&& now.bounds.w == m.w && now.bounds.h == m.h
                &&& if e.container_id is Some && has_id(b.scene, e.container_id->Some_0) {
                    now.bounds.x == m.placed.x && now.bounds.y == m.placed.y
                } else {
                    now.bounds.x == was.bounds.x && now.bounds.y == was.bounds.y
                }
                &&& a.dirty
                &&& e.is_new ==> a.history == b.history
                &&& !e.is_new ==> a.history == b.history.recorded(b.scene)
            }
            &&& b.commit_result(text) == (if e.is_new {
                Some(e.element_id)
            } else {
                None
            })
        }),
{
    reveal(BoardV::committed);
    lemma_place_of(b.scene, b.editing->Some_0.element_id);
}

/// A commit of blanks removes the edited element, and it alone; a commit without
/// an edit does nothing.
pub proof fn law_a_blank_commit_removes_the_text<F>(b: BoardV<F>, text: Seq<char>, m: Measured<F>)
    requires
        trim_spec(text).len() == 0,
    ensures
        b.commit_result(text) is None,
        b.editing is None ==> b.committed(text, m) == b,
        b.editing matches Some(e) ==> {
            let a = b.committed(text, m);
            let p = place_of(b.scene, e.element_id);
            &&& a.editing is None
            &&& has_id(b.scene, e.element_id) ==> a.scene == b.scene.remove(p)
            &&& !has_id(b.scene, e.element_id) ==> a.scene == b.scene
            &&& !e.is_new ==> a.history == b.history.recorded(b.scene)
            &&& e.is_new ==> a.history == b.history
        },
{
    reveal(BoardV::committed);
}

/// After a commit a label is not selected: its container is, when it is there. A
/// free text stays selected, and nothing else changes its selection.
pub proof fn law_a_committed_label_hands_over_its_selection<F>(
    b: BoardV<F>,
    text: Seq<char>,
    m: Measured<F>,
    x: ElementId,
)
    requires
        b.editing is Some,
    ensures
        ({
            let a = b.committed(text, m);
            let e = b.editing->Some_0;
            &&& e.container_id is None ==> a.selection == b.selection
            &&& e.container_id is Some && !b.selection.contains(e.element_id) ==> a.selection
                == b.selection
            &&& e.container_id is Some && b.selection.contains(e.element_id) ==> {
                let c = e.container_id->Some_0;
                &&& c != e.element_id ==> !a.selection.contains(e.element_id)
                &&& has_id(a.scene, c) ==> a.selection.contains(c)
                &&& x != e.element_id && x != c ==> a.selection.contains(x) == b.selection.contains(x)
            }
        }),
{
    reveal(BoardV::committed);
    let e = b.editing->Some_0;
    let w = BoardV { editing: None, ..b }.written_back(e, text, m);
    let a = b.committed(text, m);
    assert(w.selection == b.selection);
    lemma_deselected(b.selection, e.element_id);
    let rest = crate::board::deselected(b.selection, e.element_id);
    if let Some(c) = e.container_id {
        if b.selection.contains(e.element_id) && has_id(w.scene, c) && !rest.contains(c) {
            assert(a.selection[rest.len() as int] == c);
            if a.selection.contains(e.element_id) {
                let i = choose|i: int|
                    0 <= i < a.selection.len() && a.selection[i] == e.element_id;
                if i < rest.len() {
                    assert(rest[i] == e.element_id);
                    assert(rest.contains(e.element_id));
                }
            }
            if a.selection.contains(x) && x != c {
                let i = choose|i: int| 0 <= i < a.selection.len() && a.selection[i] == x;
                assert(rest[i] == x);
                assert(rest.contains(x));
            }
            if rest.contains(x) {
                let i = choose|i: int| 0 <= i < rest.len() && rest[i] == x;
                assert(a.selection[i] == x);
            }
        }
    }
}

/// A text that was just written is selected with the select tool; a label selects
/// its container instead.
pub proof fn law_a_fresh_text_is_selected<F>(b: BoardV<F>, id: ElementId)
    ensures
        ({
            let a = b.fresh_selected(id);
            let p = place_of(b.scene, id);
            let c = b.scene[p].kind.bound_to();
            &&& a.tool == ActiveTool::Select
            &&& has_id(b.scene, id) && c is Some ==> a.selection == seq![c->Some_0]
            &&& !(has_id(b.scene, id) && c is Some) ==> a.selection == seq![id]
            &&& a.scene == b.scene && a.history == b.history
        }),
{
}

/// Opening the label of a container edits its first label, or a new empty one on
/// it that is one step of the history. The label is what is selected.
pub proof fn law_a_label_is_opened_or_made<F>(
    b: BoardV<F>,
    container: ElementId,
    at: LabelBox<F>,
    fresh: Fresh,
)
    requires
        !has_id(b.scene, fresh.id),
    ensures
        ({
            let a = b.label_opened(container, at, fresh);
            &&& a.drag == b.drag && a.tool == b.tool
            &&& first_label(b.scene, container) matches Some(id) ==> {
                &&& a.scene == b.scene && a.history == b.history
                &&& a.selection == seq![id]
                &&& a.editing == b.edit_started(id, false).editing
            }
            &&& first_label(b.scene, container) is None && has_id(b.scene, container) ==> {
                let e = a.scene.last();
                &&& gained(a.scene, b.scene)
                &&& crate::mindmap_laws::labels(e, container, Seq::empty())
                &&& e.kind->wrap_width == Some(at.wrap)
                &&& e.id == fresh.id
                &&& a.selection == seq![fresh.id]
                &&& a.editing matches Some(s) && s.element_id == fresh.id && s.is_new
                    && s.container_id == Some(container)
                &&& a.history == b.history.recorded(b.scene)
                &&& a.pending_measure == b.pending_measure.push(fresh.id)
                &&& a.dirty
            }
            &&& first_label(b.scene, container) is None && !has_id(b.scene, container) ==> a == b
        }),
{
    reveal(BoardV::label_opened);
    reveal(BoardV::edit_started);
    let a = b.label_opened(container, at, fresh);
    if first_label(b.scene, container) is None && has_id(b.scene, container) {
        assert(a.scene.drop_last() =~= b.scene);
        lemma_place_of(a.scene, fresh.id);
        assert(a.scene[b.scene.len() as int].id == fresh.id);
        assert(place_of(a.scene, fresh.id) == b.scene.len()) by {
            let k = place_of(a.scene, fresh.id);
            if k < b.scene.len() {
                assert(b.scene[k].id == fresh.id);
            }
        }
    }
}

/// A double click on a text edits it, on a container its label, and on anything
/// else it grabs it; any other click grabs it too.
pub proof fn law_a_double_click_edits<F>(b: BoardV<F>, id: ElementId, p: Press<F>)
    requires
        has_id(b.scene, id),
        !has_id(b.scene, p.fresh.id),
    ensures
        ({
            let a = b.pressed_on(id, p);
            let k = b.scene[place_of(b.scene, id)].kind;
            let double = p.clicks == 2 && !p.modifiers.shift;
            &&& double && k is Text ==> (a.editing matches Some(e) && e.element_id == id && !e.is_new)
                && a.drag == b.drag
            &&& double && (k is Rectangle || k is Ellipse || k is Diamond || k is Line || k is Arrow)
                ==> a.drag == b.drag && (a.editing matches Some(e) && e.container_id == Some(id)
                || first_label(b.scene, id) is Some)
            &&& !double || k is Freedraw || k is Polygon || k is Image || k is Canvas ==> a.drag
                == (DragV::Moving { last: p.world, recorded: false }) && a.editing == b.editing
                && a.scene == b.scene
        }),
{
    reveal(BoardV::pressed_on);
    reveal(BoardV::edit_started);
    let c = BoardV {
        selection: crate::board_press::clicked(b.selection, id, p.modifiers.shift),
        ..b
    };
    law_a_label_is_opened_or_made(c, id, p.label, p.fresh);
}

/// The text tool edits the text it is pressed on, or the label of the container,
/// and else starts to size a new text where it is pressed.
pub proof fn law_the_text_tool_edits_what_it_hits<F>(b: BoardV<F>, p: Press<F>)
    requires
        !has_id(b.scene, p.fresh.id),
    ensures
        ({
            let a = b.text_pressed(p);
            let hit = top_hit(b.scene, p.hits@);
            let k = b.scene[place_of(b.scene, hit->Some_0)].kind;
            let found = hit is Some && has_id(b.scene, hit->Some_0);
            let closed = k is Rectangle || k is Ellipse || k is Diamond || k is Line || k is Arrow;
            &&& found && k is Text ==> (a.editing matches Some(e) && e.element_id == hit->Some_0
                && !e.is_new) && a.scene == b.scene
            &&& found && closed && first_label(b.scene, hit->Some_0) is None ==> (
            a.editing matches Some(e) && e.container_id == Some(hit->Some_0) && e.is_new) && gained(
                a.scene,
                b.scene,
            )
            &&& !(found && (k is Text || closed)) ==> a == (BoardV {
                drag: DragV::Drawing { start: p.world, seed: p.fresh.seed },
                ..b
            })
        }),
{
    reveal(BoardV::text_pressed);
    reveal(BoardV::edit_started);
    if let Some(id) = top_hit(b.scene, p.hits@) {
        law_a_label_is_opened_or_made(b, id, p.label, p.fresh);
    }
}

/// Each style change sets its setting and no other.
pub proof fn law_a_style_change_sets_one_setting<F>(c: StyleChange<F>, s: ElementStyle<F>)
    ensures
        ({
            let t = c.on(s);
            &&& c matches StyleChange::Stroke(x) ==> t.stroke == x
            &&& !(c is Stroke) ==> t.stroke == s.stroke
            &&& c matches StyleChange::Background(x) ==> t.background == x
            &&& !(c is Background) ==> t.background == s.background
            &&& c matches StyleChange::Fill(x) ==> t.fill_style == x
            &&& !(c is Fill) ==> t.fill_style == s.fill_style
            &&& c matches StyleChange::StrokeWidth(x) ==> t.stroke_width == x
            &&& !(c is StrokeWidth) ==> t.stroke_width == s.stroke_width
            &&& c matches StyleChange::Roughness(x) ==> t.roughness == x
            &&& !(c is Roughness) ==> t.roughness == s.roughness
            &&& c matches StyleChange::Line(x) ==> t.line_type == x
            &&& !(c is Line) ==> t.line_type == s.line_type
            &&& t.stroke_none == s.stroke_none && t.stroke_style == s.stroke_style && t.opacity
                == s.opacity && t.shadow == s.shadow && t.brush == s.brush && t.hachure_gap
                == s.hachure_gap && t.fill_weight == s.fill_weight && t.hachure_angle
                == s.hachure_angle && t.dry_density == s.dry_density && t.dry_width == s.dry_width
        }),
{
}

/// A style change reaches the board's own style and every element that is meant,
/// and no other element; nothing but styles changes.
pub proof fn law_a_style_change_reaches_what_is_meant<F>(
    b: BoardV<F>,
    c: StyleChange<F>,
    ids: Seq<ElementId>,
    i: int,
)
    requires
        0 <= i < b.scene.len(),
        crate::scene::unique_ids(b.scene),
    ensures
        ({
            let a = b.styled(c, ids);
            &&& a.style == c.on(b.style)
            &&& a.scene.len() == b.scene.len()
            &&& ids.contains(b.scene[i].id) ==> a.scene[i].style == c.on(b.scene[i].style)
            &&& !ids.contains(b.scene[i].id) ==> a.scene[i].style == b.scene[i].style
            &&& a.scene[i].kind == b.scene[i].kind && a.scene[i].bounds == b.scene[i].bounds
                && a.scene[i].id == b.scene[i].id && a.scene[i].seed == b.scene[i].seed
            &&& ids.len() > 0 ==> a.history == b.history.recorded(b.scene) && a.dirty
            &&& ids.len() == 0 ==> a.history == b.history && a.dirty == b.dirty
            &&& a.selection == b.selection && a.tool == b.tool
        }),
{
    let id = b.scene[i].id;
    lemma_place_of(b.scene, id);
    assert(has_id(b.scene, id));
    let p = place_of(b.scene, id);
    if p < i {
        assert(b.scene[p].id != b.scene[i].id);
    }
    if ids.len() == 0 {
        assert(!ids.contains(id));
    }
}

/// A text change becomes the default for new texts, and that of the edit in
/// progress; the other defaults stay.
pub proof fn law_a_text_change_is_the_new_default<F>(b: BoardV<F>, c: TextChange<F>)
    ensures
        ({
            let a = b.text_styled(c);
            &&& c matches TextChange::Size(f) ==> a.text_font_size == f && a.text_font_family
                == b.text_font_family && a.text_align == b.text_align
            &&& c matches TextChange::Family(f) ==> a.text_font_family == f@ && a.text_font_size
                == b.text_font_size && a.text_align == b.text_align
            &&& c matches TextChange::Align(t) ==> a.text_align == t && a.text_font_size
                == b.text_font_size && a.text_font_family == b.text_font_family
            &&& b.editing is None ==> a.editing is None
            &&& b.editing matches Some(e) ==> (a.editing matches Some(f) && {
                &&& f.element_id == e.element_id && f.is_new == e.is_new && f.container_id
                    == e.container_id && f.wrap_width == e.wrap_width && f.min_height
                    == e.min_height
                &&& c matches TextChange::Size(x) ==> f.font_size == x && f.font_family
                    == e.font_family && f.text_align == e.text_align
                &&& c matches TextChange::Family(x) ==> f.font_family == x@ && f.font_size
                    == e.font_size && f.text_align == e.text_align
                &&& c matches TextChange::Align(x) ==> f.text_align == x && f.font_size
                    == e.font_size && f.font_family == e.font_family
            })
            &&& a.selection == b.selection && a.style == b.style
        }),
{
}

proof fn lemma_selected_texts<F>(s: Seq<ElementV<F>>, ids: Seq<ElementId>, x: ElementId)
    ensures
        selected_texts(s, ids).contains(x) <==> ids.contains(x) && has_id(s, x) && s[place_of(
            s,
            x,
        )].kind is Text,
    decreases ids.len(),
{
    let r = selected_texts(s, ids);
    if ids.len() > 0 {
        let d = ids.drop_last();
        let q = selected_texts(s, d);
        lemma_selected_texts(s, d, x);
        lemma_split(ids, x);
        let took = has_id(s, ids.last()) && s[place_of(s, ids.last())].kind is Text;
        if took {
            lemma_pushed(q, ids.last(), x);
        }
    }
}

/// A list holds what its beginning holds and its last entry.
pub(crate) proof fn lemma_split(ids: Seq<ElementId>, x: ElementId)
    requires
        ids.len() > 0,
    ensures
        ids.contains(x) <==> ids.drop_last().contains(x) || ids.last() == x,
{
    let d = ids.drop_last();
    if ids.contains(x) {
        let i = choose|i: int| 0 <= i < ids.len() && ids[i] == x;
        if i < d.len() {
            assert(d[i] == x);
        }
    }
    if d.contains(x) {
        let i = choose|i: int| 0 <= i < d.len() && d[i] == x;
        assert(ids[i] == x);
    }
    assert(ids[ids.len() - 1] == ids.last());
}

proof fn lemma_pushed(s: Seq<ElementId>, y: ElementId, x: ElementId)
    ensures
        s.push(y).contains(x) <==> s.contains(x) || x == y,
{
    assert(s.push(y).drop_last() =~= s);
    lemma_split(s.push(y), x);
}

proof fn lemma_with_labels<F>(
    ids: Seq<ElementId>,
    s: Seq<ElementV<F>>,
    selection: Seq<ElementId>,
    x: ElementId,
)
    ensures
        with_labels(ids, s, selection).contains(x) <==> ids.contains(x) || exists|i: int|
            0 <= i < s.len() && (#[trigger] s[i]).id == x && s[i].kind.bound_to() is Some
                && selection.contains(s[i].kind.bound_to()->Some_0),
    decreases s.len(),
{
    if s.len() > 0 {
        let d = s.drop_last();
        let e = s.last();
        let rest = with_labels(ids, d, selection);
        lemma_with_labels(ids, d, selection, x);
        lemma_pushed(rest, e.id, x);
        if exists|i: int|
            0 <= i < d.len() && (#[trigger] d[i]).id == x && d[i].kind.bound_to() is Some
                && selection.contains(d[i].kind.bound_to()->Some_0) {
            let i = choose|i: int|
                0 <= i < d.len() && (#[trigger] d[i]).id == x && d[i].kind.bound_to() is Some
                    && selection.contains(d[i].kind.bound_to()->Some_0);
            assert(s[i].id == x);
        }
        if exists|i: int|
            0 <= i < s.len() && (#[trigger] s[i]).id == x && s[i].kind.bound_to() is Some
                && selection.contains(s[i].kind.bound_to()->Some_0) {
            let i = choose|i: int|
                0 <= i < s.len() && (#[trigger] s[i]).id == x && s[i].kind.bound_to() is Some
                    && selection.contains(s[i].kind.bound_to()->Some_0);
            if i < d.len() {
                assert(d[i].id == x);
            }
        }
        assert(s[s.len() - 1] == e);
    }
}

/// The texts that the panel speaks of are the selected ones and the labels of what
/// is selected.
pub proof fn law_the_panel_speaks_of_selected_texts_and_labels<F>(b: BoardV<F>, x: ElementId)
    ensures
        b.panel_texts().contains(x) <==> (b.selection.contains(x) && has_id(b.scene, x)
            && b.scene[place_of(b.scene, x)].kind is Text) || exists|i: int|
            0 <= i < b.scene.len() && (#[trigger] b.scene[i]).id == x
                && b.scene[i].kind.bound_to() is Some && b.selection.contains(
                b.scene[i].kind.bound_to()->Some_0,
            ),
{
    lemma_selected_texts(b.scene, b.selection, x);
    lemma_with_labels(selected_texts(b.scene, b.selection), b.scene, b.selection, x);
}

/// The shapes that the panel speaks of are the selected elements; when only labels
/// are selected, their containers.
pub proof fn law_the_panel_speaks_of_containers_for_labels<F>(b: BoardV<F>, i: int)
    requires
        0 <= i < b.selection.len(),
    ensures
        ({
            let all = forall|j: int|
                0 <= j < b.selection.len() ==> live_label(b.scene, #[trigger] b.selection[j]);
            &&& !all ==> b.panel_shapes() == b.selection
            &&& all ==> b.panel_shapes().len() == b.selection.len() && b.scene[place_of(
                b.scene,
                b.selection[i],
            )].kind.bound_to() == Some(b.panel_shapes()[i])
        }),
        live_label(b.scene, b.selection[i]) <==> has_id(b.scene, b.selection[i]) && (
        b.scene[place_of(b.scene, b.selection[i])].kind matches KindV::Text { container_id, .. }
            && container_id is Some && has_id(b.scene, container_id->Some_0)),
{
    let all = forall|j: int|
        0 <= j < b.selection.len() ==> live_label(b.scene, #[trigger] b.selection[j]);
    if all {
        assert(live_label(b.scene, b.selection[i]));
    }
}

proof fn lemma_touched<F>(
    s: Seq<ElementV<F>>,
    ids: Seq<ElementId>,
    c: TextChange<F>,
    x: ElementId,
)
    ensures
        touched_ids(s, ids, c).contains(x) <==> ids.contains(x) && has_id(s, x)
            && crate::board_style::touched(c, s[place_of(s, x)].kind),
    decreases ids.len(),
{
    if ids.len() > 0 {
        let d = ids.drop_last();
        let q = touched_ids(s, d, c);
        lemma_touched(s, d, c, x);
        lemma_split(ids, x);
        if has_id(s, ids.last()) && crate::board_style::touched(
            c,
            s[place_of(s, ids.last())].kind,
        ) {
            lemma_pushed(q, ids.last(), x);
        }
    }
}

/// A text change gives every text that the panel speaks of the new setting, and
/// leaves every other element as it was; characters, boxes and styles stay.
pub proof fn law_a_text_change_reaches_the_panel_texts<F>(b: BoardV<F>, c: TextChange<F>, i: int)
    requires
        0 <= i < b.scene.len(),
        crate::scene::unique_ids(b.scene),
    ensures
        ({
            let a = b.text_styled(c);
            let (was, now) = (b.scene[i], a.scene[i]);
            &&& a.scene.len() == b.scene.len()
            &&& !b.panel_texts().contains(was.id) || !(was.kind is Text) ==> now == was
            &&& now.id == was.id && now.style == was.style && now.bounds == was.bounds && now.seed
                == was.seed
            &&& b.panel_texts().contains(was.id) && was.kind is Text ==> {
                &&& now.kind is Text
                &&& now.kind->Text_text == was.kind->Text_text
                &&& now.kind->container_id == was.kind->container_id
                &&& now.kind->wrap_width == was.kind->wrap_width
                &&& c matches TextChange::Size(f) ==> now.kind->font_size == f
                    && now.kind->font_family == was.kind->font_family && now.kind->text_align
                    == was.kind->text_align
                &&& c matches TextChange::Family(f) ==> now.kind->font_family == f@
                    && now.kind->font_size == was.kind->font_size && now.kind->text_align
                    == was.kind->text_align
                &&& c matches TextChange::Align(t) ==> now.kind->text_align == t
                    && now.kind->font_size == was.kind->font_size && now.kind->font_family
                    == was.kind->font_family
            }
            &&& a.scene != b.scene ==> a.history == b.history.recorded(b.scene) && a.dirty
            &&& now != was ==> a.pending_measure.contains(was.id)
        }),
{
    let id = b.scene[i].id;
    lemma_place_of(b.scene, id);
    assert(has_id(b.scene, id));
    let p = place_of(b.scene, id);
    if p < i {
        assert(b.scene[p].id != b.scene[i].id);
    }
    let ids = touched_ids(b.scene, b.panel_texts(), c);
    lemma_touched(b.scene, b.panel_texts(), c, id);
    if ids.len() == 0 {
        assert(!ids.contains(id));
    }
    let texts = selected_texts(b.scene, ids);
    lemma_selected_texts(b.scene, ids, id);
    if ids.len() > 0 && texts.contains(id) {
        let k = choose|k: int| 0 <= k < texts.len() && texts[k] == id;
        assert((b.pending_measure + texts)[b.pending_measure.len() + k] == id);
    }
}

/// When containers change, their labels wrap at the new width and are measured
/// again; the height they were given stays, and everything else is as it was.
pub proof fn law_labels_wrap_with_their_container<F>(
    b: BoardV<F>,
    ids: Seq<ElementId>,
    wraps: Seq<F>,
    i: int,
)
    requires
        0 <= i < b.scene.len(),
    ensures
        ({
            let a = b.relabelled(ids, wraps);
            let (was, now) = (b.scene[i], a.scene[i]);
            let c = was.kind.bound_to();
            let label = c is Some && ids.contains(c->Some_0) && has_id(b.scene, c->Some_0)
                && !ids.contains(was.id);
            &&& a.scene.len() == b.scene.len()
            &&& !label ==> now == was
            &&& label ==> {
                &&& now.kind is Text && now.kind->wrap_width == Some(wraps[i])
                &&& now.kind->Text_text == was.kind->Text_text && now.kind->font_size
                    == was.kind->font_size && now.kind->font_family == was.kind->font_family
                    && now.kind->min_height == was.kind->min_height && now.kind->container_id
                    == was.kind->container_id && now.kind->text_align == was.kind->text_align
                &&& now.id == was.id && now.bounds == was.bounds && now.style == was.style
                &&& a.pending_measure.contains(was.id)
            }
            &&& a.history == b.history && a.selection == b.selection
        }),
{
    let n = b.scene.len() as int;
    lemma_followers(b.scene, ids, n, i);
    if follows(b.scene, ids, b.scene[i]) {
        let f = followers(b.scene, ids, n);
        let k = choose|k: int| 0 <= k < f.len() && f[k] == b.scene[i].id;
        assert((b.pending_measure + f)[b.pending_measure.len() + k] == b.scene[i].id);
    }
}

proof fn lemma_followers<F>(s: Seq<ElementV<F>>, ids: Seq<ElementId>, n: int, i: int)
    requires
        0 <= i < n <= s.len(),
    ensures
        follows(s, ids, s[i]) ==> followers(s, ids, n).contains(s[i].id),
    decreases n,
{
    let r = followers(s, ids, n);
    if i == n - 1 {
        if follows(s, ids, s[i]) {
            assert(r[r.len() - 1] == s[i].id);
        }
    } else {
        lemma_followers(s, ids, n - 1, i);
        if follows(s, ids, s[i]) {
            let q = followers(s, ids, n - 1);
            let k = choose|k: int| 0 <= k < q.len() && q[k] == s[i].id;
            assert(r[k] == s[i].id);
        }
    }
}

/// Deleting a vertex takes it out of the selected path, which keeps its order, its
/// heads and its style and takes the new box; a path of two points keeps them.
pub proof fn law_a_deleted_vertex_is_gone<F>(
    b: BoardV<F>,
    index: int,
    points: Seq<WPoint<F>>,
    bounds: WBounds<F>,
    wraps: Seq<F>,
)
    requires
        b.selection.len() > 0,
        has_id(b.scene, b.selection[0]),
        b.scene[place_of(b.scene, b.selection[0])].kind is Line || b.scene[place_of(
            b.scene,
            b.selection[0],
        )].kind is Arrow,
        points.len() == b.scene[place_of(b.scene, b.selection[0])].kind.points().len(),
        0 <= index < points.len(),
    ensures
        ({
            let a = b.vertex_deleted(index, points, bounds, wraps);
            let p = place_of(b.scene, b.selection[0]);
            let (was, now) = (b.scene[p], a.scene[p]);
            &&& points.len() <= 2 ==> a == b
            &&& points.len() > 2 ==> {
                &&& now.kind.points() == points.remove(index)
                &&& same_but_points(was.kind, now.kind)
                &&& now.bounds == bounds && now.style == was.style && now.id == was.id
                &&& a.history == b.history.recorded(b.scene) && a.dirty && a.context_menu is None
            }
            &&& a.scene.len() == b.scene.len()
        }),
{
    lemma_place_of(b.scene, b.selection[0]);
}

/// An inserted text lies on top of the scene, reads what was given in the board's
/// font, has the given extent, and is selected.
pub proof fn law_an_inserted_text_reads_as_given<F>(
    b: BoardV<F>,
    text: Seq<char>,
    at: WPoint<F>,
    w: F,
    h: F,
    zero: F,
    fresh: Fresh,
)
    ensures
        ({
            let a = b.text_inserted(text, at, w, h, zero, fresh);
            let e = a.scene.last();
            &&& gained(a.scene, b.scene)
            &&& e.kind is Text && e.kind->Text_text == text && e.kind->container_id is None
                && e.kind->font_size == b.text_font_size && e.kind->font_family
                == b.text_font_family && e.kind->text_align == b.text_align
                && e.kind->wrap_width is None
            &&& e.bounds == WBounds { x: at.x, y: at.y, w, h }
            &&& e.id == fresh.id && e.style.roughness == zero && e.style.stroke == b.style.stroke
            &&& a.selection == seq![fresh.id]
            &&& a.history == b.history.recorded(b.scene) && a.dirty
            &&& a.pending_measure == b.pending_measure.push(fresh.id)
        }),
{
    let a = b.text_inserted(text, at, w, h, zero, fresh);
    assert(a.scene.drop_last() =~= b.scene);
}

/// Choosing a tool makes it the tool, ends what was being drawn or dragged, and
/// keeps the selection for the select tool only.
pub proof fn law_choosing_a_tool_ends_the_gesture<F>(b: BoardV<F>, t: ActiveTool)
    ensures
        ({
            let a = b.with_tool(t);
            &&& a.tool == t
            &&& a.drag is Idle && a.draft is None
            &&& t == ActiveTool::Select ==> a.selection == b.selection
            &&& t != ActiveTool::Select ==> a.selection.len() == 0
            &&& a.scene == b.scene && a.history == b.history && a.style == b.style
        }),
{
}

/// A step back brings the recorded scene and keeps of the selection what is in it;
/// a step forward undoes that. Without a step nothing happens.
pub proof fn law_undo_restores_the_scene<F>(b: BoardV<F>)
    ensures
        b.history.undo.len() > 0 ==> b.undone().scene == b.history.undo.last()
            && b.undone().redone().scene == b.scene && b.undone().history.redo.last() == b.scene,
        b.history.undo.len() == 0 ==> b.undone() == b,
        b.history.redo.len() > 0 ==> b.redone().scene == b.history.redo.last()
            && b.redone().undone().scene == b.scene && b.redone().history.undo.last() == b.scene,
        b.history.redo.len() == 0 ==> b.redone() == b,
        b.undone().tool == b.tool && b.undone().style == b.style,
{
}

/// A press while a text is edited moves the caret inside the edited box and else
/// commits; the menu bar and the panel take their own presses. A text that the
/// commit leaves behind as new ends the press by being selected.
pub proof fn law_a_press_outside_commits<F>(
    b: BoardV<F>,
    in_menu_bar: bool,
    over_panel: bool,
    in_edit_box: bool,
    text: Seq<char>,
    m: Measured<F>,
)
    ensures
        ({
            let step = b.down_step(in_menu_bar, over_panel, in_edit_box, text);
            let a = b.down_begun(in_menu_bar, over_panel, in_edit_box, text, m);
            &&& in_menu_bar || over_panel <==> step == DownStep::Ignored
            &&& in_menu_bar ==> a == b
            &&& !in_menu_bar ==> a.context_menu is None
            &&& b.editing is None && !in_menu_bar && !over_panel ==> step == DownStep::Act && a.scene
                == b.scene
            &&& step == DownStep::MoveCaret ==> in_edit_box && a.editing == b.editing && a.scene
                == b.scene
            &&& b.editing is Some && in_edit_box && !in_menu_bar && !over_panel && has_id(
                b.scene,
                b.editing->Some_0.element_id,
            ) ==> step == DownStep::MoveCaret
            &&& b.editing is Some && !in_edit_box && !in_menu_bar && !over_panel ==> a.editing
                is None && a.scene == b.committed(text, m).scene
            &&& step == DownStep::FreshSelected ==> a.tool == ActiveTool::Select
                && a.selection.len() == 1
        }),
{
    reveal(BoardV::committed);
}

/// The selection and the menu after a right press: an element that is not selected
/// becomes the selection, and the menu opens where the pointer is when anything is
/// selected. On a vertex of the selected line the menu is about that vertex, if
/// the line can lose one.
pub proof fn law_a_right_press_opens_the_menu<F>(
    b: BoardV<F>,
    over_panel: bool,
    vertex: Option<usize>,
    p: Press<F>,
)
    ensures
        ({
            let a = b.right_pressed(over_panel, vertex, p);
            let hit = top_hit(b.scene, p.hits@);
            let id = crate::board_press::resolved(b.scene, hit->Some_0);
            let on_vertex = b.selected_line() is Some && vertex is Some;
            &&& over_panel ==> a == b
            &&& a.scene == b.scene && a.history == b.history && a.tool == b.tool
            &&& !over_panel && on_vertex ==> a.selection == b.selection
            &&& !over_panel && on_vertex && b.scene[place_of(
                b.scene,
                b.selected_line()->Some_0,
            )].kind.points().len() > 2 ==> (a.context_menu matches Some(c) && c.position == p.screen
                && c.vertex == vertex)
            &&& !over_panel && !on_vertex && hit is Some && !p.modifiers.shift
                && !b.selection.contains(id) ==> a.selection == seq![id]
            &&& !over_panel && !on_vertex && (hit is None || b.selection.contains(id)
                || p.modifiers.shift) ==> a.selection == b.selection
            &&& !over_panel && !on_vertex && a.selection.len() > 0 ==> (
            a.context_menu matches Some(c) && c.position == p.screen && c.vertex is None)
            &&& !over_panel && !on_vertex && a.selection.len() == 0 ==> a.context_menu
                == b.context_menu
        }),
{
    reveal(BoardV::menu_opened);
}

/// After a step back or forward the selection is what is left of it in the scene
/// that came: nothing that is there is dropped, and nothing is added.
pub proof fn law_steps_keep_what_is_left_of_the_selection<F>(b: BoardV<F>, x: ElementId)
    ensures
        b.history.undo.len() > 0 ==> (b.undone().selection.contains(x) <==> b.selection.contains(x)
            && has_id(b.history.undo.last(), x)),
        b.history.redo.len() > 0 ==> (b.redone().selection.contains(x) <==> b.selection.contains(x)
            && has_id(b.history.redo.last(), x)),
{
    if b.history.undo.len() > 0 {
        lemma_live(b.selection, b.history.undo.last(), x);
    }
    if b.history.redo.len() > 0 {
        lemma_live(b.selection, b.history.redo.last(), x);
    }
}

proof fn lemma_live<F>(ids: Seq<ElementId>, s: Seq<ElementV<F>>, x: ElementId)
    ensures
        crate::board::live_selection(ids, s).contains(x) <==> ids.contains(x) && has_id(s, x),
    decreases ids.len(),
{
    reveal(Seq::filter);
    if ids.len() > 0 {
        let d = ids.drop_last();
        lemma_live(d, s, x);
        lemma_split(ids, x);
        if has_id(s, ids.last()) {
            lemma_pushed(crate::board::live_selection(d, s), ids.last(), x);
        }
    }
}

} // verus!
