//! What drawing operations do to the board.

use vstd::prelude::*;
use crate::board::{BoardV, BoardView};
use crate::board_text::{first_label, Fresh, LabelBox};
use crate::canvas_op::{set_or, CanvasStyle, MindmapPen};
use crate::element::{
    copy_list, opt_text, plain_style, Element, ElementKind, ElementStyle, ElementV, FillStyle,
    KindV, LineType, WBounds, WPoint,
};
use crate::ids::ElementId;
use crate::mindmap::{tree_count, MindmapNodeInput, PALETTE_LEN};
use crate::mindmap_layout::{
    laid_link, laid_node, layout, LinkPath, LinkSpec, MindmapLayout, NodeBox, NodeSpec,
};
use crate::mindmap_laws::{lemma_mindmap_drawn, shows_tree};
use crate::mindmap_plan::{plan_links, plan_nodes, LinkV, NodeV};
use crate::scene::{has_id, lemma_place_of, place_of};

verus! {

impl<F> BoardV<F> {
    /// The board after `el` was added as one undoable step.
    pub open spec fn added(self, el: ElementV<F>) -> Self {
        BoardV {
            scene: self.scene.push(el),
            history: self.history.recorded(self.scene),
            ..self
        }
    }

    /// The board with a label on `container`, when there is a text for it.
    pub open spec fn maybe_labelled(
        self,
        container: ElementId,
        text: Option<Seq<char>>,
        label: LabelBox<F>,
        fresh: Fresh,
    ) -> Self {
        match text {
            Some(t) => if t.len() > 0 {
                self.labelled(container, t, label, fresh)
            } else {
                self
            },
            None => self,
        }
    }
}

impl<F: Copy> BoardView<F> {
    /// Adds an element as one undoable step.
    pub fn add_recorded(&mut self, el: Element<F>)
        ensures
            final(self)@ == old(self)@.added(el@),
    {
        self.record();
        let _id: ElementId = self.scene.add(el);
    }

    /// Adds a label to a container, when there is a text for it.
    pub fn label_if_any(
        &mut self,
        container: ElementId,
        text: Option<String>,
        label: LabelBox<F>,
        fresh: Fresh,
    )
        ensures
            final(self)@ == old(self)@.maybe_labelled(container, opt_text(text), label, fresh),
    {
        match text {
            Some(t) => {
                if !t.as_str().is_empty() {
                    self.add_bound_label(container, t, label, fresh);
                }
            },
            None => {},
        }
    }
}

/// The element of a laid-out link.
pub open spec fn link_element<F>(
    l: LinkV,
    p: LinkPath<F>,
    pen: MindmapPen<F>,
    fresh: Fresh,
) -> ElementV<F> {
    ElementV {
        id: fresh.id,
        bounds: p.bounds,
        seed: fresh.seed,
        style: ElementStyle {
            stroke: l.stroke,
            line_type: LineType::Curved,
            ..plain_style(pen.link_width, pen.roughness, pen.opacity)
        },
        kind: KindV::Line { points: p.points@ },
    }
}

/// The outline width of a node by its level.
pub open spec fn node_width<F>(pen: MindmapPen<F>, level: nat) -> F {
    if level == 0 {
        pen.root_width
    } else if level == 1 {
        pen.branch_width
    } else {
        pen.leaf_width
    }
}

/// The element of a laid-out node.
pub open spec fn node_element<F>(
    n: NodeV,
    b: NodeBox<F>,
    pen: MindmapPen<F>,
    id: ElementId,
    seed: u64,
) -> ElementV<F> {
    ElementV {
        id,
        bounds: b.bounds,
        seed,
        style: ElementStyle {
            stroke: n.stroke,
            background: Some(n.fill),
            fill_style: FillStyle::Solid,
            ..plain_style(node_width(pen, n.level), pen.roughness, pen.opacity)
        },
        kind: KindV::Rectangle,
    }
}

/// The identity of node `i`: the pre-assigned one for the root.
pub open spec fn node_id(i: int, root_id: ElementId, fresh: Fresh) -> ElementId {
    if i == 0 {
        root_id
    } else {
        fresh.id
    }
}

impl<F> BoardV<F> {
    /// The board after the first `n` nodes of a mind map were drawn, each with
    /// its label on it. Node `i` takes the fresh values at `2 * i`, its label
    /// those behind them.
    pub open spec fn nodes_drawn(
        self,
        nodes: Seq<NodeV>,
        boxes: Seq<NodeBox<F>>,
        pen: MindmapPen<F>,
        root_id: ElementId,
        fresh: Seq<Fresh>,
        n: int,
    ) -> Self
        decreases n,
    {
        if n <= 0 {
            self
        } else {
            let b = self.nodes_drawn(nodes, boxes, pen, root_id, fresh, n - 1);
            let i = n - 1;
            let id = node_id(i, root_id, fresh[2 * i]);
            BoardV {
                scene: b.scene.push(node_element(nodes[i], boxes[i], pen, id, fresh[2 * i].seed)),
                ..b
            }.labelled(id, nodes[i].text, boxes[i].label, fresh[2 * i + 1])
        }
    }

    /// The board after the links of a mind map were drawn.
    pub open spec fn links_drawn(
        self,
        links: Seq<LinkV>,
        paths: Seq<LinkPath<F>>,
        pen: MindmapPen<F>,
        fresh: Seq<Fresh>,
    ) -> Self {
        BoardV {
            scene: self.scene + Seq::new(
                links.len(),
                |i: int| link_element(links[i], paths[i], pen, fresh[i]),
            ),
            ..self
        }
    }

    /// The board after a mind map was drawn as one undoable step: the links
    /// below, the nodes and their labels above.
    pub open spec fn mindmap_drawn(
        self,
        root: MindmapNodeInput,
        boxes: Seq<NodeBox<F>>,
        paths: Seq<LinkPath<F>>,
        pen: MindmapPen<F>,
        root_id: ElementId,
        fresh: Seq<Fresh>,
    ) -> Self {
        let links = plan_links(root);
        let nodes = plan_nodes(root);
        BoardV { history: self.history.recorded(self.scene), ..self }.links_drawn(
            links,
            paths,
            pen,
            fresh,
        ).nodes_drawn(
            nodes,
            boxes,
            pen,
            root_id,
            fresh.skip(links.len() as int),
            nodes.len() as int,
        )
    }
}

fn link_to_draw<F: Copy>(s: &LinkSpec<F>, pen: MindmapPen<F>, fresh: Fresh) -> (r: Element<F>)
    ensures
        forall|l: LinkV, p: LinkPath<F>|
            laid_link(*s, l, p) ==> r@ == #[trigger] link_element(l, p, pen, fresh),
{
    let mut style: ElementStyle<F> = ElementStyle::plain(pen.link_width, pen.roughness, pen.opacity);
    style.stroke = s.stroke;
    style.line_type = LineType::Curved;
    Element {
        id: fresh.id,
        bounds: s.path.bounds,
        seed: fresh.seed,
        style,
        kind: ElementKind::Line { points: copy_list(&s.path.points) },
    }
}

fn node_to_draw<F: Copy>(s: &NodeSpec<F>, pen: MindmapPen<F>, id: ElementId, seed: u64) -> (r:
    Element<F>)
    ensures
        forall|n: NodeV, b: NodeBox<F>|
            laid_node(*s, n, b) ==> r@ == #[trigger] node_element(n, b, pen, id, seed),
{
    let width: F = if s.level == 0 {
        pen.root_width
    } else if s.level == 1 {
        pen.branch_width
    } else {
        pen.leaf_width
    };
    let mut style: ElementStyle<F> = ElementStyle::plain(width, pen.roughness, pen.opacity);
    style.stroke = s.stroke;
    style.background = Some(s.fill);
    style.fill_style = FillStyle::Solid;
    Element { id, bounds: s.place.bounds, seed, style, kind: ElementKind::Rectangle }
}

impl<F: Copy> BoardView<F> {
    /// Draws the links of a laid-out mind map.
    fn draw_links(
        &mut self,
        specs: &Vec<LinkSpec<F>>,
        pen: MindmapPen<F>,
        fresh: &Vec<Fresh>,
        Ghost(links): Ghost<Seq<LinkV>>,
        Ghost(paths): Ghost<Seq<LinkPath<F>>>,
    )
        requires
            specs@.len() == links.len(),
            fresh@.len() >= links.len(),
            forall|i: int|
                0 <= i < links.len() ==> laid_link(#[trigger] specs@[i], links[i], paths[i]),
        ensures
            final(self)@ == old(self)@.links_drawn(links, paths, pen, fresh@),
    {
        let ghost b = self@;
        let ghost all = Seq::new(
            links.len(),
            |i: int| link_element(links[i], paths[i], pen, fresh@[i]),
        );
        let mut i: usize = 0;
        assert(all.take(0) =~= Seq::empty());
        assert(b.scene + all.take(0) =~= b.scene);
        while i < specs.len()
            invariant
                i <= specs.len(),
                specs@.len() == links.len(),
                fresh@.len() >= links.len(),
                all == Seq::new(
                    links.len(),
                    |i: int| link_element(links[i], paths[i], pen, fresh@[i]),
                ),
                forall|i: int|
                    0 <= i < links.len() ==> laid_link(#[trigger] specs@[i], links[i], paths[i]),
                self@ == (BoardV { scene: b.scene + all.take(i as int), ..b }),
            decreases specs.len() - i,
        {
            assert(laid_link(specs@[i as int], links[i as int], paths[i as int]));
            let el: Element<F> = link_to_draw(&specs[i], pen, fresh[i]);
            let _id: ElementId = self.scene.add(el);
            assert(el@ == link_element(links[i as int], paths[i as int], pen, fresh@[i as int]));
            assert((b.scene + all.take(i as int)).push(el@) =~= b.scene + all.take(i + 1));
            i += 1;
        }
        assert(all.take(all.len() as int) =~= all);
    }

    /// Draws the nodes of a laid-out mind map, each with its label.
    fn draw_nodes(
        &mut self,
        specs: &Vec<NodeSpec<F>>,
        pen: MindmapPen<F>,
        root_id: ElementId,
        fresh: &Vec<Fresh>,
        from: usize,
        Ghost(nodes): Ghost<Seq<NodeV>>,
        Ghost(boxes): Ghost<Seq<NodeBox<F>>>,
    )
        requires
            specs@.len() == nodes.len(),
            fresh@.len() >= from + 2 * nodes.len(),
            forall|i: int|
                0 <= i < nodes.len() ==> laid_node(#[trigger] specs@[i], nodes[i], boxes[i]),
        ensures
            final(self)@ == old(self)@.nodes_drawn(
                nodes,
                boxes,
                pen,
                root_id,
                fresh@.skip(from as int),
                nodes.len() as int,
            ),
    {
        let ghost b = self@;
        let ghost rest = fresh@.skip(from as int);
        let mut i: usize = 0;
        let supply: usize = fresh.len();
        while i < specs.len()
            invariant
                i <= specs.len(),
                specs@.len() == nodes.len(),
                supply == fresh@.len(),
                supply >= from + 2 * nodes.len(),
                rest == fresh@.skip(from as int),
                forall|i: int|
                    0 <= i < nodes.len() ==> laid_node(#[trigger] specs@[i], nodes[i], boxes[i]),
                self@ == b.nodes_drawn(nodes, boxes, pen, root_id, rest, i as int),
            decreases specs.len() - i,
        {
            let ghost now = self@;
            assert(laid_node(specs@[i as int], nodes[i as int], boxes[i as int]));
            let mine: Fresh = fresh[from + 2 * i];
            let its: Fresh = fresh[from + 2 * i + 1];
            assert(rest[2 * i as int] == mine);
            assert(rest[2 * i + 1] == its);
            let id: ElementId = if i == 0 {
                root_id
            } else {
                mine.id
            };
            let el: Element<F> = node_to_draw(&specs[i], pen, id, mine.seed);
            assert(el@ == node_element(nodes[i as int], boxes[i as int], pen, id, mine.seed));
            let added: ElementId = self.scene.add(el);
            assert(self@ =~= BoardV { scene: now.scene.push(el@), ..now });
            self.add_bound_label(added, specs[i].text.clone(), specs[i].place.label, its);
            i += 1;
        }
    }

    /// Draws a mind map as one undoable step.
    pub fn draw_mindmap(
        &mut self,
        root: &MindmapNodeInput,
        boxes: &Vec<NodeBox<F>>,
        paths: &Vec<LinkPath<F>>,
        pen: MindmapPen<F>,
        root_id: ElementId,
        fresh: &Vec<Fresh>,
    )
        requires
            tree_count(*root) < usize::MAX - PALETTE_LEN,
            boxes@.len() == plan_nodes(*root).len(),
            paths@.len() == plan_links(*root).len(),
            fresh@.len() >= plan_links(*root).len() + 2 * plan_nodes(*root).len(),
        ensures
            final(self)@ == old(self)@.mindmap_drawn(
                *root,
                boxes@,
                paths@,
                pen,
                root_id,
                fresh@,
            ),
            shows_tree(
                final(self)@.scene,
                old(self)@.scene,
                *root,
                boxes@,
                paths@,
                pen,
                root_id,
            ),
    {
        proof {
            lemma_mindmap_drawn(self@, *root, boxes@, paths@, pen, root_id, fresh@);
        }
        let laid: MindmapLayout<F> = layout(root, boxes, paths);
        self.record();
        self.draw_links(&laid.links, pen, fresh, Ghost(plan_links(*root)), Ghost(paths@));
        let from: usize = laid.links.len();
        self.draw_nodes(
            &laid.nodes,
            pen,
            root_id,
            fresh,
            from,
            Ghost(plan_nodes(*root)),
            Ghost(boxes@),
        );
    }
}

/// A change to one element: what is given replaces what was.
#[derive(Clone, Copy, Debug)]
pub struct Change<F> {
    pub x: Option<F>,
    pub y: Option<F>,
    pub style: CanvasStyle<F>,
    pub font_size: Option<F>,
}

/// An element after its own part of a change; a text and a font size only
/// reach a text element.
pub open spec fn changed<F>(
    el: ElementV<F>,
    c: Change<F>,
    text: Option<Seq<char>>,
) -> ElementV<F> {
    let retexted = match text {
        Some(t) => el.kind.with_text(t),
        None => el.kind,
    };
    ElementV {
        bounds: WBounds { x: set_or(c.x, el.bounds.x), y: set_or(c.y, el.bounds.y), ..el.bounds },
        style: c.style.over(el.style),
        kind: match c.font_size {
            Some(f) => retexted.with_font_size(f),
            None => retexted,
        },
        ..el
    }
}

/// The labels of `container` moved to their places; elements that have no
/// place yet stay.
pub open spec fn labels_placed<F>(
    s: Seq<ElementV<F>>,
    container: ElementId,
    placed: Seq<WPoint<F>>,
) -> Seq<ElementV<F>> {
    Seq::new(
        s.len(),
        |i: int|
            if i < placed.len() && s[i].kind.bound_to() == Some(container) {
                s[i].at(placed[i])
            } else {
                s[i]
            },
    )
}

impl<F> BoardV<F> {
    /// The board after the element `id` itself was changed, as one undoable
    /// step; a text with a new font size is measured again.
    pub open spec fn element_changed(
        self,
        id: ElementId,
        c: Change<F>,
        text: Option<Seq<char>>,
    ) -> Self {
        let i = place_of(self.scene, id);
        BoardV {
            scene: self.scene.update(i, changed(self.scene[i], c, text)),
            history: self.history.recorded(self.scene),
            pending_measure: if c.font_size is Some && self.scene[i].kind is Text {
                self.pending_measure.push(id)
            } else {
                self.pending_measure
            },
            ..self
        }
    }

    /// The board after the shape `id` got the label `text`: its first label
    /// takes the text and its place, or a new one is added.
    pub open spec fn label_set(
        self,
        id: ElementId,
        text: Seq<char>,
        placed: Seq<WPoint<F>>,
        label: LabelBox<F>,
        fresh: Fresh,
    ) -> Self {
        match first_label(self.scene, id) {
            Some(lid) => {
                let i = place_of(self.scene, lid);
                let el = self.scene[i];
                BoardV {
                    scene: self.scene.update(
                        i,
                        el.with_kind(el.kind.with_text(text)).at(placed[i]),
                    ),
                    pending_measure: self.pending_measure.push(lid),
                    ..self
                }
            },
            None => self.labelled(id, text, label, fresh),
        }
    }

    /// The board after an update of the element `id`.
    pub open spec fn updated(
        self,
        id: ElementId,
        c: Change<F>,
        text: Option<Seq<char>>,
        placed: Seq<WPoint<F>>,
        label: LabelBox<F>,
        fresh: Fresh,
    ) -> Self {
        let one = self.element_changed(id, c, text);
        let two = match text {
            Some(t) => if self.scene[place_of(self.scene, id)].kind is Text {
                one
            } else {
                one.label_set(id, t, placed, label, fresh)
            },
            None => one,
        };
        if c.x is Some || c.y is Some {
            BoardV { scene: labels_placed(two.scene, id, placed), ..two }
        } else {
            two
        }
    }
}

/// A label found for a container is in the scene.
pub proof fn lemma_first_label<F>(s: Seq<ElementV<F>>, id: ElementId)
    ensures
        first_label(s, id) matches Some(l) ==> has_id(s, l),
    decreases s.len(),
{
    if s.len() > 0 && s[0].kind.bound_to() != Some(id) {
        lemma_first_label(s.skip(1), id);
        if let Some(l) = first_label(s, id) {
            let k = choose|k: int| 0 <= k < s.skip(1).len() && (#[trigger] s.skip(1)[k]).id == l;
            assert(s[k + 1].id == l);
        }
    }
}

impl<F: Copy> BoardView<F> {
    /// Changes the element `id` itself.
    fn change_element(&mut self, id: ElementId, c: Change<F>, text: &Option<String>)
        requires
            has_id(old(self)@.scene, id),
        ensures
            final(self)@ == old(self)@.element_changed(id, c, opt_text(*text)),
    {
        self.record();
        let mut measure: bool = false;
        match self.scene.get_mut(id) {
            Some(el) => {
                el.bounds.x = match c.x {
                    Some(x) => x,
                    None => el.bounds.x,
                };
                el.bounds.y = match c.y {
                    Some(y) => y,
                    None => el.bounds.y,
                };
                el.style = c.style.merge_into(el.style);
                measure = el.is_text() && c.font_size.is_some();
                match text {
                    Some(t) => {
                        el.set_text(t.clone());
                    },
                    None => {},
                }
                match c.font_size {
                    Some(f) => {
                        el.set_font_size(f);
                    },
                    None => {},
                }
            },
            None => {},
        }
        if measure {
            self.pending_measure.push(id);
        }
    }

    /// Gives the shape `id` a label text.
    fn set_label(
        &mut self,
        id: ElementId,
        text: String,
        placed: &Vec<WPoint<F>>,
        label: LabelBox<F>,
        fresh: Fresh,
    )
        requires
            placed@.len() == old(self)@.scene.len(),
        ensures
            final(self)@ == old(self)@.label_set(id, text@, placed@, label, fresh),
    {
        proof {
            lemma_first_label(self@.scene, id);
        }
        match self.label_of(id) {
            Some(lid) => {
                match self.scene.index_of(lid) {
                    Some(i) => {
                        let ghost before = self@.scene;
                        assert(before[i as int] == self.scene.elements@[i as int]@);
                        self.scene.elements[i].set_text(text);
                        self.scene.elements[i].move_to(placed[i]);
                        assert(self@.scene =~= before.update(
                            i as int,
                            before[i as int].with_kind(
                                before[i as int].kind.with_text(text@),
                            ).at(placed@[i as int]),
                        ));
                    },
                    None => {},
                }
                self.pending_measure.push(lid);
            },
            None => {
                self.add_bound_label(id, text, label, fresh);
            },
        }
    }

    /// Moves the labels of `container` to their places.
    fn place_labels(&mut self, container: ElementId, placed: &Vec<WPoint<F>>)
        ensures
            final(self)@ == (BoardV {
                scene: labels_placed(old(self)@.scene, container, placed@),
                ..old(self)@
            }),
    {
        let ghost b = self@;
        let n: usize = self.scene.elements.len();
        let mut i: usize = 0;
        while i < n && i < placed.len()
            invariant
                n == b.scene.len(),
                i <= n,
                i <= placed@.len(),
                self@.scene.len() == n,
                forall|k: int|
                    0 <= k < n ==> #[trigger] self@.scene[k] == if k < i {
                        labels_placed(b.scene, container, placed@)[k]
                    } else {
                        b.scene[k]
                    },
                self@ == (BoardV { scene: self@.scene, ..b }),
            decreases n - i,
        {
            let ghost now = self@.scene;
            assert(now[i as int] == self.scene.elements@[i as int]@);
            let mine: bool = match self.scene.elements[i].container_id() {
                Some(c) => c == container,
                None => false,
            };
            if mine {
                self.scene.elements[i].move_to(placed[i]);
                assert(self@.scene =~= now.update(i as int, now[i as int].at(placed@[i as int])));
            }
            i += 1;
        }
        assert(self@.scene =~= labels_placed(b.scene, container, placed@));
    }

    /// Updates the element `id`.
    pub fn update_element(
        &mut self,
        id: ElementId,
        c: Change<F>,
        text: Option<String>,
        placed: &Vec<WPoint<F>>,
        label: LabelBox<F>,
        fresh: Fresh,
    )
        requires
            has_id(old(self)@.scene, id),
            placed@.len() == old(self)@.scene.len(),
        ensures
            final(self)@ == old(self)@.updated(id, c, opt_text(text), placed@, label, fresh),
    {
        proof {
            lemma_place_of(self@.scene, id);
        }
        let is_text: bool = match self.scene.get(id) {
            Some(el) => el.is_text(),
            None => false,
        };
        self.change_element(id, c, &text);
        match text {
            Some(t) => {
                if !is_text {
                    self.set_label(id, t, placed, label, fresh);
                }
            },
            None => {},
        }
        if c.x.is_some() || c.y.is_some() {
            self.place_labels(id, placed);
        }
    }
}

} // verus!
