//! Drawing operations on the board, as an assistant asks for them: what each
//! one answers and what it does to the board.

use vstd::prelude::*;
use crate::board_text::LabelBox;
use crate::element::{
    Brush, ElementStyle, ElementV, FillStyle, KindV, LineType, Shadow, StrokeStyle, TextAlign,
    WBounds, WPoint,
};
use crate::ids::{hyphenated, ElementId};
use crate::mindmap::MindmapNodeInput;
use crate::mindmap_layout::{LinkPath, NodeBox};
use crate::mindmap_plan::plan_nodes;
use crate::scene::prefix_match;
use crate::text::{color_text, decimal};

verus! {

/// Style settings of an operation; what is left out is inherited.
#[derive(Clone, Copy, Debug)]
pub struct CanvasStyle<F> {
    pub stroke: Option<u32>,
    pub background: Option<u32>,
    pub stroke_width: Option<F>,
    pub roughness: Option<F>,
    pub stroke_style: Option<StrokeStyle>,
    pub opacity: Option<F>,
    pub line_type: Option<LineType>,
    pub fill_style: Option<FillStyle>,
    pub shadow: Option<Shadow<F>>,
    pub brush: Option<Brush>,
    pub hachure_gap: Option<F>,
    pub fill_weight: Option<F>,
    pub hachure_angle: Option<F>,
}

/// A setting, or the inherited one when it is left out.
pub open spec fn set_or<T>(o: Option<T>, base: T) -> T {
    match o {
        Some(x) => x,
        None => base,
    }
}

/// An optional setting, or the inherited one when it is left out.
pub open spec fn given_or<T>(o: Option<T>, base: Option<T>) -> Option<T> {
    match o {
        Some(x) => Some(x),
        None => base,
    }
}

fn pick<T: Copy>(o: Option<T>, base: T) -> (r: T)
    ensures
        r == set_or(o, base),
{
    match o {
        Some(x) => x,
        None => base,
    }
}

fn pick_given<T: Copy>(o: Option<T>, base: Option<T>) -> (r: Option<T>)
    ensures
        r == given_or(o, base),
{
    match o {
        Some(x) => Some(x),
        None => base,
    }
}

impl<F> CanvasStyle<F> {
    /// The style that results over `base`.
    pub open spec fn over(self, base: ElementStyle<F>) -> ElementStyle<F> {
        ElementStyle {
            stroke: set_or(self.stroke, base.stroke),
            background: given_or(self.background, base.background),
            stroke_width: set_or(self.stroke_width, base.stroke_width),
            roughness: set_or(self.roughness, base.roughness),
            stroke_style: set_or(self.stroke_style, base.stroke_style),
            opacity: set_or(self.opacity, base.opacity),
            line_type: set_or(self.line_type, base.line_type),
            fill_style: set_or(self.fill_style, base.fill_style),
            shadow: given_or(self.shadow, base.shadow),
            brush: given_or(self.brush, base.brush),
            hachure_gap: given_or(self.hachure_gap, base.hachure_gap),
            fill_weight: given_or(self.fill_weight, base.fill_weight),
            hachure_angle: given_or(self.hachure_angle, base.hachure_angle),
            ..base
        }
    }
}

impl<F: Copy> CanvasStyle<F> {
    /// Lays the given settings over `base`.
    pub fn merge_into(self, base: ElementStyle<F>) -> (r: ElementStyle<F>)
        ensures
            r == self.over(base),
    {
        let mut s: ElementStyle<F> = base;
        s.stroke = pick(self.stroke, base.stroke);
        s.background = pick_given(self.background, base.background);
        s.stroke_width = pick(self.stroke_width, base.stroke_width);
        s.roughness = pick(self.roughness, base.roughness);
        s.stroke_style = pick(self.stroke_style, base.stroke_style);
        s.opacity = pick(self.opacity, base.opacity);
        s.line_type = pick(self.line_type, base.line_type);
        s.fill_style = pick(self.fill_style, base.fill_style);
        s.shadow = pick_given(self.shadow, base.shadow);
        s.brush = pick_given(self.brush, base.brush);
        s.hachure_gap = pick_given(self.hachure_gap, base.hachure_gap);
        s.fill_weight = pick_given(self.fill_weight, base.fill_weight);
        s.hachure_angle = pick_given(self.hachure_angle, base.hachure_angle);
        s
    }
}

/// Why an operation was refused.
#[derive(Debug)]
pub enum CanvasOpError {
    InvalidArgs(String),
    Internal(String),
    NotFound(String),
}

/// The value of a [`CanvasOpError`].
#[verifier::ext_equal]
pub ghost enum OpErrorV {
    InvalidArgs(Seq<char>),
    Internal(Seq<char>),
    NotFound(Seq<char>),
}

impl View for CanvasOpError {
    type V = OpErrorV;

    open spec fn view(&self) -> OpErrorV {
        match *self {
            CanvasOpError::InvalidArgs(m) => OpErrorV::InvalidArgs(m@),
            CanvasOpError::Internal(m) => OpErrorV::Internal(m@),
            CanvasOpError::NotFound(m) => OpErrorV::NotFound(m@),
        }
    }
}

/// The value of an outcome.
pub open spec fn outcome_view(r: Result<String, CanvasOpError>) -> Result<Seq<char>, OpErrorV> {
    match r {
        Ok(m) => Ok(m@),
        Err(e) => Err(e@),
    }
}

/// The shapes that fill a box.
#[derive(Clone, Copy, Debug, PartialEq, Eq, Structural)]
pub enum BoxShape {
    Rectangle,
    Ellipse,
    Diamond,
}

/// The kind of a box shape.
pub open spec fn box_kind<F>(s: BoxShape) -> KindV<F> {
    match s {
        BoxShape::Rectangle => KindV::Rectangle,
        BoxShape::Ellipse => KindV::Ellipse,
        BoxShape::Diamond => KindV::Diamond,
    }
}

/// The refusal of a box shape without extent.
pub open spec fn box_refusal(s: BoxShape) -> Seq<char> {
    match s {
        BoxShape::Rectangle => "矩形宽高必须为正数"@,
        BoxShape::Ellipse => "椭圆宽高必须为正数"@,
        BoxShape::Diamond => "菱形宽高必须为正数"@,
    }
}

/// The answer to a drawn box shape, up to its name.
pub open spec fn box_answer(s: BoxShape) -> Seq<char> {
    match s {
        BoxShape::Rectangle => "已添加矩形 id="@,
        BoxShape::Ellipse => "已添加椭圆 id="@,
        BoxShape::Diamond => "已添加菱形 id="@,
    }
}

/// The numbers that a mind map is drawn with.
#[derive(Clone, Copy, Debug)]
pub struct MindmapPen<F> {
    /// The outline width of the root.
    pub root_width: F,
    /// The outline width of the first level.
    pub branch_width: F,
    /// The outline width of the deeper levels.
    pub leaf_width: F,
    /// The width of the links.
    pub link_width: F,
    pub roughness: F,
    pub opacity: F,
}

/// A drawing operation. Coordinates come ready to use: points are relative to
/// the box, and the outcomes of numeric tests stand beside them.
#[derive(Debug)]
pub enum CanvasOp<F> {
    /// A rectangle, an ellipse or a diamond; `positive` says whether its
    /// width and height are.
    Shape {
        shape: BoxShape,
        bounds: WBounds<F>,
        positive: bool,
        style: CanvasStyle<F>,
        text: Option<String>,
        label: LabelBox<F>,
    },
    /// A filled polygon; `finite` says whether all its coordinates are.
    Polygon { points: Vec<WPoint<F>>, bounds: WBounds<F>, finite: bool, style: CanvasStyle<F> },
    Line {
        points: Vec<WPoint<F>>,
        bounds: WBounds<F>,
        style: CanvasStyle<F>,
        text: Option<String>,
        label: LabelBox<F>,
    },
    Arrow {
        points: Vec<WPoint<F>>,
        bounds: WBounds<F>,
        start_arrowhead: bool,
        end_arrowhead: bool,
        style: CanvasStyle<F>,
        text: Option<String>,
        label: LabelBox<F>,
    },
    /// A free text: its estimated box, and its font size after the default
    /// and the lower bound.
    Text {
        bounds: WBounds<F>,
        text: String,
        font_size: F,
        align: Option<TextAlign>,
        font_family: Option<String>,
        wrap_width: Option<F>,
        style: CanvasStyle<F>,
        zero: F,
    },
    SetBackground { color: Option<u32> },
    /// A mind map with the coordinates of its plan.
    Mindmap {
        root: MindmapNodeInput,
        boxes: Vec<NodeBox<F>>,
        paths: Vec<LinkPath<F>>,
        pen: MindmapPen<F>,
    },
    /// A change to the element whose identity begins with `id`. `placed` holds
    /// for each element its corner when centred on the changed one; `label`
    /// is where a new label goes.
    UpdateElement {
        id: String,
        x: Option<F>,
        y: Option<F>,
        text: Option<String>,
        style: CanvasStyle<F>,
        font_size: Option<F>,
        placed: Vec<WPoint<F>>,
        label: LabelBox<F>,
    },
    DeleteElement { id: String },
    Clear,
}

/// The refusal of an operation that was given no identity.
pub open spec fn missing_id() -> OpErrorV {
    OpErrorV::Internal("内部错误：缺少元素 ID"@)
}

/// The refusal of an operation on an unknown element.
pub open spec fn unknown_id(id: Seq<char>) -> OpErrorV {
    OpErrorV::NotFound("找不到元素 id="@ + id)
}

/// How an element is named in an answer.
pub open spec fn short_name(id: ElementId) -> Seq<char> {
    hyphenated(id.value).take(8)
}

/// The answer `lead` with the name of the pre-assigned element, or the refusal
/// when there is none.
pub open spec fn named(lead: Seq<char>, pre: Option<ElementId>) -> Result<Seq<char>, OpErrorV> {
    match pre {
        Some(id) => Ok(lead + short_name(id)),
        None => Err(missing_id()),
    }
}

/// What an operation answers on a scene.
#[verifier::opaque]
pub open spec fn op_outcome<F>(
    scene: Seq<ElementV<F>>,
    op: CanvasOp<F>,
    pre: Option<ElementId>,
) -> Result<Seq<char>, OpErrorV> {
    match op {
        CanvasOp::Shape { shape, positive, .. } => if !positive {
            Err(OpErrorV::InvalidArgs(box_refusal(shape)))
        } else {
            named(box_answer(shape), pre)
        },
        CanvasOp::Polygon { points, finite, .. } => if points@.len() < 3 || !finite {
            Err(OpErrorV::InvalidArgs("多边形至少需要三个有限坐标点"@))
        } else {
            named("已添加多边形 id="@, pre)
        },
        CanvasOp::Line { points, .. } => if points@.len() < 2 {
            Err(OpErrorV::InvalidArgs("至少需要两个坐标点"@))
        } else {
            named("已添加直线 id="@, pre)
        },
        CanvasOp::Arrow { points, .. } => if points@.len() < 2 {
            Err(OpErrorV::InvalidArgs("至少需要两个坐标点"@))
        } else {
            named("已添加箭头 id="@, pre)
        },
        CanvasOp::Text { .. } => named("已添加文本 id="@, pre),
        CanvasOp::SetBackground { color } => Ok(
            match color {
                Some(c) => "画布底色已设为 "@ + color_text(c),
                None => "画布底色已恢复白色"@,
            },
        ),
        CanvasOp::Mindmap { root, .. } => named(
            "已添加思维导图（"@ + decimal(plan_nodes(root).len()) + " 个节点）id="@,
            pre,
        ),
        CanvasOp::UpdateElement { id, .. } => match prefix_match(scene, id@) {
            Some(found) => Ok("已更新元素 id="@ + short_name(found)),
            None => Err(unknown_id(id@)),
        },
        CanvasOp::DeleteElement { id } => match prefix_match(scene, id@) {
            Some(found) => Ok("已删除元素 id="@ + short_name(found)),
            None => Err(unknown_id(id@)),
        },
        CanvasOp::Clear => Ok("已清空画布"@),
    }
}

} // verus!
