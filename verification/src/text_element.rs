//! Changes to the text settings of an element.

use vstd::prelude::*;
use crate::element::{Element, ElementKind, ElementV, KindV, TextAlign, WPoint, WBounds};

verus! {

impl<F> KindV<F> {
    /// The kind with another text; only a text changes.
    pub open spec fn with_text(self, t: Seq<char>) -> Self {
        match self {
            KindV::Text {
                font_size,
                font_family,
                wrap_width,
                min_height,
                container_id,
                text_align,
                anchor,
                ..
            } => KindV::Text {
                text: t,
                font_size,
                font_family,
                wrap_width,
                min_height,
                container_id,
                text_align,
                anchor,
            },
            k => k,
        }
    }

    /// The kind with another font size; only a text changes.
    pub open spec fn with_font_size(self, size: F) -> Self {
        match self {
            KindV::Text {
                text,
                font_family,
                wrap_width,
                min_height,
                container_id,
                text_align,
                anchor,
                ..
            } => KindV::Text {
                text,
                font_size: size,
                font_family,
                wrap_width,
                min_height,
                container_id,
                text_align,
                anchor,
            },
            k => k,
        }
    }

    /// The kind with another font family; only a text changes.
    pub open spec fn with_font_family(self, family: Seq<char>) -> Self {
        match self {
            KindV::Text {
                text,
                font_size,
                wrap_width,
                min_height,
                container_id,
                text_align,
                anchor,
                ..
            } => KindV::Text {
                text,
                font_size,
                font_family: family,
                wrap_width,
                min_height,
                container_id,
                text_align,
                anchor,
            },
            k => k,
        }
    }

    /// The kind with another alignment; only a text changes.
    pub open spec fn with_align(self, align: TextAlign) -> Self {
        match self {
            KindV::Text {
                text,
                font_size,
                font_family,
                wrap_width,
                min_height,
                container_id,
                anchor,
                ..
            } => KindV::Text {
                text,
                font_size,
                font_family,
                wrap_width,
                min_height,
                container_id,
                text_align: align,
                anchor,
            },
            k => k,
        }
    }

    /// The kind with another wrap width and minimum height; only a text
    /// changes.
    pub open spec fn with_box(self, wrap: Option<F>, height: Option<F>) -> Self {
        match self {
            KindV::Text {
                text,
                font_size,
                font_family,
                container_id,
                text_align,
                anchor,
                ..
            } => KindV::Text {
                text,
                font_size,
                font_family,
                wrap_width: wrap,
                min_height: height,
                container_id,
                text_align,
                anchor,
            },
            k => k,
        }
    }

    /// The minimum height of a text.
    pub open spec fn height_floor(self) -> Option<F> {
        match self {
            KindV::Text { min_height, .. } => min_height,
            _ => None,
        }
    }
}

impl<F> ElementV<F> {
    /// The element with its corner moved to `p`.
    pub open spec fn at(self, p: WPoint<F>) -> Self {
        ElementV { bounds: WBounds { x: p.x, y: p.y, ..self.bounds }, ..self }
    }

    /// The element with another kind.
    pub open spec fn with_kind(self, kind: KindV<F>) -> Self {
        ElementV { kind, ..self }
    }
}

impl<F: Copy> Element<F> {
    /// Replaces the text of a text element.
    pub fn set_text(&mut self, t: String)
        ensures
            final(self)@ == old(self)@.with_kind(old(self)@.kind.with_text(t@)),
    {
        match &mut self.kind {
            ElementKind::Text { text, .. } => {
                *text = t;
            },
            _ => {},
        }
    }

    /// Replaces the font size of a text element.
    pub fn set_font_size(&mut self, size: F)
        ensures
            final(self)@ == old(self)@.with_kind(old(self)@.kind.with_font_size(size)),
    {
        match &mut self.kind {
            ElementKind::Text { font_size, .. } => {
                *font_size = size;
            },
            _ => {},
        }
    }

    /// Replaces the font family of a text element.
    pub fn set_font_family(&mut self, family: String)
        ensures
            final(self)@ == old(self)@.with_kind(old(self)@.kind.with_font_family(family@)),
    {
        match &mut self.kind {
            ElementKind::Text { font_family, .. } => {
                *font_family = family;
            },
            _ => {},
        }
    }

    /// Replaces the alignment of a text element.
    pub fn set_text_align(&mut self, align: TextAlign)
        ensures
            final(self)@ == old(self)@.with_kind(old(self)@.kind.with_align(align)),
    {
        match &mut self.kind {
            ElementKind::Text { text_align, .. } => {
                *text_align = align;
            },
            _ => {},
        }
    }

    /// Replaces the wrap width and the minimum height of a text element.
    pub fn set_text_box(&mut self, wrap: Option<F>, height: Option<F>)
        ensures
            final(self)@ == old(self)@.with_kind(old(self)@.kind.with_box(wrap, height)),
    {
        match &mut self.kind {
            ElementKind::Text { wrap_width, min_height, .. } => {
                *wrap_width = wrap;
                *min_height = height;
            },
            _ => {},
        }
    }

    /// Moves the corner of the element's box.
    pub fn move_to(&mut self, p: WPoint<F>)
        ensures
            final(self)@ == old(self)@.at(p),
    {
        self.bounds.x = p.x;
        self.bounds.y = p.y;
    }
}

} // verus!
