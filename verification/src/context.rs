//! The state of the board in words, as the assistant is told before it draws.

use vstd::prelude::*;
use crate::board::BoardView;
use crate::element::{ElementStyle, StrokeStyle};
use crate::text::{color_string, color_text, decimal, decimal_text, joined};

verus! {

/// The numbers of a style in words: its stroke width without and its
/// roughness with one decimal, and its opacity in percent, or none when it is
/// opaque.
#[derive(Debug)]
pub struct StyleNumbers {
    pub width: String,
    pub roughness: String,
    pub opacity_percent: Option<String>,
}

/// A style in one line.
pub open spec fn style_line<F>(s: ElementStyle<F>, n: StyleNumbers) -> Seq<char> {
    let dash = match s.stroke_style {
        StrokeStyle::Solid => "实线"@,
        StrokeStyle::Dashed => "虚线"@,
    };
    let fill = match s.background {
        Some(c) => color_text(c),
        None => "无填充"@,
    };
    let opacity = match n.opacity_percent {
        Some(p) => "透明度 "@ + p@ + "%"@,
        None => "不透明"@,
    };
    "当前样式：描边 "@ + color_text(s.stroke) + "、线宽 "@ + n.width@ + "、粗糙度 "@ + n.roughness@
        + "、"@ + dash + "、"@ + fill + "、"@ + opacity
}

/// The numbered summaries of the first `n` elements.
pub open spec fn numbered(summaries: Seq<String>, n: nat) -> Seq<char>
    decreases n,
{
    if n == 0 {
        Seq::empty()
    } else {
        numbered(summaries, (n - 1) as nat) + decimal(n) + ". "@ + summaries[n - 1]@ + "\n"@
    }
}

/// The contents of the canvas in words.
pub open spec fn contents_text(summaries: Seq<String>) -> Seq<char> {
    if summaries.len() == 0 {
        "画布为空，尚无任何元素。\n"@
    } else {
        "画布现有 "@ + decimal(summaries.len()) + " 个元素：\n"@ + numbered(
            summaries,
            summaries.len(),
        )
    }
}

fn add(r: &mut String, piece: &str)
    ensures
        final(r)@ == old(r)@ + piece@,
{
    *r = joined(r.as_str(), piece);
}

/// Writes a style in one line.
pub fn style_summary<F: Copy>(s: &ElementStyle<F>, n: &StyleNumbers) -> (r: String)
    ensures
        r@ == style_line(*s, *n),
{
    let mut r: String = joined("当前样式：描边 ", color_string(s.stroke).as_str());
    self::add(&mut r, "、线宽 ");
    self::add(&mut r, n.width.as_str());
    self::add(&mut r, "、粗糙度 ");
    self::add(&mut r, n.roughness.as_str());
    self::add(&mut r, "、");
    match s.stroke_style {
        StrokeStyle::Solid => self::add(&mut r, "实线"),
        StrokeStyle::Dashed => self::add(&mut r, "虚线"),
    }
    self::add(&mut r, "、");
    match s.background {
        Some(c) => {
            let code: String = color_string(c);
            self::add(&mut r, code.as_str());
        },
        None => self::add(&mut r, "无填充"),
    }
    self::add(&mut r, "、");
    let opacity: String = match &n.opacity_percent {
        Some(p) => {
            let lead: String = joined("透明度 ", p.as_str());
            joined(lead.as_str(), "%")
        },
        None => "不透明".to_owned(),
    };
    joined(r.as_str(), opacity.as_str())
}

impl<F: Copy> BoardView<F> {
    /// The state of the board in words: the visible region (empty while the
    /// canvas has no size), the elements and the style that new shapes
    /// inherit.
    pub fn runtime_context(
        &self,
        region: &str,
        summaries: &Vec<String>,
        numbers: &StyleNumbers,
    ) -> (r: String)
        ensures
            r@ == region@ + contents_text(summaries@) + style_line(self@.style, *numbers),
    {
        let mut body: String = region.to_owned();
        if summaries.len() == 0 {
            self::add(&mut body, "画布为空，尚无任何元素。\n");
        } else {
            let n: usize = summaries.len();
            let mut list: String = joined("画布现有 ", decimal_text(n as u64).as_str());
            self::add(&mut list, " 个元素：\n");
            let ghost head = list@;
            let mut i: usize = 0;
            assert(head + numbered(summaries@, 0) =~= head);
            while i < n
                invariant
                    n == summaries@.len(),
                    i <= n,
                    list@ == head + numbered(summaries@, i as nat),
                decreases n - i,
            {
                let ghost before = list@;
                i += 1;
                let number: String = decimal_text(i as u64);
                self::add(&mut list, number.as_str());
                self::add(&mut list, ". ");
                self::add(&mut list, summaries[i - 1].as_str());
                self::add(&mut list, "\n");
                assert(list@ =~= head + numbered(summaries@, i as nat));
            }
            self::add(&mut body, list.as_str());
        }
        let style: String = style_summary(&self.style, numbers);
        joined(body.as_str(), style.as_str())
    }
}

} // verus!
