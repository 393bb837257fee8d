//! Slide pages: aspect presets, page titles and page numbers.

use vstd::prelude::*;
use crate::element::WBounds;
use crate::text::{
    chars_of, decimal_text, is_white_space, is_whitespace, joined, same_text, string_of, trim_text,
};

verus! {

/// The aspect presets of a page.
#[derive(Clone, Copy, Debug, PartialEq, Eq, Structural)]
pub enum PageRatio {
    Ratio16_9,
    Ratio4_3,
    Ratio9_16,
    Ratio3_4,
    Ratio1_1,
}

impl Default for PageRatio {
    fn default() -> (r: Self)
        ensures
            r == PageRatio::Ratio16_9,
    {
        PageRatio::Ratio16_9
    }
}

/// The written form of a preset.
pub open spec fn ratio_label(r: PageRatio) -> Seq<char> {
    match r {
        PageRatio::Ratio16_9 => "16:9"@,
        PageRatio::Ratio4_3 => "4:3"@,
        PageRatio::Ratio9_16 => "9:16"@,
        PageRatio::Ratio3_4 => "3:4"@,
        PageRatio::Ratio1_1 => "1:1"@,
    }
}

/// `s` without its white space.
pub open spec fn without_spaces(s: Seq<char>) -> Seq<char> {
    s.filter(|c: char| !is_white_space(c))
}

/// The preset that a string names, white space ignored.
pub open spec fn parse_spec(s: Seq<char>) -> Option<PageRatio> {
    let t = without_spaces(s);
    if t == "16:9"@ {
        Some(PageRatio::Ratio16_9)
    } else if t == "4:3"@ {
        Some(PageRatio::Ratio4_3)
    } else if t == "9:16"@ {
        Some(PageRatio::Ratio9_16)
    } else if t == "3:4"@ {
        Some(PageRatio::Ratio3_4)
    } else if t == "1:1"@ {
        Some(PageRatio::Ratio1_1)
    } else {
        None
    }
}

fn drop_spaces(s: &str) -> (r: String)
    ensures
        r@ == without_spaces(s@),
{
    let v: Vec<char> = chars_of(s);
    let mut out: Vec<char> = Vec::new();
    let mut i: usize = 0;
    let ghost keep = |c: char| !is_white_space(c);
    assert(v@.take(0) =~= Seq::<char>::empty());
    proof {
        reveal(Seq::filter);
    }
    while i < v.len()
        invariant
            i <= v.len(),
            keep == (|c: char| !is_white_space(c)),
            out@ == v@.take(i as int).filter(keep),
        decreases v.len() - i,
    {
        proof {
            reveal(Seq::filter);
            assert(v@.take(i + 1).drop_last() =~= v@.take(i as int));
        }
        if !is_whitespace(v[i]) {
            out.push(v[i]);
        }
        i += 1;
    }
    assert(v@.take(v@.len() as int) =~= v@);
    string_of(&out)
}

impl PageRatio {
    /// Reads a preset such as `16:9`; white space does not matter, wherever it
    /// stands.
    pub fn parse(s: &str) -> (r: Option<PageRatio>)
        ensures
            r == parse_spec(s@),
    {
        let t: String = drop_spaces(s);
        let t: &str = t.as_str();
        if same_text(t, "16:9") {
            Some(PageRatio::Ratio16_9)
        } else if same_text(t, "4:3") {
            Some(PageRatio::Ratio4_3)
        } else if same_text(t, "9:16") {
            Some(PageRatio::Ratio9_16)
        } else if same_text(t, "3:4") {
            Some(PageRatio::Ratio3_4)
        } else if same_text(t, "1:1") {
            Some(PageRatio::Ratio1_1)
        } else {
            None
        }
    }

    /// The written form of the preset.
    pub fn label(&self) -> (r: &'static str)
        ensures
            r@ == ratio_label(*self),
    {
        match self {
            PageRatio::Ratio16_9 => "16:9",
            PageRatio::Ratio4_3 => "4:3",
            PageRatio::Ratio9_16 => "9:16",
            PageRatio::Ratio3_4 => "3:4",
            PageRatio::Ratio1_1 => "1:1",
        }
    }

    /// Width and height of a page with this preset, in whole world units.
    pub fn size(&self) -> (r: (u32, u32))
        ensures
            r == ratio_size(*self),
    {
        match self {
            PageRatio::Ratio16_9 => (1600, 900),
            PageRatio::Ratio4_3 => (1440, 1080),
            PageRatio::Ratio9_16 => (900, 1600),
            PageRatio::Ratio3_4 => (1080, 1440),
            PageRatio::Ratio1_1 => (1280, 1280),
        }
    }
}

/// Width and height of a page with a preset.
pub open spec fn ratio_size(r: PageRatio) -> (u32, u32) {
    match r {
        PageRatio::Ratio16_9 => (1600, 900),
        PageRatio::Ratio4_3 => (1440, 1080),
        PageRatio::Ratio9_16 => (900, 1600),
        PageRatio::Ratio3_4 => (1080, 1440),
        PageRatio::Ratio1_1 => (1280, 1280),
    }
}

/// Reading the written form of a preset gives the preset back.
pub proof fn law_parse_reads_label(r: PageRatio)
    ensures
        parse_spec(ratio_label(r)) == Some(r),
{
    reveal_strlit("16:9");
    reveal_strlit("4:3");
    reveal_strlit("9:16");
    reveal_strlit("3:4");
    reveal_strlit("1:1");
    let s = ratio_label(r);
    assert(forall|i: int| 0 <= i < s.len() ==> !is_white_space(s[i]));
    lemma_no_spaces(s);
    assert("16:9"@[2] != "9:16"@[2]);
    assert("4:3"@[0] != "3:4"@[0]);
    assert("4:3"@[0] != "1:1"@[0]);
    assert("3:4"@[0] != "1:1"@[0]);
}

/// White space before and after a written form does not matter.
pub proof fn law_parse_tolerates_white_space(before: Seq<char>, r: PageRatio, after: Seq<char>)
    requires
        forall|i: int| 0 <= i < before.len() ==> is_white_space(#[trigger] before[i]),
        forall|i: int| 0 <= i < after.len() ==> is_white_space(#[trigger] after[i]),
    ensures
        parse_spec(before + ratio_label(r) + after) == Some(r),
{
    let keep = |c: char| !is_white_space(c);
    law_parse_reads_label(r);
    Seq::filter_distributes_over_add(before, ratio_label(r), keep);
    Seq::filter_distributes_over_add(before + ratio_label(r), after, keep);
    lemma_only_spaces(before);
    lemma_only_spaces(after);
    assert(without_spaces(before + ratio_label(r) + after) =~= without_spaces(ratio_label(r)));
}

proof fn lemma_only_spaces(s: Seq<char>)
    requires
        forall|i: int| 0 <= i < s.len() ==> is_white_space(#[trigger] s[i]),
    ensures
        without_spaces(s) == Seq::<char>::empty(),
    decreases s.len(),
{
    reveal(Seq::filter);
    if s.len() > 0 {
        let t = s.drop_last();
        assert(forall|i: int| 0 <= i < t.len() ==> t[i] == s[i]);
        lemma_only_spaces(t);
    }
}

/// A preset's written form and its page size agree: width times the second
/// number is height times the first.
pub proof fn law_size_has_the_ratio()
    ensures
        ratio_size(PageRatio::Ratio16_9).0 * 9 == ratio_size(PageRatio::Ratio16_9).1 * 16,
        ratio_size(PageRatio::Ratio4_3).0 * 3 == ratio_size(PageRatio::Ratio4_3).1 * 4,
        ratio_size(PageRatio::Ratio9_16).0 * 16 == ratio_size(PageRatio::Ratio9_16).1 * 9,
        ratio_size(PageRatio::Ratio3_4).0 * 4 == ratio_size(PageRatio::Ratio3_4).1 * 3,
        ratio_size(PageRatio::Ratio1_1).0 == ratio_size(PageRatio::Ratio1_1).1,
{
}

proof fn lemma_no_spaces(s: Seq<char>)
    requires
        forall|i: int| 0 <= i < s.len() ==> !is_white_space(s[i]),
    ensures
        without_spaces(s) == s,
    decreases s.len(),
{
    reveal(Seq::filter);
    if s.len() > 0 {
        let t = s.drop_last();
        assert(forall|i: int| 0 <= i < t.len() ==> t[i] == s[i]);
        lemma_no_spaces(t);
        assert(t.push(s.last()) =~= s);
    }
}

/// A page: a titled rectangle. Pages are numbered from one by their place in
/// the list.
#[derive(Clone, Debug, PartialEq)]
pub struct Page<F> {
    pub title: String,
    pub x: F,
    pub y: F,
    pub w: F,
    pub h: F,
}

impl<F: Copy> Page<F> {
    /// The rectangle of the page.
    pub fn bounds(&self) -> (r: WBounds<F>)
        ensures
            r == (WBounds { x: self.x, y: self.y, w: self.w, h: self.h }),
    {
        WBounds { x: self.x, y: self.y, w: self.w, h: self.h }
    }
}

/// The title of page `number`: the given one without surrounding white space,
/// or the page's ordinal when that is missing or blank.
pub open spec fn page_title(title: Option<Seq<char>>, number: nat) -> Seq<char> {
    match title {
        Some(t) if crate::text::trim_spec(t).len() > 0 => crate::text::trim_spec(t),
        _ => "第 "@ + crate::text::decimal(number) + " 页"@,
    }
}

/// Appends a page with the given rectangle and returns its number.
pub fn push_page<F: Copy>(
    pages: &mut Vec<Page<F>>,
    title: Option<String>,
    rect: WBounds<F>,
) -> (number: usize)
    requires
        old(pages)@.len() < usize::MAX,
    ensures
        number == old(pages)@.len() + 1,
        final(pages)@.len() == number,
        final(pages)@.drop_last() == old(pages)@,
        final(pages)@.last().title@ == page_title(crate::element::opt_text(title), number as nat),
        final(pages)@.last().x == rect.x,
        final(pages)@.last().y == rect.y,
        final(pages)@.last().w == rect.w,
        final(pages)@.last().h == rect.h,
{
    let number: usize = pages.len() + 1;
    let given: String = match &title {
        Some(t) => trim_text(t.as_str()),
        None => String::new(),
    };
    let title: String = if given.as_str().is_empty() {
        let n: String = decimal_text(number as u64);
        let head: String = joined("第 ", n.as_str());
        joined(head.as_str(), " 页")
    } else {
        given
    };
    pages.push(Page { title, x: rect.x, y: rect.y, w: rect.w, h: rect.h });
    assert(pages@.drop_last() =~= old(pages)@);
    number
}

/// The first page that holds a point, given for each page whether it does.
pub fn page_at(inside: &Vec<bool>) -> (r: Option<usize>)
    ensures
        match r {
            Some(i) => i < inside@.len() && inside@[i as int] && forall|k: int|
                0 <= k < i ==> !inside@[k],
            None => forall|k: int| 0 <= k < inside@.len() ==> !inside@[k],
        },
{
    let mut i: usize = 0;
    while i < inside.len()
        invariant
            i <= inside.len(),
            forall|k: int| 0 <= k < i ==> !inside@[k],
        decreases inside.len() - i,
    {
        if inside[i] {
            return Some(i);
        }
        i += 1;
    }
    None
}

} // verus!
