//! Breaking text into lines: paragraphs, wrapping, and the byte range of every
//! line in the whole text.

use vstd::prelude::*;
use vstd::utf8::encode_scalar;
use crate::text::chars_of;

verus! {

/// A range of places: from `start` up to, not including, `end`.
#[derive(Clone, Copy, Debug, PartialEq, Eq, Structural)]
pub struct Span {
    pub start: usize,
    pub end: usize,
}

/// The value of a [`Span`].
pub open spec fn span(s: Span) -> (int, int) {
    (s.start as int, s.end as int)
}

/// The values of spans.
pub open spec fn spans(s: Seq<Span>) -> Seq<(int, int)> {
    Seq::new(s.len(), |i: int| span(s[i]))
}

/// The state of wrapping a paragraph: where the current line starts, the first
/// character that is not yet known to go on it, the place behind its last
/// space, and the finished lines.
pub ghost struct WrapV {
    pub start: int,
    pub pos: int,
    pub last_space: Option<int>,
    pub lines: Seq<(int, int)>,
}

/// Wrapping before the first character.
pub open spec fn wrap_start() -> WrapV {
    WrapV { start: 0, pos: 0, last_space: None, lines: Seq::empty() }
}

/// The characters whose width decides the next step: the current line with one
/// character more.
pub open spec fn asked(st: WrapV) -> (int, int) {
    (st.start, st.pos + 1)
}

/// One step of wrapping, given whether the asked characters are too wide. A
/// line that would get too wide is broken behind its last space, or before the
/// character when it has none; one space at the break is skipped, and the next
/// line starts afresh. A character that has a line to itself stays on it
/// whatever its width.
pub open spec fn wrap_step(chars: Seq<char>, st: WrapV, too_wide: bool) -> WrapV {
    if too_wide && st.pos > st.start {
        let at = match st.last_space {
            Some(p) => p,
            None => st.pos,
        };
        let start = if at < chars.len() && chars[at] == ' ' {
            at + 1
        } else {
            at
        };
        WrapV { start, pos: start, last_space: None, lines: st.lines.push((st.start, at)) }
    } else {
        WrapV {
            pos: st.pos + 1,
            last_space: if chars[st.pos] == ' ' {
                Some(st.pos + 1)
            } else {
                st.last_space
            },
            ..st
        }
    }
}

/// Wrapping after the first `n` answers.
pub open spec fn wrap_upto(chars: Seq<char>, answers: Seq<bool>, n: nat) -> WrapV
    decreases n,
{
    if n == 0 {
        wrap_start()
    } else {
        wrap_step(chars, wrap_upto(chars, answers, (n - 1) as nat), answers[n - 1])
    }
}

/// Whether the answers decide the whole paragraph and no more: all characters
/// are on a line after the last answer, and not before.
pub open spec fn decided(chars: Seq<char>, answers: Seq<bool>) -> bool {
    &&& wrap_upto(chars, answers, answers.len()).pos == chars.len()
    &&& forall|k: int|
        0 <= k < answers.len() ==> (#[trigger] wrap_upto(chars, answers, k as nat)).pos
            < chars.len()
}

/// The lines of a paragraph by the answers that decide it.
pub open spec fn wrapped(chars: Seq<char>, answers: Seq<bool>) -> Seq<(int, int)> {
    let st = wrap_upto(chars, answers, answers.len());
    if st.start < chars.len() {
        st.lines.push((st.start, chars.len() as int))
    } else if st.lines.len() == 0 {
        seq![(0int, 0int)]
    } else {
        st.lines
    }
}

/// A paragraph in the course of wrapping.
pub struct Wrapper {
    chars: Vec<char>,
    pos: usize,
    start: usize,
    last_space: Option<usize>,
    lines: Vec<Span>,
    answers: Ghost<Seq<bool>>,
}

impl Wrapper {
    /// The characters of the paragraph.
    pub closed spec fn chars(self) -> Seq<char> {
        self.chars@
    }

    /// The answers given so far.
    pub closed spec fn answers(self) -> Seq<bool> {
        self.answers@
    }

    /// The state of wrapping: the one that the answers lead to.
    pub open spec fn state(self) -> WrapV {
        wrap_upto(self.chars(), self.answers(), self.answers().len())
    }

    /// Whether the wrapper is in the state that its answers lead to.
    pub closed spec fn wf(self) -> bool {
        &&& self.state() == (WrapV {
            start: self.start as int,
            pos: self.pos as int,
            last_space: match self.last_space {
                Some(p) => Some(p as int),
                None => None,
            },
            lines: spans(self.lines@),
        })
        &&& placed(self.chars@, self.state())
        &&& forall|k: int|
            0 <= k < self.answers@.len() ==> (#[trigger] wrap_upto(
                self.chars@,
                self.answers@,
                k as nat,
            )).pos < self.chars@.len()
    }

    /// Starts on a paragraph.
    pub fn new(paragraph: &str) -> (r: Wrapper)
        ensures
            r.wf(),
            r.chars() == paragraph@,
            r.answers() == Seq::<bool>::empty(),
    {
        let r: Wrapper = Wrapper {
            chars: chars_of(paragraph),
            pos: 0,
            start: 0,
            last_space: None,
            lines: Vec::new(),
            answers: Ghost(Seq::empty()),
        };
        assert(spans(r.lines@) =~= Seq::<(int, int)>::empty());
        r
    }

    /// The characters whose width is asked for next: the current line with one
    /// character more; none at the end.
    pub fn candidate(&self) -> (r: Option<Span>)
        requires
            self.wf(),
        ensures
            match r {
                Some(s) => self.state().pos < self.chars().len() && span(s) == asked(self.state())
                    && s.start < s.end <= self.chars().len(),
                None => decided(self.chars(), self.answers()),
            },
    {
        if self.pos < self.chars.len() {
            Some(Span { start: self.start, end: self.pos + 1 })
        } else {
            None
        }
    }

    /// Takes the answer whether the asked characters are too wide for a line.
    /// The current line grows by a character, or a later one begins.
    pub fn answer(&mut self, too_wide: bool)
        requires
            old(self).wf(),
            old(self).state().pos < old(self).chars().len(),
        ensures
            final(self).wf(),
            final(self).chars() == old(self).chars(),
            final(self).answers() == old(self).answers().push(too_wide),
            final(self).state() == wrap_step(old(self).chars(), old(self).state(), too_wide),
            final(self).state().start > old(self).state().start || (final(self).state().start
                == old(self).state().start && final(self).state().pos == old(self).state().pos + 1),
    {
        let ghost before = *self;
        let i: usize = self.pos;
        let n: usize = self.chars.len();
        assert(i < n);
        let ghost told = self.answers@.push(too_wide);
        proof {
            assert forall|k: int| 0 <= k <= before.answers@.len() implies #[trigger] wrap_upto(
                self.chars@,
                told,
                k as nat,
            ) == wrap_upto(self.chars@, before.answers@, k as nat) by {
                lemma_wrap_prefix(self.chars@, before.answers@, told, k as nat);
            }
            lemma_step_placed(self.chars@, self.state(), too_wide);
        }
        if too_wide && i > self.start {
            let at: usize = match self.last_space {
                Some(p) => p,
                None => i,
            };
            self.lines.push(Span { start: self.start, end: at });
            assert(spans(self.lines@) =~= spans(before.lines@).push(
                (before.start as int, at as int),
            ));
            self.start = if at < self.chars.len() && self.chars[at] == ' ' {
                at + 1
            } else {
                at
            };
            self.pos = self.start;
            self.last_space = None;
        } else {
            if self.chars[i] == ' ' {
                self.last_space = Some(i + 1);
            }
            self.pos = i + 1;
        }
        self.answers = Ghost(told);
        assert(wrap_upto(self.chars@, told, before.answers@.len()) == before.state()) by {
            lemma_wrap_prefix(self.chars@, before.answers@, told, before.answers@.len());
        }
        assert(self.state() == wrap_step(self.chars@, before.state(), too_wide));
        assert forall|k: int| 0 <= k < self.answers@.len() implies (#[trigger] wrap_upto(
            self.chars@,
            self.answers@,
            k as nat,
        )).pos < self.chars@.len() by {
            assert(wrap_upto(self.chars@, told, k as nat) == wrap_upto(
                self.chars@,
                before.answers@,
                k as nat,
            ));
        }
    }

    /// The lines of the paragraph, once the answers decide it.
    pub fn finish(self) -> (r: Vec<Span>)
        requires
            self.wf(),
            decided(self.chars(), self.answers()),
        ensures
            spans(r@) == wrapped(self.chars(), self.answers()),
    {
        let ghost before = spans(self.lines@);
        let start: usize = self.start;
        let n: usize = self.chars.len();
        let mut lines: Vec<Span> = self.lines;
        if start < n {
            lines.push(Span { start, end: n });
            assert(spans(lines@) =~= before.push((start as int, n as int)));
        } else if lines.len() == 0 {
            lines.push(Span { start: 0, end: 0 });
            assert(spans(lines@) =~= seq![(0int, 0int)]);
        }
        lines
    }
}

/// A state whose places lie in order.
pub open spec fn placed(chars: Seq<char>, st: WrapV) -> bool {
    &&& 0 <= st.start <= st.pos <= chars.len()
    &&& st.last_space matches Some(p) ==> st.start < p <= st.pos
    &&& in_order(chars, st.lines)
    &&& st.lines.len() == 0 ==> st.start == 0
    &&& st.lines.len() > 0 ==> follows(chars, st.lines.last(), st.start)
}

/// A line start that follows a line: right behind it, or behind one space.
pub open spec fn follows(chars: Seq<char>, line: (int, int), start: int) -> bool {
    if line.1 < chars.len() && chars[line.1] == ' ' {
        start == line.1 + 1
    } else {
        start == line.1
    }
}

/// Lines that hold a character each, begin at the front and follow each other.
pub open spec fn in_order(chars: Seq<char>, lines: Seq<(int, int)>) -> bool {
    &&& forall|k: int|
        0 <= k < lines.len() ==> 0 <= (#[trigger] lines[k]).0 < lines[k].1 <= chars.len()
    &&& lines.len() > 0 ==> lines[0].0 == 0
    &&& forall|k: int|
        0 < k < lines.len() ==> follows(chars, lines[k - 1], (#[trigger] lines[k]).0)
}

proof fn lemma_push_in_order(chars: Seq<char>, lines: Seq<(int, int)>, line: (int, int))
    requires
        in_order(chars, lines),
        0 <= line.0 < line.1 <= chars.len(),
        lines.len() == 0 ==> line.0 == 0,
        lines.len() > 0 ==> follows(chars, lines.last(), line.0),
    ensures
        in_order(chars, lines.push(line)),
{
    let all = lines.push(line);
    assert forall|k: int| 0 < k < all.len() implies follows(
        chars,
        all[k - 1],
        (#[trigger] all[k]).0,
    ) by {
        if k < lines.len() {
            assert(all[k] == lines[k]);
            assert(all[k - 1] == lines[k - 1]);
        }
    }
}

proof fn lemma_step_placed(chars: Seq<char>, st: WrapV, too_wide: bool)
    requires
        placed(chars, st),
        st.pos < chars.len(),
    ensures
        placed(chars, wrap_step(chars, st, too_wide)),
{
    if too_wide && st.pos > st.start {
        let at = match st.last_space {
            Some(p) => p,
            None => st.pos,
        };
        lemma_push_in_order(chars, st.lines, (st.start, at));
    }
}

proof fn lemma_wrap_prefix(chars: Seq<char>, a: Seq<bool>, b: Seq<bool>, n: nat)
    requires
        n <= a.len(),
        n <= b.len(),
        forall|k: int| 0 <= k < n ==> a[k] == b[k],
    ensures
        wrap_upto(chars, a, n) == wrap_upto(chars, b, n),
    decreases n,
{
    if n > 0 {
        lemma_wrap_prefix(chars, a, b, (n - 1) as nat);
    }
}

proof fn lemma_upto_placed(chars: Seq<char>, answers: Seq<bool>, n: nat)
    requires
        n <= answers.len(),
        decided(chars, answers),
    ensures
        placed(chars, wrap_upto(chars, answers, n)),
    decreases n,
{
    if n > 0 {
        lemma_upto_placed(chars, answers, (n - 1) as nat);
        assert(wrap_upto(chars, answers, (n - 1) as nat).pos < chars.len());
        lemma_step_placed(
            chars,
            wrap_upto(chars, answers, (n - 1) as nat),
            answers[n - 1],
        );
    }
}

/// However wide the lines turn out to be, wrapping loses nothing but one
/// space at a break: the lines of a paragraph that is not empty hold a
/// character each, begin at the front, follow each other and end at the end.
pub proof fn law_wrapping_keeps_every_character(chars: Seq<char>, answers: Seq<bool>)
    requires
        decided(chars, answers),
    ensures
        wrapped(chars, answers).len() > 0,
        chars.len() == 0 ==> wrapped(chars, answers) == seq![(0int, 0int)],
        chars.len() > 0 ==> in_order(chars, wrapped(chars, answers)) && follows(
            chars,
            wrapped(chars, answers).last(),
            chars.len() as int,
        ),
{
    lemma_upto_placed(chars, answers, answers.len());
    let st = wrap_upto(chars, answers, answers.len());
    if chars.len() == 0 {
        if answers.len() > 0 {
            let first: int = 0;
            assert(wrap_upto(chars, answers, first as nat).pos < chars.len());
        }
    } else if st.start < chars.len() {
        lemma_push_in_order(chars, st.lines, (st.start, chars.len() as int));
    }
}

/// Whether the answers say of each asked stretch of characters whether it is
/// too wide, as `wide` has it.
pub open spec fn answered_by(
    chars: Seq<char>,
    answers: Seq<bool>,
    wide: spec_fn(int, int) -> bool,
) -> bool {
    forall|k: int|
        0 <= k < answers.len() ==> #[trigger] answers[k] == ({
            let a = asked(wrap_upto(chars, answers, k as nat));
            wide(a.0, a.1)
        })
}

/// Whether a line fits, or holds one character.
pub open spec fn fits_or_single(line: (int, int), wide: spec_fn(int, int) -> bool) -> bool {
    !wide(line.0, line.1) || line.1 == line.0 + 1
}

/// Every line fits unless it holds a single character, whatever the widths
/// are.
pub proof fn law_every_line_fits(
    chars: Seq<char>,
    answers: Seq<bool>,
    wide: spec_fn(int, int) -> bool,
)
    requires
        chars.len() > 0,
        decided(chars, answers),
        answered_by(chars, answers, wide),
    ensures
        forall|k: int|
            0 <= k < wrapped(chars, answers).len() ==> fits_or_single(
                #[trigger] wrapped(chars, answers)[k],
                wide,
            ),
{
    lemma_upto_fits(chars, answers, wide, answers.len());
    lemma_upto_placed(chars, answers, answers.len());
}

/// The finished lines fit, and so do the current line as far as it is known
/// and as far as its last space.
spec fn state_fits(st: WrapV, wide: spec_fn(int, int) -> bool) -> bool {
    &&& forall|k: int| 0 <= k < st.lines.len() ==> fits_or_single(#[trigger] st.lines[k], wide)
    &&& st.pos > st.start ==> fits_or_single((st.start, st.pos), wide)
    &&& st.last_space matches Some(p) ==> fits_or_single((st.start, p), wide)
}

proof fn lemma_upto_fits(
    chars: Seq<char>,
    answers: Seq<bool>,
    wide: spec_fn(int, int) -> bool,
    n: nat,
)
    requires
        n <= answers.len(),
        decided(chars, answers),
        answered_by(chars, answers, wide),
    ensures
        state_fits(wrap_upto(chars, answers, n), wide),
    decreases n,
{
    if n > 0 {
        lemma_upto_fits(chars, answers, wide, (n - 1) as nat);
        lemma_upto_placed(chars, answers, (n - 1) as nat);
        assert(answers[n - 1] == answers[n - 1]);
    }
}

/// Nothing is broken while nothing is too wide: a paragraph stays one line.
pub proof fn law_fitting_paragraphs_stay_whole(chars: Seq<char>, answers: Seq<bool>)
    requires
        decided(chars, answers),
        forall|i: int| 0 <= i < answers.len() ==> !answers[i],
    ensures
        wrapped(chars, answers) == seq![(0int, chars.len() as int)],
{
    lemma_no_break(chars, answers, answers.len());
    assert(wrapped(chars, answers) =~= seq![(0int, chars.len() as int)]);
}

proof fn lemma_no_break(chars: Seq<char>, answers: Seq<bool>, n: nat)
    requires
        n <= answers.len(),
        forall|i: int| 0 <= i < answers.len() ==> !answers[i],
    ensures
        wrap_upto(chars, answers, n).start == 0,
        wrap_upto(chars, answers, n).lines.len() == 0,
    decreases n,
{
    if n > 0 {
        lemma_no_break(chars, answers, (n - 1) as nat);
    }
}

/// The paragraphs of the characters before place `n`, and where the one that
/// is still open starts.
pub open spec fn paragraphs_upto(chars: Seq<char>, n: nat) -> (Seq<(int, int)>, int)
    decreases n,
{
    if n == 0 {
        (Seq::empty(), 0)
    } else {
        let (done, start) = paragraphs_upto(chars, (n - 1) as nat);
        if chars[n - 1] == '\n' {
            (done.push((start, n - 1)), n as int)
        } else {
            (done, start)
        }
    }
}

/// The paragraphs of a text: the stretches between its line feeds.
pub open spec fn paragraphs_spec(chars: Seq<char>) -> Seq<(int, int)> {
    let (done, start) = paragraphs_upto(chars, chars.len());
    done.push((start, chars.len() as int))
}

/// Splits a text at its line feeds.
pub fn paragraphs(text: &Vec<char>) -> (r: Vec<Span>)
    ensures
        spans(r@) == paragraphs_spec(text@),
{
    let mut r: Vec<Span> = Vec::new();
    let mut start: usize = 0;
    let mut i: usize = 0;
    assert(spans(r@) =~= Seq::<(int, int)>::empty());
    while i < text.len()
        invariant
            i <= text.len(),
            start <= i,
            (spans(r@), start as int) == paragraphs_upto(text@, i as nat),
        decreases text.len() - i,
    {
        let ghost before = spans(r@);
        if text[i] == '\n' {
            r.push(Span { start, end: i });
            assert(spans(r@) =~= before.push((start as int, i as int)));
            start = i + 1;
        }
        i += 1;
    }
    let ghost before = spans(r@);
    r.push(Span { start, end: text.len() });
    assert(spans(r@) =~= before.push((start as int, text@.len() as int)));
    r
}

/// The number of UTF-8 bytes of a character.
pub open spec fn char_bytes(c: char) -> nat {
    encode_scalar(c as u32).len()
}

/// Computes [`char_bytes`].
pub fn utf8_len(c: char) -> (r: usize)
    ensures
        r == char_bytes(c),
        1 <= r <= 4,
{
    let u: u32 = c as u32;
    proof {
        vstd::utf8::char_is_scalar(c);
    }
    if u <= 0x7F {
        1
    } else if u <= 0x7FF {
        2
    } else if u <= 0xFFFF {
        3
    } else {
        4
    }
}

/// The number of UTF-8 bytes of the first `n` characters.
pub open spec fn bytes_before(chars: Seq<char>, n: nat) -> nat
    decreases n,
{
    if n == 0 {
        0
    } else {
        bytes_before(chars, (n - 1) as nat) + char_bytes(chars[n - 1])
    }
}

/// The byte offset of every character place of a text, its end included.
pub fn byte_offsets(text: &Vec<char>) -> (r: Vec<usize>)
    requires
        bytes_before(text@, text@.len()) <= usize::MAX,
    ensures
        r@.len() == text@.len() + 1,
        forall|i: int| 0 <= i <= text@.len() ==> #[trigger] r@[i] == bytes_before(text@, i as nat),
{
    let mut r: Vec<usize> = Vec::new();
    r.push(0);
    let mut at: usize = 0;
    let mut i: usize = 0;
    while i < text.len()
        invariant
            i <= text.len(),
            bytes_before(text@, text@.len()) <= usize::MAX,
            at == bytes_before(text@, i as nat),
            r@.len() == i + 1,
            forall|k: int| 0 <= k <= i ==> #[trigger] r@[k] == bytes_before(text@, k as nat),
        decreases text.len() - i,
    {
        proof {
            lemma_bytes_grow(text@, (i + 1) as nat, text@.len());
        }
        at = at + utf8_len(text[i]);
        r.push(at);
        i += 1;
    }
    r
}

/// Every character takes at least one byte.
pub(crate) proof fn lemma_bytes_grow(chars: Seq<char>, a: nat, b: nat)
    requires
        a <= b,
    ensures
        bytes_before(chars, a) + (b - a) <= bytes_before(chars, b),
    decreases b,
{
    if a < b {
        lemma_bytes_grow(chars, a, (b - 1) as nat);
    }
}

/// The lines of a text: those of its paragraphs, moved to where each
/// paragraph starts.
pub open spec fn text_lines(
    paragraphs: Seq<(int, int)>,
    wraps: Seq<Seq<(int, int)>>,
) -> Seq<(int, int)>
    decreases paragraphs.len(),
{
    if paragraphs.len() == 0 {
        Seq::empty()
    } else {
        text_lines(paragraphs.drop_last(), wraps) + moved(
            wraps[paragraphs.len() - 1],
            paragraphs.last().0,
        )
    }
}

/// Lines moved by `by` places.
pub open spec fn moved(lines: Seq<(int, int)>, by: int) -> Seq<(int, int)> {
    Seq::new(lines.len(), |i: int| (lines[i].0 + by, lines[i].1 + by))
}

/// The values of the lines of several paragraphs.
pub open spec fn wrap_views(s: Seq<Vec<Span>>) -> Seq<Seq<(int, int)>> {
    Seq::new(s.len(), |i: int| spans(s[i]@))
}

/// The byte ranges of lines.
pub open spec fn byte_spans(chars: Seq<char>, lines: Seq<(int, int)>) -> Seq<(int, int)> {
    Seq::new(
        lines.len(),
        |i: int|
            (
                bytes_before(chars, lines[i].0 as nat) as int,
                bytes_before(chars, lines[i].1 as nat) as int,
            ),
    )
}

/// The byte range in the whole text of every line, given the lines of each
/// paragraph.
pub fn line_byte_spans(text: &Vec<char>, wraps: &Vec<Vec<Span>>) -> (r: Vec<Span>)
    requires
        bytes_before(text@, text@.len()) <= usize::MAX,
        wraps@.len() == paragraphs_spec(text@).len(),
        forall|p: int, k: int|
            0 <= p < wraps@.len() && 0 <= k < wraps@[p]@.len() ==> {
                let line = #[trigger] wraps@[p]@[k];
                line.start <= line.end && paragraphs_spec(text@)[p].0 + line.end
                    <= paragraphs_spec(text@)[p].1
            },
    ensures
        spans(r@) == byte_spans(text@, text_lines(paragraphs_spec(text@), wrap_views(wraps@))),
{
    let paras: Vec<Span> = paragraphs(text);
    let n: usize = text.len();
    let offsets: Vec<usize> = byte_offsets(text);
    let ghost ps = paragraphs_spec(text@);
    let ghost ws = wrap_views(wraps@);
    let mut r: Vec<Span> = Vec::new();
    let mut p: usize = 0;
    proof {
        lemma_paragraphs_inside(text@, text@.len());
        assert(spans(paras@).len() == paras@.len());
        assert(ps.take(0) =~= Seq::<(int, int)>::empty());
        assert(spans(r@) =~= byte_spans(text@, text_lines(ps.take(0), ws)));
    }
    while p < paras.len()
        invariant
            p <= paras.len(),
            n == text@.len(),
            paras@.len() == ps.len(),
            spans(paras@) == ps,
            ps == paragraphs_spec(text@),
            ws == wrap_views(wraps@),
            wraps@.len() == ps.len(),
            forall|q: int|
                0 <= q < ps.len() ==> 0 <= (#[trigger] ps[q]).0 <= ps[q].1 <= text@.len(),
            forall|q: int, k: int|
                0 <= q < wraps@.len() && 0 <= k < wraps@[q]@.len() ==> {
                    let line = #[trigger] wraps@[q]@[k];
                    line.start <= line.end && ps[q].0 + line.end <= ps[q].1
                },
            offsets@.len() == text@.len() + 1,
            forall|i: int|
                0 <= i <= text@.len() ==> #[trigger] offsets@[i] == bytes_before(text@, i as nat),
            spans(r@) == byte_spans(text@, text_lines(ps.take(p as int), ws)),
        decreases paras.len() - p,
    {
        let ghost so_far = spans(r@);
        let base: usize = paras[p].start;
        assert(span(paras@[p as int]) == ps[p as int]);
        let lines: &Vec<Span> = &wraps[p];
        let ghost shifted = moved(ws[p as int], base as int);
        let mut k: usize = 0;
        assert(so_far + byte_spans(text@, shifted.take(0)) =~= so_far);
        while k < lines.len()
            invariant
                p < ps.len(),
                n == text@.len(),
                k <= lines.len(),
                lines@ == wraps@[p as int]@,
                ws == wrap_views(wraps@),
                wraps@.len() == ps.len(),
                base == ps[p as int].0,
                shifted == moved(ws[p as int], base as int),
                0 <= ps[p as int].0 <= ps[p as int].1 <= text@.len(),
                forall|j: int|
                    0 <= j < lines@.len() ==> {
                        let line = #[trigger] lines@[j];
                        line.start <= line.end && ps[p as int].0 + line.end <= ps[p as int].1
                    },
                offsets@.len() == text@.len() + 1,
                forall|i: int|
                    0 <= i <= text@.len() ==> #[trigger] offsets@[i] == bytes_before(
                        text@,
                        i as nat,
                    ),
                spans(r@) == so_far + byte_spans(text@, shifted.take(k as int)),
            decreases lines.len() - k,
        {
            let line: Span = lines[k];
            assert(ws[p as int][k as int] == span(line));
            let ghost before = spans(r@);
            let a: usize = base + line.start;
            let b: usize = base + line.end;
            r.push(Span { start: offsets[a], end: offsets[b] });
            assert(spans(r@) =~= before.push(span(r@.last())));
            k += 1;
            assert(byte_spans(text@, shifted.take(k as int)) =~= byte_spans(
                text@,
                shifted.take(k - 1),
            ).push(span(r@.last())));
        }
        proof {
            assert(shifted.take(shifted.len() as int) =~= shifted);
            assert(ps.take(p + 1).drop_last() =~= ps.take(p as int));
            let all = text_lines(ps.take(p as int), ws);
            assert(byte_spans(text@, all + shifted) =~= byte_spans(text@, all) + byte_spans(
                text@,
                shifted,
            ));
        }
        p += 1;
    }
    assert(ps.take(ps.len() as int) =~= ps);
    r
}

proof fn lemma_paragraphs_inside(chars: Seq<char>, n: nat)
    requires
        n <= chars.len(),
    ensures
        0 <= paragraphs_upto(chars, n).1 <= n,
        forall|q: int|
            0 <= q < paragraphs_upto(chars, n).0.len() ==> 0 <= (#[trigger] paragraphs_upto(
                chars,
                n,
            ).0[q]).0 <= paragraphs_upto(chars, n).0[q].1 <= n,
    decreases n,
{
    if n > 0 {
        lemma_paragraphs_inside(chars, (n - 1) as nat);
    }
}

} // verus!
