//! What the small text functions mean.

use vstd::prelude::*;
use crate::board_labels::{extent_of, line_widths, widest};
use crate::templates::{first_line, line_end};
use crate::text::{
    begins_with, color_text, color_width, decimal, digit_char, hex_digits, hex_letter,
    is_control_code, is_white_space, text_le, trim_end_spec, trim_spec, trim_start_spec,
};
use crate::wrap::{
    answered_by, bytes_before, char_bytes, paragraphs_spec, paragraphs_upto,
    text_lines, wrap_step, wrap_upto, wrapped, WrapV,
};

verus! {

/// Blanks, tabs and line breaks are white space, the ideographic blank too;
/// printable characters of English and Chinese text are not, and they are no
/// control codes either.
pub proof fn law_printable_characters_are_no_white_space(c: char)
    ensures
        c == ' ' || c == '\t' || c == '\n' || c == '\r' || c as u32 == 0x3000 ==> is_white_space(c),
        0x21 <= c as u32 <= 0x7e ==> !is_white_space(c) && !is_control_code(c),
        0x3001 <= c as u32 ==> !is_white_space(c) && !is_control_code(c),
        c == '\t' || c == '\n' || c == '\r' ==> is_control_code(c),
        c == ' ' ==> !is_control_code(c),
        c as u32 == 0 || c as u32 == 0x1f || c as u32 == 0x7f || c as u32 == 0x9f
            ==> is_control_code(c),
        c as u32 == 0xa0 ==> is_white_space(c) && !is_control_code(c),
{
}

/// Whether every character of a text is white space.
pub open spec fn blank(s: Seq<char>) -> bool {
    forall|i: int| 0 <= i < s.len() ==> is_white_space(#[trigger] s[i])
}

proof fn lemma_trim_start(s: Seq<char>)
    ensures
        trim_start_spec(s).len() <= s.len(),
        s.skip(s.len() - trim_start_spec(s).len()) == trim_start_spec(s),
        blank(s.take(s.len() - trim_start_spec(s).len())),
        trim_start_spec(s).len() > 0 ==> !is_white_space(trim_start_spec(s)[0]),
    decreases s.len(),
{
    let t = trim_start_spec(s);
    if s.len() > 0 && is_white_space(s[0]) {
        let u = s.skip(1);
        lemma_trim_start(u);
        let n = s.len() - t.len();
        assert(s.skip(n) =~= u.skip(n - 1));
        assert forall|i: int| 0 <= i < s.take(n).len() implies is_white_space(
            #[trigger] s.take(n)[i],
        ) by {
            if i > 0 {
                assert(u.take(n - 1)[i - 1] == s.take(n)[i]);
            }
        }
    } else {
        assert(s.skip(0) =~= s);
    }
}

proof fn lemma_trim_end(s: Seq<char>)
    ensures
        trim_end_spec(s).len() <= s.len(),
        s.take(trim_end_spec(s).len() as int) == trim_end_spec(s),
        blank(s.skip(trim_end_spec(s).len() as int)),
        trim_end_spec(s).len() > 0 ==> !is_white_space(trim_end_spec(s).last()),
        trim_end_spec(s).len() > 0 ==> trim_end_spec(s)[0] == s[0],
    decreases s.len(),
{
    let t = trim_end_spec(s);
    let n = t.len() as int;
    if s.len() > 0 && is_white_space(s.last()) {
        let u = s.drop_last();
        lemma_trim_end(u);
        assert(s.take(n) =~= u.take(n));
        assert forall|i: int| 0 <= i < s.skip(n).len() implies is_white_space(
            #[trigger] s.skip(n)[i],
        ) by {
            if n + i < u.len() {
                assert(u.skip(n)[i] == s.skip(n)[i]);
            }
        }
    } else {
        assert(s.take(s.len() as int) =~= s);
    }
}

/// Trimming takes the white space off both ends and nothing else: what is left is
/// a part of the text that neither begins nor ends with white space, and only
/// white space lies around it.
pub proof fn law_trimming_takes_white_space_off_the_ends(s: Seq<char>)
    ensures
        ({
            let t = trim_spec(s);
            let a = s.len() - trim_start_spec(s).len();
            &&& 0 <= a && a + t.len() <= s.len()
            &&& s.subrange(a, a + t.len()) == t
            &&& blank(s.take(a))
            &&& blank(s.skip(a + t.len()))
            &&& t.len() > 0 ==> !is_white_space(t[0]) && !is_white_space(t.last())
            &&& t.len() == 0 <==> blank(s)
        }),
{
    let u = trim_start_spec(s);
    let t = trim_spec(s);
    let a = s.len() - u.len();
    lemma_trim_start(s);
    lemma_trim_end(u);
    assert(s.subrange(a, a + t.len()) =~= u.take(t.len() as int));
    assert(s.skip(a + t.len()) =~= u.skip(t.len() as int));
    if t.len() == 0 {
        assert forall|i: int| 0 <= i < s.len() implies is_white_space(#[trigger] s[i]) by {
            if i < a {
                assert(s.take(a)[i] == s[i]);
            } else {
                assert(s.skip(a)[i - a] == s[i]);
            }
        }
    } else {
        assert(t[0] == s[a]);
    }
}

/// The number that a digit stands for.
pub open spec fn digit_value(c: char) -> int {
    let u = c as u32 as int;
    if 48 <= u <= 57 {
        u - 48
    } else if 97 <= u <= 102 {
        u - 87
    } else {
        -1
    }
}

/// The number that digits stand for, the first the most significant.
pub open spec fn number(s: Seq<char>, base: int) -> int
    decreases s.len(),
{
    if s.len() == 0 {
        0
    } else {
        number(s.drop_last(), base) * base + digit_value(s.last())
    }
}

proof fn lemma_digits(d: nat)
    ensures
        d < 10 ==> digit_value(digit_char(d)) == d,
        d < 16 ==> digit_value(hex_letter(d)) == d,
{
    if d < 16 {
        if d == 0 {
        } else if d == 1 {
        } else if d == 2 {
        } else if d == 3 {
        } else if d == 4 {
        } else if d == 5 {
        } else if d == 6 {
        } else if d == 7 {
        } else if d == 8 {
        } else if d == 9 {
        } else if d == 10 {
        } else if d == 11 {
        } else if d == 12 {
        } else if d == 13 {
        } else if d == 14 {
        } else {
            assert(d == 15);
        }
    }
}

/// A number is written with the digits that stand for it, without a leading zero.
pub proof fn law_decimals_stand_for_their_number(n: nat)
    ensures
        number(decimal(n), 10) == n,
        decimal(n).len() >= 1,
        n > 0 ==> digit_value(decimal(n)[0]) > 0,
        n == 0 ==> decimal(n).len() == 1,
    decreases n,
{
    if n < 10 {
        lemma_digits(n);
        let s = seq![digit_char(n)];
        assert(s.drop_last() =~= Seq::<char>::empty());
        assert(number(s.drop_last(), 10) == 0);
        assert(s.last() == digit_char(n));
    } else {
        law_decimals_stand_for_their_number(n / 10);
        lemma_digits(n % 10);
        let d = decimal(n / 10);
        assert(decimal(n).drop_last() =~= d);
        assert(decimal(n)[0] == d[0]);
    }
}

/// Two numbers that are written alike are the same.
pub proof fn law_decimals_differ(m: nat, n: nat)
    requires
        decimal(m) == decimal(n),
    ensures
        m == n,
{
    law_decimals_stand_for_their_number(m);
    law_decimals_stand_for_their_number(n);
}

proof fn lemma_hex(n: nat, width: nat)
    ensures
        hex_digits(n, width).len() == width,
        number(hex_digits(n, width), 16) == n % vstd::arithmetic::power::pow(16, width) as nat,
    decreases width,
{
    vstd::arithmetic::power::lemma_pow_positive(16, width);
    if width == 0 {
        vstd::arithmetic::power::lemma_pow0(16);
    } else {
        let w = (width - 1) as nat;
        lemma_hex(n / 16, w);
        lemma_digits(n % 16);
        assert(hex_digits(n, width).drop_last() =~= hex_digits(n / 16, w));
        vstd::arithmetic::power::lemma_pow_adds(16, 1, w);
        vstd::arithmetic::power::lemma_pow1(16);
        vstd::arithmetic::power::lemma_pow_positive(16, w);
        let p = vstd::arithmetic::power::pow(16, w);
        vstd::arithmetic::div_mod::lemma_breakdown(n as int, 16, p);
        assert(n % (16 * p) as nat == 16 * ((n / 16) % p as nat) + n % 16);
    }
}

/// A colour is written as `#` and at least six hexadecimal digits that stand for
/// it.
pub proof fn law_colours_are_written_in_full(c: u32)
    ensures
        color_text(c)[0] == '#',
        color_text(c).len() >= 7,
        number(color_text(c).skip(1), 16) == c,
        c < 0x100_0000 ==> color_text(c).len() == 7,
{
    let w = color_width(c);
    lemma_hex(c as nat, w);
    assert(color_text(c).skip(1) =~= hex_digits(c as nat, w));
    reveal_with_fuel(vstd::arithmetic::power::pow, 9);
    assert(vstd::arithmetic::power::pow(16, 6) == 0x100_0000);
    assert(vstd::arithmetic::power::pow(16, 7) == 0x1000_0000);
    assert(vstd::arithmetic::power::pow(16, 8) == 0x1_0000_0000);
    vstd::arithmetic::div_mod::lemma_small_mod(
        c as nat,
        vstd::arithmetic::power::pow(16, w) as nat,
    );
}

/// Texts are ordered by the first character in which they differ; one that begins
/// another comes before it.
pub proof fn law_texts_are_ordered_by_their_first_difference(a: Seq<char>, b: Seq<char>, k: int)
    requires
        0 <= k <= a.len(),
        k <= b.len(),
        forall|i: int| 0 <= i < k ==> a[i] == b[i],
    ensures
        k == a.len() ==> text_le(a, b),
        k == b.len() && k < a.len() ==> !text_le(a, b),
        k < a.len() && k < b.len() && a[k] < b[k] ==> text_le(a, b),
        k < a.len() && k < b.len() && b[k] < a[k] ==> !text_le(a, b),
    decreases k,
{
    if k > 0 {
        let (x, y) = (a.skip(1), b.skip(1));
        assert forall|i: int| 0 <= i < k - 1 implies x[i] == y[i] by {
            assert(a[i + 1] == b[i + 1]);
        }
        law_texts_are_ordered_by_their_first_difference(x, y, k - 1);
        assert(a[0] == b[0]);
    }
}

proof fn lemma_paragraphs(chars: Seq<char>, n: nat)
    requires
        n <= chars.len(),
    ensures
        ({
            let (done, start) = paragraphs_upto(chars, n);
            &&& 0 <= start <= n
            &&& forall|i: int| start <= i < n ==> chars[i] != '\n'
            &&& done.len() == 0 ==> start == 0
            &&& done.len() > 0 ==> done[0].0 == 0 && done.last().1 + 1 == start
            &&& forall|k: int|
                0 <= k < done.len() ==> 0 <= (#[trigger] done[k]).0 <= done[k].1 < n
                    && chars[done[k].1] == '\n'
            &&& forall|k: int, i: int|
                0 <= k < done.len() && (#[trigger] done[k]).0 <= i < done[k].1 ==> #[trigger] chars[i]
                    != '\n'
            &&& forall|k: int| 0 < k < done.len() ==> (#[trigger] done[k]).0 == done[k - 1].1 + 1
        }),
    decreases n,
{
    if n > 0 {
        lemma_paragraphs(chars, (n - 1) as nat);
    }
}

/// The paragraphs of a text are its parts between line breaks, in order, and none
/// is left out.
pub proof fn law_paragraphs_lie_between_line_breaks(chars: Seq<char>)
    ensures
        ({
            let p = paragraphs_spec(chars);
            &&& p.len() >= 1
            &&& p[0].0 == 0 && p.last().1 == chars.len()
            &&& forall|k: int| 0 <= k < p.len() ==> 0 <= (#[trigger] p[k]).0 <= p[k].1 <= chars.len()
            &&& forall|k: int, i: int|
                0 <= k < p.len() && (#[trigger] p[k]).0 <= i < p[k].1 ==> #[trigger] chars[i] != '\n'
            &&& forall|k: int|
                0 < k < p.len() ==> (#[trigger] p[k]).0 == p[k - 1].1 + 1 && chars[p[k - 1].1] == '\n'
        }),
{
    lemma_paragraphs(chars, chars.len());
}

/// Whether a line ends behind a blank, or has none to end behind.
pub open spec fn ends_at_a_word(chars: Seq<char>, line: (int, int)) -> bool {
    chars[line.1 - 1] == ' ' || forall|i: int| line.0 <= i < line.1 ==> chars[i] != ' '
}

/// Whether the word behind a line does not fit on it: the line and what follows up
/// to `q` is too wide, and no blank lies before that.
pub open spec fn word_is_too_much(
    chars: Seq<char>,
    line: (int, int),
    q: int,
    wide: spec_fn(int, int) -> bool,
) -> bool {
    &&& line.1 <= q < chars.len()
    &&& wide(line.0, q + 1)
    &&& forall|i: int| line.1 <= i < q ==> chars[i] != ' '
}

/// Whether a line of a state is broken at a word, as late as it can be.
spec fn broken_at(chars: Seq<char>, line: (int, int), wide: spec_fn(int, int) -> bool) -> bool {
    &&& 0 <= line.0 < line.1
    &&& ends_at_a_word(chars, line)
    &&& exists|q: int| #[trigger] word_is_too_much(chars, line, q, wide)
}

/// Whether the blank that a state remembers is the last one on its line.
spec fn remembers(chars: Seq<char>, st: WrapV) -> bool {
    &&& 0 <= st.start <= st.pos <= chars.len()
    &&& match st.last_space {
        Some(p) => st.start < p <= st.pos && chars[p - 1] == ' ' && forall|i: int|
            p <= i < st.pos ==> chars[i] != ' ',
        None => forall|i: int| st.start <= i < st.pos ==> chars[i] != ' ',
    }
}

spec fn lines_broken(chars: Seq<char>, st: WrapV, wide: spec_fn(int, int) -> bool) -> bool {
    forall|k: int| 0 <= k < st.lines.len() ==> broken_at(chars, #[trigger] st.lines[k], wide)
}

proof fn lemma_remembers(chars: Seq<char>, st: WrapV, too_wide: bool)
    requires
        remembers(chars, st),
        st.pos < chars.len(),
    ensures
        remembers(chars, wrap_step(chars, st, too_wide)),
{
}

proof fn lemma_new_line(chars: Seq<char>, st: WrapV, wide: spec_fn(int, int) -> bool)
    requires
        remembers(chars, st),
        st.start < st.pos < chars.len(),
        wide(st.start, st.pos + 1),
    ensures
        wrap_step(chars, st, true).lines.len() == st.lines.len() + 1,
        broken_at(chars, wrap_step(chars, st, true).lines.last(), wide),
{
    let line = wrap_step(chars, st, true).lines.last();
    assert(word_is_too_much(chars, line, st.pos, wide));
}

proof fn lemma_lines_broken(
    chars: Seq<char>,
    answers: Seq<bool>,
    wide: spec_fn(int, int) -> bool,
    n: nat,
)
    requires
        n <= answers.len(),
        answered_by(chars, answers, wide),
        forall|k: int|
            0 <= k < n ==> (#[trigger] wrap_upto(chars, answers, k as nat)).pos < chars.len(),
    ensures
        remembers(chars, wrap_upto(chars, answers, n)),
        lines_broken(chars, wrap_upto(chars, answers, n), wide),
    decreases n,
{
    if n > 0 {
        let m = (n - 1) as nat;
        lemma_lines_broken(chars, answers, wide, m);
        let st = wrap_upto(chars, answers, m);
        assert(wrap_upto(chars, answers, m).pos < chars.len());
        let a = answers[n - 1];
        assert(a == wide(st.start, st.pos + 1));
        let r = wrap_upto(chars, answers, n);
        assert(r == wrap_step(chars, st, a));
        lemma_remembers(chars, st, a);
        if a && st.pos > st.start {
            lemma_new_line(chars, st, wide);
            assert forall|k: int| 0 <= k < r.lines.len() implies broken_at(
                chars,
                #[trigger] r.lines[k],
                wide,
            ) by {
                if k < st.lines.len() {
                    assert(r.lines[k] == st.lines[k]);
                }
            }
        } else {
            assert(r.lines == st.lines);
        }
    }
}

/// Wrapping breaks at words and as late as it can: every line but the last ends
/// behind a blank unless it has none, and the word that follows would not have
/// fitted on it.
pub proof fn law_lines_break_at_words(
    chars: Seq<char>,
    answers: Seq<bool>,
    wide: spec_fn(int, int) -> bool,
    k: int,
)
    requires
        crate::wrap::decided(chars, answers),
        answered_by(chars, answers, wide),
        0 <= k < wrapped(chars, answers).len() - 1,
    ensures
        ends_at_a_word(chars, wrapped(chars, answers)[k]),
        exists|q: int| #[trigger] word_is_too_much(chars, wrapped(chars, answers)[k], q, wide),
{
    lemma_lines_broken(chars, answers, wide, answers.len());
    let st = wrap_upto(chars, answers, answers.len());
    assert(wrapped(chars, answers)[k] == st.lines[k]);
    assert(broken_at(chars, st.lines[k], wide));
}

/// How many lines the first paragraphs have.
pub open spec fn lines_upto(wraps: Seq<Seq<(int, int)>>, n: nat) -> nat
    decreases n,
{
    if n == 0 {
        0
    } else {
        lines_upto(wraps, (n - 1) as nat) + wraps[n - 1].len()
    }
}

/// The lines of a text are those of its paragraphs, one paragraph after another,
/// each where its paragraph begins.
pub proof fn law_lines_lie_in_their_paragraph(
    paragraphs: Seq<(int, int)>,
    wraps: Seq<Seq<(int, int)>>,
    p: int,
    k: int,
)
    requires
        0 <= p < paragraphs.len(),
        0 <= k < wraps[p].len(),
    ensures
        ({
            let r = text_lines(paragraphs, wraps);
            let at = lines_upto(wraps, p as nat) + k;
            &&& r.len() == lines_upto(wraps, paragraphs.len())
            &&& at < r.len()
            &&& r[at].0 == paragraphs[p].0 + wraps[p][k].0
            &&& r[at].1 == paragraphs[p].0 + wraps[p][k].1
        }),
    decreases paragraphs.len(),
{
    let d = paragraphs.drop_last();
    lemma_lines_len(d, wraps);
    lemma_lines_len(paragraphs, wraps);
    if p < d.len() {
        law_lines_lie_in_their_paragraph(d, wraps, p, k);
        assert(paragraphs[p] == d[p]);
    }
}

proof fn lemma_lines_len(paragraphs: Seq<(int, int)>, wraps: Seq<Seq<(int, int)>>)
    ensures
        text_lines(paragraphs, wraps).len() == lines_upto(wraps, paragraphs.len()),
    decreases paragraphs.len(),
{
    if paragraphs.len() > 0 {
        lemma_lines_len(paragraphs.drop_last(), wraps);
    }
}

proof fn lemma_line_end(s: Seq<char>, from: int)
    requires
        0 <= from <= s.len(),
    ensures
        from <= line_end(s, from) <= s.len(),
        line_end(s, from) < s.len() ==> s[line_end(s, from)] == '\n',
        forall|i: int| from <= i < line_end(s, from) ==> s[i] != '\n',
    decreases s.len() - from,
{
    if from < s.len() && s[from] != '\n' {
        lemma_line_end(s, from + 1);
    }
}

/// The first line of a text is what stands before its first line break, without
/// the carriage return of that break; it is all of a text without one.
pub proof fn law_the_first_line_ends_at_the_break(s: Seq<char>)
    ensures
        ({
            let l = first_line(s);
            &&& begins_with(s, l)
            &&& forall|i: int| 0 <= i < l.len() ==> l[i] != '\n'
            &&& l.len() < s.len() ==> s[l.len() as int] == '\n' || (s[l.len() as int] == '\r'
                && l.len() + 1 < s.len() && s[l.len() as int + 1] == '\n')
            &&& l.len() < s.len() && s[l.len() as int] == '\n' && l.len() > 0 ==> l.last() != '\r'
        }),
{
    lemma_line_end(s, 0);
    let l = first_line(s);
    assert(s.take(l.len() as int) =~= l);
}

/// The greatest of a list of widths is one of them, and none is greater.
pub proof fn law_the_widest_is_the_greatest(s: Seq<nat>)
    ensures
        forall|i: int| 0 <= i < s.len() ==> #[trigger] s[i] <= widest(s),
        s.len() > 0 ==> s.contains(widest(s)),
        s.len() == 0 ==> widest(s) == 0,
    decreases s.len(),
{
    if s.len() > 0 {
        let d = s.drop_last();
        law_the_widest_is_the_greatest(d);
        assert forall|i: int| 0 <= i < s.len() implies #[trigger] s[i] <= widest(s) by {
            if i < d.len() {
                assert(d[i] == s[i]);
            }
        }
        if widest(d) > s.last() {
            let k = choose|k: int| 0 <= k < d.len() && d[k] == widest(d);
            assert(s[k] == widest(s));
        } else {
            assert(s[s.len() - 1] == widest(s));
        }
    }
}

/// How many line breaks a text has.
pub open spec fn breaks(s: Seq<char>) -> nat
    decreases s.len(),
{
    if s.len() == 0 {
        0
    } else {
        breaks(s.skip(1)) + (if s[0] == '\n' {
            1nat
        } else {
            0nat
        })
    }
}

proof fn lemma_breaks_skip(s: Seq<char>, n: int)
    requires
        0 <= n <= s.len(),
        forall|i: int| 0 <= i < n ==> s[i] != '\n',
    ensures
        breaks(s.skip(n)) == breaks(s),
    decreases n,
{
    if n > 0 {
        lemma_breaks_skip(s.skip(1), n - 1);
        assert(s.skip(1).skip(n - 1) =~= s.skip(n));
    } else {
        assert(s.skip(0) =~= s);
    }
}

/// A text has a line per line break, and one more when it does not end with a
/// break; an empty one counts as one line of one column.
pub proof fn law_lines_are_counted_by_their_breaks(s: Seq<char>)
    ensures
        line_widths(s).len() == breaks(s) + (if s.len() > 0 && s.last() != '\n' {
            1nat
        } else {
            0nat
        }),
        s.len() == 0 ==> extent_of(s) == (1nat, 1nat),
        s.len() > 0 ==> extent_of(s).0 == line_widths(s).len() && extent_of(s).1 == widest(
            line_widths(s),
        ),
        s.len() > 0 ==> line_widths(s)[0] == first_line(s).len(),
    decreases s.len(),
{
    lemma_line_end(s, 0);
    let n = line_end(s, 0);
    if s.len() > 0 {
        lemma_breaks_skip(s, n);
        if n < s.len() {
            let t = s.skip(n + 1);
            law_lines_are_counted_by_their_breaks(t);
            assert(s.skip(n).skip(1) =~= t);
            assert(s.skip(n)[0] == '\n');
            if t.len() > 0 {
                assert(t.last() == s.last());
            } else {
                assert(breaks(t) == 0);
                assert(s.last() == s[n]);
            }
        } else {
            assert(s.skip(n) =~= Seq::<char>::empty());
            assert(breaks(s.skip(n)) == 0);
            assert(s.last() == s[n - 1]);
        }
    }
}

/// Every character takes one to four bytes, so offsets grow with the characters.
pub proof fn law_offsets_grow(chars: Seq<char>, a: nat, b: nat)
    requires
        a <= b,
    ensures
        bytes_before(chars, a) + (b - a) <= bytes_before(chars, b),
        bytes_before(chars, 0) == 0,
        bytes_before(chars, a + 1) == bytes_before(chars, a) + char_bytes(chars[a as int]),
{
    crate::wrap::lemma_bytes_grow(chars, a, b);
}

/// The bytes of a line are those of its characters: it begins behind the bytes of
/// what stands before it and is as long as its characters take.
pub proof fn law_lines_begin_behind_the_text_before_them(
    chars: Seq<char>,
    lines: Seq<(int, int)>,
    i: int,
)
    requires
        0 <= i < lines.len(),
        0 <= lines[i].0 <= lines[i].1,
    ensures
        crate::wrap::byte_spans(chars, lines).len() == lines.len(),
        crate::wrap::byte_spans(chars, lines)[i].0 == bytes_before(chars, lines[i].0 as nat),
        crate::wrap::byte_spans(chars, lines)[i].1 - crate::wrap::byte_spans(chars, lines)[i].0
            >= lines[i].1 - lines[i].0,
        lines[i].0 == 0 ==> crate::wrap::byte_spans(chars, lines)[i].0 == 0,
{
    crate::wrap::lemma_bytes_grow(chars, lines[i].0 as nat, lines[i].1 as nat);
}

} // verus!
