//! The text model.
//!
//! The editor consumes text as an abstract sequence of lines, each line a
//! sequence of glyphs.  A glyph pairs a character with its terminal display
//! width: 0 for control characters that never render, 1 for most printable
//! characters, 2 for East-Asian wide code points, and the tab-stop width for
//! tabs.  The store that produces the widths lives outside this crate; the
//! editor only reads them back.

use vstd::prelude::*;

verus! {

/// Widest display width a single glyph may claim.
pub const MAX_GLYPH_WIDTH: u16 = 255;

/// Most glyphs a single line may hold: as many as keep every width sum
/// within the machine's address range.
pub const MAX_LINE_LEN: usize = usize::MAX / 255;

/// One character together with its terminal display width.
#[derive(Clone, Copy, Debug, PartialEq, Eq, Structural)]
pub struct Glyph {
    pub ch: char,
    pub width: u16,
}

impl Glyph {
    /// Well-formed: the width is within the supported range.
    pub open spec fn wf(self) -> bool {
        self.width <= MAX_GLYPH_WIDTH
    }

    /// A glyph from a character and its display width.
    pub fn new(ch: char, width: u16) -> (r: Glyph)
        requires
            width <= MAX_GLYPH_WIDTH,
        ensures
            r == (Glyph { ch, width }),
            r.wf(),
    {
        Glyph { ch, width }
    }
}

/// The display width this crate assigns to a character on its own: the
/// tab-stop width for a tab, 0 for other control characters, 1 for the
/// rest.  Widths of wide code points come from the caller instead.
pub open spec fn spec_plain_width(c: char, tab_width: u16) -> u16 {
    if c == '\t' {
        tab_width
    } else if c < ' ' || c == '\u{7f}' {
        0
    } else {
        1u16
    }
}

/// Build a glyph with the plain width rule of [`spec_plain_width`].
pub fn plain_glyph(c: char, tab_width: u16) -> (r: Glyph)
    requires
        tab_width <= MAX_GLYPH_WIDTH,
    ensures
        r.ch == c,
        r.width == spec_plain_width(c, tab_width),
        r.wf(),
{
    let width: u16 = if c == '\t' {
        tab_width
    } else if c < ' ' || c == '\u{7f}' {
        0
    } else {
        1
    };
    Glyph { ch: c, width }
}

/// Sum of the display widths of the glyphs `s <= i < e` of a line.
pub open spec fn width_between(line: Seq<Glyph>, s: int, e: int) -> int
    decreases e - s,
{
    if s >= e {
        0
    } else {
        width_between(line, s, e - 1) + if 0 <= e - 1 < line.len() {
            line[e - 1].width as int
        } else {
            0
        }
    }
}

/// A prefix of the width sum is never more than the whole.
pub proof fn lemma_width_between_split(line: Seq<Glyph>, s: int, m: int, e: int)
    requires
        s <= m <= e,
    ensures
        width_between(line, s, e) == width_between(line, s, m) + width_between(line, m, e),
    decreases e - m,
{
    if m < e {
        lemma_width_between_split(line, s, m, e - 1);
    }
}

/// Width sums are never negative.
pub proof fn lemma_width_between_nonneg(line: Seq<Glyph>, s: int, e: int)
    ensures
        width_between(line, s, e) >= 0,
    decreases e - s,
{
    if s < e {
        lemma_width_between_nonneg(line, s, e - 1);
    }
}

/// One logical line of text.
#[derive(Clone, Debug)]
pub struct TextLine {
    pub glyphs: Vec<Glyph>,
}

impl TextLine {
    /// Well-formed: length capped and every glyph well-formed.
    pub open spec fn wf(self) -> bool {
        &&& self.glyphs.len() <= MAX_LINE_LEN
        &&& forall|i: int| 0 <= i < self.glyphs.len() ==> (#[trigger] self.glyphs[i]).wf()
    }

    /// An empty line.
    pub fn new() -> (r: TextLine)
        ensures
            r.glyphs@ =~= Seq::<Glyph>::empty(),
            r.wf(),
    {
        TextLine { glyphs: Vec::new() }
    }

    /// The number of glyphs.
    pub fn char_count(&self) -> (r: usize)
        ensures
            r == self.glyphs@.len(),
    {
        self.glyphs.len()
    }

    /// Append one glyph.
    pub fn push(&mut self, g: Glyph)
        requires
            old(self).wf(),
            g.wf(),
            old(self).glyphs@.len() < MAX_LINE_LEN,
        ensures
            final(self).glyphs@ == old(self).glyphs@.push(g),
            final(self).wf(),
    {
        self.glyphs.push(g);
    }

    /// Build a line from a string, one glyph per character, each with the
    /// plain width rule of [`spec_plain_width`].
    pub fn from_str_plain(s: &str, tab_width: u16) -> (r: TextLine)
        requires
            s@.len() <= MAX_LINE_LEN,
            tab_width <= MAX_GLYPH_WIDTH,
        ensures
            r.wf(),
            r.glyphs@.len() == s@.len(),
            forall|i: int|
                0 <= i < s@.len() ==> (#[trigger] r.glyphs@[i]) == (Glyph {
                    ch: s@[i],
                    width: spec_plain_width(s@[i], tab_width),
                }),
    {
        let n = s.unicode_len();
        let mut line = TextLine::new();
        let mut i: usize = 0;
        while i < n
            invariant
                n == s@.len() <= MAX_LINE_LEN,
                tab_width <= MAX_GLYPH_WIDTH,
                i <= n,
                line.wf(),
                line.glyphs@.len() == i,
                forall|j: int|
                    0 <= j < i ==> (#[trigger] line.glyphs@[j]) == (Glyph {
                        ch: s@[j],
                        width: spec_plain_width(s@[j], tab_width),
                    }),
            decreases n - i,
        {
            let c = s.get_char(i);
            line.push(plain_glyph(c, tab_width));
            i += 1;
        }
        line
    }

    /// Sum of display widths of glyphs `s <= i < e`, as executable code.
    pub fn width_between(&self, s: usize, e: usize) -> (r: usize)
        requires
            self.wf(),
            s <= e <= self.glyphs@.len(),
        ensures
            r == width_between(self.glyphs@, s as int, e as int),
            r <= (e - s) * MAX_GLYPH_WIDTH,
    {
        let mut r: usize = 0;
        let mut i: usize = s;
        proof {
            assert(width_between(self.glyphs@, s as int, s as int) == 0);
        }
        while i < e
            invariant
                self.wf(),
                s <= i <= e <= self.glyphs@.len(),
                r == width_between(self.glyphs@, s as int, i as int),
                r <= (i - s) * MAX_GLYPH_WIDTH,
            decreases e - i,
        {
            proof {
                assert(self.glyphs@[i as int].wf());
                assert((i + 1 - s) * MAX_GLYPH_WIDTH == (i - s) * MAX_GLYPH_WIDTH
                    + MAX_GLYPH_WIDTH) by (nonlinear_arith);
                assert((i - s) * MAX_GLYPH_WIDTH <= (MAX_LINE_LEN - 1) * MAX_GLYPH_WIDTH)
                    by (nonlinear_arith)
                    requires
                        0 <= i - s <= MAX_LINE_LEN - 1,
                ;
                vstd::arithmetic::div_mod::lemma_fundamental_div_mod(usize::MAX as int, 255);
                vstd::arithmetic::div_mod::lemma_mod_bound(usize::MAX as int, 255);
                assert(MAX_LINE_LEN * MAX_GLYPH_WIDTH <= usize::MAX) by (nonlinear_arith)
                    requires
                        MAX_LINE_LEN == usize::MAX as int / 255,
                        MAX_GLYPH_WIDTH == 255,
                        usize::MAX as int == 255 * (usize::MAX as int / 255) + (usize::MAX
                            as int % 255),
                        usize::MAX as int % 255 >= 0,
                ;
            }
            r = r + self.glyphs[i].width as usize;
            i += 1;
        }
        r
    }
}

/// The characters of a line, widths dropped.
pub open spec fn line_chars(line: Seq<Glyph>) -> Seq<char> {
    Seq::new(line.len(), |i: int| line[i].ch)
}

/// The characters of the lines from `k` on, joined with line feeds.
pub open spec fn chars_from(lines: Seq<TextLine>, k: int) -> Seq<char>
    decreases lines.len() - k,
{
    if k < 0 || k >= lines.len() {
        Seq::empty()
    } else if k == lines.len() - 1 {
        line_chars(lines[k].glyphs@)
    } else {
        line_chars(lines[k].glyphs@) + seq!['\n'] + chars_from(lines, k + 1)
    }
}

/// A character that trimming drops at either end: the Unicode
/// white-space characters.
pub open spec fn spec_is_trim_blank(c: char) -> bool {
    ||| ('\u{0009}' <= c && c <= '\u{000D}')
    ||| c == ' '
    ||| c == '\u{0085}'
    ||| c == '\u{00A0}'
    ||| c == '\u{1680}'
    ||| ('\u{2000}' <= c && c <= '\u{200A}')
    ||| c == '\u{2028}'
    ||| c == '\u{2029}'
    ||| c == '\u{202F}'
    ||| c == '\u{205F}'
    ||| c == '\u{3000}'
}

/// Executable test for [`spec_is_trim_blank`].
pub fn is_trim_blank(c: char) -> (r: bool)
    ensures
        r == spec_is_trim_blank(c),
{
    ('\u{0009}' <= c && c <= '\u{000D}') || c == ' ' || c == '\u{0085}' || c == '\u{00A0}'
        || c == '\u{1680}' || ('\u{2000}' <= c && c <= '\u{200A}') || c == '\u{2028}' || c
        == '\u{2029}' || c == '\u{202F}' || c == '\u{205F}' || c == '\u{3000}'
}

/// The index of the first character trimming keeps: the length when all
/// characters are blank.
pub open spec fn first_significant(s: Seq<char>) -> int
    decreases s.len(),
{
    if s.len() == 0 {
        0
    } else if spec_is_trim_blank(s[0]) {
        1 + first_significant(s.drop_first())
    } else {
        0
    }
}

/// One past the index of the last character trimming keeps: 0 when all
/// characters are blank.
pub open spec fn last_significant(s: Seq<char>) -> int
    decreases s.len(),
{
    if s.len() == 0 {
        0
    } else if spec_is_trim_blank(s.last()) {
        last_significant(s.drop_last())
    } else {
        s.len() as int
    }
}

/// The bounds of the kept stretch lie within the text.
pub proof fn lemma_significant_bounds(s: Seq<char>)
    ensures
        0 <= first_significant(s) <= s.len(),
        0 <= last_significant(s) <= s.len(),
    decreases s.len(),
{
    if s.len() > 0 {
        lemma_significant_bounds(s.drop_first());
        lemma_significant_bounds(s.drop_last());
    }
}

/// A character sequence with the blank characters at both ends dropped.
pub open spec fn spec_trimmed(s: Seq<char>) -> Seq<char> {
    if first_significant(s) <= last_significant(s) {
        s.subrange(first_significant(s), last_significant(s))
    } else {
        Seq::empty()
    }
}

/// Relies on `String::push` of std: appends exactly one character at
/// the end of the string.
#[verifier::external_body]
pub(crate) fn push_char(s: &mut String, c: char)
    ensures
        final(s)@ == old(s)@.push(c),
{
    s.push(c)
}

/// A text source: one or more logical lines.
///
/// An empty buffer still has one (empty) line, the way a rope reports one
/// line for empty content.
#[derive(Clone, Debug)]
pub struct Text {
    pub lines: Vec<TextLine>,
}

impl Text {
    /// Well-formed: at least one line, every line well-formed.
    pub open spec fn wf(self) -> bool {
        &&& self.lines.len() >= 1
        &&& forall|i: int| 0 <= i < self.lines.len() ==> (#[trigger] self.lines[i]).wf()
    }

    /// A text with a single empty line.
    pub fn new() -> (r: Text)
        ensures
            r.wf(),
            r.lines@.len() == 1,
            r.lines@[0].glyphs@ =~= Seq::<Glyph>::empty(),
    {
        let mut lines: Vec<TextLine> = Vec::new();
        lines.push(TextLine::new());
        Text { lines }
    }

    /// A text from one given line.
    pub fn from_line(line: TextLine) -> (r: Text)
        requires
            line.wf(),
        ensures
            r.wf(),
            r.lines@.len() == 1,
            r.lines@[0] == line,
    {
        let mut lines: Vec<TextLine> = Vec::new();
        lines.push(line);
        Text { lines }
    }

    /// The number of lines.
    pub fn line_count(&self) -> (r: usize)
        requires
            self.wf(),
        ensures
            r == self.lines@.len(),
            r >= 1,
    {
        self.lines.len()
    }

    /// One line, by index.
    pub fn line(&self, idx: usize) -> (r: &TextLine)
        requires
            self.wf(),
            idx < self.lines@.len(),
        ensures
            r == self.lines@[idx as int],
    {
        &self.lines[idx]
    }

    /// Append one line.
    pub fn push_line(&mut self, line: TextLine)
        requires
            old(self).wf(),
            line.wf(),
        ensures
            final(self).lines@ == old(self).lines@.push(line),
            final(self).wf(),
    {
        self.lines.push(line);
    }

    /// Drop all content: afterwards a single empty line remains and the
    /// buffer reads as empty.
    pub fn clear(&mut self)
        ensures
            final(self).wf(),
            final(self).lines@.len() == 1,
            final(self).lines@[0].glyphs@ =~= Seq::<Glyph>::empty(),
    {
        self.lines.clear();
        self.lines.push(TextLine::new());
    }

    /// Splice the glyphs of `payload` into line `line_idx` at `char_idx`.
    pub fn insert(&mut self, line_idx: usize, char_idx: usize, payload: &TextLine)
        requires
            old(self).wf(),
            payload.wf(),
            line_idx < old(self).lines@.len(),
            char_idx <= old(self).lines@[line_idx as int].glyphs@.len(),
            old(self).lines@[line_idx as int].glyphs@.len() + payload.glyphs@.len()
                <= MAX_LINE_LEN,
        ensures
            final(self).wf(),
            final(self).lines@.len() == old(self).lines@.len(),
            forall|i: int|
                0 <= i < final(self).lines@.len() && i != line_idx ==> #[trigger] final(self).lines@[i] == old(self).lines@[i],
            final(self).lines@[line_idx as int].glyphs@ == old(self).lines@[line_idx as int].glyphs@.take(char_idx as int) + payload.glyphs@ + old(self).lines@[line_idx as int].glyphs@.skip(char_idx as int),
    {
        let old_line = &self.lines[line_idx];
        let n = old_line.glyphs.len();
        let m = payload.glyphs.len();
        let mut glyphs: Vec<Glyph> = Vec::new();
        let mut i: usize = 0;
        while i < char_idx
            invariant
                self == old(self),
                old(self).wf(),
                line_idx < self.lines@.len(),
                i <= char_idx <= n == self.lines@[line_idx as int].glyphs@.len(),
                glyphs@ =~= self.lines@[line_idx as int].glyphs@.take(i as int),
            decreases char_idx - i,
        {
            glyphs.push(self.lines[line_idx].glyphs[i]);
            i += 1;
        }
        let mut j: usize = 0;
        while j < m
            invariant
                payload.wf(),
                j <= m == payload.glyphs@.len(),
                old(self).wf(),
                self == old(self),
                line_idx < self.lines@.len(),
                char_idx <= n == self.lines@[line_idx as int].glyphs@.len(),
                glyphs@ =~= self.lines@[line_idx as int].glyphs@.take(char_idx as int)
                    + payload.glyphs@.take(j as int),
            decreases m - j,
        {
            glyphs.push(payload.glyphs[j]);
            j += 1;
        }
        let mut k: usize = char_idx;
        while k < n
            invariant
                payload.wf(),
                old(self).wf(),
                self == old(self),
                line_idx < self.lines@.len(),
                char_idx <= k <= n == self.lines@[line_idx as int].glyphs@.len(),
                m == payload.glyphs@.len(),
                glyphs@ =~= self.lines@[line_idx as int].glyphs@.take(char_idx as int)
                    + payload.glyphs@ + self.lines@[line_idx as int].glyphs@.subrange(
                    char_idx as int,
                    k as int,
                ),
            decreases n - k,
        {
            glyphs.push(self.lines[line_idx].glyphs[k]);
            k += 1;
        }
        proof {
            assert(glyphs@ =~= self.lines@[line_idx as int].glyphs@.take(char_idx as int)
                + payload.glyphs@ + self.lines@[line_idx as int].glyphs@.skip(char_idx as int));
        }
        let new_line = TextLine { glyphs };
        self.lines.set(line_idx, new_line);
    }

    /// Delete the glyphs `s <= i < e` from line `line_idx`.
    pub fn delete(&mut self, line_idx: usize, s: usize, e: usize)
        requires
            old(self).wf(),
            line_idx < old(self).lines@.len(),
            s <= e <= old(self).lines@[line_idx as int].glyphs@.len(),
        ensures
            final(self).wf(),
            final(self).lines@.len() == old(self).lines@.len(),
            forall|i: int|
                0 <= i < final(self).lines@.len() && i != line_idx ==> #[trigger] final(self).lines@[i] == old(self).lines@[i],
            final(self).lines@[line_idx as int].glyphs@ == old(self).lines@[line_idx as int].glyphs@.take(s as int) + old(self).lines@[line_idx as int].glyphs@.skip(e as int),
    {
        let n = self.lines[line_idx].glyphs.len();
        let mut glyphs: Vec<Glyph> = Vec::new();
        let mut i: usize = 0;
        while i < s
            invariant
                old(self).wf(),
                self == old(self),
                line_idx < self.lines@.len(),
                i <= s <= e <= n == self.lines@[line_idx as int].glyphs@.len(),
                glyphs@ =~= self.lines@[line_idx as int].glyphs@.take(i as int),
            decreases s - i,
        {
            glyphs.push(self.lines[line_idx].glyphs[i]);
            i += 1;
        }
        let mut k: usize = e;
        while k < n
            invariant
                old(self).wf(),
                self == old(self),
                line_idx < self.lines@.len(),
                s <= e <= k <= n == self.lines@[line_idx as int].glyphs@.len(),
                glyphs@ =~= self.lines@[line_idx as int].glyphs@.take(s as int)
                    + self.lines@[line_idx as int].glyphs@.subrange(e as int, k as int),
            decreases n - k,
        {
            glyphs.push(self.lines[line_idx].glyphs[k]);
            k += 1;
        }
        proof {
            assert(glyphs@ =~= self.lines@[line_idx as int].glyphs@.take(s as int)
                + self.lines@[line_idx as int].glyphs@.skip(e as int));
        }
        let new_line = TextLine { glyphs };
        self.lines.set(line_idx, new_line);
    }
}

impl Text {
    /// A copy of the text: same line count, same glyphs per line.
    pub fn duplicate(&self) -> (r: Text)
        requires
            self.wf(),
        ensures
            r.wf(),
            r.lines@.len() == self.lines@.len(),
            forall|i: int|
                0 <= i < self.lines@.len() ==> (#[trigger] r.lines@[i]).glyphs@
                    == self.lines@[i].glyphs@,
    {
        let n = self.lines.len();
        let mut lines: Vec<TextLine> = Vec::new();
        let mut k: usize = 0;
        while k < n
            invariant
                self.wf(),
                k <= n == self.lines@.len(),
                lines@.len() == k,
                forall|i: int|
                    0 <= i < k ==> (#[trigger] lines@[i]).glyphs@ == self.lines@[i].glyphs@
                        && lines@[i].wf(),
            decreases n - k,
        {
            let src = &self.lines[k];
            let m = src.glyphs.len();
            let mut glyphs: Vec<Glyph> = Vec::new();
            let mut i: usize = 0;
            while i < m
                invariant
                    self.wf(),
                    k < n == self.lines@.len(),
                    src == self.lines@[k as int],
                    i <= m == src.glyphs@.len(),
                    glyphs@ =~= src.glyphs@.take(i as int),
                decreases m - i,
            {
                glyphs.push(src.glyphs[i]);
                i += 1;
            }
            proof {
                assert(glyphs@ =~= src.glyphs@);
            }
            lines.push(TextLine { glyphs });
            k += 1;
        }
        Text { lines }
    }

    /// All characters of the text, lines joined with line feeds.
    pub fn chars_joined(&self) -> (r: Vec<char>)
        requires
            self.wf(),
        ensures
            r@ == chars_from(self.lines@, 0),
    {
        let ghost total = chars_from(self.lines@, 0);
        let n = self.lines.len();
        let mut out: Vec<char> = Vec::new();
        let mut k: usize = 0;
        proof {
            assert(total =~= out@ + chars_from(self.lines@, 0));
        }
        while k < n
            invariant
                self.wf(),
                k <= n == self.lines@.len(),
                total == chars_from(self.lines@, 0),
                total =~= out@ + chars_from(self.lines@, k as int),
            decreases n - k,
        {
            let ghost base = out@;
            let line = &self.lines[k];
            let m = line.glyphs.len();
            let mut i: usize = 0;
            proof {
                assert(line_chars(line.glyphs@).take(0) =~= Seq::<char>::empty());
                assert(out@ =~= base + line_chars(line.glyphs@).take(0));
            }
            while i < m
                invariant
                    self.wf(),
                    k < n == self.lines@.len(),
                    line == self.lines@[k as int],
                    i <= m == line.glyphs@.len(),
                    out@ =~= base + line_chars(line.glyphs@).take(i as int),
                decreases m - i,
            {
                out.push(line.glyphs[i].ch);
                proof {
                    assert(line_chars(line.glyphs@).take(i + 1) =~= line_chars(
                        line.glyphs@,
                    ).take(i as int).push(line.glyphs@[i as int].ch));
                    assert(out@ =~= base + line_chars(line.glyphs@).take(i + 1));
                }
                i += 1;
            }
            proof {
                assert(line_chars(line.glyphs@).take(m as int) =~= line_chars(line.glyphs@));
                assert(out@ =~= base + line_chars(line.glyphs@));
            }
            if k + 1 < n {
                out.push('\n');
                proof {
                    assert(chars_from(self.lines@, k as int) == line_chars(line.glyphs@)
                        + seq!['\n'] + chars_from(self.lines@, k + 1));
                    assert(total =~= out@ + chars_from(self.lines@, k + 1));
                }
            } else {
                proof {
                    assert(chars_from(self.lines@, k as int) == line_chars(line.glyphs@));
                    assert(chars_from(self.lines@, k + 1) =~= Seq::<char>::empty());
                    assert(total =~= out@ + chars_from(self.lines@, k + 1));
                }
            }
            k += 1;
        }
        proof {
            assert(chars_from(self.lines@, n as int) =~= Seq::<char>::empty());
            assert(out@ =~= total);
        }
        out
    }

    /// All characters of the text, joined with line feeds and trimmed of
    /// blank characters at both ends, as one string.
    pub fn trimmed_string(&self) -> (r: String)
        requires
            self.wf(),
        ensures
            r@ == spec_trimmed(chars_from(self.lines@, 0)),
    {
        let v = self.chars_joined();
        let ghost s = v@;
        let n = v.len();
        let mut a: usize = 0;
        proof {
            assert(s.skip(0) =~= s);
        }
        while a < n && is_trim_blank(v[a])
            invariant
                n == s.len(),
                v@ == s,
                a <= n,
                first_significant(s) == a + first_significant(s.skip(a as int)),
            decreases n - a,
        {
            proof {
                assert(s.skip(a as int)[0] == s[a as int]);
                assert(s.skip(a as int).drop_first() =~= s.skip(a + 1));
            }
            a += 1;
        }
        proof {
            if a == n {
                assert(s.skip(a as int) =~= Seq::<char>::empty());
                assert(first_significant(s) == a);
            } else {
                assert(s.skip(a as int)[0] == s[a as int]);
                assert(first_significant(s.skip(a as int)) == 0);
            }
        }
        let mut b: usize = n;
        proof {
            assert(s.take(n as int) =~= s);
        }
        while b > 0 && is_trim_blank(v[b - 1])
            invariant
                n == s.len(),
                v@ == s,
                b <= n,
                last_significant(s) == last_significant(s.take(b as int)),
            decreases b,
        {
            proof {
                assert(s.take(b as int).last() == s[b - 1]);
                assert(s.take(b as int).drop_last() =~= s.take(b - 1));
            }
            b -= 1;
        }
        proof {
            if b == 0 {
                assert(s.take(0int) =~= Seq::<char>::empty());
                assert(last_significant(s) == 0);
            } else {
                assert(s.take(b as int).last() == s[b - 1]);
                assert(last_significant(s.take(b as int)) == b);
            }
            lemma_significant_bounds(s);
        }
        let mut r = String::new();
        if a >= b {
            proof {
                assert(r@ =~= spec_trimmed(s));
            }
            return r;
        }
        let mut i: usize = a;
        while i < b
            invariant
                n == s.len(),
                v@ == s,
                a <= i <= b <= n,
                r@ =~= s.subrange(a as int, i as int),
            decreases b - i,
        {
            push_char(&mut r, v[i]);
            proof {
                assert(r@ =~= s.subrange(a as int, i + 1));
            }
            i += 1;
        }
        proof {
            assert(r@ =~= spec_trimmed(s));
        }
        r
    }
}

} // verus!
