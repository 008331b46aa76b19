//! The cell and line buffer of one grid: a `rows` x `cols` matrix of styled
//! text cells with contiguous byte offsets along each line.
//!
//! Every mutation keeps the central invariant stated by [`line_wf`]: within a
//! line, each cell's offset range has exactly the byte width of its text, the
//! first cell starts at offset `0`, and each cell begins where its
//! predecessor ends.

use vstd::prelude::*;
use vstd::utf8::encode_utf8;

use crate::events::GridLineCell;
use crate::highlights::{Color, Colors, HighlightDefinitions, HighlightStyle, DEFAULT_HIGHLIGHT};

verus! {

/// Byte width of a text under UTF-8, as the `len` of a string holding it
/// reports it.
pub open spec fn text_width(s: Seq<char>) -> int {
    encode_utf8(s).len() as usize as int
}

/// One derived style attribute of a cell, kind plus the byte range it covers.
#[derive(Clone, Copy, Debug)]
pub struct StyleAttr {
    pub kind: AttrKind,
    pub start_index: usize,
    pub end_index: usize,
}

/// The kinds of style attribute a cell's highlight resolves to.
#[derive(Clone, Copy, Debug)]
pub enum AttrKind {
    Italic,
    Bold,
    Strikethrough,
    Underline,
    Undercurl,
    Foreground(Color),
    Background(Color),
    Special(Color),
}

/// One grapheme cluster of styled text.
pub struct TextCell {
    pub text: String,
    pub hldef: Option<u64>,
    pub double_width: bool,
    pub attrs: Vec<StyleAttr>,
    pub start_index: usize,
    pub end_index: usize,
}

/// Abstract value of a cell.
pub struct CellView {
    pub text: Seq<char>,
    pub hldef: Option<u64>,
    pub double_width: bool,
    pub attrs: Seq<StyleAttr>,
    pub start_index: int,
    pub end_index: int,
}

impl View for TextCell {
    type V = CellView;

    open spec fn view(&self) -> CellView {
        CellView {
            text: self.text@,
            hldef: self.hldef,
            double_width: self.double_width,
            attrs: self.attrs@,
            start_index: self.start_index as int,
            end_index: self.end_index as int,
        }
    }
}

/// One fixed-length row of cells plus its opaque shaping-cache token, which
/// any mutation of the row invalidates.
pub struct TextLine {
    pub cells: Vec<TextCell>,
    pub cache: Option<u64>,
}

/// Abstract value of a line.
pub struct LineView {
    pub cells: Seq<CellView>,
    pub cache: Option<u64>,
}

impl View for TextLine {
    type V = LineView;

    open spec fn view(&self) -> LineView {
        LineView { cells: self.cells@.map_values(|c: TextCell| c@), cache: self.cache }
    }
}

/// The rows x cols matrix of lines owned by one grid.
pub struct TextBuf {
    pub rows: usize,
    pub cols: usize,
    pub lines: Vec<TextLine>,
}

/// Abstract value of a buffer.
pub struct BufView {
    pub rows: int,
    pub cols: int,
    pub lines: Seq<LineView>,
}

impl View for TextBuf {
    type V = BufView;

    open spec fn view(&self) -> BufView {
        BufView {
            rows: self.rows as int,
            cols: self.cols as int,
            lines: self.lines@.map_values(|l: TextLine| l@),
        }
    }
}

/// A cell's offsets delimit exactly the byte width of its text and fit the
/// machine's offset type.
pub open spec fn cell_ok(c: CellView) -> bool {
    &&& 0 <= c.start_index
    &&& c.end_index == c.start_index + text_width(c.text)
    &&& c.end_index <= usize::MAX
}

/// The offset discipline of one line: full length, well-formed cells, the
/// first cell at offset `0`, and each cell starting where its predecessor
/// ends (offsets are contiguous and non-decreasing along the line).
pub open spec fn line_wf(l: LineView, cols: int) -> bool {
    &&& l.cells.len() == cols
    &&& forall|i: int| 0 <= i < cols ==> cell_ok(#[trigger] l.cells[i])
    &&& forall|i: int| 0 <= i < cols - 1 ==> #[trigger] l.cells[i + 1].start_index
        == l.cells[i].end_index
    &&& cols > 0 ==> l.cells[0].start_index == 0
}

/// The buffer invariant: the line count matches `rows` and every line obeys
/// the offset discipline for `cols`.
pub open spec fn buf_wf(b: BufView) -> bool {
    &&& b.lines.len() == b.rows
    &&& 0 <= b.rows
    &&& 0 <= b.cols
    &&& forall|r: int| 0 <= r < b.rows ==> line_wf(#[trigger] b.lines[r], b.cols)
}

/// The blank cell at column `i`: a single space with the unit offset range
/// starting at `i`, no explicit highlight, no derived attributes.
pub open spec fn blank_cell(i: int) -> CellView {
    CellView {
        text: seq![' '],
        hldef: None,
        double_width: false,
        attrs: Seq::empty(),
        start_index: i,
        end_index: i + 1,
    }
}

/// A fresh blank line of `cols` cells with no shaping cache.
pub open spec fn blank_line(cols: int) -> LineView {
    LineView { cells: Seq::new(cols as nat, |i: int| blank_cell(i)), cache: None }
}

/// A fresh blank buffer.
pub open spec fn blank_buf(rows: int, cols: int) -> BufView {
    BufView { rows: rows, cols: cols, lines: Seq::new(rows as nat, |i: int| blank_line(cols)) }
}

/// A single space occupies one byte.
pub proof fn lemma_space_width()
    ensures
        text_width(seq![' ']) == 1,
{
    let s = seq![' '];
    assert(vstd::utf8::is_ascii_chars(s));
    vstd::utf8::is_ascii_chars_encode_utf8(s);
    assert(encode_utf8(s).len() == 1);
}

/// A blank line is well formed.
pub proof fn lemma_blank_line_wf(cols: int)
    requires
        0 <= cols <= usize::MAX,
    ensures
        line_wf(blank_line(cols), cols),
{
    lemma_space_width();
}

/// A blank buffer is well formed.
pub proof fn lemma_blank_buf_wf(rows: int, cols: int)
    requires
        0 <= rows,
        0 <= cols <= usize::MAX,
    ensures
        buf_wf(blank_buf(rows, cols)),
{
    lemma_blank_line_wf(cols);
}

/// The buffer left by scrolling content up by `n` rows: the first `n` lines
/// fall off the top and `n` fresh blank lines appear at the bottom.
pub open spec fn spec_up(b: BufView, n: int) -> BufView {
    BufView {
        rows: b.rows,
        cols: b.cols,
        lines: b.lines.subrange(n, b.rows) + Seq::new(n as nat, |i: int| blank_line(b.cols)),
    }
}

/// The buffer left by scrolling content down by `n` rows: the last `n` lines
/// fall off the bottom and `n` fresh blank lines appear at the top.
pub open spec fn spec_down(b: BufView, n: int) -> BufView {
    BufView {
        rows: b.rows,
        cols: b.cols,
        lines: Seq::new(n as nat, |i: int| blank_line(b.cols)) + b.lines.subrange(0, b.rows - n),
    }
}

impl TextLine {
    /// A fresh blank line of `cols` cells.
    pub fn new(cols: usize) -> (l: TextLine)
        ensures
            l@ == blank_line(cols as int),
            line_wf(l@, cols as int),
    {
        let mut cells: Vec<TextCell> = Vec::new();
        let mut i: usize = 0;
        while i < cols
            invariant
                i <= cols,
                cells@.len() == i,
                forall|j: int| 0 <= j < i ==> (#[trigger] cells@[j])@ == blank_cell(j),
            decreases cols - i,
        {
            let text = String::from_str(" ");
            proof {
                reveal_strlit(" ");
                assert(text@ =~= seq![' ']);
            }
            cells.push(TextCell {
                text,
                hldef: None,
                double_width: false,
                attrs: Vec::new(),
                start_index: i,
                end_index: i + 1,
            });
            i = i + 1;
        }
        let l = TextLine { cells, cache: None };
        proof {
            assert(l@.cells =~= blank_line(cols as int).cells);
            assert(l@ =~= blank_line(cols as int));
            lemma_blank_line_wf(cols as int);
        }
        l
    }

    /// The stored shaping-cache token, if a renderer has set one since the
    /// last mutation of this line.
    pub fn cache(&self) -> (r: Option<u64>)
        ensures
            r == self@.cache,
    {
        self.cache
    }

    /// Store a shaping-cache token for this line's current contents.
    pub fn set_cache(&mut self, token: u64)
        ensures
            final(self)@ == (LineView { cache: Some(token), ..old(self)@ }),
    {
        self.cache = Some(token);
    }
}

impl TextBuf {
    /// A fresh blank buffer of the given dimensions.
    pub fn new(rows: usize, cols: usize) -> (b: TextBuf)
        ensures
            b@ == blank_buf(rows as int, cols as int),
            buf_wf(b@),
    {
        let mut lines: Vec<TextLine> = Vec::new();
        let mut i: usize = 0;
        while i < rows
            invariant
                i <= rows,
                lines@.len() == i,
                forall|j: int| 0 <= j < i ==> (#[trigger] lines@[j])@ == blank_line(cols as int),
            decreases rows - i,
        {
            lines.push(TextLine::new(cols));
            i = i + 1;
        }
        let b = TextBuf { rows, cols, lines };
        proof {
            assert(b@.lines =~= blank_buf(rows as int, cols as int).lines);
            assert(b@ =~= blank_buf(rows as int, cols as int));
            lemma_blank_buf_wf(rows as int, cols as int);
        }
        b
    }

    /// Row count.
    pub fn rows(&self) -> (r: usize)
        ensures
            r as int == self@.rows,
    {
        self.rows
    }

    /// Column count.
    pub fn cols(&self) -> (r: usize)
        ensures
            r as int == self@.cols,
    {
        self.cols
    }

    /// The line at `row`, if the buffer has one.
    pub fn line(&self, row: usize) -> (r: Option<&TextLine>)
        requires
            buf_wf(self@),
        ensures
            match r {
                Some(l) => row < self@.rows && l@ == self@.lines[row as int],
                None => row >= self@.rows,
            },
    {
        if row < self.lines.len() {
            Some(&self.lines[row])
        } else {
            None
        }
    }

    /// Replace every line with a fresh blank line.
    pub fn clear(&mut self)
        requires
            buf_wf(old(self)@),
        ensures
            buf_wf(final(self)@),
            final(self)@ == blank_buf(old(self)@.rows, old(self)@.cols),
    {
        let rows = self.rows;
        let cols = self.cols;
        let fresh = TextBuf::new(rows, cols);
        self.lines = fresh.lines;
        proof {
            assert(final(self)@ =~= blank_buf(old(self)@.rows, old(self)@.cols));
        }
    }

    /// Scroll content up by `n` rows; the top `n` lines are discarded, not
    /// rotated, and the vacated bottom rows become blank.
    pub fn up(&mut self, n: usize)
        requires
            buf_wf(old(self)@),
            n <= old(self)@.rows,
        ensures
            buf_wf(final(self)@),
            final(self)@ == spec_up(old(self)@, n as int),
    {
        let ghost orig: BufView = self@;
        let cols = self.cols;
        let mut k: usize = 0;
        while k < n
            invariant
                k <= n,
                n <= orig.rows,
                orig.lines.len() == orig.rows,
                self.rows as int == orig.rows,
                self.cols as int == orig.cols,
                cols as int == orig.cols,
                self.lines@.len() == orig.rows,
                self@.lines =~= orig.lines.subrange(k as int, orig.rows) + Seq::new(
                    k as nat,
                    |i: int| blank_line(orig.cols),
                ),
            decreases n - k,
        {
            let ghost before: Seq<LineView> = self@.lines;
            self.lines.remove(0);
            self.lines.push(TextLine::new(cols));
            proof {
                let target = orig.lines.subrange(k + 1, orig.rows) + Seq::new(
                    (k + 1) as nat,
                    |i: int| blank_line(orig.cols),
                );
                assert(before.len() == orig.rows);
                assert(self.lines@.len() == orig.rows);
                assert(self@.lines.len() == orig.rows);
                assert(target.len() == orig.rows);
                assert(self@.lines.len() == target.len());
                assert forall|i: int| 0 <= i < target.len() implies self@.lines[i] == target[i] by {
                    if i < before.len() - 1 {
                        assert(self@.lines[i] == before[i + 1]);
                    }
                }
                assert(self@.lines =~= target);
            }
            k = k + 1;
        }
        proof {
            assert(final(self)@ =~= spec_up(orig, n as int));
            lemma_blank_line_wf(orig.cols);
            assert(buf_wf(final(self)@));
        }
    }

    /// Scroll content down by `n` rows; the bottom `n` lines are discarded,
    /// not rotated, and the vacated top rows become blank.
    pub fn down(&mut self, n: usize)
        requires
            buf_wf(old(self)@),
            n <= old(self)@.rows,
        ensures
            buf_wf(final(self)@),
            final(self)@ == spec_down(old(self)@, n as int),
    {
        let ghost orig: BufView = self@;
        let cols = self.cols;
        let mut k: usize = 0;
        while k < n
            invariant
                k <= n,
                n <= orig.rows,
                orig.lines.len() == orig.rows,
                self.rows as int == orig.rows,
                self.cols as int == orig.cols,
                cols as int == orig.cols,
                self.lines@.len() == orig.rows,
                self@.lines =~= Seq::new(k as nat, |i: int| blank_line(orig.cols))
                    + orig.lines.subrange(0, orig.rows - k),
            decreases n - k,
        {
            let ghost before: Seq<LineView> = self@.lines;
            self.lines.pop();
            self.lines.insert(0, TextLine::new(cols));
            proof {
                let target = Seq::new((k + 1) as nat, |i: int| blank_line(orig.cols))
                    + orig.lines.subrange(0, orig.rows - (k + 1));
                assert(self@.lines.len() == target.len());
                assert forall|i: int| 0 <= i < target.len() implies self@.lines[i] == target[i] by {
                    if i >= 1 {
                        assert(self@.lines[i] == before[i - 1]);
                    }
                }
                assert(self@.lines =~= target);
            }
            k = k + 1;
        }
        proof {
            assert(final(self)@ =~= spec_down(orig, n as int));
            lemma_blank_line_wf(orig.cols);
            assert(buf_wf(final(self)@));
        }
    }
}

// ---------------------------------------------------------------------------
// Derived style attributes
// ---------------------------------------------------------------------------

/// The first color if set, else the second.
pub open spec fn or_color(a: Option<Color>, b: Option<Color>) -> Option<Color> {
    match a {
        Some(c) => Some(c),
        None => b,
    }
}

/// The style a cell's highlight id resolves to: its own entry when defined,
/// else the default style, else the plain style.
pub open spec fn spec_resolved_style(
    hldef: Option<u64>,
    styles: Map<u64, HighlightStyle>,
) -> HighlightStyle {
    let fallback = if styles.contains_key(DEFAULT_HIGHLIGHT) {
        styles[DEFAULT_HIGHLIGHT]
    } else {
        HighlightStyle::spec_plain()
    };
    match hldef {
        Some(id) => if styles.contains_key(id) {
            styles[id]
        } else {
            fallback
        },
        None => fallback,
    }
}

/// The fill color of a cell: only a highlight id of its own that the table
/// defines contributes one; the default style's background paints the
/// surface, not the cell.
pub open spec fn spec_resolved_background(
    hldef: Option<u64>,
    styles: Map<u64, HighlightStyle>,
) -> Option<Color> {
    match hldef {
        Some(id) => if styles.contains_key(id) {
            styles[id].colors.background
        } else {
            None
        },
        None => None,
    }
}

/// A single attribute covering the byte range `start..end`.
pub open spec fn spec_attr(kind: AttrKind, start: int, end: int) -> StyleAttr {
    StyleAttr { kind, start_index: start as usize, end_index: end as usize }
}

/// The attribute list derived for a cell: empty for the degenerate
/// zero-width cell, else one attribute per set emphasis flag followed by the
/// resolved foreground, background and special colors, in that order.
pub open spec fn spec_cell_attrs(
    start: int,
    end: int,
    hldef: Option<u64>,
    styles: Map<u64, HighlightStyle>,
    defaults: Option<Colors>,
) -> Seq<StyleAttr> {
    if end == start {
        Seq::empty()
    } else {
        let style = spec_resolved_style(hldef, styles);
        let background = spec_resolved_background(hldef, styles);
        let dcolors = match defaults {
            Some(c) => c,
            None => Colors::spec_unset(),
        };
        let l0 = Seq::<StyleAttr>::empty();
        let l1 = if style.italic {
            l0.push(spec_attr(AttrKind::Italic, start, end))
        } else {
            l0
        };
        let l2 = if style.bold {
            l1.push(spec_attr(AttrKind::Bold, start, end))
        } else {
            l1
        };
        let l3 = if style.strikethrough {
            l2.push(spec_attr(AttrKind::Strikethrough, start, end))
        } else {
            l2
        };
        let l4 = if style.underline {
            l3.push(spec_attr(AttrKind::Underline, start, end))
        } else {
            l3
        };
        let l5 = if style.undercurl {
            l4.push(spec_attr(AttrKind::Undercurl, start, end))
        } else {
            l4
        };
        let l6 = match or_color(style.colors.foreground, dcolors.foreground) {
            Some(c) => l5.push(spec_attr(AttrKind::Foreground(c), start, end)),
            None => l5,
        };
        let l7 = match background {
            Some(c) => l6.push(spec_attr(AttrKind::Background(c), start, end)),
            None => l6,
        };
        match or_color(style.colors.special, dcolors.special) {
            Some(c) => l7.push(spec_attr(AttrKind::Special(c), start, end)),
            None => l7,
        }
    }
}

/// Derive the attribute list for a cell spanning the byte range
/// `start..end` under its highlight id and the current table.
pub fn cell_attrs(
    start: usize,
    end: usize,
    hldef: Option<u64>,
    table: &HighlightDefinitions,
) -> (r: Vec<StyleAttr>)
    requires
        table.wf(),
    ensures
        r@ == spec_cell_attrs(start as int, end as int, hldef, table@.styles, table@.defaults),
{
    let mut r: Vec<StyleAttr> = Vec::new();
    if end == start {
        proof {
            assert(r@ =~= Seq::<StyleAttr>::empty());
        }
        return r;
    }
    let fallback = match table.get(DEFAULT_HIGHLIGHT) {
        Some(s) => s,
        None => HighlightStyle::plain(),
    };
    let (style, background) = match hldef {
        Some(id) => match table.get(id) {
            Some(s) => (s, s.colors.background),
            None => (fallback, None),
        },
        None => (fallback, None),
    };
    let dcolors = match table.defaults() {
        Some(c) => c,
        None => Colors::unset(),
    };
    if style.italic {
        r.push(StyleAttr { kind: AttrKind::Italic, start_index: start, end_index: end });
    }
    if style.bold {
        r.push(StyleAttr { kind: AttrKind::Bold, start_index: start, end_index: end });
    }
    if style.strikethrough {
        r.push(StyleAttr { kind: AttrKind::Strikethrough, start_index: start, end_index: end });
    }
    if style.underline {
        r.push(StyleAttr { kind: AttrKind::Underline, start_index: start, end_index: end });
    }
    if style.undercurl {
        r.push(StyleAttr { kind: AttrKind::Undercurl, start_index: start, end_index: end });
    }
    match if style.colors.foreground.is_some() {
        style.colors.foreground
    } else {
        dcolors.foreground
    } {
        Some(c) => r.push(StyleAttr {
            kind: AttrKind::Foreground(c),
            start_index: start,
            end_index: end,
        }),
        None => (),
    }
    match background {
        Some(c) => r.push(StyleAttr {
            kind: AttrKind::Background(c),
            start_index: start,
            end_index: end,
        }),
        None => (),
    }
    match if style.colors.special.is_some() {
        style.colors.special
    } else {
        dcolors.special
    } {
        Some(c) => r.push(StyleAttr {
            kind: AttrKind::Special(c),
            start_index: start,
            end_index: end,
        }),
        None => (),
    }
    proof {
        assert(style == spec_resolved_style(hldef, table@.styles));
        assert(background == spec_resolved_background(hldef, table@.styles));
    }
    r
}

impl TextCell {
    /// Recompute this cell's derived attribute list from the current table.
    pub fn reset_attrs(&mut self, table: &HighlightDefinitions)
        requires
            table.wf(),
        ensures
            final(self)@ == (CellView {
                attrs: spec_cell_attrs(
                    old(self)@.start_index,
                    old(self)@.end_index,
                    old(self)@.hldef,
                    table@.styles,
                    table@.defaults,
                ),
                ..old(self)@
            }),
    {
        self.attrs = cell_attrs(self.start_index, self.end_index, self.hldef, table);
    }
}

/// An elementwise copy of an attribute list.
fn copy_attrs(v: &Vec<StyleAttr>) -> (r: Vec<StyleAttr>)
    ensures
        r@ == v@,
{
    let mut r: Vec<StyleAttr> = Vec::new();
    let mut i: usize = 0;
    while i < v.len()
        invariant
            i <= v@.len(),
            r@ =~= v@.subrange(0, i as int),
        decreases v@.len() - i,
    {
        r.push(v[i]);
        i = i + 1;
    }
    proof {
        assert(r@ =~= v@);
    }
    r
}

// ---------------------------------------------------------------------------
// Incremental line replacement
// ---------------------------------------------------------------------------

/// What one expanded cell is built from: a text, its highlight id, and the
/// double-width flag.
pub struct CellSrc {
    pub text: Seq<char>,
    pub hldef: Option<u64>,
    pub double_width: bool,
}

/// The source a run contributes per repetition.
pub open spec fn run_src(r: GridLineCell) -> CellSrc {
    CellSrc { text: r.text@, hldef: r.hldef, double_width: r.double_width }
}

/// How many cells a run expands to; an absent repeat count means one.
pub open spec fn run_count(r: GridLineCell) -> nat {
    match r.repeat {
        Some(n) => n as nat,
        None => 1,
    }
}

/// The cells one run expands to.
pub open spec fn repeat_src(r: GridLineCell) -> Seq<CellSrc> {
    Seq::new(run_count(r), |i: int| run_src(r))
}

/// The full expansion of a sequence of runs, in order.
pub open spec fn expand_runs(runs: Seq<GridLineCell>) -> Seq<CellSrc>
    decreases runs.len(),
{
    if runs.len() == 0 {
        Seq::empty()
    } else {
        expand_runs(runs.drop_last()) + repeat_src(runs.last())
    }
}

/// Expanding one more run appends its repetitions.
pub proof fn lemma_expand_runs_step(runs: Seq<GridLineCell>, i: int)
    requires
        0 <= i < runs.len(),
    ensures
        expand_runs(runs.take(i + 1)) == expand_runs(runs.take(i)) + repeat_src(runs[i]),
{
    assert(runs.take(i + 1).drop_last() =~= runs.take(i));
    assert(runs.take(i + 1).last() == runs[i]);
}

/// The expansion of a prefix never exceeds the full expansion's length.
pub proof fn lemma_expand_runs_len_monotone(runs: Seq<GridLineCell>, i: int)
    requires
        0 <= i <= runs.len(),
    ensures
        expand_runs(runs.take(i)).len() <= expand_runs(runs).len(),
    decreases runs.len() - i,
{
    if i == runs.len() {
        assert(runs.take(i) =~= runs);
    } else {
        lemma_expand_runs_step(runs, i);
        lemma_expand_runs_len_monotone(runs, i + 1);
    }
}

/// The source of an existing cell.
pub open spec fn cell_src(c: CellView) -> CellSrc {
    CellSrc { text: c.text, hldef: c.hldef, double_width: c.double_width }
}

/// The sources of a whole line.
pub open spec fn line_srcs(l: LineView) -> Seq<CellSrc> {
    l.cells.map_values(|c: CellView| cell_src(c))
}

/// The sources of a line after splicing the expanded runs in at `col`.
pub open spec fn spliced_srcs(l: LineView, col: int, runs: Seq<GridLineCell>) -> Seq<CellSrc> {
    let olds = line_srcs(l);
    let mid = expand_runs(runs);
    olds.subrange(0, col) + mid + olds.subrange(col + mid.len(), olds.len() as int)
}

/// Byte offset at which cell `i` of a source sequence starts: the sum of the
/// byte widths of the texts before it.
pub open spec fn width_prefix(srcs: Seq<CellSrc>, i: int) -> int
    decreases i,
{
    if i <= 0 {
        0
    } else {
        width_prefix(srcs, i - 1) + text_width(srcs[i - 1].text)
    }
}

/// Offsets grow along the line.
pub proof fn lemma_width_prefix_monotone(srcs: Seq<CellSrc>, i: int, j: int)
    requires
        0 <= i <= j,
    ensures
        width_prefix(srcs, i) <= width_prefix(srcs, j),
    decreases j - i,
{
    if i < j {
        lemma_width_prefix_monotone(srcs, i, j - 1);
    }
}

/// The line laid out from a source sequence: contiguous offsets from `0` and
/// freshly derived attributes.
pub open spec fn reflow(
    srcs: Seq<CellSrc>,
    styles: Map<u64, HighlightStyle>,
    defaults: Option<Colors>,
) -> Seq<CellView> {
    Seq::new(
        srcs.len(),
        |i: int| CellView {
            text: srcs[i].text,
            hldef: srcs[i].hldef,
            double_width: srcs[i].double_width,
            attrs: spec_cell_attrs(
                width_prefix(srcs, i),
                width_prefix(srcs, i + 1),
                srcs[i].hldef,
                styles,
                defaults,
            ),
            start_index: width_prefix(srcs, i),
            end_index: width_prefix(srcs, i + 1),
        },
    )
}

/// A reflowed line whose total byte width fits the offset type is well
/// formed.
pub proof fn lemma_reflow_wf(
    srcs: Seq<CellSrc>,
    styles: Map<u64, HighlightStyle>,
    defaults: Option<Colors>,
    cols: int,
)
    requires
        srcs.len() == cols,
        width_prefix(srcs, cols) <= usize::MAX,
    ensures
        line_wf(LineView { cells: reflow(srcs, styles, defaults), cache: None }, cols),
{
    let l = LineView { cells: reflow(srcs, styles, defaults), cache: None };
    assert forall|i: int| 0 <= i < cols implies cell_ok(#[trigger] l.cells[i]) by {
        lemma_width_prefix_monotone(srcs, 0, i);
        lemma_width_prefix_monotone(srcs, i + 1, cols);
    }
}

/// The line that replaces row `row` after a cell update: the expanded runs
/// spliced in at `col`, the whole line reflowed, and the shaping cache
/// dropped.
pub open spec fn line_after_set_cells(
    l: LineView,
    col: int,
    runs: Seq<GridLineCell>,
    styles: Map<u64, HighlightStyle>,
    defaults: Option<Colors>,
) -> LineView {
    LineView { cells: reflow(spliced_srcs(l, col, runs), styles, defaults), cache: None }
}

/// Why a cell update was rejected.
#[derive(Clone, Copy, Debug, PartialEq, Eq, Structural)]
pub enum TextBufError {
    /// The target row does not exist; the event is dropped.
    RowOutOfBounds,
    /// The expanded runs would run past the end of the line.
    RangeTooWide,
    /// The line's total byte width would not fit the offset type.
    OffsetOverflow,
}

/// Carrier for one expanded cell while a line update is prepared.
struct CellSeed {
    text: String,
    hldef: Option<u64>,
    double_width: bool,
}

/// The source a seed stands for.
spec fn seed_src(s: &CellSeed) -> CellSrc {
    CellSrc { text: s.text@, hldef: s.hldef, double_width: s.double_width }
}

/// The sources of a seed vector.
spec fn seed_srcs(s: Seq<CellSeed>) -> Seq<CellSrc> {
    s.map_values(|c: CellSeed| CellSrc { text: c.text@, hldef: c.hldef, double_width: c.double_width })
}

impl TextBuf {
    /// Replace the cells of row `row` from `col` on with the expansion of
    /// `runs`, then recompute the offsets and attributes of the whole line.
    ///
    /// Rejected updates leave the buffer untouched: a missing row, an
    /// expansion wider than the line's remainder, or offsets past the
    /// machine's limit.
    pub fn set_cells(
        &mut self,
        row: usize,
        col: usize,
        runs: &Vec<GridLineCell>,
        table: &HighlightDefinitions,
    ) -> (r: Result<(), TextBufError>)
        requires
            buf_wf(old(self)@),
            table.wf(),
        ensures
            buf_wf(final(self)@),
            match r {
                Ok(()) => {
                    &&& row < old(self)@.rows
                    &&& col + expand_runs(runs@).len() <= old(self)@.cols
                    &&& width_prefix(
                        spliced_srcs(old(self)@.lines[row as int], col as int, runs@),
                        old(self)@.cols,
                    ) <= usize::MAX
                    &&& final(self)@ == (BufView {
                        lines: old(self)@.lines.update(
                            row as int,
                            line_after_set_cells(
                                old(self)@.lines[row as int],
                                col as int,
                                runs@,
                                table@.styles,
                                table@.defaults,
                            ),
                        ),
                        ..old(self)@
                    })
                },
                Err(TextBufError::RowOutOfBounds) => {
                    &&& row >= old(self)@.rows
                    &&& *final(self) == *old(self)
                },
                Err(TextBufError::RangeTooWide) => {
                    &&& row < old(self)@.rows
                    &&& col + expand_runs(runs@).len() > old(self)@.cols
                    &&& *final(self) == *old(self)
                },
                Err(TextBufError::OffsetOverflow) => {
                    &&& row < old(self)@.rows
                    &&& col + expand_runs(runs@).len() <= old(self)@.cols
                    &&& width_prefix(
                        spliced_srcs(old(self)@.lines[row as int], col as int, runs@),
                        old(self)@.cols,
                    ) > usize::MAX
                    &&& *final(self) == *old(self)
                },
            },
    {
        if row >= self.rows {
            return Err(TextBufError::RowOutOfBounds);
        }
        if col > self.cols {
            proof {
                lemma_expand_runs_len_monotone(runs@, 0);
                assert(runs@.take(0) =~= Seq::<GridLineCell>::empty());
            }
            return Err(TextBufError::RangeTooWide);
        }
        let avail: usize = self.cols - col;

        // Expand the runs, refusing an expansion wider than the line's
        // remainder before it can outgrow any machine limit.
        let mut expanded: Vec<CellSeed> = Vec::new();
        let mut i: usize = 0;
        while i < runs.len()
            invariant
                *self == *old(self),
                buf_wf(old(self)@),
                row < old(self)@.rows,
                i <= runs@.len(),
                col <= old(self)@.cols,
                avail == old(self)@.cols - col,
                seed_srcs(expanded@) =~= expand_runs(runs@.take(i as int)),
                expanded@.len() == expand_runs(runs@.take(i as int)).len(),
                expanded@.len() <= avail,
            decreases runs@.len() - i,
        {
            let rep: u64 = match runs[i].repeat {
                Some(n) => n,
                None => 1,
            };
            let ghost before: Seq<CellSrc> = seed_srcs(expanded@);
            let mut j: u64 = 0;
            while j < rep
                invariant
                    *self == *old(self),
                    buf_wf(old(self)@),
                    row < old(self)@.rows,
                    j <= rep,
                    0 <= i < runs@.len(),
                    col <= old(self)@.cols,
                    avail == old(self)@.cols - col,
                    rep as nat == run_count(runs@[i as int]),
                    before == expand_runs(runs@.take(i as int)),
                    seed_srcs(expanded@) =~= before + repeat_src(runs@[i as int]).take(j as int),
                    expanded@.len() == before.len() + j,
                    expanded@.len() <= avail,
                decreases rep - j,
            {
                if expanded.len() == avail {
                    // Already past the line's remainder: the full expansion
                    // can only be wider still.
                    proof {
                        lemma_expand_runs_step(runs@, i as int);
                        lemma_expand_runs_len_monotone(runs@, i as int + 1);
                        assert(expand_runs(runs@.take(i as int + 1)).len() >= before.len() + j
                            + 1);
                    }
                    return Err(TextBufError::RangeTooWide);
                }
                let ghost prev: Seq<CellSeed> = expanded@;
                expanded.push(CellSeed {
                    text: runs[i].text.clone(),
                    hldef: runs[i].hldef,
                    double_width: runs[i].double_width,
                });
                proof {
                    assert(seed_srcs(expanded@) =~= seed_srcs(prev).push(
                        run_src(runs@[i as int]),
                    ));
                    assert(repeat_src(runs@[i as int]).take(j as int + 1)
                        =~= repeat_src(runs@[i as int]).take(j as int).push(
                        run_src(runs@[i as int]),
                    ));
                    assert(seed_srcs(expanded@) =~= before + repeat_src(runs@[i as int]).take(
                        j as int + 1,
                    ));
                }
                j = j + 1;
            }
            proof {
                lemma_expand_runs_step(runs@, i as int);
                assert(repeat_src(runs@[i as int]).take(rep as int) =~= repeat_src(
                    runs@[i as int],
                ));
                assert(seed_srcs(expanded@) =~= expand_runs(runs@.take(i as int + 1)));
            }
            i = i + 1;
        }
        proof {
            assert(runs@.take(runs@.len() as int) =~= runs@);
        }
        let elen: usize = expanded.len();

        // Lay the new line out with contiguous offsets, stopping if the
        // total byte width would not fit the offset type.
        let ghost orig_line: LineView = self@.lines[row as int];
        let ghost srcs: Seq<CellSrc> = spliced_srcs(orig_line, col as int, runs@);
        proof {
            assert(line_srcs(orig_line).len() == old(self)@.cols);
            assert(srcs.len() == old(self)@.cols);
        }
        let cols = self.cols;
        let mut cells: Vec<TextCell> = Vec::new();
        let mut offset: usize = 0;
        let mut k: usize = 0;
        while k < cols
            invariant
                *self == *old(self),
                k <= cols,
                col + elen <= cols,
                cols as int == self@.cols,
                row < self@.rows,
                buf_wf(self@),
                table.wf(),
                srcs.len() == cols,
                orig_line == self@.lines[row as int],
                srcs == spliced_srcs(orig_line, col as int, runs@),
                seed_srcs(expanded@) == expand_runs(runs@),
                expanded@.len() == elen,
                cells@.len() == k,
                offset == width_prefix(srcs, k as int),
                forall|m: int| 0 <= m < k ==> (#[trigger] cells@[m])@ == reflow(
                    srcs,
                    table@.styles,
                    table@.defaults,
                )[m],
            decreases cols - k,
        {
            let seed_text: String;
            let seed_hldef: Option<u64>;
            let seed_dw: bool;
            if k >= col && k < col + elen {
                let e = &expanded[k - col];
                seed_text = e.text.clone();
                seed_hldef = e.hldef;
                seed_dw = e.double_width;
                proof {
                    assert(srcs[k as int] == seed_srcs(expanded@)[k - col as int]);
                }
            } else {
                let c = &self.lines[row].cells[k];
                seed_text = c.text.clone();
                seed_hldef = c.hldef;
                seed_dw = c.double_width;
                proof {
                    assert(line_srcs(orig_line)[k as int] == cell_src(orig_line.cells[k as int]));
                    assert(srcs[k as int] == cell_src(orig_line.cells[k as int]));
                }
            }
            proof {
                assert(srcs[k as int] == (CellSrc {
                    text: seed_text@,
                    hldef: seed_hldef,
                    double_width: seed_dw,
                }));
            }
            let w: usize = seed_text.as_str().len();
            if w > usize::MAX - offset {
                proof {
                    lemma_width_prefix_monotone(srcs, k as int + 1, cols as int);
                }
                return Err(TextBufError::OffsetOverflow);
            }
            let end: usize = offset + w;
            let attrs = cell_attrs(offset, end, seed_hldef, table);
            cells.push(TextCell {
                text: seed_text,
                hldef: seed_hldef,
                double_width: seed_dw,
                attrs,
                start_index: offset,
                end_index: end,
            });
            offset = end;
            k = k + 1;
        }

        let new_line = TextLine { cells, cache: None };
        proof {
            assert(new_line@.cells =~= reflow(srcs, table@.styles, table@.defaults));
            assert(new_line@ =~= line_after_set_cells(
                orig_line,
                col as int,
                runs@,
                table@.styles,
                table@.defaults,
            ));
        }
        self.lines.set(row, new_line);
        proof {
            assert(final(self)@.lines =~= old(self)@.lines.update(
                row as int,
                line_after_set_cells(
                    orig_line,
                    col as int,
                    runs@,
                    table@.styles,
                    table@.defaults,
                ),
            ));
            lemma_reflow_wf(srcs, table@.styles, table@.defaults, cols as int);
            assert(buf_wf(final(self)@));
        }
        Ok(())
    }
}

// ---------------------------------------------------------------------------
// Resize, cache reset, and cell lookup
// ---------------------------------------------------------------------------

/// The offset at which padding appended to a line continues: the end of the
/// last kept cell, or `0` on an empty line.
pub open spec fn pad_base(l: LineView) -> int {
    if l.cells.len() > 0 {
        l.cells.last().end_index
    } else {
        0
    }
}

/// Whether padding a line out to `cols` blank cells would push an offset
/// past the machine's limit.
pub open spec fn line_pad_overflow(l: LineView, cols: int) -> bool {
    cols > l.cells.len() && pad_base(l) + (cols - l.cells.len()) > usize::MAX
}

/// A line after a column resize: the kept prefix when the line shrinks, or
/// the line followed by blank cells whose offsets continue from the last
/// kept cell when it grows; the shaping cache is dropped either way.
pub open spec fn resize_line_view(l: LineView, cols: int) -> LineView {
    if cols <= l.cells.len() {
        LineView { cells: l.cells.subrange(0, cols), cache: None }
    } else {
        LineView {
            cells: l.cells + Seq::new(
                (cols - l.cells.len()) as nat,
                |i: int| blank_cell(pad_base(l) + i),
            ),
            cache: None,
        }
    }
}

/// A buffer after a resize: unchanged when the dimensions already match,
/// else the top-left overlap is kept (kept lines lose their shaping caches),
/// new rows are blank, and kept rows are padded or truncated to `cols`.
pub open spec fn spec_resize(b: BufView, rows: int, cols: int) -> BufView {
    if rows == b.rows && cols == b.cols {
        b
    } else {
        BufView {
            rows,
            cols,
            lines: Seq::new(
                rows as nat,
                |i: int| if i < b.rows {
                    resize_line_view(b.lines[i], cols)
                } else {
                    blank_line(cols)
                },
            ),
        }
    }
}

/// Whether a resize would push some kept line's offsets past the machine's
/// limit.
pub open spec fn resize_overflows(b: BufView, rows: int, cols: int) -> bool {
    &&& !(rows == b.rows && cols == b.cols)
    &&& exists|i: int| 0 <= i < b.rows && i < rows && line_pad_overflow(#[trigger] b.lines[i], cols)
}

/// Resizing keeps a line well formed.
pub proof fn lemma_resize_line_wf(l: LineView, oldcols: int, cols: int)
    requires
        line_wf(l, oldcols),
        0 <= cols <= usize::MAX,
        !line_pad_overflow(l, cols),
    ensures
        line_wf(resize_line_view(l, cols), cols),
{
    lemma_space_width();
    let nl = resize_line_view(l, cols);
    if cols <= l.cells.len() {
    } else {
        assert forall|i: int| 0 <= i < cols implies cell_ok(#[trigger] nl.cells[i]) by {
            if i >= l.cells.len() {
                assert(nl.cells[i] == blank_cell(pad_base(l) + (i - l.cells.len())));
            }
        }
    }
}

/// Resize preserves the buffer invariant.
pub proof fn lemma_spec_resize_wf(b: BufView, rows: int, cols: int)
    requires
        buf_wf(b),
        0 <= rows,
        0 <= cols <= usize::MAX,
        !resize_overflows(b, rows, cols),
    ensures
        buf_wf(spec_resize(b, rows, cols)),
{
    if !(rows == b.rows && cols == b.cols) {
        let nb = spec_resize(b, rows, cols);
        assert forall|i: int| 0 <= i < rows implies line_wf(#[trigger] nb.lines[i], cols) by {
            if i < b.rows {
                lemma_resize_line_wf(b.lines[i], b.cols, cols);
            } else {
                lemma_blank_line_wf(cols);
            }
        }
    }
}

/// Whether padding this line to `cols` columns would overflow the offset
/// type.
fn check_line_pad_overflow(l: &TextLine, cols: usize) -> (r: bool)
    ensures
        r == line_pad_overflow(l@, cols as int),
{
    if cols <= l.cells.len() {
        return false;
    }
    let base: usize = if l.cells.len() > 0 {
        l.cells[l.cells.len() - 1].end_index
    } else {
        0
    };
    let pad: usize = cols - l.cells.len();
    pad > usize::MAX - base
}

/// Build the resized copy of one line.
fn resize_line(l: &TextLine, cols: usize) -> (r: TextLine)
    requires
        !line_pad_overflow(l@, cols as int),
    ensures
        r@ == resize_line_view(l@, cols as int),
{
    let mut cells: Vec<TextCell> = Vec::new();
    let keep: usize = if cols <= l.cells.len() {
        cols
    } else {
        l.cells.len()
    };
    let mut j: usize = 0;
    while j < keep
        invariant
            j <= keep,
            keep <= l@.cells.len(),
            cells@.len() == j,
            forall|m: int| 0 <= m < j ==> (#[trigger] cells@[m])@ == l@.cells[m],
        decreases keep - j,
    {
        let c = &l.cells[j];
        let text = c.text.clone();
        let attrs = copy_attrs(&c.attrs);
        cells.push(TextCell {
            text,
            hldef: c.hldef,
            double_width: c.double_width,
            attrs,
            start_index: c.start_index,
            end_index: c.end_index,
        });
        j = j + 1;
    }
    if cols > l.cells.len() {
        let base: usize = if l.cells.len() > 0 {
            l.cells[l.cells.len() - 1].end_index
        } else {
            0
        };
        proof {
            assert(base as int == pad_base(l@));
        }
        let pad: usize = cols - l.cells.len();
        let mut p: usize = 0;
        while p < pad
            invariant
                p <= pad,
                base as int == pad_base(l@),
                base + pad <= usize::MAX,
                keep == l@.cells.len(),
                cells@.len() == keep + p,
                forall|m: int| 0 <= m < keep ==> (#[trigger] cells@[m])@ == l@.cells[m],
                forall|m: int| keep <= m < keep + p ==> (#[trigger] cells@[m])@ == blank_cell(
                    base + (m - keep),
                ),
            decreases pad - p,
        {
            let text = String::from_str(" ");
            proof {
                reveal_strlit(" ");
                assert(text@ =~= seq![' ']);
            }
            cells.push(TextCell {
                text,
                hldef: None,
                double_width: false,
                attrs: Vec::new(),
                start_index: base + p,
                end_index: base + p + 1,
            });
            p = p + 1;
        }
    }
    let r = TextLine { cells, cache: None };
    proof {
        assert(r@.cells =~= resize_line_view(l@, cols as int).cells);
        assert(r@ =~= resize_line_view(l@, cols as int));
    }
    r
}

impl TextBuf {
    /// Change the buffer's dimensions in place.  A resize to the current
    /// dimensions is a no-op (nothing is invalidated); otherwise the
    /// top-left overlap is preserved, new rows and columns are blank, and
    /// every kept line's shaping cache is dropped.
    pub fn resize(&mut self, rows: usize, cols: usize) -> (r: Result<(), TextBufError>)
        requires
            buf_wf(old(self)@),
        ensures
            buf_wf(final(self)@),
            match r {
                Ok(()) => {
                    &&& !resize_overflows(old(self)@, rows as int, cols as int)
                    &&& final(self)@ == spec_resize(old(self)@, rows as int, cols as int)
                },
                Err(e) => {
                    &&& e == TextBufError::OffsetOverflow
                    &&& resize_overflows(old(self)@, rows as int, cols as int)
                    &&& *final(self) == *old(self)
                },
            },
    {
        if rows == self.rows && cols == self.cols {
            return Ok(());
        }
        let keep: usize = if rows <= self.rows {
            rows
        } else {
            self.rows
        };

        // Refuse the whole resize before touching anything if some kept
        // line's padding would overflow.
        let mut i: usize = 0;
        while i < keep
            invariant
                *self == *old(self),
                buf_wf(old(self)@),
                !(rows as int == old(self)@.rows && cols as int == old(self)@.cols),
                i <= keep,
                keep <= old(self)@.rows,
                keep <= rows,
                forall|m: int| 0 <= m < i ==> !line_pad_overflow(
                    #[trigger] old(self)@.lines[m],
                    cols as int,
                ),
            decreases keep - i,
        {
            if check_line_pad_overflow(&self.lines[i], cols) {
                proof {
                    assert(line_pad_overflow(old(self)@.lines[i as int], cols as int));
                }
                return Err(TextBufError::OffsetOverflow);
            }
            i = i + 1;
        }

        // Rebuild the kept lines at the new width.
        let mut i: usize = 0;
        while i < keep
            invariant
                i <= keep,
                keep <= old(self)@.rows,
                keep <= rows,
                buf_wf(old(self)@),
                self.rows == old(self).rows,
                self.cols == old(self).cols,
                self.lines@.len() == old(self)@.rows,
                forall|m: int| 0 <= m < keep ==> !line_pad_overflow(
                    #[trigger] old(self)@.lines[m],
                    cols as int,
                ),
                forall|m: int| 0 <= m < i ==> self@.lines[m] == resize_line_view(
                    #[trigger] old(self)@.lines[m],
                    cols as int,
                ),
                forall|m: int| i <= m < old(self)@.rows ==> self@.lines[m]
                    == #[trigger] old(self)@.lines[m],
            decreases keep - i,
        {
            proof {
                assert(self@.lines[i as int] == old(self)@.lines[i as int]);
                assert(!line_pad_overflow(old(self)@.lines[i as int], cols as int));
            }
            let nl = resize_line(&self.lines[i], cols);
            self.lines.set(i, nl);
            i = i + 1;
        }

        // Adjust the row count: drop rows past the new height, add blank
        // rows up to it.
        while self.lines.len() > rows
            invariant
                keep <= rows,
                keep <= old(self)@.rows,
                buf_wf(old(self)@),
                self.rows == old(self).rows,
                self.cols == old(self).cols,
                self.lines@.len() >= keep,
                self.lines@.len() <= old(self)@.rows,
                forall|m: int| 0 <= m < keep ==> self@.lines[m] == resize_line_view(
                    #[trigger] old(self)@.lines[m],
                    cols as int,
                ),
                forall|m: int| keep <= m < self.lines@.len() ==> self@.lines[m]
                    == #[trigger] old(self)@.lines[m],
            decreases self.lines@.len(),
        {
            self.lines.pop();
        }
        while self.lines.len() < rows
            invariant
                keep <= rows,
                keep <= old(self)@.rows,
                buf_wf(old(self)@),
                self.rows == old(self).rows,
                self.cols == old(self).cols,
                self.lines@.len() >= keep,
                self.lines@.len() <= rows,
                forall|m: int| 0 <= m < keep ==> self@.lines[m] == resize_line_view(
                    #[trigger] old(self)@.lines[m],
                    cols as int,
                ),
                forall|m: int| keep <= m < self.lines@.len() ==> self@.lines[m] == blank_line(
                    cols as int,
                ),
            decreases rows - self.lines@.len(),
        {
            let nl = TextLine::new(cols);
            let ghost len0: int = self.lines@.len() as int;
            let ghost pre: Seq<LineView> = self@.lines;
            self.lines.push(nl);
            proof {
                assert forall|m: int| keep <= m < self.lines@.len() implies self@.lines[m]
                    == blank_line(cols as int) by {
                    if m == len0 {
                        assert(self@.lines[m] == nl@);
                    } else {
                        assert(self@.lines[m] == pre[m]);
                    }
                }
            }
        }
        self.rows = rows;
        self.cols = cols;
        proof {
            let target = spec_resize(old(self)@, rows as int, cols as int);
            assert(keep as int == if rows as int <= old(self)@.rows {
                rows as int
            } else {
                old(self)@.rows
            });
            assert forall|m: int| 0 <= m < rows implies final(self)@.lines[m] == target.lines[m] by {
                if m >= keep {
                    assert(final(self)@.lines[m] == blank_line(cols as int));
                }
            }
            assert(final(self)@.lines =~= target.lines);
            assert(final(self)@ =~= target);
            lemma_spec_resize_wf(old(self)@, rows as int, cols as int);
        }
        Ok(())
    }
}

// ---------------------------------------------------------------------------
// Attribute cache reset and cell lookup
// ---------------------------------------------------------------------------

/// A cell with its attribute list recomputed under the given table.
pub open spec fn spec_reset_cell(
    c: CellView,
    styles: Map<u64, HighlightStyle>,
    defaults: Option<Colors>,
) -> CellView {
    CellView {
        attrs: spec_cell_attrs(c.start_index, c.end_index, c.hldef, styles, defaults),
        ..c
    }
}

/// A buffer with every cell's attribute list recomputed; texts, offsets and
/// shaping caches stay as they are.
pub open spec fn spec_reset_cache(
    b: BufView,
    styles: Map<u64, HighlightStyle>,
    defaults: Option<Colors>,
) -> BufView {
    BufView {
        rows: b.rows,
        cols: b.cols,
        lines: Seq::new(
            b.lines.len(),
            |r: int| LineView {
                cells: Seq::new(
                    b.lines[r].cells.len(),
                    |c: int| spec_reset_cell(b.lines[r].cells[c], styles, defaults),
                ),
                cache: b.lines[r].cache,
            },
        ),
    }
}

impl TextBuf {
    /// Recompute every cell's derived attribute list from the current
    /// highlight table, as after a font or theme change.
    pub fn reset_cache(&mut self, table: &HighlightDefinitions)
        requires
            buf_wf(old(self)@),
            table.wf(),
        ensures
            buf_wf(final(self)@),
            final(self)@ == spec_reset_cache(old(self)@, table@.styles, table@.defaults),
    {
        let ghost target: BufView = spec_reset_cache(old(self)@, table@.styles, table@.defaults);
        let mut r: usize = 0;
        while r < self.lines.len()
            invariant
                buf_wf(old(self)@),
                table.wf(),
                target == spec_reset_cache(old(self)@, table@.styles, table@.defaults),
                r <= self.lines@.len(),
                self.rows == old(self).rows,
                self.cols == old(self).cols,
                self.lines@.len() == old(self)@.rows,
                forall|m: int| 0 <= m < r ==> self@.lines[m] == target.lines[m],
                forall|m: int| r <= m < self.lines@.len() ==> self@.lines[m]
                    == #[trigger] old(self)@.lines[m],
            decreases self.lines@.len() - r,
        {
            let n: usize = self.lines[r].cells.len();
            let mut cells: Vec<TextCell> = Vec::new();
            let mut j: usize = 0;
            while j < n
                invariant
                    table.wf(),
                    r < self.lines@.len(),
                    n == self@.lines[r as int].cells.len(),
                    j <= n,
                    cells@.len() == j,
                    forall|m: int| 0 <= m < j ==> (#[trigger] cells@[m])@ == spec_reset_cell(
                        self@.lines[r as int].cells[m],
                        table@.styles,
                        table@.defaults,
                    ),
                decreases n - j,
            {
                let c = &self.lines[r].cells[j];
                let text = c.text.clone();
                let attrs = cell_attrs(c.start_index, c.end_index, c.hldef, table);
                cells.push(TextCell {
                    text,
                    hldef: c.hldef,
                    double_width: c.double_width,
                    attrs,
                    start_index: c.start_index,
                    end_index: c.end_index,
                });
                j = j + 1;
            }
            let cache = self.lines[r].cache;
            self.lines.set(r, TextLine { cells, cache });
            proof {
                assert(self@.lines[r as int].cells =~= target.lines[r as int].cells);
                assert(self@.lines[r as int] =~= target.lines[r as int]);
            }
            r = r + 1;
        }
        proof {
            assert(final(self)@.lines =~= target.lines);
            assert(final(self)@ =~= target);
            assert forall|m: int| 0 <= m < final(self)@.rows implies line_wf(
                #[trigger] final(self)@.lines[m],
                final(self)@.cols,
            ) by {
                assert(line_wf(old(self)@.lines[m], old(self)@.cols));
                assert forall|c: int| 0 <= c < final(self)@.cols implies cell_ok(
                    #[trigger] final(self)@.lines[m].cells[c],
                ) by {
                    assert(cell_ok(old(self)@.lines[m].cells[c]));
                }
            }
        }
    }

    /// A copy of the cell at `row` x `col`, if both indices are in bounds.
    pub fn cell(&self, row: usize, col: usize) -> (r: Option<TextCell>)
        requires
            buf_wf(self@),
        ensures
            match r {
                Some(c) => row < self@.rows && col < self@.cols && c@ == self@.lines[
                    row as int
                ].cells[col as int],
                None => row >= self@.rows || col >= self@.cols,
            },
    {
        if row >= self.rows || col >= self.cols {
            return None;
        }
        let c = &self.lines[row].cells[col];
        let text = c.text.clone();
        let attrs = copy_attrs(&c.attrs);
        Some(TextCell {
            text,
            hldef: c.hldef,
            double_width: c.double_width,
            attrs,
            start_index: c.start_index,
            end_index: c.end_index,
        })
    }
}

// ---------------------------------------------------------------------------
// Laws
// ---------------------------------------------------------------------------

/// Resizing twice with identical arguments is the same as resizing once: the
/// second resize is a no-op and invalidates nothing, caches included.
pub proof fn lemma_resize_idempotent(b: BufView, rows: int, cols: int)
    ensures
        spec_resize(spec_resize(b, rows, cols), rows, cols) == spec_resize(b, rows, cols),
{
    let b1 = spec_resize(b, rows, cols);
    if rows == b.rows && cols == b.cols {
    } else {
        assert(b1.rows == rows && b1.cols == cols);
    }
}

/// Scrolling a blank buffer up and back down leaves it blank.  (On a
/// populated buffer the discarded rows are gone for good: scrolling does not
/// rotate.)
pub proof fn lemma_scroll_blank_round_trip(rows: int, cols: int, n: int)
    requires
        0 <= n <= rows,
    ensures
        spec_down(spec_up(blank_buf(rows, cols), n), n) == blank_buf(rows, cols),
{
    let b = blank_buf(rows, cols);
    let u = spec_up(b, n);
    assert(u.lines.len() == rows);
    assert forall|i: int| 0 <= i < rows implies u.lines[i] == blank_line(cols) by {
        if i < rows - n {
            assert(u.lines[i] == b.lines[i + n]);
        }
    }
    let d = spec_down(u, n);
    assert(d.lines.len() == rows);
    assert forall|i: int| 0 <= i < rows implies d.lines[i] == blank_line(cols) by {
        if i >= n {
            assert(d.lines[i] == u.lines[i - n]);
        }
    }
    assert(d.lines =~= b.lines);
    assert(d =~= b);
}

/// Along every line of a well-formed buffer the cell offsets are strictly
/// contiguous: each cell spans exactly the byte width of its text and the
/// next cell starts where it ends.  Every mutation of the buffer preserves
/// this.
pub proof fn lemma_line_offsets_contiguous(b: BufView, r: int, i: int)
    requires
        buf_wf(b),
        0 <= r < b.rows,
        0 <= i < b.cols,
    ensures
        b.lines[r].cells[i].end_index - b.lines[r].cells[i].start_index == text_width(
            b.lines[r].cells[i].text,
        ),
        i < b.cols - 1 ==> b.lines[r].cells[i + 1].start_index == b.lines[r].cells[i].end_index,
{
}

} // verus!
