//! A document algebra for styled text output.
//!
//! A document is a tree of text leaves (optionally styled), line breaks,
//! and concatenations. The spec function [`plain_of`] gives the plain
//! text of a document as a sequence of characters; the executable
//! renderer is proved to produce exactly that text, so rendering is a
//! pure function of the document.

use vstd::prelude::*;

use crate::text::fill;
use crate::text::fill_str;
use crate::text::rep_seq;
use crate::text::repeat_str;

verus! {

/// A foreground color for styled text.
#[derive(Clone, Copy, Debug)]
pub enum Color {
    Black,
    Red,
    Green,
    Yellow,
    Blue,
    Magenta,
    Cyan,
    White,
}

/// A style descriptor: optional foreground color, bold and dimmed flags.
#[derive(Clone, Copy, Debug)]
pub struct Style {
    pub fg: Option<Color>,
    pub bold: bool,
    pub dimmed: bool,
}

/// Build a style with the given foreground color and boldness.
pub fn color_spec(color: Color, bold: bool) -> (s: Style)
    ensures
        s == (Style { fg: Some(color), bold, dimmed: false }),
{
    Style { fg: Some(color), bold, dimmed: false }
}

/// Build a dimmed style with no foreground color.
pub fn dimmed_spec() -> (s: Style)
    ensures
        s == (Style { fg: None::<Color>, bold: false, dimmed: true }),
{
    Style { fg: None, bold: false, dimmed: true }
}

/// A document that can be rendered with styles, or as plain text.
#[derive(Debug)]
pub enum ColoredDoc {
    Text(String, Option<Style>),
    Line,
    Concat(Vec<ColoredDoc>),
}

/// The plain text of a document: styling is ignored, a line break is a
/// single newline character, and a concatenation is rendered in order.
pub open spec fn plain_of(d: ColoredDoc) -> Seq<char>
    decreases d,
{
    match d {
        ColoredDoc::Text(s, _) => s@,
        ColoredDoc::Line => seq!['\n'],
        ColoredDoc::Concat(ds) => plain_of_docs(ds@),
    }
}

/// The plain text of a sequence of documents, concatenated in order.
pub open spec fn plain_of_docs(ds: Seq<ColoredDoc>) -> Seq<char>
    decreases ds,
{
    if ds.len() == 0 {
        Seq::empty()
    } else {
        plain_of_docs(ds.drop_last()) + plain_of(ds.last())
    }
}

/// Appending one document to a sequence appends its plain text.
pub proof fn lemma_plain_of_docs_push(ds: Seq<ColoredDoc>, d: ColoredDoc)
    ensures
        plain_of_docs(ds.push(d)) == plain_of_docs(ds) + plain_of(d),
{
    assert(ds.push(d).drop_last() =~= ds);
    assert(ds.push(d).last() == d);
}

/// One leaf of a document in rendering order: its text together with
/// its style. A line break is an unstyled newline leaf. This is what a
/// styled sink receives, span by span.
pub struct Leaf {
    pub text: Seq<char>,
    pub style: Option<Style>,
}

/// An unstyled line-break leaf.
pub open spec fn nl_leaf() -> Leaf {
    Leaf { text: seq!['\n'], style: None::<Style> }
}

/// The style with the given foreground color and bold set.
pub open spec fn bold_in(c: Color) -> Style {
    Style { fg: Some(c), bold: true, dimmed: false }
}

/// The style with the given foreground color and bold clear.
pub open spec fn plain_in(c: Color) -> Style {
    Style { fg: Some(c), bold: false, dimmed: false }
}

/// The dimmed style with no foreground color.
pub open spec fn dimmed_style() -> Style {
    Style { fg: None::<Color>, bold: false, dimmed: true }
}

/// The leaves of a document in rendering order, styling included.
pub open spec fn leaves_of(d: ColoredDoc) -> Seq<Leaf>
    decreases d,
{
    match d {
        ColoredDoc::Text(s, st) => seq![(Leaf { text: s@, style: st })],
        ColoredDoc::Line => seq![nl_leaf()],
        ColoredDoc::Concat(ds) => leaves_of_docs(ds@),
    }
}

/// The leaves of a sequence of documents, concatenated in order.
pub open spec fn leaves_of_docs(ds: Seq<ColoredDoc>) -> Seq<Leaf>
    decreases ds,
{
    if ds.len() == 0 {
        Seq::empty()
    } else {
        leaves_of_docs(ds.drop_last()) + leaves_of(ds.last())
    }
}

/// Appending one document to a sequence appends its leaves.
pub proof fn lemma_leaves_of_docs_push(ds: Seq<ColoredDoc>, d: ColoredDoc)
    ensures
        leaves_of_docs(ds.push(d)) == leaves_of_docs(ds) + leaves_of(d),
{
    assert(ds.push(d).drop_last() =~= ds);
    assert(ds.push(d).last() == d);
}

/// A sequence contains whatever its left part contains.
pub proof fn lemma_concat_contains_left<T>(a: Seq<T>, b: Seq<T>, x: T)
    requires
        a.contains(x),
    ensures
        (a + b).contains(x),
{
    let i = choose|i: int| 0 <= i < a.len() && a[i] == x;
    assert((a + b)[i] == x);
}

/// A sequence contains whatever its right part contains.
pub proof fn lemma_concat_contains_right<T>(a: Seq<T>, b: Seq<T>, x: T)
    requires
        b.contains(x),
    ensures
        (a + b).contains(x),
{
    let i = choose|i: int| 0 <= i < b.len() && b[i] == x;
    assert((a + b)[a.len() + i] == x);
}

/// True when no leaf of the document carries any style information.
pub open spec fn unstyled(d: ColoredDoc) -> bool
    decreases d,
{
    match d {
        ColoredDoc::Text(_, st) => st is None,
        ColoredDoc::Line => true,
        ColoredDoc::Concat(ds) => unstyled_docs(ds@),
    }
}

/// True when every document of the sequence is unstyled.
pub open spec fn unstyled_docs(ds: Seq<ColoredDoc>) -> bool
    decreases ds,
{
    if ds.len() == 0 {
        true
    } else {
        unstyled_docs(ds.drop_last()) && unstyled(ds.last())
    }
}

proof fn lemma_unstyled_docs_push(ds: Seq<ColoredDoc>, d: ColoredDoc)
    ensures
        unstyled_docs(ds.push(d)) == (unstyled_docs(ds) && unstyled(d)),
{
    assert(ds.push(d).drop_last() =~= ds);
    assert(ds.push(d).last() == d);
}

impl ColoredDoc {
    /// Create plain text.
    pub fn text(s: &str) -> (r: Self)
        ensures
            r matches ColoredDoc::Text(t, st) && t@ == s@ && st is None,
            plain_of(r) == s@,
            leaves_of(r) == seq![(Leaf { text: s@, style: None::<Style> })],
    {
        ColoredDoc::Text(s.to_owned(), None)
    }

    /// Create styled text.
    pub fn colored_text(s: &str, style: Style) -> (r: Self)
        ensures
            r matches ColoredDoc::Text(t, st) && t@ == s@ && st == Some(style),
            plain_of(r) == s@,
            leaves_of(r) == seq![(Leaf { text: s@, style: Some(style) })],
    {
        ColoredDoc::Text(s.to_owned(), Some(style))
    }

    /// Create a line break.
    pub fn line() -> (r: Self)
        ensures
            r == ColoredDoc::Line,
            plain_of(r) == seq!['\n'],
            leaves_of(r) == seq![nl_leaf()],
    {
        ColoredDoc::Line
    }

    /// Concatenate multiple documents.
    pub fn concat(docs: Vec<ColoredDoc>) -> (r: Self)
        ensures
            r matches ColoredDoc::Concat(ds) && ds@ == docs@,
            plain_of(r) == plain_of_docs(docs@),
            leaves_of(r) == leaves_of_docs(docs@),
    {
        ColoredDoc::Concat(docs)
    }

    /// Append another document to this one. A new composite is built,
    /// flattening one level when this one is already a concatenation:
    /// the result is that sequence with the other document pushed, and
    /// otherwise a two-element concatenation.
    pub fn append(self, other: ColoredDoc) -> (r: Self)
        ensures
            plain_of(r) == plain_of(self) + plain_of(other),
            leaves_of(r) == leaves_of(self) + leaves_of(other),
            r matches ColoredDoc::Concat(rs) && (self matches ColoredDoc::Concat(ds) ==> rs@
                == ds@.push(other)) && (!(self is Concat) ==> rs@ == seq![self, other]),
    {
        let ghost s0 = self;
        match self {
            ColoredDoc::Concat(mut docs) => {
                let ghost ds0 = docs@;
                docs.push(other);
                proof {
                    lemma_plain_of_docs_push(ds0, other);
                    lemma_leaves_of_docs_push(ds0, other);
                }
                ColoredDoc::Concat(docs)
            }
            _ => {
                let r = ColoredDoc::Concat(vec![self, other]);
                proof {
                    let ds = seq![s0, other];
                    let d1 = seq![s0];
                    assert(ds.drop_last() =~= d1);
                    assert(ds.last() == other);
                    assert(d1.drop_last() =~= Seq::<ColoredDoc>::empty());
                    assert(d1.last() == s0);
                    assert(plain_of_docs(Seq::<ColoredDoc>::empty()) == Seq::<char>::empty());
                    assert(plain_of_docs(d1) == Seq::<char>::empty() + plain_of(s0));
                    assert(Seq::<char>::empty() + plain_of(s0) =~= plain_of(s0));
                    assert(plain_of_docs(ds) == plain_of(s0) + plain_of(other));
                    assert(leaves_of_docs(Seq::<ColoredDoc>::empty()) == Seq::<Leaf>::empty());
                    assert(leaves_of_docs(d1) == Seq::<Leaf>::empty() + leaves_of(s0));
                    assert(Seq::<Leaf>::empty() + leaves_of(s0) =~= leaves_of(s0));
                    assert(leaves_of_docs(ds) == leaves_of(s0) + leaves_of(other));
                    assert(r->Concat_0@ == ds);
                }
                r
            }
        }
    }

    /// Render to a plain string, dropping all styling. The result is a
    /// pure function of the document, so two calls on the same document
    /// yield identical output.
    pub fn render_plain(&self) -> (r: String)
        ensures
            r@ == plain_of(*self),
        decreases *self,
    {
        match self {
            ColoredDoc::Text(s, _) => s.clone(),
            ColoredDoc::Line => {
                let r = "\n".to_owned();
                proof {
                    reveal_strlit("\n");
                    assert(r@ =~= seq!['\n']);
                }
                r
            }
            ColoredDoc::Concat(ds) => {
                let mut out = String::new();
                let mut i: usize = 0;
                while i < ds.len()
                    invariant
                        i <= ds.len(),
                        out@ == plain_of_docs(ds@.take(i as int)),
                        *self == ColoredDoc::Concat(*ds),
                    decreases ds.len() - i,
                {
                    proof {
                        assert(decreases_to!(*self => (*self)->Concat_0));
                        assert((*self)->Concat_0 == *ds);
                        assert(decreases_to!(*ds => ds@));
                        assert(decreases_to!(ds@ => ds@[i as int]));
                    }
                    let piece = ds[i].render_plain();
                    out.append(piece.as_str());
                    proof {
                        lemma_plain_of_docs_push(ds@.take(i as int), ds@[i as int]);
                        assert(ds@.take(i as int).push(ds@[i as int]) =~= ds@.take(
                            i as int + 1,
                        ));
                    }
                    i = i + 1;
                }
                proof {
                    assert(ds@.take(ds@.len() as int) =~= ds@);
                }
                out
            }
        }
    }

    /// Remove all style information from every leaf. The plain text is
    /// unchanged: rendering the stripped document yields the same string
    /// as rendering the original.
    pub fn strip_styles(&self) -> (r: Self)
        ensures
            plain_of(r) == plain_of(*self),
            unstyled(r),
        decreases *self,
    {
        match self {
            ColoredDoc::Text(s, _) => ColoredDoc::Text(s.clone(), None),
            ColoredDoc::Line => ColoredDoc::Line,
            ColoredDoc::Concat(ds) => {
                let mut out: Vec<ColoredDoc> = Vec::new();
                let mut i: usize = 0;
                while i < ds.len()
                    invariant
                        i <= ds.len(),
                        plain_of_docs(out@) == plain_of_docs(ds@.take(i as int)),
                        unstyled_docs(out@),
                        *self == ColoredDoc::Concat(*ds),
                    decreases ds.len() - i,
                {
                    proof {
                        assert(decreases_to!(*self => (*self)->Concat_0));
                        assert((*self)->Concat_0 == *ds);
                        assert(decreases_to!(*ds => ds@));
                        assert(decreases_to!(ds@ => ds@[i as int]));
                    }
                    let ghost out0 = out@;
                    let piece = ds[i].strip_styles();
                    out.push(piece);
                    proof {
                        lemma_plain_of_docs_push(out0, piece);
                        lemma_unstyled_docs_push(out0, piece);
                        lemma_plain_of_docs_push(ds@.take(i as int), ds@[i as int]);
                        assert(ds@.take(i as int).push(ds@[i as int]) =~= ds@.take(
                            i as int + 1,
                        ));
                    }
                    i = i + 1;
                }
                proof {
                    assert(ds@.take(ds@.len() as int) =~= ds@);
                }
                ColoredDoc::Concat(out)
            }
        }
    }
}

/// Create a major heading: a full-width rule of `=`, the title indented
/// by two spaces, and a closing rule, all styled bold in the given color.
pub fn heading(title: &str, color: Color) -> (r: ColoredDoc)
    ensures
        plain_of(r) == heading_text(title@),
        leaves_of(r) == heading_leaves(title@, color),
{
    proof {
        reveal_strlit("=");
    }
    let rule = fill_str("=", 80);
    let rule2 = rule.clone();
    let mut t = "  ".to_owned();
    t.append(title);
    let r = ColoredDoc::colored_text(rule.as_str(), color_spec(color, true)).append(
        ColoredDoc::line(),
    ).append(ColoredDoc::colored_text(t.as_str(), color_spec(color, true))).append(
        ColoredDoc::line(),
    ).append(ColoredDoc::colored_text(rule2.as_str(), color_spec(color, true))).append(
        ColoredDoc::line(),
    );
    proof {
        assert(plain_of(r) =~= heading_text(title@));
        assert(leaves_of(r) =~= heading_leaves(title@, color));
    }
    r
}

/// The plain text of a heading.
pub open spec fn heading_text(title: Seq<char>) -> Seq<char> {
    fill('=', 80) + seq!['\n'] + "  "@ + title + seq!['\n'] + fill('=', 80) + seq!['\n']
}

/// The leaves of a heading: both rules and the indented title carry
/// the given color, bold.
pub open spec fn heading_leaves(title: Seq<char>, color: Color) -> Seq<Leaf> {
    seq![
        (Leaf { text: fill('=', 80), style: Some(bold_in(color)) }),
        nl_leaf(),
        (Leaf { text: "  "@ + title, style: Some(bold_in(color)) }),
        nl_leaf(),
        (Leaf { text: fill('=', 80), style: Some(bold_in(color)) }),
        nl_leaf(),
    ]
}

/// Create a subheading: the title styled bold, over a half-weight rule
/// of `-`.
pub fn subheading(title: &str, color: Color) -> (r: ColoredDoc)
    ensures
        plain_of(r) == subheading_text(title@),
        leaves_of(r) == subheading_leaves(title@, color),
{
    proof {
        reveal_strlit("-");
    }
    let rule = fill_str("-", 80);
    let r = ColoredDoc::colored_text(title, color_spec(color, true)).append(
        ColoredDoc::line(),
    ).append(ColoredDoc::colored_text(rule.as_str(), color_spec(Color::Black, true))).append(
        ColoredDoc::line(),
    );
    proof {
        assert(plain_of(r) =~= subheading_text(title@));
        assert(leaves_of(r) =~= subheading_leaves(title@, color));
    }
    r
}

/// The plain text of a subheading.
pub open spec fn subheading_text(title: Seq<char>) -> Seq<char> {
    title + seq!['\n'] + fill('-', 80) + seq!['\n']
}

/// The leaves of a subheading: the title carries the given color,
/// bold; the half-weight rule is styled independently of it.
pub open spec fn subheading_leaves(title: Seq<char>, color: Color) -> Seq<Leaf> {
    seq![
        (Leaf { text: title, style: Some(bold_in(color)) }),
        nl_leaf(),
        (Leaf { text: fill('-', 80), style: Some(bold_in(Color::Black)) }),
        nl_leaf(),
    ]
}

/// Create a separator: the given string repeated to 80 columns, and a
/// line break.
pub fn separator(piece: &str, color: Color) -> (r: ColoredDoc)
    ensures
        plain_of(r) == separator_text(piece@),
        leaves_of(r) == separator_leaves(piece@, color),
{
    let rule = repeat_str(piece, 80);
    let r = ColoredDoc::colored_text(rule.as_str(), color_spec(color, true)).append(
        ColoredDoc::line(),
    );
    proof {
        assert(leaves_of(r) =~= separator_leaves(piece@, color));
    }
    r
}

/// The plain text of a separator.
pub open spec fn separator_text(piece: Seq<char>) -> Seq<char> {
    rep_seq(piece, 80) + seq!['\n']
}

/// The leaves of a separator: the rule carries the given color, bold.
pub open spec fn separator_leaves(piece: Seq<char>, color: Color) -> Seq<Leaf> {
    seq![(Leaf { text: rep_seq(piece, 80), style: Some(bold_in(color)) }), nl_leaf()]
}

/// Column alignment for table rendering: a per-column property fixed
/// when the column is constructed.
#[derive(Clone, Copy, Debug)]
pub enum Alignment {
    Left,
    Right,
}

/// A cell in a table.
#[derive(Debug)]
pub struct Cell {
    pub content: String,
    pub color_spec: Option<Style>,
}

impl Cell {
    /// Create a plain text cell.
    pub fn text(s: &str) -> (r: Self)
        ensures
            r.content@ == s@,
            r.color_spec is None,
    {
        Cell { content: s.to_owned(), color_spec: None }
    }

    /// Create a styled cell.
    pub fn colored(s: &str, style: Style) -> (r: Self)
        ensures
            r.content@ == s@,
            r.color_spec == Some(style),
    {
        Cell { content: s.to_owned(), color_spec: Some(style) }
    }
}

/// The layout-relevant content of a column: its header text, alignment,
/// and the text of each cell.
pub struct ColView {
    pub header: Seq<char>,
    pub alignment: Alignment,
    pub cells: Seq<Seq<char>>,
}

/// The larger of two lengths.
pub open spec fn nat_max(a: nat, b: nat) -> nat {
    if a >= b {
        a
    } else {
        b
    }
}

/// The length of the longest cell of a column, or 0 without cells.
pub open spec fn max_cell_len(cells: Seq<Seq<char>>) -> nat
    decreases cells,
{
    if cells.len() == 0 {
        0
    } else {
        nat_max(max_cell_len(cells.drop_last()), cells.last().len())
    }
}

/// Every cell is no longer than the longest cell.
pub proof fn lemma_max_cell_len_bound(cells: Seq<Seq<char>>, r: int)
    requires
        0 <= r < cells.len(),
    ensures
        cells[r].len() <= max_cell_len(cells),
    decreases cells,
{
    if r < cells.len() - 1 {
        lemma_max_cell_len_bound(cells.drop_last(), r);
        assert(cells.drop_last()[r] == cells[r]);
    }
}

/// The width of a column: the larger of the header length and the
/// longest cell length, computed independently per column.
pub open spec fn col_width(c: ColView) -> nat {
    nat_max(c.header.len(), max_cell_len(c.cells))
}

/// A cell text padded with spaces to the given width on the side its
/// alignment asks for; text already at least that wide is kept whole.
pub open spec fn pad_to(s: Seq<char>, w: nat, a: Alignment) -> Seq<char> {
    if s.len() >= w {
        s
    } else {
        match a {
            Alignment::Left => s + fill(' ', (w - s.len()) as nat),
            Alignment::Right => fill(' ', (w - s.len()) as nat) + s,
        }
    }
}

/// Pad a cell text to the given width per the alignment.
pub fn pad_cell(s: &str, width: usize, align: Alignment) -> (r: String)
    ensures
        r@ == pad_to(s@, width as nat, align),
{
    let len = s.unicode_len();
    proof {
        reveal_strlit(" ");
    }
    if len >= width {
        s.to_owned()
    } else {
        match align {
            Alignment::Left => {
                let mut r = s.to_owned();
                let pad = fill_str(" ", width - len);
                r.append(pad.as_str());
                r
            }
            Alignment::Right => {
                let mut r = fill_str(" ", width - len);
                r.append(s);
                r
            }
        }
    }
}

/// The layout-relevant content of a column value.
pub open spec fn col_view(c: Column) -> ColView {
    ColView {
        header: c.header@,
        alignment: c.alignment,
        cells: c.cells@.map_values(|x: Cell| x.content@),
    }
}

/// The padded header piece of each column.
pub open spec fn header_pieces(cols: Seq<ColView>) -> Seq<Seq<char>> {
    cols.map_values(|c: ColView| pad_to(c.header, col_width(c), c.alignment))
}

/// The dashes piece of each column in the separator row.
pub open spec fn sep_pieces(cols: Seq<ColView>) -> Seq<Seq<char>> {
    cols.map_values(|c: ColView| fill('-', col_width(c)))
}

/// The piece a column contributes to data row `r`: its padded cell, or
/// blank padding of the column's width when the column has fewer cells.
pub open spec fn cell_piece(c: ColView, r: int) -> Seq<char> {
    if 0 <= r < c.cells.len() {
        pad_to(c.cells[r], col_width(c), c.alignment)
    } else {
        fill(' ', col_width(c))
    }
}

/// The pieces of data row `r`.
pub open spec fn row_pieces(cols: Seq<ColView>, r: int) -> Seq<Seq<char>> {
    cols.map_values(|c: ColView| cell_piece(c, r))
}

/// Table layout law: in the header row, the separator row, and any data
/// row, the piece emitted for a column is exactly as wide as the column:
/// the maximum of its header length and its longest cell length. A row
/// index beyond a shorter column's cells gives blank padding of the same
/// width — ragged columns never fail and are never truncated.
pub proof fn lemma_table_row_padding(cols: Seq<ColView>, r: int, i: int)
    requires
        0 <= i < cols.len(),
    ensures
        header_pieces(cols)[i].len() == col_width(cols[i]),
        sep_pieces(cols)[i].len() == col_width(cols[i]),
        row_pieces(cols, r)[i].len() == col_width(cols[i]),
{
    let c = cols[i];
    if 0 <= r < c.cells.len() {
        lemma_max_cell_len_bound(c.cells, r);
    }
}

/// One rendered row of a table, including the trailing line break: the
/// indentation, then the pieces joined by the separator.
pub open spec fn row_line(pieces: Seq<Seq<char>>, sep: Seq<char>, ind: Seq<char>) -> Seq<char> {
    ind + crate::text::join_seqs(pieces, sep) + seq!['\n']
}

/// The data rows of a table, row 0 through `k - 1`.
pub open spec fn rows_text_ind(cols: Seq<ColView>, k: nat, ind: Seq<char>) -> Seq<char>
    decreases k,
{
    if k == 0 {
        Seq::empty()
    } else {
        rows_text_ind(cols, (k - 1) as nat, ind) + row_line(
            row_pieces(cols, k - 1),
            " | "@,
            ind,
        )
    }
}

/// The full plain text of a rendered table: header row, separator row
/// of dashes joined by `-|-`, then one row per index up to the first
/// column's cell count, each row prefixed by the indentation.
pub open spec fn table_text_ind(cols: Seq<ColView>, ind: Seq<char>) -> Seq<char> {
    if cols.len() == 0 {
        Seq::empty()
    } else {
        row_line(header_pieces(cols), " | "@, ind) + row_line(sep_pieces(cols), "-|-"@, ind)
            + rows_text_ind(cols, cols[0].cells.len(), ind)
    }
}

/// The plain text of a table rendered without indentation.
pub open spec fn table_text(cols: Seq<ColView>) -> Seq<char> {
    table_text_ind(cols, Seq::empty())
}

/// A column in a table: its header, alignment, and cells.
#[derive(Debug)]
pub struct Column {
    pub header: String,
    pub alignment: Alignment,
    pub cells: Vec<Cell>,
}

impl Column {
    /// Create a new column with a header and default left alignment.
    pub fn new(header: &str) -> (r: Self)
        ensures
            r.header@ == header@,
            r.alignment is Left,
            r.cells@.len() == 0,
    {
        Column { header: header.to_owned(), alignment: Alignment::Left, cells: Vec::new() }
    }

    /// Create a new column with a header and the given alignment.
    pub fn new_aligned(header: &str, alignment: Alignment) -> (r: Self)
        ensures
            r.header@ == header@,
            r.alignment == alignment,
            r.cells@.len() == 0,
    {
        Column { header: header.to_owned(), alignment, cells: Vec::new() }
    }

    /// Add a cell to this column.
    pub fn add_cell(self, cell: Cell) -> (r: Self)
        ensures
            r.header == self.header,
            r.alignment == self.alignment,
            r.cells@ == self.cells@.push(cell),
    {
        let mut c = self;
        c.cells.push(cell);
        c
    }

    /// The width needed for this column: header or longest cell.
    fn calculate_width(&self) -> (w: usize)
        ensures
            w as nat == col_width(col_view(*self)),
    {
        let ghost cv = col_view(*self);
        let hw = self.header.as_str().unicode_len();
        let mut mx: usize = 0;
        let mut i: usize = 0;
        proof {
            assert(cv.cells.take(0) =~= Seq::<Seq<char>>::empty());
        }
        while i < self.cells.len()
            invariant
                i <= self.cells.len(),
                cv == col_view(*self),
                cv.cells.len() == self.cells.len(),
                mx as nat == max_cell_len(cv.cells.take(i as int)),
            decreases self.cells.len() - i,
        {
            let cl = self.cells[i].content.as_str().unicode_len();
            if cl > mx {
                mx = cl;
            }
            proof {
                assert(cv.cells.take(i as int + 1).drop_last() =~= cv.cells.take(i as int));
                assert(cv.cells.take(i as int + 1).last() == cv.cells[i as int]);
                assert(cv.cells[i as int] == self.cells@[i as int].content@);
            }
            i = i + 1;
        }
        proof {
            assert(cv.cells.take(self.cells.len() as int) =~= cv.cells);
        }
        if hw >= mx {
            hw
        } else {
            mx
        }
    }
}

/// The leaves of the cells of one row: each piece with its style,
/// with an unstyled separator leaf between consecutive pieces.
pub open spec fn cells_leaves(ps: Seq<Seq<char>>, ss: Seq<Option<Style>>, sep: Seq<char>) -> Seq<
    Leaf,
>
    decreases ps.len(),
{
    if ps.len() == 0 {
        Seq::empty()
    } else if ps.len() == 1 {
        seq![(Leaf { text: ps[0], style: ss[0] })]
    } else {
        cells_leaves(ps.drop_last(), ss.drop_last(), sep) + seq![
            (Leaf { text: sep, style: None::<Style> }),
            (Leaf { text: ps.last(), style: ss.last() }),
        ]
    }
}

proof fn lemma_cells_leaves_push(
    ps: Seq<Seq<char>>,
    ss: Seq<Option<Style>>,
    sep: Seq<char>,
    p: Seq<char>,
    st: Option<Style>,
)
    requires
        ps.len() == ss.len(),
        ps.len() > 0,
    ensures
        cells_leaves(ps.push(p), ss.push(st), sep) == cells_leaves(ps, ss, sep) + seq![
            (Leaf { text: sep, style: None::<Style> }),
            (Leaf { text: p, style: st }),
        ],
{
    assert(ps.push(p).drop_last() =~= ps);
    assert(ss.push(st).drop_last() =~= ss);
    assert(ps.push(p).last() == p);
    assert(ss.push(st).last() == st);
}

/// The leaves of one rendered row: the unstyled indentation, the
/// styled cell pieces with unstyled separators, and the line break.
pub open spec fn row_leaves(
    ps: Seq<Seq<char>>,
    ss: Seq<Option<Style>>,
    sep: Seq<char>,
    ind: Seq<char>,
) -> Seq<Leaf> {
    seq![(Leaf { text: ind, style: None::<Style> })] + cells_leaves(ps, ss, sep) + seq![
        nl_leaf(),
    ]
}

/// The style of every header piece: white, bold.
pub open spec fn header_styles(n: nat) -> Seq<Option<Style>> {
    Seq::new(n, |i: int| Some(bold_in(Color::White)))
}

/// No style, for every piece of the separator row.
pub open spec fn none_styles(n: nat) -> Seq<Option<Style>> {
    Seq::new(n, |i: int| None::<Style>)
}

/// The cell styles of each column of a table, in cell order.
pub open spec fn table_styles(t: Table) -> Seq<Seq<Option<Style>>> {
    t.columns@.map_values(|c: Column| c.cells@.map_values(|x: Cell| x.color_spec))
}

/// The style of each piece of data row `r`: the cell's own style, or
/// none for the blank padding of a shorter column.
pub open spec fn row_styles(cols: Seq<ColView>, sts: Seq<Seq<Option<Style>>>, r: int) -> Seq<
    Option<Style>,
> {
    Seq::new(
        cols.len(),
        |i: int|
            if 0 <= r < sts[i].len() {
                sts[i][r]
            } else {
                None::<Style>
            },
    )
}

/// The leaves of the data rows, row 0 through `k - 1`.
pub open spec fn rows_leaves(
    cols: Seq<ColView>,
    sts: Seq<Seq<Option<Style>>>,
    k: nat,
    ind: Seq<char>,
) -> Seq<Leaf>
    decreases k,
{
    if k == 0 {
        Seq::empty()
    } else {
        rows_leaves(cols, sts, (k - 1) as nat, ind) + row_leaves(
            row_pieces(cols, k - 1),
            row_styles(cols, sts, k - 1),
            " | "@,
            ind,
        )
    }
}

/// The full leaves of a rendered table: header row in white bold,
/// unstyled separator row, then each data row with each cell's own
/// style.
pub open spec fn table_leaves(
    cols: Seq<ColView>,
    sts: Seq<Seq<Option<Style>>>,
    ind: Seq<char>,
) -> Seq<Leaf> {
    if cols.len() == 0 {
        seq![(Leaf { text: Seq::<char>::empty(), style: None::<Style> })]
    } else {
        row_leaves(header_pieces(cols), header_styles(cols.len()), " | "@, ind) + row_leaves(
            sep_pieces(cols),
            none_styles(cols.len()),
            "-|-"@,
            ind,
        ) + rows_leaves(cols, sts, cols[0].cells.len(), ind)
    }
}

/// Build one rendered row of a table as a document: the indentation,
/// then each piece (styled when a style is given) joined by the
/// separator, then a line break.
fn row_doc(pieces: &Vec<String>, styles: &Vec<Option<Style>>, sep: &str, indent: &str) -> (r:
    ColoredDoc)
    requires
        pieces@.len() == styles@.len(),
    ensures
        plain_of(r) == row_line(pieces@.map_values(|x: String| x@), sep@, indent@),
        leaves_of(r) == row_leaves(pieces@.map_values(|x: String| x@), styles@, sep@, indent@),
{
    let ghost pm = pieces@.map_values(|x: String| x@);
    let ghost sm = styles@;
    let mut doc = ColoredDoc::text(indent);
    let mut i: usize = 0;
    proof {
        assert(indent@ + crate::text::join_seqs(pm.take(0), sep@) =~= indent@);
        assert(cells_leaves(pm.take(0), sm.take(0), sep@) == Seq::<Leaf>::empty());
        assert(seq![(Leaf { text: indent@, style: None::<Style> })] + cells_leaves(
            pm.take(0),
            sm.take(0),
            sep@,
        ) =~= leaves_of(doc));
    }
    while i < pieces.len()
        invariant
            i <= pieces.len(),
            pieces@.len() == styles@.len(),
            pm == pieces@.map_values(|x: String| x@),
            sm == styles@,
            plain_of(doc) == indent@ + crate::text::join_seqs(pm.take(i as int), sep@),
            leaves_of(doc) == seq![(Leaf { text: indent@, style: None::<Style> })]
                + cells_leaves(pm.take(i as int), sm.take(i as int), sep@),
        decreases pieces.len() - i,
    {
        if i > 0 {
            doc = doc.append(ColoredDoc::text(sep));
        }
        let piece = match &styles[i] {
            Some(st) => ColoredDoc::colored_text(pieces[i].as_str(), *st),
            None => ColoredDoc::text(pieces[i].as_str()),
        };
        doc = doc.append(piece);
        proof {
            assert(pm.take(i as int).push(pm[i as int]) =~= pm.take(i as int + 1));
            assert(sm.take(i as int).push(sm[i as int]) =~= sm.take(i as int + 1));
            assert(leaves_of(piece) =~= seq![(Leaf { text: pm[i as int], style: sm[i as int] })]);
            if i == 0 {
                assert(pm.take(1) =~= seq![pm[0]]);
                assert(crate::text::join_seqs(seq![pm[0]], sep@) == pm[0]);
                assert(plain_of(doc) =~= indent@ + crate::text::join_seqs(pm.take(1), sep@));
                assert(cells_leaves(pm.take(1), sm.take(1), sep@) == seq![
                    (Leaf { text: pm.take(1)[0], style: sm.take(1)[0] }),
                ]);
                assert(leaves_of(doc) =~= seq![(Leaf { text: indent@, style: None::<Style> })]
                    + cells_leaves(pm.take(1), sm.take(1), sep@));
            } else {
                crate::text::lemma_join_push(pm.take(i as int), sep@, pm[i as int]);
                assert(plain_of(doc) =~= indent@ + crate::text::join_seqs(
                    pm.take(i as int + 1),
                    sep@,
                ));
                lemma_cells_leaves_push(
                    pm.take(i as int),
                    sm.take(i as int),
                    sep@,
                    pm[i as int],
                    sm[i as int],
                );
                assert(leaves_of(doc) =~= seq![(Leaf { text: indent@, style: None::<Style> })]
                    + cells_leaves(pm.take(i as int + 1), sm.take(i as int + 1), sep@));
            }
        }
        i = i + 1;
    }
    doc = doc.append(ColoredDoc::line());
    proof {
        assert(pm.take(pieces@.len() as int) =~= pm);
        assert(sm.take(pieces@.len() as int) =~= sm);
        assert(plain_of(doc) =~= row_line(pm, sep@, indent@));
        assert(leaves_of(doc) =~= row_leaves(pm, sm, sep@, indent@));
    }
    doc
}

/// A table builder for rendering tabular data, composed of columns.
#[derive(Debug)]
pub struct Table {
    pub columns: Vec<Column>,
}

/// The layout-relevant content of each column of a table.
pub open spec fn table_view(t: Table) -> Seq<ColView> {
    t.columns@.map_values(|c: Column| col_view(c))
}

impl Table {
    /// Create a new empty table.
    pub fn new() -> (r: Self)
        ensures
            r.columns@.len() == 0,
    {
        Table { columns: Vec::new() }
    }

    /// Add a column to the table.
    pub fn add_column(self, column: Column) -> (r: Self)
        ensures
            r.columns@ == self.columns@.push(column),
    {
        let mut t = self;
        t.columns.push(column);
        t
    }

    /// The number of rows: the first column's cell count, or 0 with no
    /// columns.
    fn row_count(&self) -> (n: usize)
        ensures
            self.columns@.len() > 0 ==> n == col_view(self.columns@[0]).cells.len(),
            self.columns@.len() == 0 ==> n == 0,
    {
        if self.columns.len() == 0 {
            0
        } else {
            self.columns[0].cells.len()
        }
    }

    /// The width needed for each column.
    fn calculate_widths(&self) -> (w: Vec<usize>)
        ensures
            w@.len() == self.columns@.len(),
            forall|i: int|
                0 <= i < w@.len() ==> w@[i] as nat == col_width(col_view(self.columns@[i])),
    {
        let mut w: Vec<usize> = Vec::new();
        let mut i: usize = 0;
        while i < self.columns.len()
            invariant
                i <= self.columns.len(),
                w@.len() == i,
                forall|j: int|
                    0 <= j < i ==> w@[j] as nat == col_width(col_view(self.columns@[j])),
            decreases self.columns.len() - i,
        {
            let cw = self.columns[i].calculate_width();
            w.push(cw);
            i = i + 1;
        }
        w
    }

    /// Render the table as a document. The plain text is the table's
    /// full layout with no indentation.
    pub fn render(self) -> (r: ColoredDoc)
        ensures
            plain_of(r) == table_text(table_view(self)),
            leaves_of(r) == table_leaves(table_view(self), table_styles(self), Seq::empty()),
    {
        let ghost tv = table_view(self);
        let ghost sts = table_styles(self);
        let r = self.render_indented("");
        proof {
            reveal_strlit("");
            assert(""@ =~= Seq::<char>::empty());
            assert(table_leaves(tv, sts, ""@) == table_leaves(tv, sts, Seq::empty()));
        }
        r
    }

    /// Render the table as a document with every emitted row prefixed
    /// by the given indentation string.
    #[verifier::loop_isolation(false)]
    #[verifier::rlimit(100)]
    pub fn render_indented(self, indent: &str) -> (r: ColoredDoc)
        ensures
            plain_of(r) == table_text_ind(table_view(self), indent@),
            leaves_of(r) == table_leaves(table_view(self), table_styles(self), indent@),
    {
        let ghost cols = table_view(self);
        let ghost sts = table_styles(self);
        if self.columns.len() == 0 {
            let r = ColoredDoc::text("");
            proof {
                reveal_strlit("");
                assert(plain_of(r) =~= Seq::<char>::empty());
                assert(""@ =~= Seq::<char>::empty());
                assert((Leaf { text: ""@, style: None::<Style> }) == (Leaf {
                    text: Seq::<char>::empty(),
                    style: None::<Style>,
                }));
                assert(leaves_of(r) =~= table_leaves(cols, sts, indent@));
            }
            return r;
        }
        let widths = self.calculate_widths();
        let row_count = self.row_count();

        // Header row.
        let mut hp: Vec<String> = Vec::new();
        let mut hs: Vec<Option<Style>> = Vec::new();
        let mut i: usize = 0;
        proof {
            assert(hp@.map_values(|x: String| x@) =~= header_pieces(cols).take(0));
        }
        while i < self.columns.len()
            invariant
                i <= self.columns.len(),
                hp@.len() == i,
                hs@.len() == i,
                hp@.map_values(|x: String| x@) == header_pieces(cols).take(i as int),
                forall|j: int| 0 <= j < i ==> hs@[j] == Some(bold_in(Color::White)),
            decreases self.columns.len() - i,
        {
            let col = &self.columns[i];
            let padded = pad_cell(col.header.as_str(), widths[i], col.alignment);
            hp.push(padded);
            hs.push(Some(color_spec(Color::White, true)));
            proof {
                assert(hp@.map_values(|x: String| x@) =~= header_pieces(cols).take(
                    i as int,
                ).push(header_pieces(cols)[i as int]));
                assert(header_pieces(cols).take(i as int).push(header_pieces(cols)[i as int])
                    =~= header_pieces(cols).take(i as int + 1));
            }
            i = i + 1;
        }
        proof {
            assert(header_pieces(cols).take(self.columns@.len() as int) =~= header_pieces(
                cols,
            ));
            assert(hs@ =~= header_styles(cols.len()));
        }
        let mut doc = row_doc(&hp, &hs, " | ", indent);

        // Separator row.
        let mut sp: Vec<String> = Vec::new();
        let mut ss: Vec<Option<Style>> = Vec::new();
        let mut i2: usize = 0;
        proof {
            reveal_strlit("-");
            assert(sp@.map_values(|x: String| x@) =~= sep_pieces(cols).take(0));
        }
        while i2 < self.columns.len()
            invariant
                i2 <= self.columns.len(),
                sp@.len() == i2,
                ss@.len() == i2,
                sp@.map_values(|x: String| x@) == sep_pieces(cols).take(i2 as int),
                forall|j: int| 0 <= j < i2 ==> ss@[j] == None::<Style>,
            decreases self.columns.len() - i2,
        {
            let dashes = fill_str("-", widths[i2]);
            sp.push(dashes);
            ss.push(None);
            proof {
                assert(sp@.map_values(|x: String| x@) =~= sep_pieces(cols).take(
                    i2 as int,
                ).push(sep_pieces(cols)[i2 as int]));
                assert(sep_pieces(cols).take(i2 as int).push(sep_pieces(cols)[i2 as int]) =~=
                    sep_pieces(cols).take(i2 as int + 1));
            }
            i2 = i2 + 1;
        }
        proof {
            assert(sep_pieces(cols).take(self.columns@.len() as int) =~= sep_pieces(cols));
            assert(ss@ =~= none_styles(cols.len()));
        }
        let sep_row = row_doc(&sp, &ss, "-|-", indent);
        doc = doc.append(sep_row);
        proof {
            assert(plain_of(doc) =~= row_line(header_pieces(cols), " | "@, indent@)
                + row_line(sep_pieces(cols), "-|-"@, indent@));
        }
        let ghost head_text = row_line(header_pieces(cols), " | "@, indent@) + row_line(
            sep_pieces(cols),
            "-|-"@,
            indent@,
        );
        let ghost head_leaves = row_leaves(
            header_pieces(cols),
            header_styles(cols.len()),
            " | "@,
            indent@,
        ) + row_leaves(sep_pieces(cols), none_styles(cols.len()), "-|-"@, indent@);
        proof {
            assert(leaves_of(doc) =~= head_leaves + rows_leaves(cols, sts, 0, indent@));
        }

        // Data rows.
        let mut r_idx: usize = 0;
        while r_idx < row_count
            invariant
                r_idx <= row_count,
                plain_of(doc) == head_text + rows_text_ind(cols, r_idx as nat, indent@),
                leaves_of(doc) == head_leaves + rows_leaves(cols, sts, r_idx as nat, indent@),
            decreases row_count - r_idx,
        {
            let mut rp: Vec<String> = Vec::new();
            let mut rs: Vec<Option<Style>> = Vec::new();
            let mut j: usize = 0;
            proof {
                assert(rp@.map_values(|x: String| x@) =~= row_pieces(cols, r_idx as int).take(
                    0,
                ));
            }
            while j < self.columns.len()
                invariant
                    j <= self.columns.len(),
                    rp@.len() == j,
                    rs@.len() == j,
                    rp@.map_values(|x: String| x@) == row_pieces(cols, r_idx as int).take(
                        j as int,
                    ),
                    forall|k: int|
                        0 <= k < j ==> rs@[k] == row_styles(cols, sts, r_idx as int)[k],
                decreases self.columns.len() - j,
            {
                let col = &self.columns[j];
                proof {
                    assert(sts[j as int] == col.cells@.map_values(|x: Cell| x.color_spec));
                }
                if r_idx < col.cells.len() {
                    let cell = &col.cells[r_idx];
                    let padded = pad_cell(cell.content.as_str(), widths[j], col.alignment);
                    rp.push(padded);
                    match &cell.color_spec {
                        Some(st) => rs.push(Some(*st)),
                        None => rs.push(None),
                    }
                    proof {
                        assert(rs@[j as int] == sts[j as int][r_idx as int]);
                    }
                } else {
                    proof {
                        reveal_strlit(" ");
                    }
                    let blank = fill_str(" ", widths[j]);
                    rp.push(blank);
                    rs.push(None);
                }
                proof {
                    assert(rp@.map_values(|x: String| x@) =~= row_pieces(
                        cols,
                        r_idx as int,
                    ).take(j as int).push(row_pieces(cols, r_idx as int)[j as int]));
                    assert(row_pieces(cols, r_idx as int).take(j as int).push(
                        row_pieces(cols, r_idx as int)[j as int],
                    ) =~= row_pieces(cols, r_idx as int).take(j as int + 1));
                }
                j = j + 1;
            }
            proof {
                assert(row_pieces(cols, r_idx as int).take(self.columns@.len() as int) =~=
                    row_pieces(cols, r_idx as int));
                assert(rs@ =~= row_styles(cols, sts, r_idx as int));
            }
            let data_row = row_doc(&rp, &rs, " | ", indent);
            doc = doc.append(data_row);
            proof {
                assert(plain_of(doc) =~= head_text + rows_text_ind(
                    cols,
                    (r_idx + 1) as nat,
                    indent@,
                ));
                assert(leaves_of(doc) =~= head_leaves + rows_leaves(
                    cols,
                    sts,
                    (r_idx + 1) as nat,
                    indent@,
                ));
            }
            r_idx = r_idx + 1;
        }
        proof {
            assert(cols[0] == col_view(self.columns@[0]));
            assert(cols[0].cells.len() == row_count);
            assert(plain_of(doc) =~= table_text_ind(cols, indent@));
            assert(leaves_of(doc) =~= table_leaves(cols, sts, indent@));
        }
        doc
    }
}

/// The total length of the pieces of a row.
pub open spec fn pieces_len_sum(ps: Seq<Seq<char>>) -> nat
    decreases ps,
{
    if ps.len() == 0 {
        0
    } else {
        pieces_len_sum(ps.drop_last()) + ps.last().len()
    }
}

proof fn lemma_join_seqs_len(ps: Seq<Seq<char>>, sep: Seq<char>)
    requires
        ps.len() > 0,
    ensures
        crate::text::join_seqs(ps, sep).len() == pieces_len_sum(ps) + sep.len() * (ps.len() - 1),
    decreases ps.len(),
{
    if ps.len() == 1 {
        assert(ps.drop_last() =~= Seq::<Seq<char>>::empty());
        assert(pieces_len_sum(Seq::<Seq<char>>::empty()) == 0);
        assert(ps.last() == ps[0]);
        assert(pieces_len_sum(ps) == ps[0].len());
    } else {
        lemma_join_seqs_len(ps.drop_first(), sep);
        lemma_pieces_len_sum_drop_first(ps);
        assert(sep.len() * (ps.len() - 1) == sep.len() + sep.len() * (ps.len() - 2))
            by (nonlinear_arith)
            requires
                ps.len() >= 2,
        ;
    }
}

proof fn lemma_pieces_len_sum_drop_first(ps: Seq<Seq<char>>)
    requires
        ps.len() > 0,
    ensures
        pieces_len_sum(ps) == ps[0].len() + pieces_len_sum(ps.drop_first()),
    decreases ps.len(),
{
    if ps.len() == 1 {
        assert(ps.drop_first() =~= Seq::<Seq<char>>::empty());
        assert(ps.drop_last() =~= Seq::<Seq<char>>::empty());
    } else {
        lemma_pieces_len_sum_drop_first(ps.drop_last());
        assert(ps.drop_last()[0] == ps[0]);
        assert(ps.drop_last().drop_first() =~= ps.drop_first().drop_last());
        assert(ps.drop_first().last() == ps.last());
    }
}

proof fn lemma_pieces_len_sum_padded(cols: Seq<ColView>, ps: Seq<Seq<char>>)
    requires
        ps.len() == cols.len(),
        forall|i: int| 0 <= i < cols.len() ==> ps[i].len() == col_width(cols[i]),
    ensures
        pieces_len_sum(ps) == widths_sum(cols),
    decreases cols.len(),
{
    if cols.len() > 0 {
        lemma_pieces_len_sum_padded(cols.drop_last(), ps.drop_last());
    }
}

/// The sum of the column widths.
pub open spec fn widths_sum(cols: Seq<ColView>) -> nat
    decreases cols,
{
    if cols.len() == 0 {
        0
    } else {
        widths_sum(cols.drop_last()) + col_width(cols.last())
    }
}

/// Table layout law, at the level of whole rows: with at least one
/// column, the header row, the separator row, and every data row of the
/// rendered table have the same length — the column widths plus the
/// three-character divider between adjacent columns and the line break.
/// Data rows past a short column's cells are padded blank to the same
/// length, never truncated.
pub proof fn lemma_table_rows_uniform_width(cols: Seq<ColView>, r: int, ind: Seq<char>)
    requires
        cols.len() > 0,
    ensures
        row_line(header_pieces(cols), " | "@, ind).len() == ind.len() + widths_sum(cols) + 3 * (
        cols.len() - 1) + 1,
        row_line(sep_pieces(cols), "-|-"@, ind).len() == ind.len() + widths_sum(cols) + 3 * (
        cols.len() - 1) + 1,
        row_line(row_pieces(cols, r), " | "@, ind).len() == ind.len() + widths_sum(cols) + 3 * (
        cols.len() - 1) + 1,
{
    assert forall|i: int| 0 <= i < cols.len() implies header_pieces(cols)[i].len() == col_width(
        cols[i],
    ) && sep_pieces(cols)[i].len() == col_width(cols[i]) && row_pieces(cols, r)[i].len()
        == col_width(cols[i]) by {
        lemma_table_row_padding(cols, r, i);
    }
    reveal_strlit(" | ");
    reveal_strlit("-|-");
    lemma_join_seqs_len(header_pieces(cols), " | "@);
    lemma_join_seqs_len(sep_pieces(cols), "-|-"@);
    lemma_join_seqs_len(row_pieces(cols, r), " | "@);
    lemma_pieces_len_sum_padded(cols, header_pieces(cols));
    lemma_pieces_len_sum_padded(cols, sep_pieces(cols));
    lemma_pieces_len_sum_padded(cols, row_pieces(cols, r));
}

impl Default for Table {
    /// An empty table, as `Table::new` builds it.
    fn default() -> (r: Self)
        ensures
            r.columns@.len() == 0,
    {
        Self::new()
    }
}

} // verus!
