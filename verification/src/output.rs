use crate::span::SourceSpan;
use crate::text::{chars_of, concat, decimal, decimal_of, string_from};
use vstd::prelude::*;
use vstd::utf8::encode_utf8;

verus! {

/// `value` wrapped in the escape `code` and a reset when `color` is on.
pub open spec fn paint(color: bool, value: Seq<char>, code: Seq<char>) -> Seq<char> {
    if color {
        code + value + "\x1b[0m"@
    } else {
        value
    }
}

fn paint_exec(color: bool, value: &[char], code: &str) -> (r: Vec<char>)
    ensures
        r@ == paint(color, value@, code@),
{
    if color {
        let a = concat(&chars_of(code), value);
        concat(&a, &chars_of("\x1b[0m"))
    } else {
        crate::text::slice(value, 0, value.len())
    }
}

/// How tables are drawn: plain ASCII, or a simpler colored layout.
#[derive(Clone, Copy, Debug)]
pub struct TableStyle {
    pub color: bool,
}

impl TableStyle {
    pub fn new(color: bool) -> (r: Self)
        ensures
            r.color == color,
    {
        TableStyle { color }
    }

    pub fn color_enabled(self) -> (r: bool)
        ensures
            r == self.color,
    {
        self.color
    }
}

/// Styles command-line output, colored or plain.
#[derive(Clone, Copy, Debug)]
pub struct Output {
    pub color: bool,
}

impl Output {
    pub fn new(color: bool) -> (r: Self)
        ensures
            r.color == color,
    {
        Output { color }
    }

    /// A label in bold cyan.
    pub fn label(&self, text: &str) -> (r: String)
        ensures
            r@ == paint(self.color, text@, "\x1b[1m\x1b[36m"@),
    {
        string_from(&paint_exec(self.color, &chars_of(text), "\x1b[1m\x1b[36m"))
    }

    /// A number in bold.
    pub fn value(&self, val: u64) -> (r: String)
        ensures
            r@ == paint(self.color, decimal(val as nat), "\x1b[1m"@),
    {
        string_from(&paint_exec(self.color, &decimal_of(val), "\x1b[1m"))
    }

    /// Text in green, for success.
    pub fn success(&self, text: &str) -> (r: String)
        ensures
            r@ == paint(self.color, text@, "\x1b[32m"@),
    {
        string_from(&paint_exec(self.color, &chars_of(text), "\x1b[32m"))
    }

    /// Text in yellow, for warnings and skipped items.
    pub fn warning(&self, text: &str) -> (r: String)
        ensures
            r@ == paint(self.color, text@, "\x1b[33m"@),
    {
        string_from(&paint_exec(self.color, &chars_of(text), "\x1b[33m"))
    }

    /// A path in blue.
    pub fn path(&self, text: &str) -> (r: String)
        ensures
            r@ == paint(self.color, text@, "\x1b[34m"@),
    {
        string_from(&paint_exec(self.color, &chars_of(text), "\x1b[34m"))
    }

    /// Secondary text, dimmed.
    pub fn dim(&self, text: &str) -> (r: String)
        ensures
            r@ == paint(self.color, text@, "\x1b[2m"@),
    {
        string_from(&paint_exec(self.color, &chars_of(text), "\x1b[2m"))
    }
}

/// Where a fact is: `path:line:column`, `path`, `line:column`, or nothing.
pub open spec fn spec_format_location(path: Option<Seq<char>>, span: Option<SourceSpan>) -> Option<Seq<char>> {
    match (path, span) {
        (Some(p), Some(s)) => Some(p + ":"@ + decimal(s.start.line as nat) + ":"@ + decimal(s.start.column as nat)),
        (Some(p), None) => Some(p),
        (None, Some(s)) => Some(decimal(s.start.line as nat) + ":"@ + decimal(s.start.column as nat)),
        (None, None) => None,
    }
}

/// Where a fact is, for display.
pub fn format_location(path: Option<&str>, span: Option<&SourceSpan>) -> (r: Option<String>)
    ensures
        match r {
            Some(x) => spec_format_location(match path { Some(p) => Some(p@), None => None }, match span { Some(s) => Some(*s), None => None }) == Some(x@),
            None => spec_format_location(match path { Some(p) => Some(p@), None => None }, match span { Some(s) => Some(*s), None => None }) is None,
        },
{
    let position = match span {
        Some(s) => {
            let a = concat(&decimal_of(s.start.line as u64), &chars_of(":"));
            Some(concat(&a, &decimal_of(s.start.column as u64)))
        },
        None => None,
    };
    match (path, position) {
        (Some(p), Some(pos)) => {
            let a = concat(&chars_of(p), &chars_of(":"));
            Some(string_from(&concat(&a, &pos)))
        },
        (Some(p), None) => Some(String::from_str(p)),
        (None, Some(pos)) => Some(string_from(&pos)),
        (None, None) => None,
    }
}

/// The UTF-8 length of a text, by which columns are measured.
pub open spec fn blen(s: Seq<char>) -> nat {
    encode_utf8(s).len()
}

/// `n` copies of `c`.
pub open spec fn repeat(c: char, n: nat) -> Seq<char> {
    Seq::new(n, |i: int| c)
}

/// `s` padded with spaces to `width` characters.
pub open spec fn pad(s: Seq<char>, width: nat) -> Seq<char> {
    if s.len() < width {
        s + repeat(' ', (width - s.len()) as nat)
    } else {
        s
    }
}

pub open spec fn nat_max(a: nat, b: nat) -> nat {
    if a >= b {
        a
    } else {
        b
    }
}

/// The widths after a row: extended to the row's length, each at least the
/// width of its cell.
pub open spec fn grow(w: Seq<nat>, row: Seq<Seq<char>>) -> Seq<nat> {
    let w1 = if row.len() > w.len() {
        w + Seq::new((row.len() - w.len()) as nat, |i: int| 0nat)
    } else {
        w
    };
    Seq::new(w1.len(), |i: int| if i < row.len() {
        nat_max(w1[i], blen(row[i]))
    } else {
        w1[i]
    })
}

pub open spec fn header_widths(headers: Seq<Seq<char>>) -> Seq<nat> {
    Seq::new(headers.len(), |i: int| blen(headers[i]))
}

/// The column widths of a table: the widest header or cell of each column.
pub open spec fn spec_widths(headers: Seq<Seq<char>>, rows: Seq<Seq<Seq<char>>>) -> Seq<nat>
    decreases rows.len(),
{
    if rows.len() == 0 {
        header_widths(headers)
    } else {
        grow(spec_widths(headers, rows.drop_last()), rows.last())
    }
}

/// The ruling line of a plain table.
pub open spec fn rule(w: Seq<nat>) -> Seq<char>
    decreases w.len(),
{
    if w.len() == 0 {
        seq!['+']
    } else {
        rule(w.drop_last()) + repeat('-', w.last() + 2) + seq!['+']
    }
}

pub open spec fn min_len(a: int, b: int) -> int {
    if a <= b {
        a
    } else {
        b
    }
}

/// The first `k` cells of a plain row, each padded to its column's width.
pub open spec fn plain_cells(cells: Seq<Seq<char>>, w: Seq<nat>, k: int) -> Seq<char>
    decreases k,
{
    if k <= 0 {
        seq!['|']
    } else {
        plain_cells(cells, w, k - 1) + seq![' '] + cells[k - 1] + repeat(' ', (w[k - 1] - blen(cells[k - 1]) + 1) as nat)
            + seq!['|']
    }
}

pub open spec fn plain_line(cells: Seq<Seq<char>>, w: Seq<nat>) -> Seq<char> {
    plain_cells(cells, w, min_len(cells.len() as int, w.len() as int)) + seq!['\n']
}

/// The first `k` cells of a colored row, two spaces apart; header cells painted.
pub open spec fn colored_cells(cells: Seq<Seq<char>>, w: Seq<nat>, k: int, header: bool) -> Seq<char>
    decreases k,
{
    if k <= 0 {
        Seq::empty()
    } else {
        colored_cells(cells, w, k - 1, header) + (if k - 1 > 0 {
            seq![' ', ' ']
        } else {
            Seq::empty()
        }) + (if header {
            paint(true, pad(cells[k - 1], w[k - 1]), "\x1b[1m\x1b[36m"@)
        } else {
            pad(cells[k - 1], w[k - 1])
        })
    }
}

pub open spec fn colored_line(cells: Seq<Seq<char>>, w: Seq<nat>, header: bool) -> Seq<char> {
    colored_cells(cells, w, min_len(cells.len() as int, w.len() as int), header) + seq!['\n']
}

pub open spec fn rows_text(rows: Seq<Seq<Seq<char>>>, w: Seq<nat>, color: bool) -> Seq<char>
    decreases rows.len(),
{
    if rows.len() == 0 {
        Seq::empty()
    } else {
        rows_text(rows.drop_last(), w, color) + if color {
            colored_line(rows.last(), w, false)
        } else {
            plain_line(rows.last(), w)
        }
    }
}

/// A table as text: a message when there are no rows; with color, a header line
/// and rows padded to their columns; without, an ASCII table.
pub open spec fn spec_render_table(headers: Seq<Seq<char>>, rows: Seq<Seq<Seq<char>>>, color: bool) -> Seq<char> {
    if rows.len() == 0 {
        paint(color, "No results."@, "\x1b[2m"@) + seq!['\n']
    } else {
        let w = spec_widths(headers, rows);
        if color {
            colored_line(headers, w, true) + rows_text(rows, w, true)
        } else {
            rule(w) + seq!['\n'] + plain_line(headers, w) + rule(w) + seq!['\n'] + rows_text(rows, w, false)
                + rule(w) + seq!['\n']
        }
    }
}

pub open spec fn nats(v: Seq<usize>) -> Seq<nat> {
    v.map_values(|x: usize| x as nat)
}

pub open spec fn row_views(rows: Seq<Vec<String>>) -> Seq<Seq<Seq<char>>> {
    rows.map_values(|r: Vec<String>| crate::order::string_views(r@))
}

/// Every width covers its cell.
pub open spec fn covers(w: Seq<nat>, cells: Seq<Seq<char>>) -> bool {
    cells.len() <= w.len() && forall|i: int| 0 <= i < cells.len() ==> #[trigger] blen(cells[i]) <= w[i]
}

/// No width, header or cell is within two of the largest `usize`.
pub open spec fn table_fits(headers: Seq<Seq<char>>, rows: Seq<Seq<Seq<char>>>) -> bool {
    &&& forall|i: int| 0 <= i < headers.len() ==> #[trigger] blen(headers[i]) + 2 <= usize::MAX
    &&& forall|r: int, i: int| 0 <= r < rows.len() && 0 <= i < rows[r].len() ==> #[trigger] blen(rows[r][i]) + 2 <= usize::MAX
}

pub open spec fn bounded(w: Seq<nat>) -> bool {
    forall|i: int| 0 <= i < w.len() ==> #[trigger] w[i] + 2 <= usize::MAX
}

proof fn lemma_widths(headers: Seq<Seq<char>>, rows: Seq<Seq<Seq<char>>>)
    requires
        table_fits(headers, rows),
    ensures
        covers(spec_widths(headers, rows), headers),
        forall|r: int| 0 <= r < rows.len() ==> covers(spec_widths(headers, rows), #[trigger] rows[r]),
        bounded(spec_widths(headers, rows)),
    decreases rows.len(),
{
    if rows.len() > 0 {
        let prev = rows.drop_last();
        assert forall|r: int, i: int| 0 <= r < prev.len() && 0 <= i < prev[r].len() implies #[trigger] blen(prev[r][i]) + 2 <= usize::MAX by {
            assert(prev[r] == rows[r]);
        }
        lemma_widths(headers, prev);
        let w = spec_widths(headers, prev);
        let row = rows.last();
        let g = grow(w, row);
        assert forall|i: int| 0 <= i < headers.len() implies #[trigger] blen(headers[i]) <= g[i] by {}
        assert forall|r: int| 0 <= r < rows.len() implies covers(g, #[trigger] rows[r]) by {
            if r < rows.len() - 1 {
                assert(rows[r] == prev[r]);
                assert(covers(w, prev[r]));
                assert forall|i: int| 0 <= i < rows[r].len() implies #[trigger] blen(rows[r][i]) <= g[i] by {}
            } else {
                assert forall|i: int| 0 <= i < rows[r].len() implies #[trigger] blen(rows[r][i]) <= g[i] by {}
            }
        }
        assert forall|i: int| 0 <= i < g.len() implies #[trigger] g[i] + 2 <= usize::MAX by {
            if i < row.len() {
                assert(blen(rows[rows.len() - 1][i]) + 2 <= usize::MAX);
            }
        }
    } else {
        assert forall|i: int| 0 <= i < headers.len() implies #[trigger] blen(headers[i]) <= header_widths(headers)[i] by {}
    }
}

/// The UTF-8 length of a text.
fn byte_len(s: &str) -> (r: usize)
    ensures
        r == blen(s@),
{
    s.as_bytes().len()
}

fn column_widths(headers: &Vec<String>, rows: &Vec<Vec<String>>) -> (r: Vec<usize>)
    requires
        table_fits(crate::order::string_views(headers@), row_views(rows@)),
    ensures
        nats(r@) == spec_widths(crate::order::string_views(headers@), row_views(rows@)),
{
    let ghost hv = crate::order::string_views(headers@);
    let ghost rv = row_views(rows@);
    let mut widths: Vec<usize> = Vec::new();
    let mut i: usize = 0;
    while i < headers.len()
        invariant
            i <= headers.len(),
            hv == crate::order::string_views(headers@),
            nats(widths@) =~= header_widths(hv).take(i as int),
        decreases headers.len() - i,
    {
        let n = byte_len(headers[i].as_str());
        let ghost before = widths@;
        widths.push(n);
        assert(nats(widths@) =~= nats(before).push(n as nat));
        assert(hv[i as int] == headers@[i as int]@);
        assert(header_widths(hv).take(i + 1) =~= header_widths(hv).take(i as int).push(blen(hv[i as int])));
        i += 1;
    }
    assert(header_widths(hv).take(headers.len() as int) =~= header_widths(hv));
    let mut r: usize = 0;
    assert(rv.take(0) =~= Seq::<Seq<Seq<char>>>::empty());
    while r < rows.len()
        invariant
            r <= rows.len(),
            hv == crate::order::string_views(headers@),
            rv == row_views(rows@),
            table_fits(hv, rv),
            nats(widths@) == spec_widths(hv, rv.take(r as int)),
        decreases rows.len() - r,
    {
        assert(rv.take(r + 1).drop_last() =~= rv.take(r as int));
        assert(rv.take(r + 1).last() == crate::order::string_views(rows@[r as int]@));
        let row = &rows[r];
        let ghost rowv = crate::order::string_views(row@);
        let ghost w0 = nats(widths@);
        let ghost w1 = if rowv.len() > w0.len() {
            w0 + Seq::new((rowv.len() - w0.len()) as nat, |i: int| 0nat)
        } else {
            w0
        };
        assert(forall|j: int| w0.len() <= j < w1.len() ==> w1[j] == 0nat);
        assert(nats(widths@) =~= w1.take(widths@.len() as int));
        while widths.len() < row.len()
            invariant
                widths@.len() <= w1.len(),
                nats(widths@) =~= w1.take(widths@.len() as int),
                w1.len() == if rowv.len() > w0.len() { rowv.len() } else { w0.len() },
                w0.len() <= widths@.len(),
                rowv.len() == row@.len(),
                forall|j: int| w0.len() <= j < w1.len() ==> w1[j] == 0nat,
            decreases row.len() - widths.len(),
        {
            let ghost before = widths@;
            widths.push(0);
            assert(nats(widths@) =~= nats(before).push(0nat));
            assert(w1[before.len() as int] == 0nat);
            assert(w1.take(widths@.len() as int) =~= w1.take(before.len() as int).push(w1[before.len() as int]));
        }
        assert(nats(widths@) =~= w1);
        let mut c: usize = 0;
        while c < row.len()
            invariant
                c <= row.len(),
                row@.len() <= widths@.len(),
                widths@.len() == w1.len(),
                rowv == crate::order::string_views(row@),
                forall|j: int| 0 <= j < widths@.len() ==> nats(widths@)[j] == (if j < c {
                    nat_max(w1[j], blen(rowv[j]))
                } else {
                    w1[j]
                }),
            decreases row.len() - c,
        {
            let n = byte_len(row[c].as_str());
            assert(rowv[c as int] == row@[c as int]@);
            let ghost before = widths@;
            assert(nats(before)[c as int] == w1[c as int]);
            if n > widths[c] {
                widths.set(c, n);
            }
            assert forall|j: int| 0 <= j < widths@.len() implies nats(widths@)[j] == (if j < c + 1 {
                nat_max(w1[j], blen(rowv[j]))
            } else {
                w1[j]
            }) by {
                assert(nats(before)[j] == before[j] as nat);
                assert(nats(widths@)[j] == widths@[j] as nat);
            }
            c += 1;
        }
        assert(nats(widths@) =~= grow(w0, rowv));
        r += 1;
    }
    assert(rv.take(rows.len() as int) =~= rv);
    widths
}

fn push_repeat(out: &mut Vec<char>, c: char, n: usize)
    ensures
        final(out)@ == old(out)@ + repeat(c, n as nat),
{
    let ghost start = out@;
    let mut i: usize = 0;
    while i < n
        invariant
            i <= n,
            out@ =~= start + repeat(c, i as nat),
        decreases n - i,
    {
        out.push(c);
        i += 1;
    }
}

fn push_chars(out: &mut Vec<char>, s: &[char])
    ensures
        final(out)@ == old(out)@ + s@,
{
    let ghost start = out@;
    let mut i: usize = 0;
    while i < s.len()
        invariant
            i <= s.len(),
            out@ =~= start + s@.take(i as int),
        decreases s.len() - i,
    {
        out.push(s[i]);
        i += 1;
    }
    assert(s@.take(s.len() as int) =~= s@);
}

fn push_rule(out: &mut Vec<char>, widths: &Vec<usize>)
    requires
        bounded(nats(widths@)),
    ensures
        final(out)@ == old(out)@ + rule(nats(widths@)) + seq!['\n'],
{
    let ghost start = out@;
    let ghost w = nats(widths@);
    out.push('+');
    let mut i: usize = 0;
    assert(w.take(0) =~= Seq::<nat>::empty());
    assert(out@ =~= start + rule(w.take(0)));
    while i < widths.len()
        invariant
            i <= widths.len(),
            w == nats(widths@),
            bounded(w),
            out@ == start + rule(w.take(i as int)),
        decreases widths.len() - i,
    {
        assert(w[i as int] == widths@[i as int] as nat);
        assert(w[i as int] + 2 <= usize::MAX);
        push_repeat(out, '-', widths[i] + 2);
        out.push('+');
        assert(w.take(i + 1).drop_last() =~= w.take(i as int));
        assert(w.take(i + 1).last() == w[i as int]);
        assert(out@ =~= start + rule(w.take(i + 1)));
        i += 1;
    }
    assert(w.take(widths.len() as int) =~= w);
    out.push('\n');
}

fn push_plain_row(out: &mut Vec<char>, cells: &Vec<String>, widths: &Vec<usize>)
    requires
        forall|i: int| 0 <= i < cells@.len() && i < widths@.len() ==> #[trigger] blen(cells@[i]@) <= widths@[i],
        bounded(nats(widths@)),
    ensures
        final(out)@ == old(out)@ + plain_line(crate::order::string_views(cells@), nats(widths@)),
{
    let ghost start = out@;
    let ghost cv = crate::order::string_views(cells@);
    let ghost w = nats(widths@);
    let n = if cells.len() <= widths.len() { cells.len() } else { widths.len() };
    out.push('|');
    let mut i: usize = 0;
    assert(out@ =~= start + plain_cells(cv, w, 0));
    while i < n
        invariant
            i <= n,
            n <= cells@.len(),
            n <= widths@.len(),
            cv == crate::order::string_views(cells@),
            w == nats(widths@),
            forall|j: int| 0 <= j < cells@.len() && j < widths@.len() ==> #[trigger] blen(cells@[j]@) <= widths@[j],
            bounded(w),
            out@ == start + plain_cells(cv, w, i as int),
        decreases n - i,
    {
        let cell = &cells[i];
        assert(cv[i as int] == cell@);
        let len = byte_len(cell.as_str());
        assert(blen(cells@[i as int]@) <= widths@[i as int]);
        assert(w[i as int] + 2 <= usize::MAX);
        out.push(' ');
        push_chars(out, &chars_of(cell.as_str()));
        push_repeat(out, ' ', widths[i] - len + 1);
        out.push('|');
        assert(out@ =~= start + plain_cells(cv, w, i + 1));
        i += 1;
    }
    out.push('\n');
}

fn push_colored_row(out: &mut Vec<char>, cells: &Vec<String>, widths: &Vec<usize>, header: bool)
    ensures
        final(out)@ == old(out)@ + colored_line(crate::order::string_views(cells@), nats(widths@), header),
{
    let ghost start = out@;
    let ghost cv = crate::order::string_views(cells@);
    let ghost w = nats(widths@);
    let n = if cells.len() <= widths.len() { cells.len() } else { widths.len() };
    let mut i: usize = 0;
    assert(out@ =~= start + colored_cells(cv, w, 0, header));
    while i < n
        invariant
            i <= n,
            n <= cells@.len(),
            n <= widths@.len(),
            cv == crate::order::string_views(cells@),
            w == nats(widths@),
            out@ == start + colored_cells(cv, w, i as int, header),
        decreases n - i,
    {
        let cell = &cells[i];
        assert(cv[i as int] == cell@);
        if i > 0 {
            out.push(' ');
            out.push(' ');
        }
        let ghost mid = out@;
        let text = chars_of(cell.as_str());
        let width = widths[i];
        let padded = if text.len() < width {
            let mut p = crate::text::slice(&text, 0, text.len());
            assert(text@.subrange(0, text@.len() as int) =~= text@);
            push_repeat(&mut p, ' ', width - text.len());
            p
        } else {
            text
        };
        assert(padded@ == pad(cv[i as int], w[i as int]));
        if header {
            push_chars(out, &paint_exec(true, &padded, "\x1b[1m\x1b[36m"));
        } else {
            push_chars(out, &padded);
        }
        assert(out@ =~= start + colored_cells(cv, w, i + 1, header));
        i += 1;
    }
    out.push('\n');
}

/// Renders rows under headers: "No results." when there are none; with color, a
/// header line and padded rows; without, an ASCII table.
pub fn render_table(headers: &[&str], rows: &Vec<Vec<String>>, style: TableStyle) -> (r: String)
    requires
        table_fits(crate::ids::str_views(headers@), row_views(rows@)),
    ensures
        r@ == spec_render_table(crate::ids::str_views(headers@), row_views(rows@), style.color),
{
    let mut out: Vec<char> = Vec::new();
    if rows.len() == 0 {
        let msg = paint_exec(style.color, &chars_of("No results."), "\x1b[2m");
        push_chars(&mut out, &msg);
        out.push('\n');
        assert(out@ =~= paint(style.color, "No results."@, "\x1b[2m"@) + seq!['\n']);
        return string_from(&out);
    }
    let mut hs: Vec<String> = Vec::new();
    let mut i: usize = 0;
    while i < headers.len()
        invariant
            i <= headers@.len(),
            crate::order::string_views(hs@) =~= crate::ids::str_views(headers@).take(i as int),
        decreases headers@.len() - i,
    {
        let ghost before = hs@;
        hs.push(String::from_str(headers[i]));
        assert(crate::order::string_views(hs@) =~= crate::order::string_views(before).push(headers@[i as int]@));
        i += 1;
    }
    assert(crate::ids::str_views(headers@).take(headers@.len() as int) =~= crate::ids::str_views(headers@));
    let ghost hv = crate::order::string_views(hs@);
    let ghost rv = row_views(rows@);
    let widths = column_widths(&hs, rows);
    let ghost w = nats(widths@);
    proof {
        lemma_widths(hv, rv);
    }
    if style.color {
        push_colored_row(&mut out, &hs, &widths, true);
        let ghost after_header = out@;
        let mut r: usize = 0;
        assert(rv.take(0) =~= Seq::<Seq<Seq<char>>>::empty());
        while r < rows.len()
            invariant
                r <= rows@.len(),
                rv == row_views(rows@),
                w == nats(widths@),
                out@ == after_header + rows_text(rv.take(r as int), w, true),
            decreases rows@.len() - r,
        {
            push_colored_row(&mut out, &rows[r], &widths, false);
            assert(rv.take(r + 1).drop_last() =~= rv.take(r as int));
            assert(rv.take(r + 1).last() == crate::order::string_views(rows@[r as int]@));
            assert(out@ =~= after_header + rows_text(rv.take(r + 1), w, true));
            r += 1;
        }
        assert(rv.take(rows@.len() as int) =~= rv);
    } else {
        proof {
            assert forall|j: int| 0 <= j < hs@.len() && j < widths@.len() implies #[trigger] blen(hs@[j]@) <= widths@[j] by {
                assert(hv[j] == hs@[j]@);
                assert(w[j] == widths@[j] as nat);
            }
        }
        push_rule(&mut out, &widths);
        push_plain_row(&mut out, &hs, &widths);
        push_rule(&mut out, &widths);
        let ghost after_header = out@;
        let mut r: usize = 0;
        assert(rv.take(0) =~= Seq::<Seq<Seq<char>>>::empty());
        while r < rows.len()
            invariant
                r <= rows@.len(),
                rv == row_views(rows@),
                w == nats(widths@),
                bounded(w),
                forall|x: int| 0 <= x < rv.len() ==> covers(w, #[trigger] rv[x]),
                out@ == after_header + rows_text(rv.take(r as int), w, false),
            decreases rows@.len() - r,
        {
            let row = &rows[r];
            proof {
                assert(rv[r as int] == crate::order::string_views(row@));
                assert(covers(w, rv[r as int]));
                assert forall|j: int| 0 <= j < row@.len() && j < widths@.len() implies #[trigger] blen(row@[j]@) <= widths@[j] by {
                    assert(rv[r as int][j] == row@[j]@);
                    assert(w[j] == widths@[j] as nat);
                }
            }
            push_plain_row(&mut out, row, &widths);
            assert(rv.take(r + 1).drop_last() =~= rv.take(r as int));
            assert(rv.take(r + 1).last() == crate::order::string_views(rows@[r as int]@));
            assert(out@ =~= after_header + rows_text(rv.take(r + 1), w, false));
            r += 1;
        }
        assert(rv.take(rows@.len() as int) =~= rv);
        push_rule(&mut out, &widths);
    }
    string_from(&out)
}

} // verus!
