//! Output formats and the layout of text and table output.

use vstd::prelude::*;
use vstd::utf8::encode_utf8;
use crate::json::{Json, JsonV, lemma_field_view};
use crate::text::{
    lower, lower_char, to_ascii_lowercase, eq_str, opt_view, pad_right, push_padded, take_chars,
    truncate_chars, views,
};

verus! {

/// How results are printed.
#[derive(Copy, Clone, Debug, PartialEq, Eq, Structural)]
pub enum OutputFormat {
    Text,
    Json,
    Ndjson,
    Table,
}

/// A format name, case aside.
pub open spec fn spec_parse_output(s: Seq<char>) -> Option<OutputFormat> {
    let l = lower(s);
    if l == "text"@ {
        Some(OutputFormat::Text)
    } else if l == "json"@ {
        Some(OutputFormat::Json)
    } else if l == "ndjson"@ {
        Some(OutputFormat::Ndjson)
    } else if l == "table"@ {
        Some(OutputFormat::Table)
    } else {
        None
    }
}

/// Format names are read without regard to case: a name and its
/// lower-case form name the same format.
pub proof fn lemma_parse_output_ignores_case(s: Seq<char>)
    ensures
        spec_parse_output(s) == spec_parse_output(lower(s)),
{
    assert(lower(lower(s)) =~= lower(s)) by {
        assert forall|i: int| 0 <= i < s.len() implies #[trigger] lower(lower(s))[i] == lower(s)[i] by {
            let c = s[i];
            if 'A' <= c && c <= 'Z' {
                assert(((c as u32) + 32) as char == lower_char(c));
                assert(!('A' <= lower_char(c) && lower_char(c) <= 'Z'));
            }
        }
    }
}

pub fn parse_output(s: &str) -> (r: Option<OutputFormat>)
    ensures
        r == spec_parse_output(s@),
{
    let l = to_ascii_lowercase(s);
    if eq_str(l.as_str(), "text") {
        Some(OutputFormat::Text)
    } else if eq_str(l.as_str(), "json") {
        Some(OutputFormat::Json)
    } else if eq_str(l.as_str(), "ndjson") {
        Some(OutputFormat::Ndjson)
    } else if eq_str(l.as_str(), "table") {
        Some(OutputFormat::Table)
    } else {
        None
    }
}

/// The format in effect: the flag, else a valid `$SENTRY_OUTPUT`, else a
/// valid configured default, else text on a terminal and JSON otherwise.
pub open spec fn spec_resolve_output(
    cli: Option<OutputFormat>,
    env_output: Option<Seq<char>>,
    config_default: Option<Seq<char>>,
    stdout_is_terminal: bool,
) -> OutputFormat {
    match cli {
        Some(o) => o,
        None => {
            let from_env = match env_output {
                Some(e) => spec_parse_output(e),
                None => None,
            };
            match from_env {
                Some(o) => o,
                None => {
                    let from_cfg = match config_default {
                        Some(c) => spec_parse_output(c),
                        None => None,
                    };
                    match from_cfg {
                        Some(o) => o,
                        None => if stdout_is_terminal {
                            OutputFormat::Text
                        } else {
                            OutputFormat::Json
                        },
                    }
                },
            }
        },
    }
}

/// Picks the output format; `env_output` is `$SENTRY_OUTPUT` and
/// `stdout_is_terminal` whether standard output is a terminal.
pub fn resolve_output(
    cli: Option<OutputFormat>,
    env_output: Option<&str>,
    config_default: Option<&str>,
    stdout_is_terminal: bool,
) -> (r: OutputFormat)
    ensures
        r == spec_resolve_output(cli, opt_view(env_output), opt_view(config_default), stdout_is_terminal),
{
    if let Some(o) = cli {
        return o;
    }
    if let Some(e) = env_output {
        if let Some(o) = parse_output(e) {
            return o;
        }
    }
    if let Some(c) = config_default {
        if let Some(o) = parse_output(c) {
            return o;
        }
    }
    if stdout_is_terminal {
        OutputFormat::Text
    } else {
        OutputFormat::Json
    }
}

/// What is printed for an empty result: `[]` for JSON, a notice on standard
/// error for text and tables, nothing for NDJSON.
pub struct EmptyNotice {
    pub stdout: Option<String>,
    pub stderr: Option<String>,
}

pub fn empty_notice(format: OutputFormat) -> (r: EmptyNotice)
    ensures
        match format {
            OutputFormat::Json => (r.stdout matches Some(s) && s@ == "[]"@) && r.stderr is None,
            OutputFormat::Text | OutputFormat::Table => r.stdout is None && (r.stderr matches Some(s)
                && s@ == "No results."@),
            OutputFormat::Ndjson => r.stdout is None && r.stderr is None,
        },
{
    match format {
        OutputFormat::Json => EmptyNotice { stdout: Some(String::from_str("[]")), stderr: None },
        OutputFormat::Text | OutputFormat::Table => EmptyNotice {
            stdout: None,
            stderr: Some(String::from_str("No results.")),
        },
        OutputFormat::Ndjson => EmptyNotice { stdout: None, stderr: None },
    }
}

/// The values printed one per line as NDJSON: an array's elements, or the
/// value itself.
pub open spec fn spec_ndjson_items(v: JsonV) -> Seq<JsonV> {
    match v {
        JsonV::Array(a) => a,
        _ => seq![v],
    }
}

pub fn ndjson_items(value: Json) -> (r: Vec<Json>)
    ensures
        crate::json::json_views(r@) == spec_ndjson_items(value@),
{
    let ghost v = value@;
    match value {
        Json::Array(a) => {
            assert(crate::json::json_views(a@) =~= spec_ndjson_items(v));
            a
        },
        other => {
            let mut r: Vec<Json> = Vec::new();
            r.push(other);
            assert(crate::json::json_views(r@) =~= spec_ndjson_items(v));
            r
        },
    }
}

/// One output column: a header and the path of keys to its value.
pub struct Column {
    pub header: String,
    pub path: Vec<String>,
}

impl Column {
    pub fn new(header: &str, path: &[&str]) -> (r: Column)
        ensures
            r.header@ == header@,
            views(r.path@) == path@.map_values(|p: &str| p@),
    {
        let mut v: Vec<String> = Vec::new();
        let n = path.len();
        let mut i: usize = 0;
        while i < n
            invariant
                n == path@.len(),
                i <= n,
                views(v@) == path@.subrange(0, i as int).map_values(|p: &str| p@),
            decreases n - i,
        {
            let ghost old_v = v@;
            let item = String::from_str(path[i]);
            v.push(item);
            assert(views(v@) =~= views(old_v).push(path@[i as int]@));
            assert(path@.subrange(0, i + 1).map_values(|p: &str| p@) =~= path@.subrange(0, i as int).map_values(|p: &str| p@).push(path@[i as int]@));
            i = i + 1;
        }
        assert(path@.subrange(0, n as int) =~= path@);
        Column { header: String::from_str(header), path: v }
    }
}

/// The value at the end of a path of keys.
pub open spec fn walk(v: JsonV, path: Seq<Seq<char>>) -> Option<JsonV>
    decreases path.len(),
{
    if path.len() == 0 {
        Some(v)
    } else {
        match v.get(path[0]) {
            Some(x) => walk(x, path.drop_first()),
            None => None,
        }
    }
}

/// What a cell shows, before nested values are rendered.
pub enum CellV {
    Text(Seq<char>),
    Nested(JsonV),
}

/// A cell: plain text, or a nested array or object that is shown as
/// compact JSON.
pub enum Cell {
    Text(String),
    Nested(Json),
}

impl View for Cell {
    type V = CellV;

    open spec fn view(&self) -> CellV {
        match self {
            Cell::Text(s) => CellV::Text(s@),
            Cell::Nested(j) => CellV::Nested(j@),
        }
    }
}

/// The cell for what a path reached: empty for nothing or null, the text
/// of a string, `true`/`false`, a number's digits; arrays and objects are
/// nested.
pub open spec fn cell_of(v: Option<JsonV>) -> CellV {
    match v {
        None => CellV::Text(Seq::empty()),
        Some(JsonV::Null) => CellV::Text(Seq::empty()),
        Some(JsonV::Str(s)) => CellV::Text(s),
        Some(JsonV::Bool(b)) => CellV::Text(
            if b {
                "true"@
            } else {
                "false"@
            },
        ),
        Some(JsonV::Number(n)) => CellV::Text(n),
        Some(other) => CellV::Nested(other),
    }
}

/// The cell for `path` in `value`.
pub fn extract(value: &Json, path: &Vec<String>) -> (r: Cell)
    ensures
        r@ == cell_of(walk(value@, views(path@))),
{
    let n = path.len();
    let mut cur: &Json = value;
    let mut i: usize = 0;
    assert(views(path@).subrange(0, n as int) =~= views(path@));
    while i < n
        invariant
            n == path@.len(),
            i <= n,
            walk(value@, views(path@)) == walk(cur@, views(path@).subrange(i as int, n as int)),
        decreases n - i,
    {
        let ghost rest = views(path@).subrange(i as int, n as int);
        assert(rest[0] == path@[i as int]@);
        assert(rest.drop_first() =~= views(path@).subrange(i + 1, n as int));
        proof {
            lemma_field_view(*cur, path@[i as int]@);
        }
        match cur.get(path[i].as_str()) {
            Some(v) => {
                cur = v;
            },
            None => {
                return Cell::Text(String::new());
            },
        }
        i = i + 1;
    }
    assert(views(path@).subrange(n as int, n as int) =~= Seq::<Seq<char>>::empty());
    match cur {
        Json::Null => Cell::Text(String::new()),
        Json::Str(s) => Cell::Text(s.clone()),
        Json::Bool(b) => Cell::Text(
            if *b {
                String::from_str("true")
            } else {
                String::from_str("false")
            },
        ),
        Json::Number(n) => Cell::Text(n.clone()),
        other => Cell::Nested(other.duplicate()),
    }
}

/// The rows a value contributes to text and table output: an array's
/// elements, or an object as one row; other values print nothing.
pub open spec fn rows_of(v: JsonV) -> Option<Seq<JsonV>> {
    match v {
        JsonV::Array(a) => Some(a),
        JsonV::Object(_) => Some(seq![v]),
        _ => None,
    }
}

/// How text and table output lay a value out.
pub enum Layout {
    /// Print nothing.
    Nothing,
    /// No columns: print the value as JSON.
    WholeJson,
    /// One row of cells per row, one cell per column.
    Rows(Vec<Vec<Cell>>),
}

pub open spec fn cell_views(rows: Seq<Vec<Cell>>) -> Seq<Seq<CellV>> {
    rows.map_values(|r: Vec<Cell>| r@.map_values(|c: Cell| c@))
}

/// The cells of each row under each column.
pub open spec fn spec_cells(rows: Seq<JsonV>, paths: Seq<Seq<Seq<char>>>) -> Seq<Seq<CellV>> {
    Seq::new(rows.len(), |i: int| Seq::new(paths.len(), |j: int| cell_of(walk(rows[i], paths[j]))))
}

pub open spec fn column_paths(columns: Seq<Column>) -> Seq<Seq<Seq<char>>> {
    columns.map_values(|c: Column| views(c.path@))
}

pub open spec fn column_headers(columns: Seq<Column>) -> Seq<Seq<char>> {
    columns.map_values(|c: Column| c.header@)
}

fn row_cells(row: &Json, columns: &Vec<Column>) -> (r: Vec<Cell>)
    ensures
        r@.map_values(|c: Cell| c@) == Seq::new(
            columns@.len(),
            |j: int| cell_of(walk(row@, column_paths(columns@)[j])),
        ),
{
    let m = columns.len();
    let mut out: Vec<Cell> = Vec::new();
    let mut j: usize = 0;
    while j < m
        invariant
            m == columns@.len(),
            j <= m,
            out@.len() == j,
            forall|k: int| 0 <= k < j ==> (#[trigger] out@[k])@ == cell_of(walk(row@, column_paths(columns@)[k])),
        decreases m - j,
    {
        let c = extract(row, &columns[j].path);
        out.push(c);
        j = j + 1;
    }
    assert(out@.map_values(|c: Cell| c@) =~= Seq::new(
        columns@.len(),
        |j: int| cell_of(walk(row@, column_paths(columns@)[j])),
    ));
    out
}

/// Lays a value out in columns, as text and table output do.
pub fn layout(value: &Json, columns: &Vec<Column>) -> (r: Layout)
    ensures
        match rows_of(value@) {
            None => r is Nothing,
            Some(rows) => if columns@.len() == 0 {
                r is WholeJson
            } else {
                r matches Layout::Rows(cells) && cell_views(cells@) == spec_cells(rows, column_paths(columns@))
            },
        },
{
    let ghost rows = rows_of(value@);
    match value {
        Json::Array(items) => {
            if columns.len() == 0 {
                return Layout::WholeJson;
            }
            let n = items.len();
            let mut out: Vec<Vec<Cell>> = Vec::new();
            let mut i: usize = 0;
            while i < n
                invariant
                    n == items@.len(),
                    i <= n,
                    out@.len() == i,
                    value@ == Json::Array(*items)@,
                    forall|k: int| 0 <= k < i ==> (#[trigger] out@[k])@.map_values(|c: Cell| c@) == Seq::new(
                        columns@.len(),
                        |j: int| cell_of(walk(items@[k]@, column_paths(columns@)[j])),
                    ),
                decreases n - i,
            {
                let cells = row_cells(&items[i], columns);
                out.push(cells);
                i = i + 1;
            }
            proof {
                let a = rows.unwrap();
                assert(a.len() == n);
                assert(cell_views(out@) =~= spec_cells(a, column_paths(columns@)));
            }
            Layout::Rows(out)
        },
        Json::Object(_) => {
            if columns.len() == 0 {
                return Layout::WholeJson;
            }
            let cells = row_cells(value, columns);
            let mut out: Vec<Vec<Cell>> = Vec::new();
            out.push(cells);
            assert(cell_views(out@) =~= spec_cells(rows.unwrap(), column_paths(columns@)));
            Layout::Rows(out)
        },
        _ => Layout::Nothing,
    }
}

/// Byte length, as `str::len` counts it.
pub open spec fn byte_len(s: Seq<char>) -> nat {
    (encode_utf8(s).len() as usize) as nat
}

/// Widest a text cell is measured at.
pub open spec fn cell_cap() -> nat {
    120
}

/// Width of column `j`: its header's length, or the longest cell (counted
/// in characters, up to 120) if wider.
pub open spec fn column_width(header: Seq<char>, cells: Seq<Seq<Seq<char>>>, j: int) -> nat
    decreases cells.len(),
{
    if cells.len() == 0 {
        byte_len(header)
    } else {
        let w = column_width(header, cells.drop_last(), j);
        let c = take_chars(cells.last()[j], cell_cap()).len();
        if c > w {
            c
        } else {
            w
        }
    }
}

/// One output line: the texts padded to their widths, two spaces apart.
pub open spec fn line_of(texts: Seq<Seq<char>>, widths: Seq<nat>) -> Seq<char>
    decreases texts.len(),
{
    if texts.len() == 0 {
        Seq::empty()
    } else {
        let k = texts.len() - 1;
        line_of(texts.drop_last(), widths) + (if k > 0 {
            "  "@
        } else {
            Seq::empty()
        }) + pad_right(texts[k], widths[k])
    }
}

pub open spec fn widths_of(headers: Seq<Seq<char>>, cells: Seq<Seq<Seq<char>>>) -> Seq<nat> {
    Seq::new(headers.len(), |j: int| column_width(headers[j], cells, j))
}

/// The lines of text output: the header line, then one line per row with
/// each cell cut to 120 characters.
pub open spec fn spec_text_lines(headers: Seq<Seq<char>>, cells: Seq<Seq<Seq<char>>>) -> Seq<Seq<char>> {
    let w = widths_of(headers, cells);
    seq![line_of(headers, w)] + Seq::new(
        cells.len(),
        |i: int| line_of(cells[i].map_values(|c: Seq<char>| take_chars(c, cell_cap())), w),
    )
}

pub open spec fn rows_views(cells: Seq<Vec<String>>) -> Seq<Seq<Seq<char>>> {
    cells.map_values(|r: Vec<String>| views(r@))
}

fn width_of(headers: &Vec<String>, cells: &Vec<Vec<String>>, j: usize) -> (w: usize)
    requires
        j < headers@.len(),
        forall|i: int| 0 <= i < cells@.len() ==> (#[trigger] cells@[i])@.len() == headers@.len(),
    ensures
        w == column_width(headers@[j as int]@, rows_views(cells@), j as int),
{
    let mut w = headers[j].as_str().len();
    let n = cells.len();
    let mut i: usize = 0;
    assert(rows_views(cells@).subrange(0, 0) =~= Seq::<Seq<Seq<char>>>::empty());
    while i < n
        invariant
            n == cells@.len(),
            i <= n,
            j < headers@.len(),
            forall|i: int| 0 <= i < cells@.len() ==> (#[trigger] cells@[i])@.len() == headers@.len(),
            w == column_width(headers@[j as int]@, rows_views(cells@).subrange(0, i as int), j as int),
        decreases n - i,
    {
        let t = truncate_chars(cells[i][j].as_str(), 120);
        let c = t.as_str().unicode_len();
        proof {
            let sub = rows_views(cells@).subrange(0, i + 1);
            assert(sub.drop_last() =~= rows_views(cells@).subrange(0, i as int));
            assert(sub.last() == views(cells@[i as int]@));
        }
        if c > w {
            w = c;
        }
        i = i + 1;
    }
    assert(rows_views(cells@).subrange(0, n as int) =~= rows_views(cells@));
    w
}

fn render_line(texts: &Vec<String>, widths: &Vec<usize>, cap: bool) -> (r: String)
    requires
        widths@.len() == texts@.len(),
    ensures
        r@ == line_of(
            if cap {
                views(texts@).map_values(|c: Seq<char>| take_chars(c, cell_cap()))
            } else {
                views(texts@)
            },
            widths@.map_values(|w: usize| w as nat),
        ),
{
    let ghost ts = if cap {
        views(texts@).map_values(|c: Seq<char>| take_chars(c, cell_cap()))
    } else {
        views(texts@)
    };
    let ghost ws = widths@.map_values(|w: usize| w as nat);
    let m = texts.len();
    let mut out = String::new();
    let mut j: usize = 0;
    while j < m
        invariant
            m == texts@.len(),
            widths@.len() == m,
            ts.len() == m,
            ts == if cap {
                views(texts@).map_values(|c: Seq<char>| take_chars(c, cell_cap()))
            } else {
                views(texts@)
            },
            ws == widths@.map_values(|w: usize| w as nat),
            j <= m,
            out@ == line_of(ts.subrange(0, j as int), ws),
        decreases m - j,
    {
        if j > 0 {
            out.append("  ");
        }
        if cap {
            let t = truncate_chars(texts[j].as_str(), 120);
            push_padded(&mut out, t.as_str(), widths[j]);
        } else {
            push_padded(&mut out, texts[j].as_str(), widths[j]);
        }
        proof {
            let sub = ts.subrange(0, j + 1);
            assert(sub.drop_last() =~= ts.subrange(0, j as int));
            assert(sub[j as int] == ts[j as int]);
        }
        j = j + 1;
    }
    assert(ts.subrange(0, m as int) =~= ts);
    out
}

/// The lines of text output for headers and rows of cell texts.
pub fn render_text(headers: &Vec<String>, cells: &Vec<Vec<String>>) -> (r: Vec<String>)
    requires
        forall|i: int| 0 <= i < cells@.len() ==> (#[trigger] cells@[i])@.len() == headers@.len(),
    ensures
        views(r@) == spec_text_lines(views(headers@), rows_views(cells@)),
{
    let m = headers.len();
    let mut widths: Vec<usize> = Vec::new();
    let mut j: usize = 0;
    while j < m
        invariant
            m == headers@.len(),
            j <= m,
            forall|i: int| 0 <= i < cells@.len() ==> (#[trigger] cells@[i])@.len() == headers@.len(),
            widths@.len() == j,
            forall|k: int| 0 <= k < j ==> #[trigger] widths@[k] == column_width(headers@[k]@, rows_views(cells@), k),
        decreases m - j,
    {
        let w = width_of(headers, cells, j);
        widths.push(w);
        j = j + 1;
    }
    let ghost w = widths_of(views(headers@), rows_views(cells@));
    assert(widths@.map_values(|x: usize| x as nat) =~= w);
    let mut lines: Vec<String> = Vec::new();
    lines.push(render_line(headers, &widths, false));
    let n = cells.len();
    let mut i: usize = 0;
    while i < n
        invariant
            n == cells@.len(),
            m == headers@.len(),
            widths@.len() == m,
            forall|i: int| 0 <= i < cells@.len() ==> (#[trigger] cells@[i])@.len() == headers@.len(),
            w == widths_of(views(headers@), rows_views(cells@)),
            widths@.map_values(|x: usize| x as nat) == w,
            i <= n,
            views(lines@) == spec_text_lines(views(headers@), rows_views(cells@)).subrange(0, i + 1),
        decreases n - i,
    {
        let line = render_line(&cells[i], &widths, true);
        let ghost old_lines = views(lines@);
        let ghost lv = line@;
        lines.push(line);
        proof {
            assert(views(lines@) =~= old_lines.push(lv));
            let all = spec_text_lines(views(headers@), rows_views(cells@));
            assert(rows_views(cells@)[i as int] == views(cells@[i as int]@));
            assert(views(lines@) =~= all.subrange(0, i + 2));
        }
        i = i + 1;
    }
    assert(spec_text_lines(views(headers@), rows_views(cells@)).subrange(0, n + 1) =~= spec_text_lines(
        views(headers@),
        rows_views(cells@),
    ));
    lines
}

/// The text that `comfy_table` renders for a header row and rows.
pub uninterp spec fn table_text(headers: Seq<Seq<char>>, rows: Seq<Seq<Seq<char>>>) -> Seq<char>;

/// `comfy_table::Table::new()`, `set_header`, `add_rows`, then `to_string()`;
/// the text is `table_text(..)`, which depends on the cells alone (the
/// table is laid out without a width limit).
#[verifier::external_body]
fn render_table(headers: &Vec<String>, rows: &Vec<Vec<String>>) -> (r: String)
    ensures
        r@ == table_text(views(headers@), rows_views(rows@)),
{
    let mut table = comfy_table::Table::new();
    table.set_header(headers.clone());
    table.add_rows(rows.clone());
    table.to_string()
}

/// The column headers, in order.
pub fn headers_of(columns: &Vec<Column>) -> (r: Vec<String>)
    ensures
        views(r@) == column_headers(columns@),
{
    let n = columns.len();
    let mut r: Vec<String> = Vec::new();
    let mut i: usize = 0;
    while i < n
        invariant
            n == columns@.len(),
            i <= n,
            views(r@) == column_headers(columns@).subrange(0, i as int),
        decreases n - i,
    {
        let ghost before = views(r@);
        r.push(columns[i].header.clone());
        assert(views(r@) =~= before.push(columns@[i as int].header@));
        assert(column_headers(columns@).subrange(0, i + 1) =~= column_headers(columns@).subrange(0, i as int).push(
            columns@[i as int].header@,
        ));
        i = i + 1;
    }
    assert(column_headers(columns@).subrange(0, n as int) =~= column_headers(columns@));
    r
}

/// Table output: a header row of the column headers over the rows of cell
/// texts, as `comfy_table` draws it.
pub fn table_output(columns: &Vec<Column>, rows: &Vec<Vec<String>>) -> (r: String)
    ensures
        r@ == table_text(column_headers(columns@), rows_views(rows@)),
{
    let headers = headers_of(columns);
    render_table(&headers, rows)
}

} // verus!
