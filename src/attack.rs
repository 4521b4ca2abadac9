//! Tables of a page as rows of column strings, how they are found in a parsed
//! document, and how flat rows are regrouped into parents and children.

pub mod data_sources;
pub mod groups;
pub mod mitigations;
pub mod software;
pub mod tactics;
pub mod techniques;

use crate::error::Error;
use crate::html::{
    attr, has_anc, in_head_row, is_element, is_leaf, is_named, is_named_with_class, nearest_named,
    parent_of, text_of, Document,
};
use crate::text::{string_of, trim_chars, trimmed};
use vstd::prelude::*;

verus! {

/// The views of a list of strings.
pub open spec fn str_views(v: Seq<String>) -> Seq<Seq<char>> {
    v.map_values(|c: String| c@)
}

pub proof fn lemma_str_views_push(v: Seq<String>, x: String)
    ensures
        str_views(v.push(x)) == str_views(v).push(x@),
{
    assert(str_views(v.push(x)) =~= str_views(v).push(x@));
}

/// One row of a table: its column strings, left to right.
#[derive(Debug, Default)]
pub struct Row {
    pub cols: Vec<String>,
}

impl View for Row {
    type V = Seq<Seq<char>>;

    open spec fn view(&self) -> Seq<Seq<char>> {
        str_views(self.cols@)
    }
}

/// Column `i` of a row, if the row has one.
pub open spec fn col(row: Seq<Seq<char>>, i: int) -> Option<Seq<char>> {
    if 0 <= i < row.len() {
        Some(row[i])
    } else {
        None
    }
}

/// Column `i` of a row, or the empty string where the row is shorter.
pub open spec fn col_or_empty(row: Seq<Seq<char>>, i: int) -> Seq<char> {
    if 0 <= i < row.len() {
        row[i]
    } else {
        seq![]
    }
}

impl Row {
    /// Column `inx`, if the row has one.
    pub fn get_col(&self, inx: usize) -> (r: Option<&String>)
        ensures
            r matches Some(c) ==> col(self@, inx as int) == Some(c@),
            r is None ==> col(self@, inx as int) is None,
    {
        if inx < self.cols.len() {
            Some(&self.cols[inx])
        } else {
            None
        }
    }

    /// A copy of the row.
    pub fn duplicate(&self) -> (r: Row)
        ensures
            r@ == self@,
    {
        let mut cols: Vec<String> = Vec::new();
        let mut i: usize = 0;
        while i < self.cols.len()
            invariant
                i <= self.cols.len(),
                str_views(cols@) == str_views(self.cols@.subrange(0, i as int)),
            decreases self.cols.len() - i,
        {
            proof {
                lemma_str_views_push(cols@, self.cols@[i as int]);
                assert(self.cols@.subrange(0, i + 1) == self.cols@.subrange(0, i as int).push(
                    self.cols@[i as int],
                ));
                lemma_str_views_push(self.cols@.subrange(0, i as int), self.cols@[i as int]);
            }
            cols.push(self.cols[i].clone());
            i = i + 1;
        }
        proof {
            assert(self.cols@.subrange(0, self.cols@.len() as int) == self.cols@);
        }
        Row { cols }
    }
}

/// What a table holds: its header labels and its rows.
pub struct TableView {
    pub headers: Seq<Seq<char>>,
    pub rows: Seq<Seq<Seq<char>>>,
}

/// The views of a list of rows.
pub open spec fn row_views(v: Seq<Row>) -> Seq<Seq<Seq<char>>> {
    v.map_values(|r: Row| r@)
}

pub proof fn lemma_row_views_push(v: Seq<Row>, x: Row)
    ensures
        row_views(v.push(x)) == row_views(v).push(x@),
{
    assert(row_views(v.push(x)) =~= row_views(v).push(x@));
}

/// A table: header labels and rows, both in document order.
#[derive(Debug, Default)]
pub struct Table {
    pub headers: Vec<String>,
    pub rows: Vec<Row>,
}

impl View for Table {
    type V = TableView;

    open spec fn view(&self) -> TableView {
        TableView { headers: str_views(self.headers@), rows: row_views(self.rows@) }
    }
}

impl Table {
    /// Whether the table has no rows.
    pub fn is_empty(&self) -> (r: bool)
        ensures
            r == (self.rows@.len() == 0),
    {
        self.rows.len() == 0
    }
}

/// Whether node `e` is a header cell of table `t`: an element without element
/// children below a row of the table's head, and not inside a table nested in `t`.
pub open spec fn is_head_cell(s: Seq<crate::html::HtmlNode>, t: int, e: int) -> bool {
    nearest_named(s, e, "table"@) == Some(t) && is_element(s, e) && in_head_row(s, e) && is_leaf(
        s,
        e,
    )
}

/// The trimmed texts of the header cells of table `t` among the first `k` nodes.
pub open spec fn headers_upto(s: Seq<crate::html::HtmlNode>, t: int, k: int) -> Seq<Seq<char>>
    decreases k,
{
    if k <= 0 {
        seq![]
    } else if is_head_cell(s, t, k - 1) {
        headers_upto(s, t, k - 1).push(trimmed(text_of(s, k - 1)))
    } else {
        headers_upto(s, t, k - 1)
    }
}

/// Whether node `c` is a cell (`td`) of row `r`: a `td` whose nearest
/// enclosing row is `r`. The cells of a table nested in a cell belong to the
/// nested table's rows; their text is part of the enclosing cell's text.
pub open spec fn is_cell(s: Seq<crate::html::HtmlNode>, r: int, c: int) -> bool {
    nearest_named(s, c, "tr"@) == Some(r) && is_named(s, c, "td"@)
}

/// The trimmed texts of the cells of row `r` among the first `k` nodes.
pub open spec fn cells_upto(s: Seq<crate::html::HtmlNode>, r: int, k: int) -> Seq<Seq<char>>
    decreases k,
{
    if k <= 0 {
        seq![]
    } else if is_cell(s, r, k - 1) {
        cells_upto(s, r, k - 1).push(trimmed(text_of(s, k - 1)))
    } else {
        cells_upto(s, r, k - 1)
    }
}

/// Whether node `r` is a body row of table `t`: a `tr` below a `tbody` whose
/// nearest enclosing table is `t`, so that the rows of a nested table are not
/// read as rows of `t`.
pub open spec fn is_body_row(s: Seq<crate::html::HtmlNode>, t: int, r: int) -> bool {
    nearest_named(s, r, "table"@) == Some(t) && is_named(s, r, "tr"@) && has_anc(
        s,
        r,
        "tbody"@,
        None,
    )
}

/// The body rows of table `t` among the first `k` nodes.
pub open spec fn rows_upto(s: Seq<crate::html::HtmlNode>, t: int, k: int) -> Seq<Seq<Seq<char>>>
    decreases k,
{
    if k <= 0 {
        seq![]
    } else if is_body_row(s, t, k - 1) {
        rows_upto(s, t, k - 1).push(cells_upto(s, k - 1, s.len() as int))
    } else {
        rows_upto(s, t, k - 1)
    }
}

/// The table that element `t` holds.
pub open spec fn table_view(s: Seq<crate::html::HtmlNode>, t: int) -> TableView {
    TableView { headers: headers_upto(s, t, s.len() as int), rows: rows_upto(s, t, s.len() as int) }
}

/// The tables held by the `table` elements among the first `k` nodes.
pub open spec fn tables_upto(s: Seq<crate::html::HtmlNode>, k: int) -> Seq<TableView>
    decreases k,
{
    if k <= 0 {
        seq![]
    } else if is_named(s, k - 1, "table"@) {
        tables_upto(s, k - 1).push(table_view(s, k - 1))
    } else {
        tables_upto(s, k - 1)
    }
}

/// Every table of the document, in document order.
pub open spec fn all_tables(s: Seq<crate::html::HtmlNode>) -> Seq<TableView> {
    tables_upto(s, s.len() as int)
}

/// The trimmed text of node `j`.
fn trimmed_text(doc: &Document, j: usize) -> (r: String)
    ensures
        r@ == trimmed(text_of(doc.nodes@, j as int)),
{
    let t = doc.text_chars(j);
    let tt = trim_chars(&t);
    string_of(&tt)
}

/// The row that node `r` holds: the trimmed text of each of its cells.
fn scrape_row(doc: &Document, r: usize) -> (row: Row)
    ensures
        row@ == cells_upto(doc.nodes@, r as int, doc.nodes@.len() as int),
{
    let ghost s = doc.nodes@;
    let mut cols: Vec<String> = Vec::new();
    let mut k: usize = if r < doc.len() {
        r + 1
    } else {
        doc.len()
    };
    proof {
        lemma_cells_before(s, r as int, k as int);
    }
    while k < doc.len()
        invariant
            s == doc.nodes@,
            k <= s.len(),
            str_views(cols@) == cells_upto(s, r as int, k as int),
        decreases s.len() - k,
    {
        if doc.is_named(k, "td") && doc.nearest_named(k, "tr") == Some(r) {
            let c = trimmed_text(doc, k);
            proof {
                lemma_str_views_push(cols@, c);
            }
            cols.push(c);
        }
        k = k + 1;
    }
    Row { cols }
}

proof fn lemma_cells_before(s: Seq<crate::html::HtmlNode>, r: int, k: int)
    requires
        k <= r + 1,
    ensures
        cells_upto(s, r, k) == Seq::<Seq<char>>::empty(),
    decreases k,
{
    if k > 0 {
        if nearest_named(s, k - 1, "tr"@) is Some {
            crate::html::lemma_nearest_before(s, k - 1, "tr"@);
        }
        lemma_cells_before(s, r, k - 1);
    }
}

/// Extracts the table that element `t` holds: the trimmed text of each leaf
/// element below a head row, and for each body row the trimmed text of each of
/// its cells. A row without cells is kept as an empty row.
pub fn scrape_table(doc: &Document, t: usize) -> (r: Table)
    ensures
        r@ == table_view(doc.nodes@, t as int),
{
    let ghost s = doc.nodes@;
    let mut headers: Vec<String> = Vec::new();
    let mut rows: Vec<Row> = Vec::new();
    let mut k: usize = 0;
    while k < doc.len()
        invariant
            s == doc.nodes@,
            k <= s.len(),
            str_views(headers@) == headers_upto(s, t as int, k as int),
            row_views(rows@) == rows_upto(s, t as int, k as int),
        decreases s.len() - k,
    {
        let in_table = doc.nearest_named(k, "table") == Some(t);
        if in_table && doc.is_element(k) && doc.in_head_row(k) && doc.is_leaf(k) {
            let h = trimmed_text(doc, k);
            proof {
                lemma_str_views_push(headers@, h);
            }
            headers.push(h);
        }
        if in_table && doc.is_named(k, "tr") && doc.has_ancestor(k, "tbody", None) {
            let row = scrape_row(doc, k);
            proof {
                lemma_row_views_push(rows@, row);
            }
            rows.push(row);
        }
        k = k + 1;
    }
    Table { headers, rows }
}

/// Every table of a document, in document order.
pub fn scrape_tables(doc: &Document) -> (r: Vec<Table>)
    ensures
        r@.map_values(|t: Table| t@) == all_tables(doc.nodes@),
{
    let ghost s = doc.nodes@;
    let mut tables: Vec<Table> = Vec::new();
    let mut k: usize = 0;
    while k < doc.len()
        invariant
            s == doc.nodes@,
            k <= s.len(),
            tables@.map_values(|t: Table| t@) == tables_upto(s, k as int),
        decreases s.len() - k,
    {
        if doc.is_named(k, "table") {
            let t = scrape_table(doc, k);
            proof {
                assert(tables@.push(t).map_values(|t: Table| t@) =~= tables@.map_values(
                    |t: Table| t@,
                ).push(t@));
            }
            tables.push(t);
        }
        k = k + 1;
    }
    tables
}

/// The last table of a document, if it has one.
pub fn last_table(doc: &Document) -> (r: Option<Table>)
    ensures
        all_tables(doc.nodes@).len() == 0 ==> r is None,
        all_tables(doc.nodes@).len() > 0 ==> (r matches Some(t) && t@ == all_tables(
            doc.nodes@,
        ).last()),
{
    let mut tables = scrape_tables(doc);
    tables.pop()
}

/// The first table of a document, if it has one.
pub fn first_table(doc: &Document) -> (r: Option<Table>)
    ensures
        all_tables(doc.nodes@).len() == 0 ==> r is None,
        all_tables(doc.nodes@).len() > 0 ==> (r matches Some(t) && t@ == all_tables(
            doc.nodes@,
        )[0]),
{
    let mut tables = scrape_tables(doc);
    if tables.len() > 0 {
        let t = tables.remove(0);
        Some(t)
    } else {
        None
    }
}

/// Whether node `j` is a direct child of the page container (a `div` with class
/// `container-fluid`) that is an `h2`, a `table` or a `p`.
pub open spec fn is_section_child(s: Seq<crate::html::HtmlNode>, j: int) -> bool {
    &&& parent_of(s, j) matches Some(p)
    &&& is_named_with_class(s, p, "div"@, "container-fluid"@)
    &&& (is_named(s, j, "h2"@) || is_named(s, j, "table"@) || is_named(s, j, "p"@))
}

/// The section scan after the first `k` nodes: the current section slug (the
/// `id` of the last `h2` met, if it has one) and the (slug, table) pairs met so
/// far, each table paired with the slug current when it was met.
pub open spec fn sections_upto(s: Seq<crate::html::HtmlNode>, k: int) -> (
    Option<Seq<char>>,
    Seq<(Seq<char>, TableView)>,
)
    decreases k,
{
    if k <= 0 {
        (None, seq![])
    } else {
        let prev = sections_upto(s, k - 1);
        let j = k - 1;
        if is_section_child(s, j) && is_named(s, j, "h2"@) {
            (attr(s, j, "id"@), prev.1)
        } else if is_section_child(s, j) && is_named(s, j, "table"@) && prev.0 is Some {
            (prev.0, prev.1.push((prev.0->0, table_view(s, j))))
        } else {
            prev
        }
    }
}

/// The (slug, table) pairs of a detail page, in document order.
pub open spec fn section_entries(s: Seq<crate::html::HtmlNode>) -> Seq<(Seq<char>, TableView)> {
    sections_upto(s, s.len() as int).1
}

/// The table of the last pair whose slug is `slug`.
pub open spec fn section_lookup(entries: Seq<(Seq<char>, TableView)>, slug: Seq<char>) -> Option<
    TableView,
>
    decreases entries.len(),
{
    if entries.len() == 0 {
        None
    } else if entries.last().0 == slug {
        Some(entries.last().1)
    } else {
        section_lookup(entries.drop_last(), slug)
    }
}

/// The table of section `slug` of a detail page; where the slug heads several
/// tables, the last of them.
pub open spec fn section_table(s: Seq<crate::html::HtmlNode>, slug: Seq<char>) -> Option<TableView> {
    section_lookup(section_entries(s), slug)
}

/// The tables of a detail page, each with the slug of the section it stands in.
pub struct SectionTables {
    pub entries: Vec<(String, Table)>,
}

/// The views of (slug, table) pairs.
pub open spec fn entry_views(v: Seq<(String, Table)>) -> Seq<(Seq<char>, TableView)> {
    v.map_values(|e: (String, Table)| (e.0@, e.1@))
}

impl View for SectionTables {
    type V = Seq<(Seq<char>, TableView)>;

    open spec fn view(&self) -> Seq<(Seq<char>, TableView)> {
        entry_views(self.entries@)
    }
}

impl SectionTables {
    /// The table of section `slug`: the last one where several share the slug.
    pub fn get(&self, slug: &str) -> (r: Option<&Table>)
        ensures
            r matches Some(t) ==> section_lookup(self@, slug@) == Some(t@),
            r is None ==> section_lookup(self@, slug@) is None,
    {
        let mut i: usize = self.entries.len();
        assert(self.entries@.subrange(0, i as int) == self.entries@);
        while i > 0
            invariant
                i <= self.entries.len(),
                section_lookup(self@, slug@) == section_lookup(
                    entry_views(self.entries@.subrange(0, i as int)),
                    slug@,
                ),
            decreases i,
        {
            let ghost pre = entry_views(self.entries@.subrange(0, i as int));
            proof {
                assert(pre.last() == (self.entries@[i - 1].0@, self.entries@[i - 1].1@));
                assert(pre.drop_last() == entry_views(self.entries@.subrange(0, i - 1)));
            }
            if crate::html::str_eq(self.entries[i - 1].0.as_str(), slug) {
                return Some(&self.entries[i - 1].1);
            }
            i = i - 1;
        }
        None
    }
}

/// Collects the tables of a detail page by section: scanning the direct
/// children of the page container in order, an `h2` sets the current slug to
/// its `id` (none where it has no `id`), and each `table` met while a slug is
/// current is paired with it.
pub fn scrape_entity_h2_tables(doc: &Document) -> (r: SectionTables)
    ensures
        r@ == section_entries(doc.nodes@),
{
    let ghost s = doc.nodes@;
    let mut entries: Vec<(String, Table)> = Vec::new();
    let mut slug: Option<String> = None;
    let mut k: usize = 0;
    while k < doc.len()
        invariant
            s == doc.nodes@,
            k <= s.len(),
            entry_views(entries@) == sections_upto(s, k as int).1,
            match slug {
                Some(v) => sections_upto(s, k as int).0 == Some(v@),
                None => sections_upto(s, k as int).0 is None,
            },
        decreases s.len() - k,
    {
        let in_container = match doc.parent(k) {
            Some(p) => doc.is_named_with_class(p, "div", "container-fluid"),
            None => false,
        };
        proof {
            assert((in_container && (is_named(s, k as int, "h2"@) || is_named(s, k as int, "table"@)
                || is_named(s, k as int, "p"@))) == is_section_child(s, k as int));
        }
        if in_container && doc.is_named(k, "h2") {
            slug = match doc.attr(k, "id") {
                Some(v) => Some(v.clone()),
                None => None,
            };
        } else if in_container && doc.is_named(k, "table") && slug.is_some() {
            let t = scrape_table(doc, k);
            let name = slug.clone().unwrap();
            proof {
                assert(entry_views(entries@.push((name, t))) =~= entry_views(entries@).push(
                    (name@, t@),
                ));
            }
            entries.push((name, t));
        }
        k = k + 1;
    }
    SectionTables { entries }
}

/// Whether node `j` is a text node whose parent is an `h1`.
pub open spec fn is_title_text(s: Seq<crate::html::HtmlNode>, j: int) -> bool {
    &&& crate::html::is_text(s, j)
    &&& parent_of(s, j) matches Some(p)
    &&& is_named(s, p, "h1"@)
}

/// The trimmed texts of the title text nodes among the first `k` nodes.
pub open spec fn title_parts_upto(s: Seq<crate::html::HtmlNode>, k: int) -> Seq<Seq<char>>
    decreases k,
{
    if k <= 0 {
        seq![]
    } else if is_title_text(s, k - 1) {
        title_parts_upto(s, k - 1).push(trimmed(text_of(s, k - 1)))
    } else {
        title_parts_upto(s, k - 1)
    }
}

/// The name of the entity a detail page describes: the trimmed texts of the
/// page's `h1` headings joined by single spaces.
pub open spec fn entity_name(s: Seq<crate::html::HtmlNode>) -> Seq<char> {
    crate::text::join(title_parts_upto(s, s.len() as int), seq![' '])
}

/// Whether node `j` is a text node whose parent is a `p` that lies below a
/// `div` with class `description-body`.
pub open spec fn is_description_text(s: Seq<crate::html::HtmlNode>, j: int) -> bool {
    &&& crate::html::is_text(s, j)
    &&& parent_of(s, j) matches Some(p)
    &&& is_named(s, p, "p"@)
    &&& has_anc(s, j, "div"@, Some("description-body"@))
}

/// The texts of the description text nodes among the first `k` nodes.
pub open spec fn description_parts_upto(s: Seq<crate::html::HtmlNode>, k: int) -> Seq<Seq<char>>
    decreases k,
{
    if k <= 0 {
        seq![]
    } else if is_description_text(s, k - 1) {
        description_parts_upto(s, k - 1).push(text_of(s, k - 1))
    } else {
        description_parts_upto(s, k - 1)
    }
}

/// The description of the entity a detail page describes: its paragraphs
/// joined by line breaks, then stripped of citation markers with its words
/// joined by single spaces.
pub open spec fn entity_description(s: Seq<crate::html::HtmlNode>) -> Seq<char> {
    crate::text::strip_refs(
        crate::text::join(description_parts_upto(s, s.len() as int), seq!['\n']),
    )
}

/// Views of character vectors pushed one more.
proof fn lemma_views_push(v: Seq<Vec<char>>, x: Vec<char>)
    ensures
        crate::text::views(v.push(x)) == crate::text::views(v).push(x@),
{
    assert(crate::text::views(v.push(x)) =~= crate::text::views(v).push(x@));
}

/// The name of the entity a detail page describes.
pub fn scrape_entity_name(doc: &Document) -> (r: String)
    ensures
        r@ == entity_name(doc.nodes@),
{
    let ghost s = doc.nodes@;
    let mut parts: Vec<Vec<char>> = Vec::new();
    let mut k: usize = 0;
    while k < doc.len()
        invariant
            s == doc.nodes@,
            k <= s.len(),
            crate::text::views(parts@) == title_parts_upto(s, k as int),
        decreases s.len() - k,
    {
        let under_title = match doc.parent(k) {
            Some(p) => doc.is_named(p, "h1"),
            None => false,
        };
        if doc.is_text(k) && under_title {
            let t = trim_chars(&doc.text_chars(k));
            proof {
                lemma_views_push(parts@, t);
            }
            parts.push(t);
        }
        k = k + 1;
    }
    let space: Vec<char> = vec![' '];
    proof {
        assert(space@ == seq![' ']);
    }
    let joined = crate::text::join_chars(&parts, &space);
    string_of(&joined)
}

/// The description of the entity a detail page describes.
pub fn scrape_entity_description(doc: &Document) -> (r: String)
    ensures
        r@ == entity_description(doc.nodes@),
{
    let ghost s = doc.nodes@;
    let mut parts: Vec<Vec<char>> = Vec::new();
    let mut k: usize = 0;
    while k < doc.len()
        invariant
            s == doc.nodes@,
            k <= s.len(),
            crate::text::views(parts@) == description_parts_upto(s, k as int),
        decreases s.len() - k,
    {
        let under_paragraph = match doc.parent(k) {
            Some(p) => doc.is_named(p, "p"),
            None => false,
        };
        if doc.is_text(k) && under_paragraph && doc.has_ancestor(
            k,
            "div",
            Some("description-body"),
        ) {
            let t = doc.text_chars(k);
            proof {
                lemma_views_push(parts@, t);
            }
            parts.push(t);
        }
        k = k + 1;
    }
    let nl: Vec<char> = vec!['\n'];
    proof {
        assert(nl@ == seq!['\n']);
    }
    let joined = crate::text::join_chars(&parts, &nl);
    crate::text::remove_ext_link_ref(string_of(&joined).as_str())
}

/// Whether `row` starts a new parent: its marker column exists and is not empty.
pub open spec fn is_parent_row(row: Seq<Seq<char>>, marker: int) -> bool {
    0 <= marker < row.len() && row[marker].len() > 0
}

/// Whether `rows` can be grouped: it is empty or its first row starts a parent.
pub open spec fn groupable(rows: Seq<Seq<Seq<char>>>, marker: int) -> bool {
    rows.len() == 0 || is_parent_row(rows[0], marker)
}

/// The parents of `rows`, each with the rows that follow it up to the next
/// parent as its children.
pub open spec fn group_rows(rows: Seq<Seq<Seq<char>>>, marker: int) -> Seq<
    (Seq<Seq<char>>, Seq<Seq<Seq<char>>>),
>
    decreases rows.len(),
{
    if rows.len() == 0 {
        seq![]
    } else {
        let prev = group_rows(rows.drop_last(), marker);
        let r = rows.last();
        if is_parent_row(r, marker) {
            prev.push((r, seq![]))
        } else if prev.len() == 0 {
            prev
        } else {
            prev.update(prev.len() - 1, (prev.last().0, prev.last().1.push(r)))
        }
    }
}

/// A parent row with the rows that follow it as its children.
#[derive(Debug)]
pub struct RowGroup {
    pub parent: Row,
    pub children: Vec<Row>,
}

impl View for RowGroup {
    type V = (Seq<Seq<char>>, Seq<Seq<Seq<char>>>);

    open spec fn view(&self) -> (Seq<Seq<char>>, Seq<Seq<Seq<char>>>) {
        (self.parent@, row_views(self.children@))
    }
}

/// The views of a list of groups.
pub open spec fn group_views(v: Seq<RowGroup>) -> Seq<(Seq<Seq<char>>, Seq<Seq<Seq<char>>>)> {
    v.map_values(|g: RowGroup| g@)
}

/// Regroups a flat sequence of rows into parents and children: a row whose
/// marker column is not empty starts a new parent, any other row is a child of
/// the parent started last. A child row before any parent has no parent to go
/// to; the rows are then refused.
pub fn group(rows: &Vec<Row>, marker: usize) -> (r: Result<Vec<RowGroup>, Error>)
    ensures
        r is Ok <==> groupable(row_views(rows@), marker as int),
        r matches Ok(gs) ==> group_views(gs@) == group_rows(row_views(rows@), marker as int),
{
    let ghost all = row_views(rows@);
    if rows.len() > 0 && !(marker < rows[0].cols.len() && !rows[0].cols[marker].as_str().is_empty()) {
        proof {
            assert(all[0] == rows@[0]@);
            if marker < rows[0].cols.len() {
                assert(all[0][marker as int] == rows@[0].cols@[marker as int]@);
            }
        }
        return Err(Error::Parser("a child row comes before any parent row".to_string()));
    }
    let mut groups: Vec<RowGroup> = Vec::new();
    let mut i: usize = 0;
    while i < rows.len()
        invariant
            i <= rows.len(),
            all == row_views(rows@),
            groupable(all, marker as int),
            i > 0 ==> groups.len() > 0,
            group_views(groups@) == group_rows(row_views(rows@.subrange(0, i as int)), marker as int),
        decreases rows.len() - i,
    {
        let ghost pre = row_views(rows@.subrange(0, i + 1));
        proof {
            assert(pre.drop_last() == row_views(rows@.subrange(0, i as int)));
            assert(pre.last() == rows@[i as int]@);
        }
        let row = rows[i].duplicate();
        let starts = marker < row.cols.len() && !row.cols[marker].as_str().is_empty();
        proof {
            if marker < row.cols.len() {
                assert(row@[marker as int] == row.cols@[marker as int]@);
            }
            assert(starts == is_parent_row(row@, marker as int));
            if i == 0 {
                assert(all[0] == rows@[0]@);
            }
        }
        if starts {
            let g = RowGroup { parent: row, children: Vec::new() };
            proof {
                assert(group_views(groups@.push(g)) =~= group_views(groups@).push(g@));
                assert(row_views(g.children@) =~= Seq::<Seq<Seq<char>>>::empty());
            }
            groups.push(g);
        } else {
            let ghost before = groups@;
            let mut g = groups.pop().unwrap();
            proof {
                lemma_row_views_push(g.children@, row);
            }
            g.children.push(row);
            groups.push(g);
            proof {
                assert(groups@ == before.drop_last().push(g));
                assert(group_views(groups@) =~= group_views(before).update(
                    before.len() - 1,
                    (group_views(before).last().0, group_views(before).last().1.push(pre.last())),
                ));
            }
        }
        i = i + 1;
    }
    proof {
        assert(rows@.subrange(0, rows@.len() as int) == rows@);
    }
    Ok(groups)
}

/// The rows of a grouping: each parent followed by its children, in order.
pub open spec fn flatten(gs: Seq<(Seq<Seq<char>>, Seq<Seq<Seq<char>>>)>) -> Seq<Seq<Seq<char>>>
    decreases gs.len(),
{
    if gs.len() == 0 {
        seq![]
    } else {
        flatten(gs.drop_last()) + seq![gs.last().0] + gs.last().1
    }
}

/// Whether every group of `gs` has a parent row as its parent and only
/// non-parent rows as its children.
pub open spec fn well_grouped(gs: Seq<(Seq<Seq<char>>, Seq<Seq<Seq<char>>>)>, marker: int) -> bool {
    forall|i: int|
        0 <= i < gs.len() ==> {
            &&& is_parent_row(#[trigger] gs[i].0, marker)
            &&& forall|j: int| 0 <= j < gs[i].1.len() ==> !is_parent_row(gs[i].1[j], marker)
        }
}

/// Grouping keeps order: read back parent by parent, each followed by its
/// children, the groups give exactly the input rows; every parent is a row that
/// starts a parent and every child one that does not.
pub proof fn lemma_group_preserves_order(rows: Seq<Seq<Seq<char>>>, marker: int)
    requires
        groupable(rows, marker),
    ensures
        flatten(group_rows(rows, marker)) == rows,
        well_grouped(group_rows(rows, marker), marker),
    decreases rows.len(),
{
    if rows.len() == 0 {
        return;
    }
    let pre = rows.drop_last();
    let prev = group_rows(pre, marker);
    let r = rows.last();
    let gs = group_rows(rows, marker);
    if pre.len() == 0 {
        assert(prev.len() == 0);
        assert(rows[0] == r);
        assert(gs == seq![(r, Seq::<Seq<Seq<char>>>::empty())]);
        let e = Seq::<(Seq<Seq<char>>, Seq<Seq<Seq<char>>>)>::empty();
        assert(gs.drop_last() =~= e);
        assert(flatten(e) == Seq::<Seq<Seq<char>>>::empty());
        assert(flatten(gs) == flatten(gs.drop_last()) + seq![gs.last().0] + gs.last().1);
        assert(flatten(gs) =~= rows);
        return;
    }
    assert(pre[0] == rows[0]);
    lemma_group_preserves_order(pre, marker);
    assert(prev.len() > 0);
    if is_parent_row(r, marker) {
        assert(gs.drop_last() =~= prev);
        assert(flatten(gs) == flatten(gs.drop_last()) + seq![gs.last().0] + gs.last().1);
        assert(pre.push(r) =~= rows);
        assert(flatten(gs) =~= rows);
        assert forall|i: int| 0 <= i < gs.len() implies {
            &&& is_parent_row(#[trigger] gs[i].0, marker)
            &&& forall|j: int| 0 <= j < gs[i].1.len() ==> !is_parent_row(gs[i].1[j], marker)
        } by {
            if i < prev.len() {
                assert(gs[i] == prev[i]);
                assert(is_parent_row(prev[i].0, marker));
            } else {
                assert(gs[i] == (r, Seq::<Seq<Seq<char>>>::empty()));
            }
        }
    } else {
        let last = prev.last();
        assert(gs.drop_last() =~= prev.drop_last());
        assert(flatten(prev) == flatten(prev.drop_last()) + seq![last.0] + last.1);
        assert(flatten(gs) == flatten(gs.drop_last()) + seq![gs.last().0] + gs.last().1);
        assert(gs.last() == (last.0, last.1.push(r)));
        assert(pre.push(r) =~= rows);
        assert(flatten(gs) =~= rows);
        assert forall|i: int| 0 <= i < gs.len() implies {
            &&& is_parent_row(#[trigger] gs[i].0, marker)
            &&& forall|j: int| 0 <= j < gs[i].1.len() ==> !is_parent_row(gs[i].1[j], marker)
        } by {
            assert(is_parent_row(prev[i].0, marker));
            if i < prev.len() - 1 {
                assert(gs[i] == prev[i]);
            } else {
                assert(gs[i] == (last.0, last.1.push(r)));
                assert forall|j: int| 0 <= j < gs[i].1.len() implies !is_parent_row(
                    gs[i].1[j],
                    marker,
                ) by {
                    if j < last.1.len() {
                        assert(gs[i].1[j] == prev[i].1[j]);
                    }
                }
            }
        }
    }
}

proof fn lemma_regroup_one(p: Seq<Seq<char>>, cs: Seq<Seq<Seq<char>>>, marker: int)
    requires
        is_parent_row(p, marker),
        forall|j: int| 0 <= j < cs.len() ==> !is_parent_row(cs[j], marker),
    ensures
        group_rows(seq![p] + cs, marker) == seq![(p, cs)],
    decreases cs.len(),
{
    let rows = seq![p] + cs;
    if cs.len() == 0 {
        let e = Seq::<Seq<Seq<char>>>::empty();
        assert(rows.drop_last() =~= e);
        assert(group_rows(e, marker).len() == 0);
        assert(rows.last() == p);
        assert(cs =~= e);
        assert(group_rows(rows, marker) =~= seq![(p, cs)]);
    } else {
        assert(rows.drop_last() =~= seq![p] + cs.drop_last());
        lemma_regroup_one(p, cs.drop_last(), marker);
        let prev = group_rows(rows.drop_last(), marker);
        assert(prev == seq![(p, cs.drop_last())]);
        assert(rows.last() == cs.last());
        assert(!is_parent_row(cs.last(), marker));
        assert(cs.drop_last().push(cs.last()) =~= cs);
        assert(group_rows(rows, marker) == prev.update(
            0,
            (prev.last().0, prev.last().1.push(cs.last())),
        ));
        assert(group_rows(rows, marker) =~= seq![(p, cs)]);
    }
}

/// Grouping is capped at two levels: regrouping the parent row of any group
/// together with its children list gives back that one group, its children
/// unchanged.
pub proof fn lemma_group_idempotent(rows: Seq<Seq<Seq<char>>>, marker: int, i: int)
    requires
        groupable(rows, marker),
        0 <= i < group_rows(rows, marker).len(),
    ensures
        group_rows(
            seq![group_rows(rows, marker)[i].0] + group_rows(rows, marker)[i].1,
            marker,
        ) == seq![group_rows(rows, marker)[i]],
{
    lemma_group_preserves_order(rows, marker);
    let g = group_rows(rows, marker)[i];
    lemma_regroup_one(g.0, g.1, marker);
}

/// Column `i` of `row`, or an empty string where the row is shorter.
pub fn cell(row: &Row, i: usize) -> (r: String)
    ensures
        r@ == col_or_empty(row@, i as int),
{
    match row.get_col(i) {
        Some(c) => c.clone(),
        None => String::new(),
    }
}

/// Column `i` of `row`, its lines trimmed where it spans several lines.
pub fn cell_multiline(row: &Row, i: usize) -> (r: String)
    ensures
        r@ == crate::text::multiline(col_or_empty(row@, i as int)),
{
    let c = cell(row, i);
    crate::text::normalize_multiline(c.as_str())
}

/// The concatenation of `a` and `b`.
pub fn concat(a: &str, b: &str) -> (r: String)
    ensures
        r@ == a@ + b@,
{
    let mut r = String::new();
    r.append(a);
    r.append(b);
    r
}

/// A string holding the characters of `s`.
pub fn copy_str(s: &str) -> (r: String)
    ensures
        r@ == s@,
{
    let mut r = String::new();
    r.append(s);
    r
}

/// Whether `s` starts with `c`.
pub fn starts_with_char(s: &str, c: char) -> (r: bool)
    ensures
        r == (s@.len() > 0 && s@[0] == c),
{
    !s.is_empty() && s.get_char(0) == c
}

/// Splits `s` at each occurrence of the non-empty separator `sep`.
pub fn split_list(s: &str, sep: &str) -> (r: Vec<String>)
    requires
        sep@.len() > 0,
    ensures
        str_views(r@) == crate::text::split_on(s@, sep@),
{
    let parts = crate::text::split_chars(&crate::text::chars_of(s), &crate::text::chars_of(sep));
    let mut out: Vec<String> = Vec::new();
    let mut i: usize = 0;
    while i < parts.len()
        invariant
            i <= parts.len(),
            str_views(out@) == crate::text::views(parts@.subrange(0, i as int)),
        decreases parts.len() - i,
    {
        let p = string_of(&parts[i]);
        proof {
            lemma_str_views_push(out@, p);
            assert(crate::text::views(parts@.subrange(0, i + 1)) =~= crate::text::views(
                parts@.subrange(0, i as int),
            ).push(parts@[i as int]@));
        }
        out.push(p);
        i = i + 1;
    }
    proof {
        assert(parts@.subrange(0, parts@.len() as int) == parts@);
    }
    out
}

/// Where pages are fetched from. The library hands over the address and works
/// on whatever page text comes back.
pub trait WebFetch {
    fn fetch(&self, url: &str) -> Result<String, Error>;
}

/// Column `i` of `row` split at each `sep`, where the row has that column.
pub open spec fn split_col_of(row: Seq<Seq<char>>, i: int, sep: Seq<char>) -> Option<
    Seq<Seq<char>>,
> {
    match col(row, i) {
        Some(c) => Some(crate::text::split_on(c, sep)),
        None => None,
    }
}

/// The view of an optional list of strings.
pub open spec fn opt_list(o: Option<Vec<String>>) -> Option<Seq<Seq<char>>> {
    match o {
        Some(v) => Some(str_views(v@)),
        None => None,
    }
}

/// Column `i` of `row` split at each `sep`, where the row has that column.
pub fn split_col(row: &Row, i: usize, sep: &str) -> (r: Option<Vec<String>>)
    requires
        sep@.len() > 0,
    ensures
        opt_list(r) == split_col_of(row@, i as int, sep@),
{
    match row.get_col(i) {
        Some(c) => Some(split_list(c.as_str(), sep)),
        None => None,
    }
}

/// A lookup finds nothing for a slug that no pair carries.
pub proof fn lemma_section_absent(entries: Seq<(Seq<char>, TableView)>, slug: Seq<char>)
    requires
        forall|i: int| 0 <= i < entries.len() ==> (#[trigger] entries[i]).0 != slug,
    ensures
        section_lookup(entries, slug) is None,
    decreases entries.len(),
{
    if entries.len() > 0 {
        assert(entries.last() == entries[entries.len() - 1]);
        assert forall|i: int| 0 <= i < entries.drop_last().len() implies (
        #[trigger] entries.drop_last()[i]).0 != slug by {
            assert(entries.drop_last()[i] == entries[i]);
        }
        lemma_section_absent(entries.drop_last(), slug);
    }
}

/// Grouping rows made of two blocks, the second opening with a parent row,
/// gives the groups of the first block followed by those of the second: no
/// group spans the seam, and each block's groups keep their order.
pub proof fn lemma_group_concat(a: Seq<Seq<Seq<char>>>, b: Seq<Seq<Seq<char>>>, marker: int)
    requires
        b.len() > 0,
        is_parent_row(b[0], marker),
    ensures
        group_rows(a + b, marker) == group_rows(a, marker) + group_rows(b, marker),
    decreases b.len(),
{
    let ab = a + b;
    if b.len() == 1 {
        assert(ab.drop_last() =~= a);
        assert(ab.last() == b[0]);
        let e = Seq::<Seq<Seq<char>>>::empty();
        assert(b.drop_last() =~= e);
        assert(group_rows(e, marker).len() == 0);
        assert(group_rows(b, marker) =~= seq![(b[0], e)]);
        assert(group_rows(ab, marker) =~= group_rows(a, marker) + group_rows(b, marker));
    } else {
        let b1 = b.drop_last();
        assert(ab.drop_last() =~= a + b1);
        assert(b1[0] == b[0]);
        lemma_group_concat(a, b1, marker);
        let ga = group_rows(a, marker);
        let gb1 = group_rows(b1, marker);
        assert(ab.last() == b.last());
        lemma_group_preserves_order(b1, marker);
        if gb1.len() == 0 {
            assert(flatten(gb1) == Seq::<Seq<Seq<char>>>::empty());
            assert(b1.len() == 0);
        }
        assert(gb1.len() > 0);
        let prev = ga + gb1;
        if is_parent_row(b.last(), marker) {
            assert(group_rows(ab, marker) =~= ga + group_rows(b, marker));
        } else {
            assert(prev.last() == gb1.last());
            assert(prev.update(prev.len() - 1, (prev.last().0, prev.last().1.push(b.last())))
                =~= ga + gb1.update(gb1.len() - 1, (gb1.last().0, gb1.last().1.push(b.last()))));
        }
    }
}

/// The rows of `rows` that start a parent, in input order.
pub open spec fn parent_rows(rows: Seq<Seq<Seq<char>>>, marker: int) -> Seq<Seq<Seq<char>>>
    decreases rows.len(),
{
    if rows.len() == 0 {
        seq![]
    } else if is_parent_row(rows.last(), marker) {
        parent_rows(rows.drop_last(), marker).push(rows.last())
    } else {
        parent_rows(rows.drop_last(), marker)
    }
}

/// Parents keep their input order: the j-th group is headed by the j-th row
/// that starts a parent.
pub proof fn lemma_group_parents_in_order(rows: Seq<Seq<Seq<char>>>, marker: int)
    requires
        groupable(rows, marker),
    ensures
        group_rows(rows, marker).len() == parent_rows(rows, marker).len(),
        forall|j: int|
            0 <= j < parent_rows(rows, marker).len() ==> (#[trigger] group_rows(rows, marker)[j]).0
                == parent_rows(rows, marker)[j],
    decreases rows.len(),
{
    if rows.len() > 0 {
        let pre = rows.drop_last();
        if pre.len() > 0 {
            assert(pre[0] == rows[0]);
            lemma_group_parents_in_order(pre, marker);
            lemma_group_preserves_order(pre, marker);
            if group_rows(pre, marker).len() == 0 {
                assert(flatten(group_rows(pre, marker)) == Seq::<Seq<Seq<char>>>::empty());
            }
        } else {
            let e = Seq::<Seq<Seq<char>>>::empty();
            assert(pre =~= e);
            assert(group_rows(e, marker).len() == 0);
            assert(parent_rows(e, marker).len() == 0);
            assert(rows.last() == rows[0]);
        }
    }
}

} // verus!
