//! Data sources: the list of data sources, and the detail page of one with
//! its data components and what each of them detects.

use crate::attack::techniques::domain::{has_suffix_col, suffix_shift};
use crate::attack::{
    all_tables, cell, cell_multiline, col_or_empty, concat, copy_str, entity_description,
    entity_name, first_table, group, group_rows, groupable, scrape_entity_description,
    scrape_entity_name, scrape_table, starts_with_char, table_view, Row, Table, TableView,
    WebFetch,
};
use crate::error::Error;
use crate::html::{
    attr, has_anc, is_named, is_named_with_class, parent_of, parsed_nodes, text_of, Document,
    HtmlNode,
};
use crate::text::{multiline, strip_refs, upper_of};
use vstd::prelude::*;

verus! {

/// A data source: its id, name, domain and description.
#[derive(Debug, Default)]
pub struct DataSourceRow {
    pub id: String,
    pub name: String,
    pub domain: String,
    pub description: String,
}

impl DataSourceRow {
    /// Whether this data source is what `row` gives.
    pub open spec fn models(&self, row: Seq<Seq<char>>) -> bool {
        &&& self.id@ == col_or_empty(row, 0)
        &&& self.name@ == col_or_empty(row, 1)
        &&& self.domain@ == multiline(col_or_empty(row, 2))
        &&& self.description@ == multiline(col_or_empty(row, 3))
    }

    /// Reads a data source row: id, name, domain and description.
    pub fn from_row(row: &Row) -> (r: DataSourceRow)
        ensures
            r.models(row@),
    {
        DataSourceRow {
            id: cell(row, 0),
            name: cell(row, 1),
            domain: cell_multiline(row, 2),
            description: cell_multiline(row, 3),
        }
    }
}

/// The data sources a page lists.
#[derive(Debug, Default)]
pub struct DataSourcesTable(pub Vec<DataSourceRow>);

impl DataSourcesTable {
    /// Whether these data sources are what `rows` give, one for each row.
    pub open spec fn models_rows(&self, rows: Seq<Seq<Seq<char>>>) -> bool {
        &&& self.0@.len() == rows.len()
        &&& forall|i: int| 0 <= i < rows.len() ==> (#[trigger] self.0@[i]).models(rows[i])
    }

    /// Reads each row of `table` as a data source.
    pub fn from_table(table: &Table) -> (r: DataSourcesTable)
        ensures
            r.models_rows(table@.rows),
    {
        let mut out: Vec<DataSourceRow> = Vec::new();
        let mut i: usize = 0;
        while i < table.rows.len()
            invariant
                i <= table.rows.len(),
                out@.len() == i,
                forall|k: int| 0 <= k < i ==> (#[trigger] out@[k]).models(table@.rows[k]),
            decreases table.rows.len() - i,
        {
            let t = DataSourceRow::from_row(&table.rows[i]);
            out.push(t);
            i = i + 1;
        }
        DataSourcesTable(out)
    }

    /// Whether no data source is listed.
    pub fn is_empty(&self) -> (r: bool)
        ensures
            r == (self.0@.len() == 0),
    {
        self.0.len() == 0
    }

    /// The number of data sources.
    pub fn len(&self) -> (r: usize)
        ensures
            r == self.0@.len(),
    {
        self.0.len()
    }
}

/// Whether `t` is what the list page `html` gives: the data sources of the
/// page's first table, none where the page has no table.
pub open spec fn data_sources_page(html: Seq<char>, t: DataSourcesTable) -> bool {
    let tables = all_tables(parsed_nodes(html));
    if tables.len() == 0 {
        t.0@.len() == 0
    } else {
        t.models_rows(tables[0].rows)
    }
}

/// Reads the list of data sources from the text of a list page.
pub fn data_sources_from_html(html: &str) -> (r: DataSourcesTable)
    ensures
        data_sources_page(html@, r),
{
    let doc = Document::parse(html);
    match first_table(&doc) {
        Some(table) => DataSourcesTable::from_table(&table),
        None => DataSourcesTable(Vec::new()),
    }
}

/// The address of the list of data sources.
pub fn data_sources_url() -> (r: &'static str)
    ensures
        r@ == "https://attack.mitre.org/datasources/"@,
{
    "https://attack.mitre.org/datasources/"
}

/// Fetches and reads the list of data sources, asking for the address `data_sources_url` gives.
pub fn fetch_data_sources(web_client: &impl WebFetch) -> (r: Result<DataSourcesTable, Error>)
    ensures
        r matches Ok(t) ==> exists|html: Seq<char>| data_sources_page(html, t),
{
    let page = web_client.fetch(data_sources_url())?;
    let t = data_sources_from_html(page.as_str());
    let ghost g = t;
    assert(exists|h: Seq<char>| data_sources_page(h, g)) by {
        assert(data_sources_page(page@, g));
    }
    let r: Result<DataSourcesTable, Error> = Ok(t);
    assert(r->Ok_0 == g);
    r
}

/// A sub-technique detected by a data component, on its own row below its technique.
#[derive(Debug, Default)]
pub struct SubDetectionRow {
    pub id: String,
    pub name: String,
    pub detects: String,
}

impl SubDetectionRow {
    /// Reads a child row: the id suffix from the third column, the name from
    /// the fourth, what is detected from the fifth, stripped of citation markers.
    pub fn from_row(row: &Row) -> (r: SubDetectionRow)
        ensures
            r.id@ == col_or_empty(row@, 2),
            r.name@ == col_or_empty(row@, 3),
            r.detects@ == strip_refs(col_or_empty(row@, 4)),
    {
        let desc = cell(row, 4);
        SubDetectionRow {
            id: cell(row, 2),
            name: cell(row, 3),
            detects: crate::text::remove_ext_link_ref(desc.as_str()),
        }
    }
}

/// The sub-detections a detection holds, none where the field is absent.
pub open spec fn sub_detections_of(o: Option<Vec<SubDetectionRow>>) -> Seq<SubDetectionRow> {
    match o {
        Some(v) => v@,
        None => seq![],
    }
}

/// A technique that a data component detects.
#[derive(Debug, Default)]
pub struct DetectionRow {
    pub domain: String,
    pub id: String,
    pub name: String,
    pub detects: String,
    pub sub_detections: Option<Vec<SubDetectionRow>>,
}

impl DetectionRow {
    /// Whether this detection's own fields are what `row` gives: the domain
    /// first, then the id, extended by the next column where that one starts
    /// with `.`, then the name and what is detected in the columns after.
    pub open spec fn models(&self, row: Seq<Seq<char>>) -> bool {
        &&& self.domain@ == col_or_empty(row, 0)
        &&& self.id@ == col_or_empty(row, 1) + (if has_suffix_col(row) {
            row[2]
        } else {
            seq![]
        })
        &&& self.name@ == col_or_empty(row, 2 + suffix_shift(row))
        &&& self.detects@ == strip_refs(col_or_empty(row, 3 + suffix_shift(row)))
    }

    /// Reads a parent row with a running column cursor: the domain, the id, a
    /// `.`-suffix that extends the id where the next column starts with `.`,
    /// the name, and what is detected.
    pub fn from_row(row: &Row) -> (r: DetectionRow)
        ensures
            r.models(row@),
            r.sub_detections is None,
    {
        let mut detection = DetectionRow {
            domain: String::new(),
            id: String::new(),
            name: String::new(),
            detects: String::new(),
            sub_detections: None,
        };
        let mut inx: usize = 0;
        if let Some(domain) = row.get_col(inx) {
            detection.domain = domain.clone();
            inx = inx + 1;
        }
        if let Some(id) = row.get_col(inx) {
            detection.id = id.clone();
            inx = inx + 1;
        }
        if let Some(sub_id) = row.get_col(inx) {
            if starts_with_char(sub_id.as_str(), '.') {
                detection.id = concat(detection.id.as_str(), sub_id.as_str());
                inx = inx + 1;
            }
        }
        if let Some(name) = row.get_col(inx) {
            detection.name = name.clone();
            inx = inx + 1;
        }
        let desc = cell(row, inx);
        detection.detects = crate::text::remove_ext_link_ref(desc.as_str());
        proof {
            assert(seq![] + col_or_empty(row@, 1) == col_or_empty(row@, 1));
            assert(col_or_empty(row@, 1) + seq![] == col_or_empty(row@, 1));
        }
        detection
    }

    /// Appends a sub-detection; its id becomes this detection's id followed by
    /// its suffix, and its name this detection's name followed by its own.
    pub fn add_subdetection(&mut self, sub_detection: SubDetectionRow)
        ensures
            final(self).domain == old(self).domain,
            final(self).id == old(self).id,
            final(self).name == old(self).name,
            final(self).detects == old(self).detects,
            final(self).sub_detections is Some,
            sub_detections_of(final(self).sub_detections).len() == sub_detections_of(
                old(self).sub_detections,
            ).len() + 1,
            forall|j: int|
                0 <= j < sub_detections_of(old(self).sub_detections).len() ==> sub_detections_of(
                    final(self).sub_detections,
                )[j] == sub_detections_of(old(self).sub_detections)[j],
            sub_detections_of(final(self).sub_detections).last().id@ == old(self).id@
                + sub_detection.id@,
            sub_detections_of(final(self).sub_detections).last().name@ == old(self).name@
                + sub_detection.name@,
            sub_detections_of(final(self).sub_detections).last().detects
                == sub_detection.detects,
    {
        let mut list = match self.sub_detections.take() {
            Some(v) => v,
            None => Vec::new(),
        };
        let mut sub = sub_detection;
        sub.id = concat(self.id.as_str(), sub.id.as_str());
        sub.name = concat(self.name.as_str(), sub.name.as_str());
        list.push(sub);
        self.sub_detections = Some(list);
    }

    /// Whether this detection is what the group (`parent`, `children`) gives.
    pub open spec fn models_group(
        &self,
        parent: Seq<Seq<char>>,
        children: Seq<Seq<Seq<char>>>,
    ) -> bool {
        &&& self.models(parent)
        &&& (children.len() == 0 <==> self.sub_detections is None)
        &&& sub_detections_of(self.sub_detections).len() == children.len()
        &&& forall|j: int|
            0 <= j < children.len() ==> {
                &&& (#[trigger] sub_detections_of(self.sub_detections)[j]).id@ == self.id@
                    + col_or_empty(children[j], 2)
                &&& sub_detections_of(self.sub_detections)[j].name@ == self.name@ + col_or_empty(
                    children[j],
                    3,
                )
                &&& sub_detections_of(self.sub_detections)[j].detects@ == strip_refs(
                    col_or_empty(children[j], 4),
                )
            }
    }
}

/// The techniques a data component detects.
#[derive(Debug, Default)]
pub struct DetectionsTable(pub Vec<DetectionRow>);

impl DetectionsTable {
    /// Whether these detections are what the table rows `rows` give once grouped.
    pub open spec fn models_rows(&self, rows: Seq<Seq<Seq<char>>>) -> bool {
        &&& self.0@.len() == group_rows(rows, 0).len()
        &&& forall|i: int|
            0 <= i < self.0@.len() ==> (#[trigger] self.0@[i]).models_group(
                group_rows(rows, 0)[i].0,
                group_rows(rows, 0)[i].1,
            )
    }

    /// Reads the detections of `table`: a row with a domain starts a
    /// detection, a row without one is a sub-detection of the one above it. A
    /// sub-detection row before any detection is refused.
    pub fn from_table(table: &Table) -> (r: Result<DetectionsTable, Error>)
        ensures
            r is Ok <==> groupable(table@.rows, 0),
            r matches Ok(t) ==> t.models_rows(table@.rows),
    {
        let groups = match group(&table.rows, 0) {
            Ok(g) => g,
            Err(e) => {
                return Err(e);
            },
        };
        let ghost gv = group_rows(table@.rows, 0);
        let mut out: Vec<DetectionRow> = Vec::new();
        let mut i: usize = 0;
        while i < groups.len()
            invariant
                i <= groups.len(),
                gv == group_rows(table@.rows, 0),
                crate::attack::group_views(groups@) == gv,
                out@.len() == i,
                forall|k: int|
                    0 <= k < i ==> (#[trigger] out@[k]).models_group(gv[k].0, gv[k].1),
            decreases groups.len() - i,
        {
            let g = &groups[i];
            assert(gv[i as int] == g@);
            let mut d = DetectionRow::from_row(&g.parent);
            let ghost parent_id = d.id@;
            let ghost parent_name = d.name@;
            let mut j: usize = 0;
            while j < g.children.len()
                invariant
                    j <= g.children.len(),
                    g@ == gv[i as int],
                    d.models(g.parent@),
                    d.id@ == parent_id,
                    d.name@ == parent_name,
                    (j == 0 <==> d.sub_detections is None),
                    sub_detections_of(d.sub_detections).len() == j,
                    forall|m: int|
                        0 <= m < j ==> {
                            &&& (#[trigger] sub_detections_of(d.sub_detections)[m]).id@
                                == parent_id + col_or_empty(g.children@[m]@, 2)
                            &&& sub_detections_of(d.sub_detections)[m].name@ == parent_name
                                + col_or_empty(g.children@[m]@, 3)
                            &&& sub_detections_of(d.sub_detections)[m].detects@ == strip_refs(
                                col_or_empty(g.children@[m]@, 4),
                            )
                        },
                decreases g.children.len() - j,
            {
                let sub = SubDetectionRow::from_row(&g.children[j]);
                d.add_subdetection(sub);
                j = j + 1;
            }
            proof {
                assert forall|m: int| 0 <= m < g.children@.len() implies #[trigger] g@.1[m]
                    == g.children@[m]@ by {}
                assert(d.models_group(gv[i as int].0, gv[i as int].1));
            }
            out.push(d);
            i = i + 1;
        }
        Ok(DetectionsTable(out))
    }

    /// Whether no detection is listed.
    pub fn is_empty(&self) -> (r: bool)
        ensures
            r == (self.0@.len() == 0),
    {
        self.0.len() == 0
    }
}

/// A data component of a data source, with what it detects.
#[derive(Debug, Default)]
pub struct DataComponent {
    pub name: String,
    pub description: String,
    pub detections: DetectionsTable,
}

/// A data source as its detail page gives it.
#[derive(Debug, Default)]
pub struct DataSource {
    pub id: String,
    pub name: String,
    pub description: String,
    pub components: Vec<DataComponent>,
}

/// Whether node `j` is an anchor (`a` with class `anchor`), which names the
/// data component whose section follows.
pub open spec fn is_component_anchor(s: Seq<HtmlNode>, j: int) -> bool {
    is_named_with_class(s, j, "a"@, "anchor"@)
}

/// Whether node `j` is a component's description paragraph: a `p` whose
/// parent is a `div` with class `description-body` whose own parent is a
/// `div` with class `anchor-section`.
pub open spec fn is_component_paragraph(s: Seq<HtmlNode>, j: int) -> bool {
    &&& is_named(s, j, "p"@)
    &&& parent_of(s, j) matches Some(p)
    &&& is_named_with_class(s, p, "div"@, "description-body"@)
    &&& parent_of(s, p) matches Some(q)
    &&& is_named_with_class(s, q, "div"@, "anchor-section"@)
}

/// Whether node `j` is a component's detections table (`table` with class `table`).
pub open spec fn is_component_table(s: Seq<HtmlNode>, j: int) -> bool {
    is_named_with_class(s, j, "table"@, "table"@)
}

/// Whether node `j` is one of the nodes the component scan reads: an anchor,
/// a description paragraph or a detections table below a `div` with class
/// `section-view`.
pub open spec fn is_component_node(s: Seq<HtmlNode>, j: int) -> bool {
    &&& has_anc(s, j, "div"@, Some("section-view"@))
    &&& (is_component_anchor(s, j) || is_component_paragraph(s, j) || is_component_table(s, j))
}

/// The component scan after the first `k` nodes: the current name and
/// description, and the (name, description, table) triples met so far. An
/// anchor with an `id` sets the name, a paragraph the description, and a table
/// is paired with both, which then start empty again.
pub open spec fn components_upto(s: Seq<HtmlNode>, k: int) -> (
    Seq<char>,
    Seq<char>,
    Seq<(Seq<char>, Seq<char>, TableView)>,
)
    decreases k,
{
    if k <= 0 {
        (seq![], seq![], seq![])
    } else {
        let prev = components_upto(s, k - 1);
        let j = k - 1;
        if is_component_node(s, j) && is_named(s, j, "a"@) {
            match attr(s, j, "id"@) {
                Some(id) => (id, prev.1, prev.2),
                None => prev,
            }
        } else if is_component_node(s, j) && is_named(s, j, "p"@) {
            (prev.0, text_of(s, j), prev.2)
        } else if is_component_node(s, j) && is_named(s, j, "table"@) {
            (seq![], seq![], prev.2.push((prev.0, prev.1, table_view(s, j))))
        } else {
            prev
        }
    }
}

/// The (name, description, table) triples of a data source's detail page.
pub open spec fn component_entries(s: Seq<HtmlNode>) -> Seq<(Seq<char>, Seq<char>, TableView)> {
    components_upto(s, s.len() as int).2
}

/// The views of (name, description, table) triples.
pub open spec fn triple_views(v: Seq<(String, String, Table)>) -> Seq<
    (Seq<char>, Seq<char>, TableView),
> {
    v.map_values(|e: (String, String, Table)| (e.0@, e.1@, e.2@))
}

/// Collects the data components of a data source's detail page: each
/// detections table with the name of the anchor and the text of the
/// description paragraph met before it.
pub fn scrape_datasource_tables(doc: &Document) -> (r: Vec<(String, String, Table)>)
    ensures
        triple_views(r@) == component_entries(doc.nodes@),
{
    let ghost s = doc.nodes@;
    let mut out: Vec<(String, String, Table)> = Vec::new();
    let mut name = String::new();
    let mut description = String::new();
    let mut k: usize = 0;
    while k < doc.len()
        invariant
            s == doc.nodes@,
            k <= s.len(),
            name@ == components_upto(s, k as int).0,
            description@ == components_upto(s, k as int).1,
            triple_views(out@) == components_upto(s, k as int).2,
        decreases s.len() - k,
    {
        let paragraph = doc.is_named(k, "p") && match doc.parent(k) {
            Some(p) => doc.is_named_with_class(p, "div", "description-body") && match doc.parent(
                p,
            ) {
                Some(q) => doc.is_named_with_class(q, "div", "anchor-section"),
                None => false,
            },
            None => false,
        };
        let wanted = doc.has_ancestor(k, "div", Some("section-view")) && (
        doc.is_named_with_class(k, "a", "anchor") || paragraph || doc.is_named_with_class(
            k,
            "table",
            "table",
        ));
        proof {
            assert(crate::html::opt_view(Some("section-view")) == Some("section-view"@));
            assert(paragraph == is_component_paragraph(s, k as int));
            assert(wanted == is_component_node(s, k as int));
        }
        if wanted && doc.is_named(k, "a") {
            if let Some(id) = doc.attr(k, "id") {
                name = id.clone();
            }
        } else if wanted && doc.is_named(k, "p") {
            description = crate::text::string_of(&doc.text_chars(k));
        } else if wanted && doc.is_named(k, "table") {
            let table = scrape_table(doc, k);
            let entry = (name, description, table);
            proof {
                assert(triple_views(out@.push(entry)) =~= triple_views(out@).push(
                    (entry.0@, entry.1@, entry.2@),
                ));
            }
            out.push(entry);
            name = String::new();
            description = String::new();
        }
        k = k + 1;
    }
    out
}

/// Whether `cs` are the components that the triples `entries` give, each
/// table read as detections.
pub open spec fn models_components(
    cs: Seq<DataComponent>,
    entries: Seq<(Seq<char>, Seq<char>, TableView)>,
) -> bool {
    &&& cs.len() == entries.len()
    &&& forall|i: int|
        0 <= i < entries.len() ==> {
            &&& (#[trigger] cs[i]).name@ == entries[i].0
            &&& cs[i].description@ == entries[i].1
            &&& cs[i].detections.models_rows(entries[i].2.rows)
        }
}

/// Whether some table among `entries` opens with a sub-detection row.
pub open spec fn some_table_malformed(entries: Seq<(Seq<char>, Seq<char>, TableView)>) -> bool {
    exists|i: int| 0 <= i < entries.len() && !groupable(#[trigger] entries[i].2.rows, 0)
}

/// Turns each (name, description, table) triple into a data component.
pub fn get_data_components(dt_comps: Vec<(String, String, Table)>) -> (r: Result<
    Vec<DataComponent>,
    Error,
>)
    ensures
        r is Err <==> some_table_malformed(triple_views(dt_comps@)),
        r matches Ok(cs) ==> models_components(cs@, triple_views(dt_comps@)),
{
    let ghost entries = triple_views(dt_comps@);
    let mut out: Vec<DataComponent> = Vec::new();
    let mut i: usize = 0;
    while i < dt_comps.len()
        invariant
            i <= dt_comps.len(),
            entries == triple_views(dt_comps@),
            out@.len() == i,
            forall|k: int| 0 <= k < i ==> groupable(#[trigger] entries[k].2.rows, 0),
            forall|k: int|
                0 <= k < i ==> {
                    &&& (#[trigger] out@[k]).name@ == entries[k].0
                    &&& out@[k].description@ == entries[k].1
                    &&& out@[k].detections.models_rows(entries[k].2.rows)
                },
        decreases dt_comps.len() - i,
    {
        let entry = &dt_comps[i];
        assert(entries[i as int] == (entry.0@, entry.1@, entry.2@));
        let detections = match DetectionsTable::from_table(&entry.2) {
            Ok(d) => d,
            Err(e) => {
                assert(!groupable(entries[i as int].2.rows, 0));
                assert(some_table_malformed(entries));
                return Err(e);
            },
        };
        out.push(
            DataComponent {
                name: entry.0.clone(),
                description: entry.1.clone(),
                detections,
            },
        );
        i = i + 1;
    }
    Ok(out)
}

/// Whether `d` is what the detail page `html` of data source `id` gives.
pub open spec fn data_source_page(id: Seq<char>, html: Seq<char>, d: DataSource) -> bool {
    let s = parsed_nodes(html);
    &&& d.id@ == id
    &&& d.name@ == entity_name(s)
    &&& d.description@ == entity_description(s)
    &&& models_components(d.components@, component_entries(s))
}

/// Reads data source `data_source_id` from the text of its detail page: its
/// name, description and data components.
pub fn data_source_from_html(data_source_id: &str, html: &str) -> (r: Result<DataSource, Error>)
    ensures
        r is Err <==> some_table_malformed(component_entries(parsed_nodes(html@))),
        r matches Ok(d) ==> data_source_page(data_source_id@, html@, d),
{
    let doc = Document::parse(html);
    let dt_tables = scrape_datasource_tables(&doc);
    let components = get_data_components(dt_tables)?;
    Ok(
        DataSource {
            id: copy_str(data_source_id),
            name: scrape_entity_name(&doc),
            description: scrape_entity_description(&doc),
            components,
        },
    )
}

/// The address of the detail page of data source `data_source_id`: the id in
/// upper case.
pub fn data_source_page_url(data_source_id: &str) -> (r: String)
    ensures
        r@ == "https://attack.mitre.org/datasources/"@ + upper_of(data_source_id@),
{
    let upper = crate::text::to_upper(data_source_id);
    concat("https://attack.mitre.org/datasources/", upper.as_str())
}

/// Fetches and reads the detail page of data source `data_source_id`, asking
/// for the address `data_source_page_url` gives.
pub fn fetch_data_source(data_source_id: &str, web_client: &impl WebFetch) -> (r: Result<
    DataSource,
    Error,
>)
    ensures
        r matches Ok(d) ==> exists|html: Seq<char>| data_source_page(data_source_id@, html, d),
{
    let url = data_source_page_url(data_source_id);
    let page = web_client.fetch(url.as_str())?;
    data_source_from_html(data_source_id, page.as_str())
}

/// Whether two detections hold the same text in every field, sub-detections included.
pub open spec fn same_detection(x: DetectionRow, y: DetectionRow) -> bool {
    &&& x.domain@ == y.domain@ && x.id@ == y.id@ && x.name@ == y.name@ && x.detects@ == y.detects@
    &&& (x.sub_detections is None <==> y.sub_detections is None)
    &&& sub_detections_of(x.sub_detections).len() == sub_detections_of(y.sub_detections).len()
    &&& forall|j: int|
        0 <= j < sub_detections_of(x.sub_detections).len() ==> {
            &&& (#[trigger] sub_detections_of(x.sub_detections)[j]).id@ == sub_detections_of(y.sub_detections)[j].id@
            &&& sub_detections_of(x.sub_detections)[j].name@ == sub_detections_of(y.sub_detections)[j].name@
            &&& sub_detections_of(x.sub_detections)[j].detects@ == sub_detections_of(y.sub_detections)[j].detects@
        }
}

proof fn lemma_detection_same_group(
    x: DetectionRow,
    y: DetectionRow,
    parent: Seq<Seq<char>>,
    children: Seq<Seq<Seq<char>>>,
)
    requires
        x.models_group(parent, children),
        y.models_group(parent, children),
    ensures
        same_detection(x, y),
{
    assert forall|j: int| 0 <= j < sub_detections_of(x.sub_detections).len() implies {
        &&& (#[trigger] sub_detections_of(x.sub_detections)[j]).id@ == sub_detections_of(y.sub_detections)[j].id@
        &&& sub_detections_of(x.sub_detections)[j].name@ == sub_detections_of(y.sub_detections)[j].name@
        &&& sub_detections_of(x.sub_detections)[j].detects@ == sub_detections_of(y.sub_detections)[j].detects@
    } by {
        assert(sub_detections_of(y.sub_detections)[j] == sub_detections_of(y.sub_detections)[j]);
    }
}

/// Regrouping is capped at two levels for detections: reading one detection's
/// rows again, its own row followed by its sub-detections' rows, gives back
/// that one detection with the same sub-detections.
pub proof fn lemma_detection_regroup(
    rows: Seq<Seq<Seq<char>>>,
    t: DetectionsTable,
    i: int,
    again: DetectionsTable,
)
    requires
        groupable(rows, 0),
        t.models_rows(rows),
        0 <= i < t.0@.len(),
        again.models_rows(seq![group_rows(rows, 0)[i].0] + group_rows(rows, 0)[i].1),
    ensures
        again.0@.len() == 1,
        same_detection(again.0@[0], t.0@[i]),
{
    crate::attack::lemma_group_idempotent(rows, 0, i);
    let g = group_rows(rows, 0)[i];
    assert(group_rows(seq![g.0] + g.1, 0)[0] == g);
    lemma_detection_same_group(again.0@[0], t.0@[i], g.0, g.1);
}

/// Order is kept block by block: reading rows made of two blocks, the second
/// opening with a parent row, gives the detections of the first block followed
/// by those of the second, each in its own order. Swapping the blocks swaps the
/// two runs of detections and changes nothing within either.
pub proof fn lemma_detection_concat(
    a: Seq<Seq<Seq<char>>>,
    b: Seq<Seq<Seq<char>>>,
    ta: DetectionsTable,
    tb: DetectionsTable,
    tab: DetectionsTable,
)
    requires
        b.len() > 0,
        crate::attack::is_parent_row(b[0], 0),
        ta.models_rows(a),
        tb.models_rows(b),
        tab.models_rows(a + b),
    ensures
        tab.0@.len() == ta.0@.len() + tb.0@.len(),
        forall|i: int| 0 <= i < ta.0@.len() ==> same_detection(#[trigger] tab.0@[i], ta.0@[i]),
        forall|i: int|
            0 <= i < tb.0@.len() ==> same_detection(#[trigger] tab.0@[ta.0@.len() + i], tb.0@[i]),
{
    crate::attack::lemma_group_concat(a, b, 0);
    let ga = group_rows(a, 0);
    let gb = group_rows(b, 0);
    assert forall|i: int| 0 <= i < ta.0@.len() implies same_detection(
        #[trigger] tab.0@[i],
        ta.0@[i],
    ) by {
        assert(group_rows(a + b, 0)[i] == ga[i]);
        lemma_detection_same_group(tab.0@[i], ta.0@[i], ga[i].0, ga[i].1);
    }
    assert forall|i: int| 0 <= i < tb.0@.len() implies same_detection(
        #[trigger] tab.0@[ta.0@.len() + i],
        tb.0@[i],
    ) by {
        assert(group_rows(a + b, 0)[ta.0@.len() + i] == gb[i]);
        lemma_detection_same_group(tab.0@[ta.0@.len() + i], tb.0@[i], gb[i].0, gb[i].1);
    }
}

} // verus!
