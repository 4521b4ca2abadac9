//! Software: the list of known software and the detail page of one.

use crate::attack::mitigations::techniques_section_malformed;
use crate::attack::techniques::domain::DomainTechniquesTable;
use crate::attack::techniques::section_rows;
use crate::attack::{groupable, section_entries};
use crate::attack::{
    all_tables, cell, cell_multiline, col_or_empty, concat, copy_str, entity_description,
    entity_name, first_table, opt_list, scrape_entity_description, scrape_entity_h2_tables,
    scrape_entity_name, split_col, split_col_of, Row, Table, WebFetch,
};
use crate::error::Error;
use crate::html::{parsed_nodes, Document};
use crate::text::multiline;
use vstd::prelude::*;

verus! {

/// A piece of software: its id, name, the other names it goes by, and its description.
#[derive(Debug, Default)]
pub struct SoftwareRow {
    pub id: String,
    pub name: String,
    pub assoc_software: Option<Vec<String>>,
    pub description: String,
}

impl SoftwareRow {
    /// Whether this software is what `row` gives.
    pub open spec fn models(&self, row: Seq<Seq<char>>) -> bool {
        &&& self.id@ == col_or_empty(row, 0)
        &&& self.name@ == col_or_empty(row, 1)
        &&& opt_list(self.assoc_software) == split_col_of(row, 2, ", "@)
        &&& self.description@ == multiline(col_or_empty(row, 3))
    }

    /// Reads a software row: id, name, the associated names separated by
    /// `", "`, and the description.
    pub fn from_row(row: &Row) -> (r: SoftwareRow)
        ensures
            r.models(row@),
    {
        proof {
            reveal_strlit(", ");
        }
        SoftwareRow {
            id: cell(row, 0),
            name: cell(row, 1),
            assoc_software: split_col(row, 2, ", "),
            description: cell_multiline(row, 3),
        }
    }
}

/// The software a page lists.
#[derive(Debug, Default)]
pub struct SoftwareTable(pub Vec<SoftwareRow>);

impl SoftwareTable {
    /// Whether this software is what `rows` give, one for each row.
    pub open spec fn models_rows(&self, rows: Seq<Seq<Seq<char>>>) -> bool {
        &&& self.0@.len() == rows.len()
        &&& forall|i: int| 0 <= i < rows.len() ==> (#[trigger] self.0@[i]).models(rows[i])
    }

    /// Reads each row of `table` as a piece of software.
    pub fn from_table(table: &Table) -> (r: SoftwareTable)
        ensures
            r.models_rows(table@.rows),
    {
        let mut out: Vec<SoftwareRow> = Vec::new();
        let mut i: usize = 0;
        while i < table.rows.len()
            invariant
                i <= table.rows.len(),
                out@.len() == i,
                forall|k: int| 0 <= k < i ==> (#[trigger] out@[k]).models(table@.rows[k]),
            decreases table.rows.len() - i,
        {
            let t = SoftwareRow::from_row(&table.rows[i]);
            out.push(t);
            i = i + 1;
        }
        SoftwareTable(out)
    }

    /// Whether no software is listed.
    pub fn is_empty(&self) -> (r: bool)
        ensures
            r == (self.0@.len() == 0),
    {
        self.0.len() == 0
    }

    /// The number of pieces of software.
    pub fn len(&self) -> (r: usize)
        ensures
            r == self.0@.len(),
    {
        self.0.len()
    }
}

/// Whether `t` is what the list page `html` gives: the software of the page's
/// first table, none where the page has no table.
pub open spec fn software_page(html: Seq<char>, t: SoftwareTable) -> bool {
    let tables = all_tables(parsed_nodes(html));
    if tables.len() == 0 {
        t.0@.len() == 0
    } else {
        t.models_rows(tables[0].rows)
    }
}

/// Reads the list of software from the text of a list page.
pub fn software_from_html(html: &str) -> (r: SoftwareTable)
    ensures
        software_page(html@, r),
{
    let doc = Document::parse(html);
    match first_table(&doc) {
        Some(table) => SoftwareTable::from_table(&table),
        None => SoftwareTable(Vec::new()),
    }
}

/// The address of the list of software.
pub fn software_url() -> (r: &'static str)
    ensures
        r@ == "https://attack.mitre.org/software/"@,
{
    "https://attack.mitre.org/software/"
}

/// Fetches and reads the list of software, asking for the address `software_url` gives.
pub fn fetch_software(web_client: &impl WebFetch) -> (r: Result<SoftwareTable, Error>)
    ensures
        r matches Ok(t) ==> exists|html: Seq<char>| software_page(html, t),
{
    let page = web_client.fetch(software_url())?;
    let t = software_from_html(page.as_str());
    let ghost g = t;
    assert(exists|h: Seq<char>| software_page(h, g)) by {
        assert(software_page(page@, g));
    }
    let r: Result<SoftwareTable, Error> = Ok(t);
    assert(r->Ok_0 == g);
    r
}

/// A group known to use a piece of software.
#[derive(Debug, Default)]
pub struct AssocGroupsRow {
    pub id: String,
    pub name: String,
}

impl AssocGroupsRow {
    /// Whether this group is what `row` gives.
    pub open spec fn models(&self, row: Seq<Seq<char>>) -> bool {
        &&& self.id@ == col_or_empty(row, 0)
        &&& self.name@ == col_or_empty(row, 1)
    }

    /// Reads a group row: the id and the name from the first two columns.
    pub fn from_row(row: &Row) -> (r: AssocGroupsRow)
        ensures
            r.models(row@),
    {
        AssocGroupsRow { id: cell(row, 0), name: cell(row, 1) }
    }
}

/// The groups known to use a piece of software.
#[derive(Debug, Default)]
pub struct AssocGroupsTable(pub Vec<AssocGroupsRow>);

impl AssocGroupsTable {
    /// Whether these groups are what `rows` give, one for each row.
    pub open spec fn models_rows(&self, rows: Seq<Seq<Seq<char>>>) -> bool {
        &&& self.0@.len() == rows.len()
        &&& forall|i: int| 0 <= i < rows.len() ==> (#[trigger] self.0@[i]).models(rows[i])
    }

    /// Reads each row of `table` as a group.
    pub fn from_table(table: &Table) -> (r: AssocGroupsTable)
        ensures
            r.models_rows(table@.rows),
    {
        let mut out: Vec<AssocGroupsRow> = Vec::new();
        let mut i: usize = 0;
        while i < table.rows.len()
            invariant
                i <= table.rows.len(),
                out@.len() == i,
                forall|k: int| 0 <= k < i ==> (#[trigger] out@[k]).models(table@.rows[k]),
            decreases table.rows.len() - i,
        {
            let t = AssocGroupsRow::from_row(&table.rows[i]);
            out.push(t);
            i = i + 1;
        }
        AssocGroupsTable(out)
    }

    /// The groups of `table`, none where it has no rows.
    pub fn from_table_opt(table: &Table) -> (r: Option<AssocGroupsTable>)
        ensures
            r is None <==> table@.rows.len() == 0,
            r matches Some(g) ==> g.models_rows(table@.rows),
    {
        if table.is_empty() {
            None
        } else {
            Some(AssocGroupsTable::from_table(table))
        }
    }
}

/// A piece of software as its detail page gives it.
#[derive(Debug, Default)]
pub struct Software {
    pub id: String,
    pub name: String,
    pub desc: String,
    pub techniques: Option<DomainTechniquesTable>,
    pub groups: Option<AssocGroupsTable>,
}

/// Whether `sw` is what the detail page `html` of software `id` gives.
pub open spec fn software_info_page(id: Seq<char>, html: Seq<char>, sw: Software) -> bool {
    let s = parsed_nodes(html);
    &&& sw.id@ == id
    &&& sw.name@ == entity_name(s)
    &&& sw.desc@ == entity_description(s)
    &&& match section_rows(s, "techniques"@) {
        Some(rows) => sw.techniques matches Some(t) && t.models_rows(rows),
        None => sw.techniques is None,
    }
    &&& match section_rows(s, "groups"@) {
        Some(rows) => sw.groups matches Some(g) && g.models_rows(rows),
        None => sw.groups is None,
    }
}

/// Reads software `software_id` from the text of its detail page: its name,
/// description, and the techniques and groups of its `techniques` and `groups`
/// sections, each absent where the page has no such section or its table has
/// no rows.
pub fn software_info_from_html(software_id: &str, html: &str) -> (r: Result<Software, Error>)
    ensures
        r is Err <==> techniques_section_malformed(html@),
        r matches Ok(sw) ==> software_info_page(software_id@, html@, sw),
{
    let doc = Document::parse(html);
    let tables = scrape_entity_h2_tables(&doc);
    let techniques = match tables.get("techniques") {
        Some(t) => DomainTechniquesTable::from_table_opt(t)?,
        None => None,
    };
    let groups = match tables.get("groups") {
        Some(t) => AssocGroupsTable::from_table_opt(t),
        None => None,
    };
    Ok(
        Software {
            id: copy_str(software_id),
            name: scrape_entity_name(&doc),
            desc: scrape_entity_description(&doc),
            techniques,
            groups,
        },
    )
}

/// The address of the detail page of software `software_id`.
pub fn software_page_url(software_id: &str) -> (r: String)
    ensures
        r@ == "https://attack.mitre.org/software/"@ + software_id@,
{
    concat("https://attack.mitre.org/software/", software_id)
}

/// Fetches and reads the detail page of software `software_id`, asking for the
/// address `software_page_url` gives.
pub fn fetch_software_info(software_id: &str, web_client: &impl WebFetch) -> (r: Result<
    Software,
    Error,
>)
    ensures
        r matches Ok(sw) ==> exists|html: Seq<char>| software_info_page(software_id@, html, sw),
{
    let url = software_page_url(software_id);
    let page = web_client.fetch(url.as_str())?;
    software_info_from_html(software_id, page.as_str())
}

/// Absent sections are tolerated: on a detail page whose only section is
/// `techniques`, holding rows that open with a technique row, reading does not
/// fail, the techniques are present, and the groups are absent.
pub proof fn lemma_only_techniques_section(id: Seq<char>, html: Seq<char>, sw: Software)
    requires
        software_info_page(id, html, sw),
        forall|i: int|
            0 <= i < section_entries(parsed_nodes(html)).len() ==> (#[trigger] section_entries(
                parsed_nodes(html),
            )[i]).0 == "techniques"@,
        section_rows(parsed_nodes(html), "techniques"@) matches Some(rows) && groupable(rows, 0),
    ensures
        !techniques_section_malformed(html),
        sw.techniques is Some,
        sw.groups is None,
{
    reveal_strlit("techniques");
    reveal_strlit("groups");
    assert("techniques"@.len() == 10);
    assert("groups"@.len() == 6);
    crate::attack::lemma_section_absent(section_entries(parsed_nodes(html)), "groups"@);
}

} // verus!
