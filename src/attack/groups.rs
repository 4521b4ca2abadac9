//! Groups: the list of known groups and the detail page of one.

use crate::attack::mitigations::techniques_section_malformed;
use crate::attack::techniques::domain::DomainTechniquesTable;
use crate::attack::techniques::section_rows;
use crate::attack::{groupable, section_entries};
use crate::attack::{
    all_tables, cell, cell_multiline, col, col_or_empty, concat, copy_str, entity_description,
    entity_name, first_table, opt_list, scrape_entity_description, scrape_entity_h2_tables,
    scrape_entity_name, section_table, split_col, split_col_of, split_list, str_views,
    lemma_str_views_push, Row, Table, WebFetch,
};
use crate::error::Error;
use crate::html::{parsed_nodes, Document};
use crate::text::{multiline, split_on};
use vstd::prelude::*;

verus! {

/// A group: its id, name, the other names it goes by, and its description.
#[derive(Debug, Default)]
pub struct GroupRow {
    pub id: String,
    pub name: String,
    pub assoc_groups: Option<Vec<String>>,
    pub description: String,
}

impl GroupRow {
    /// Whether this group is what `row` gives.
    pub open spec fn models(&self, row: Seq<Seq<char>>) -> bool {
        &&& self.id@ == col_or_empty(row, 0)
        &&& self.name@ == col_or_empty(row, 1)
        &&& opt_list(self.assoc_groups) == split_col_of(row, 2, ","@)
        &&& self.description@ == multiline(col_or_empty(row, 3))
    }

    /// Reads a group row: id, name, the associated names separated by `","`,
    /// and the description.
    pub fn from_row(row: &Row) -> (r: GroupRow)
        ensures
            r.models(row@),
    {
        proof {
            reveal_strlit(",");
        }
        GroupRow {
            id: cell(row, 0),
            name: cell(row, 1),
            assoc_groups: split_col(row, 2, ","),
            description: cell_multiline(row, 3),
        }
    }
}

/// The groups a page lists.
#[derive(Debug, Default)]
pub struct GroupsTable(pub Vec<GroupRow>);

impl GroupsTable {
    /// Whether these groups are what `rows` give, one for each row.
    pub open spec fn models_rows(&self, rows: Seq<Seq<Seq<char>>>) -> bool {
        &&& self.0@.len() == rows.len()
        &&& forall|i: int| 0 <= i < rows.len() ==> (#[trigger] self.0@[i]).models(rows[i])
    }

    /// Reads each row of `table` as a group.
    pub fn from_table(table: &Table) -> (r: GroupsTable)
        ensures
            r.models_rows(table@.rows),
    {
        let mut out: Vec<GroupRow> = Vec::new();
        let mut i: usize = 0;
        while i < table.rows.len()
            invariant
                i <= table.rows.len(),
                out@.len() == i,
                forall|k: int| 0 <= k < i ==> (#[trigger] out@[k]).models(table@.rows[k]),
            decreases table.rows.len() - i,
        {
            let t = GroupRow::from_row(&table.rows[i]);
            out.push(t);
            i = i + 1;
        }
        GroupsTable(out)
    }

    /// Whether no group is listed.
    pub fn is_empty(&self) -> (r: bool)
        ensures
            r == (self.0@.len() == 0),
    {
        self.0.len() == 0
    }

    /// The number of groups.
    pub fn len(&self) -> (r: usize)
        ensures
            r == self.0@.len(),
    {
        self.0.len()
    }
}

/// Whether `t` is what the list page `html` gives: the groups of the page's
/// first table, none where the page has no table.
pub open spec fn groups_page(html: Seq<char>, t: GroupsTable) -> bool {
    let tables = all_tables(parsed_nodes(html));
    if tables.len() == 0 {
        t.0@.len() == 0
    } else {
        t.models_rows(tables[0].rows)
    }
}

/// Reads the list of groups from the text of a list page.
pub fn groups_from_html(html: &str) -> (r: GroupsTable)
    ensures
        groups_page(html@, r),
{
    let doc = Document::parse(html);
    match first_table(&doc) {
        Some(table) => GroupsTable::from_table(&table),
        None => GroupsTable(Vec::new()),
    }
}

/// The address of the list of groups.
pub fn groups_url() -> (r: &'static str)
    ensures
        r@ == "https://attack.mitre.org/groups/"@,
{
    "https://attack.mitre.org/groups/"
}

/// Fetches and reads the list of groups, asking for the address `groups_url` gives.
pub fn fetch_groups(web_client: &impl WebFetch) -> (r: Result<GroupsTable, Error>)
    ensures
        r matches Ok(t) ==> exists|html: Seq<char>| groups_page(html, t),
{
    let page = web_client.fetch(groups_url())?;
    let t = groups_from_html(page.as_str());
    let ghost g = t;
    assert(exists|h: Seq<char>| groups_page(h, g)) by {
        assert(groups_page(page@, g));
    }
    let r: Result<GroupsTable, Error> = Ok(t);
    assert(r->Ok_0 == g);
    r
}

/// What the techniques column of a software row lists: the column split at
/// each `","`, nothing where the row has no such column.
pub open spec fn technique_list(row: Seq<Seq<char>>) -> Seq<Seq<char>> {
    match col(row, 3) {
        Some(c) => split_on(c, ","@),
        None => seq![],
    }
}

/// A piece of software a group uses, with the techniques it uses it for.
#[derive(Debug, Default)]
pub struct SoftwareRow {
    pub id: String,
    pub name: String,
    pub techniques: Vec<String>,
}

impl SoftwareRow {
    /// Whether this software is what `row` gives.
    pub open spec fn models(&self, row: Seq<Seq<char>>) -> bool {
        &&& self.id@ == col_or_empty(row, 0)
        &&& self.name@ == col_or_empty(row, 1)
        &&& str_views(self.techniques@) == technique_list(row)
    }

    /// Reads a software row: the id, the name, and the techniques of the
    /// fourth column separated by `","`.
    pub fn from_row(row: &Row) -> (r: SoftwareRow)
        ensures
            r.models(row@),
    {
        proof {
            reveal_strlit(",");
        }
        let techniques = match row.get_col(3) {
            Some(t) => split_list(t.as_str(), ","),
            None => Vec::new(),
        };
        proof {
            assert(str_views(Seq::<String>::empty()) =~= Seq::<Seq<char>>::empty());
        }
        SoftwareRow { id: cell(row, 0), name: cell(row, 1), techniques }
    }
}

/// The software a group uses.
#[derive(Debug, Default)]
pub struct SoftwareTable(pub Vec<SoftwareRow>);

impl SoftwareTable {
    /// Whether this software is what `rows` give, one for each row.
    pub open spec fn models_rows(&self, rows: Seq<Seq<Seq<char>>>) -> bool {
        &&& self.0@.len() == rows.len()
        &&& forall|i: int| 0 <= i < rows.len() ==> (#[trigger] self.0@[i]).models(rows[i])
    }

    /// Reads each row of `table` as a piece of software.
    pub fn from_table(table: &Table) -> (r: SoftwareTable)
        ensures
            r.models_rows(table@.rows),
    {
        let mut out: Vec<SoftwareRow> = Vec::new();
        let mut i: usize = 0;
        while i < table.rows.len()
            invariant
                i <= table.rows.len(),
                out@.len() == i,
                forall|k: int| 0 <= k < i ==> (#[trigger] out@[k]).models(table@.rows[k]),
            decreases table.rows.len() - i,
        {
            let t = SoftwareRow::from_row(&table.rows[i]);
            out.push(t);
            i = i + 1;
        }
        SoftwareTable(out)
    }

    /// The software of `table`, none where it has no rows.
    pub fn from_table_opt(table: &Table) -> (r: Option<SoftwareTable>)
        ensures
            r is None <==> table@.rows.len() == 0,
            r matches Some(t) ==> t.models_rows(table@.rows),
    {
        if table.is_empty() {
            None
        } else {
            Some(SoftwareTable::from_table(table))
        }
    }

    /// Whether no software is listed.
    pub fn is_empty(&self) -> (r: bool)
        ensures
            r == (self.0@.len() == 0),
    {
        self.0.len() == 0
    }

    /// The number of pieces of software.
    pub fn len(&self) -> (r: usize)
        ensures
            r == self.0@.len(),
    {
        self.0.len()
    }
}

/// The first column of each of `rows`.
pub open spec fn first_cols(rows: Seq<Seq<Seq<char>>>) -> Seq<Seq<char>> {
    rows.map_values(|r: Seq<Seq<char>>| col_or_empty(r, 0))
}

/// The first column of each row of `table`.
fn first_columns(table: &Table) -> (r: Vec<String>)
    ensures
        str_views(r@) == first_cols(table@.rows),
{
    let mut out: Vec<String> = Vec::new();
    let mut i: usize = 0;
    while i < table.rows.len()
        invariant
            i <= table.rows.len(),
            str_views(out@) == first_cols(table@.rows.subrange(0, i as int)),
        decreases table.rows.len() - i,
    {
        let c = cell(&table.rows[i], 0);
        proof {
            lemma_str_views_push(out@, c);
            assert(first_cols(table@.rows.subrange(0, i + 1)) =~= first_cols(
                table@.rows.subrange(0, i as int),
            ).push(col_or_empty(table@.rows[i as int], 0)));
        }
        out.push(c);
        i = i + 1;
    }
    proof {
        assert(table@.rows.subrange(0, table@.rows.len() as int) == table@.rows);
    }
    out
}

/// A group as its detail page gives it.
#[derive(Debug, Default)]
pub struct Group {
    pub id: String,
    pub name: String,
    pub desc: String,
    pub assoc_groups: Option<Vec<String>>,
    pub techniques: Option<DomainTechniquesTable>,
    pub software: Option<SoftwareTable>,
}

/// Whether `g` is what the detail page `html` of group `id` gives.
pub open spec fn group_page(id: Seq<char>, html: Seq<char>, g: Group) -> bool {
    let s = parsed_nodes(html);
    &&& g.id@ == id
    &&& g.name@ == entity_name(s)
    &&& g.desc@ == entity_description(s)
    &&& match section_rows(s, "techniques"@) {
        Some(rows) => g.techniques matches Some(t) && t.models_rows(rows),
        None => g.techniques is None,
    }
    &&& match section_rows(s, "software"@) {
        Some(rows) => g.software matches Some(t) && t.models_rows(rows),
        None => g.software is None,
    }
    &&& match section_table(s, "aliasDescription"@) {
        Some(t) => opt_list(g.assoc_groups) == Some(first_cols(t.rows)),
        None => g.assoc_groups is None,
    }
}

/// Reads group `group_id` from the text of its detail page: its name,
/// description, the techniques and software of its `techniques` and
/// `software` sections (absent where the page has no such section or its
/// table has no rows), and the names of its `aliasDescription` section.
pub fn group_from_html(group_id: &str, html: &str) -> (r: Result<Group, Error>)
    ensures
        r is Err <==> techniques_section_malformed(html@),
        r matches Ok(g) ==> group_page(group_id@, html@, g),
{
    let doc = Document::parse(html);
    let tables = scrape_entity_h2_tables(&doc);
    let techniques = match tables.get("techniques") {
        Some(t) => DomainTechniquesTable::from_table_opt(t)?,
        None => None,
    };
    let software = match tables.get("software") {
        Some(t) => SoftwareTable::from_table_opt(t),
        None => None,
    };
    let assoc_groups = match tables.get("aliasDescription") {
        Some(t) => Some(first_columns(t)),
        None => None,
    };
    Ok(
        Group {
            id: copy_str(group_id),
            name: scrape_entity_name(&doc),
            desc: scrape_entity_description(&doc),
            assoc_groups,
            techniques,
            software,
        },
    )
}

/// The address of the detail page of group `group_id`.
pub fn group_page_url(group_id: &str) -> (r: String)
    ensures
        r@ == "https://attack.mitre.org/groups/"@ + group_id@,
{
    concat("https://attack.mitre.org/groups/", group_id)
}

impl Group {
    /// Fetches and reads the detail page of group `group_id`, asking for the
    /// address `group_page_url` gives.
    pub fn fetch_group(group_id: &str, web_client: &impl WebFetch) -> (r: Result<Group, Error>)
        ensures
            r matches Ok(g) ==> exists|html: Seq<char>| group_page(group_id@, html, g),
    {
        let url = group_page_url(group_id);
        let page = web_client.fetch(url.as_str())?;
        group_from_html(group_id, page.as_str())
    }
}

/// Absent sections are tolerated: on a detail page whose only section is
/// `techniques`, holding rows that open with a technique row, reading does not
/// fail, the techniques are present, and the software and the associated names are absent.
pub proof fn lemma_only_techniques_section(id: Seq<char>, html: Seq<char>, g: Group)
    requires
        group_page(id, html, g),
        forall|i: int|
            0 <= i < section_entries(parsed_nodes(html)).len() ==> (#[trigger] section_entries(
                parsed_nodes(html),
            )[i]).0 == "techniques"@,
        section_rows(parsed_nodes(html), "techniques"@) matches Some(rows) && groupable(rows, 0),
    ensures
        !techniques_section_malformed(html),
        g.techniques is Some,
        g.software is None,
        g.assoc_groups is None,
{
    reveal_strlit("techniques");
    reveal_strlit("software");
    reveal_strlit("aliasDescription");
    assert("techniques"@.len() == 10);
    assert("software"@.len() == 8);
    crate::attack::lemma_section_absent(section_entries(parsed_nodes(html)), "software"@);
    assert("aliasDescription"@.len() == 16);
    crate::attack::lemma_section_absent(section_entries(parsed_nodes(html)), "aliasDescription"@);
}

} // verus!
