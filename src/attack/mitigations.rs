//! Mitigations.

use crate::attack::techniques::domain::{DomainTechniqueRow, DomainTechniquesTable};
use crate::attack::techniques::section_rows;
use crate::attack::{
    all_tables, cell, cell_multiline, col_or_empty, concat, copy_str, entity_description,
    entity_name, first_table, groupable, scrape_entity_description, scrape_entity_h2_tables,
    scrape_entity_name, Row, Table, WebFetch,
};
use crate::error::Error;
use crate::html::{parsed_nodes, Document};
use crate::text::multiline;
use vstd::prelude::*;

verus! {

/// A mitigation: its id, name and description.
#[derive(Default, Debug)]
pub struct MitigationRow {
    pub id: String,
    pub name: String,
    pub description: String,
}

impl MitigationRow {
    /// Whether this mitigation is what `row` gives.
    pub open spec fn models(&self, row: Seq<Seq<char>>) -> bool {
        &&& self.id@ == col_or_empty(row, 0)
        &&& self.name@ == col_or_empty(row, 1)
        &&& self.description@ == multiline(col_or_empty(row, 2))
    }

    /// Reads a mitigation row: the id, the name and the description from the
    /// first three columns.
    pub fn from_row(row: &Row) -> (r: MitigationRow)
        ensures
            r.models(row@),
    {
        MitigationRow { id: cell(row, 0), name: cell(row, 1), description: cell_multiline(row, 2) }
    }
}

/// The mitigations a page lists.
#[derive(Default, Debug)]
pub struct MitigationTable(pub Vec<MitigationRow>);

impl MitigationTable {
    /// Whether these mitigations are what `rows` give, one for each row.
    pub open spec fn models_rows(&self, rows: Seq<Seq<Seq<char>>>) -> bool {
        &&& self.0@.len() == rows.len()
        &&& forall|i: int| 0 <= i < rows.len() ==> (#[trigger] self.0@[i]).models(rows[i])
    }

    /// Reads each row of `table` as a mitigation.
    pub fn from_table(table: &Table) -> (r: MitigationTable)
        ensures
            r.models_rows(table@.rows),
    {
        let mut out: Vec<MitigationRow> = Vec::new();
        let mut i: usize = 0;
        while i < table.rows.len()
            invariant
                i <= table.rows.len(),
                out@.len() == i,
                forall|k: int| 0 <= k < i ==> (#[trigger] out@[k]).models(table@.rows[k]),
            decreases table.rows.len() - i,
        {
            let m = MitigationRow::from_row(&table.rows[i]);
            out.push(m);
            i = i + 1;
        }
        MitigationTable(out)
    }

    /// The mitigations of `table`, none where it has no rows.
    pub fn from_table_opt(table: &Table) -> (r: Option<MitigationTable>)
        ensures
            r is None <==> table@.rows.len() == 0,
            r matches Some(m) ==> m.models_rows(table@.rows),
    {
        if table.is_empty() {
            None
        } else {
            Some(MitigationTable::from_table(table))
        }
    }

    /// Whether there are no mitigations.
    pub fn is_empty(&self) -> (r: bool)
        ensures
            r == (self.0@.len() == 0),
    {
        self.0.len() == 0
    }

    /// The number of mitigations.
    pub fn len(&self) -> (r: usize)
        ensures
            r == self.0@.len(),
    {
        self.0.len()
    }
}

/// The domains whose mitigations are listed.
#[derive(Debug, Clone, Copy, PartialEq, Eq)]
pub enum Domain {
    ENTERPRISE,
    MOBILE,
    ICS,
}

impl Domain {
    /// The domain named `dom_str` (`enterprise`, `mobile` or `ics`).
    pub fn from_str(dom_str: &str) -> (r: Result<Domain, String>)
        ensures
            dom_str@ == "enterprise"@ ==> r == Ok::<Domain, String>(Domain::ENTERPRISE),
            dom_str@ == "mobile"@ ==> r == Ok::<Domain, String>(Domain::MOBILE),
            dom_str@ == "ics"@ ==> r == Ok::<Domain, String>(Domain::ICS),
            r is Err <==> (dom_str@ != "enterprise"@ && dom_str@ != "mobile"@ && dom_str@
                != "ics"@),
            r matches Err(m) ==> m@ == dom_str@ + " is not a valid mitigation domain"@,
    {
        proof {
            reveal_strlit("enterprise");
            reveal_strlit("mobile");
            reveal_strlit("ics");
            assert("enterprise"@.len() == 10 && "mobile"@.len() == 6 && "ics"@.len() == 3);
        }
        if crate::html::str_eq(dom_str, "enterprise") {
            Ok(Domain::ENTERPRISE)
        } else if crate::html::str_eq(dom_str, "mobile") {
            Ok(Domain::MOBILE)
        } else if crate::html::str_eq(dom_str, "ics") {
            Ok(Domain::ICS)
        } else {
            Err(concat(dom_str, " is not a valid mitigation domain"))
        }
    }

    /// The address of the domain's list of mitigations.
    pub fn url(&self) -> (r: &'static str)
        ensures
            *self == Domain::ENTERPRISE ==> r@ == "https://attack.mitre.org/mitigations/enterprise/"@,
            *self == Domain::MOBILE ==> r@ == "https://attack.mitre.org/mitigations/mobile/"@,
            *self == Domain::ICS ==> r@ == "https://attack.mitre.org/mitigations/ics/"@,
    {
        match self {
            Domain::ENTERPRISE => "https://attack.mitre.org/mitigations/enterprise/",
            Domain::MOBILE => "https://attack.mitre.org/mitigations/mobile/",
            Domain::ICS => "https://attack.mitre.org/mitigations/ics/",
        }
    }
}

/// Whether `t` is what the list page `html` gives: the mitigations of the
/// page's first table, none where the page has no table.
pub open spec fn mitigations_page(html: Seq<char>, t: MitigationTable) -> bool {
    let tables = all_tables(parsed_nodes(html));
    if tables.len() == 0 {
        t.0@.len() == 0
    } else {
        t.models_rows(tables[0].rows)
    }
}

/// Reads the list of mitigations from the text of a list page.
pub fn mitigations_from_html(html: &str) -> (r: MitigationTable)
    ensures
        mitigations_page(html@, r),
{
    let doc = Document::parse(html);
    match first_table(&doc) {
        Some(table) => MitigationTable::from_table(&table),
        None => MitigationTable(Vec::new()),
    }
}

impl MitigationTable {
    /// Fetches and reads the list of mitigations of a domain.
    pub fn fetch_mitigations(mitigation_type: Domain, web_client: &impl WebFetch) -> (r: Result<
        MitigationTable,
        Error,
    >)
        ensures
            r matches Ok(t) ==> exists|html: Seq<char>| mitigations_page(html, t),
    {
        let page = web_client.fetch(mitigation_type.url())?;
        let t = mitigations_from_html(page.as_str());
        let ghost g = t;
        assert(exists|h: Seq<char>| mitigations_page(h, g)) by {
            assert(mitigations_page(page@, g));
        }
        let r: Result<MitigationTable, Error> = Ok(t);
        assert(r->Ok_0 == g);
        r
    }
}

/// A mitigation as its detail page gives it.
#[derive(Debug, Default)]
pub struct Mitigation {
    pub id: String,
    pub name: String,
    pub desc: String,
    pub addressed_techniques: Option<DomainTechniquesTable>,
}

/// Whether reading the detail page `html` fails: its `techniques` section
/// opens with a sub-technique row.
pub open spec fn techniques_section_malformed(html: Seq<char>) -> bool {
    section_rows(parsed_nodes(html), "techniques"@) matches Some(rows) && !groupable(rows, 0)
}

/// Whether `m` is what the detail page `html` of mitigation `id` gives.
pub open spec fn mitigation_page(id: Seq<char>, html: Seq<char>, m: Mitigation) -> bool {
    let s = parsed_nodes(html);
    &&& m.id@ == id
    &&& m.name@ == entity_name(s)
    &&& m.desc@ == entity_description(s)
    &&& match section_rows(s, "techniques"@) {
        Some(rows) => m.addressed_techniques matches Some(t) && t.models_rows(rows),
        None => m.addressed_techniques is None,
    }
}

/// Reads mitigation `mitigation_id` from the text of its detail page: its
/// name, description, and the techniques of its `techniques` section, absent
/// where the page has no such section or its table has no rows.
pub fn mitigation_from_html(mitigation_id: &str, html: &str) -> (r: Result<Mitigation, Error>)
    ensures
        r is Err <==> techniques_section_malformed(html@),
        r matches Ok(m) ==> mitigation_page(mitigation_id@, html@, m),
{
    let doc = Document::parse(html);
    let tables = scrape_entity_h2_tables(&doc);
    let addressed_techniques = match tables.get("techniques") {
        Some(t) => DomainTechniquesTable::from_table_opt(t)?,
        None => None,
    };
    Ok(
        Mitigation {
            id: copy_str(mitigation_id),
            name: scrape_entity_name(&doc),
            desc: scrape_entity_description(&doc),
            addressed_techniques,
        },
    )
}

/// The address of the detail page of mitigation `mitigation_id`.
pub fn mitigation_page_url(mitigation_id: &str) -> (r: String)
    ensures
        r@ == "https://attack.mitre.org/mitigations/"@ + mitigation_id@,
{
    concat("https://attack.mitre.org/mitigations/", mitigation_id)
}

impl Mitigation {
    /// Fetches and reads the detail page of mitigation `mitigation_id`, asking
    /// for the address `mitigation_page_url` gives.
    pub fn fetch_mitigation(mitigation_id: &str, web_client: &impl WebFetch) -> (r: Result<
        Mitigation,
        Error,
    >)
        ensures
            r matches Ok(m) ==> exists|html: Seq<char>| mitigation_page(mitigation_id@, html, m),
    {
        let url = mitigation_page_url(mitigation_id);
        let page = web_client.fetch(url.as_str())?;
        mitigation_from_html(mitigation_id, page.as_str())
    }
}

/// A mitigation row without a domain column and a technique row with one read
/// the same id and name: the technique row's leading domain value moves every
/// later field one column to the right, and nothing else differs, as long as
/// the name does not start with `.`.
pub proof fn lemma_domain_shift(
    m: MitigationRow,
    t: DomainTechniqueRow,
    domain: Seq<char>,
    id: Seq<char>,
    name: Seq<char>,
    description: Seq<char>,
)
    requires
        m.models(seq![id, name, description]),
        t.models(seq![domain, id, name, description]),
        !(name.len() > 0 && name[0] == '.'),
    ensures
        t.domain@ == domain,
        m.id@ == id && t.id@ == id,
        m.name@ == name && t.name@ == name,
{
    let row = seq![domain, id, name, description];
    assert(row[2] == name);
    assert(id + Seq::<char>::empty() == id);
}

} // verus!
