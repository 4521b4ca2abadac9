//! Tactics: the list of a domain's tactics and the detail page of one tactic.

use crate::attack::techniques::TechniquesTable;
use crate::attack::{
    all_tables, cell, cell_multiline, col_or_empty, concat, entity_description, entity_name,
    first_table, groupable, last_table, scrape_entity_description, scrape_entity_name, Row, Table,
    WebFetch,
};
use crate::error::Error;
use crate::html::{parsed_nodes, Document};
use crate::text::{multiline, upper_of};
use vstd::prelude::*;

verus! {

/// The domains whose tactics are listed.
#[derive(Debug, Clone, Copy, PartialEq, Eq)]
pub enum Domain {
    ENTERPRISE,
    MOBILE,
    ICS,
}

impl Domain {
    /// The domain named `dom_str` (`enterprise`, `mobile` or `ics`).
    pub fn from_str(dom_str: &str) -> (r: Result<Domain, Error>)
        ensures
            dom_str@ == "enterprise"@ ==> r == Ok::<Domain, Error>(Domain::ENTERPRISE),
            dom_str@ == "mobile"@ ==> r == Ok::<Domain, Error>(Domain::MOBILE),
            dom_str@ == "ics"@ ==> r == Ok::<Domain, Error>(Domain::ICS),
            r is Err <==> (dom_str@ != "enterprise"@ && dom_str@ != "mobile"@ && dom_str@
                != "ics"@),
            r matches Err(e) ==> e is InvalidValue,
            r matches Err(Error::InvalidValue(m)) ==> m@ == dom_str@
                + " is not a valid tactic domain"@,
    {
        proof {
            reveal_strlit("enterprise");
            reveal_strlit("mobile");
            reveal_strlit("ics");
            assert("enterprise"@.len() == 10 && "mobile"@.len() == 6 && "ics"@.len() == 3);
        }
        if crate::html::str_eq(dom_str, "enterprise") {
            Ok(Domain::ENTERPRISE)
        } else if crate::html::str_eq(dom_str, "mobile") {
            Ok(Domain::MOBILE)
        } else if crate::html::str_eq(dom_str, "ics") {
            Ok(Domain::ICS)
        } else {
            Err(Error::InvalidValue(concat(dom_str, " is not a valid tactic domain")))
        }
    }

    /// The address of the domain's list of tactics.
    pub fn url(&self) -> (r: &'static str)
        ensures
            *self == Domain::ENTERPRISE ==> r@ == "https://attack.mitre.org/tactics/enterprise/"@,
            *self == Domain::MOBILE ==> r@ == "https://attack.mitre.org/tactics/mobile/"@,
            *self == Domain::ICS ==> r@ == "https://attack.mitre.org/tactics/ics/"@,
    {
        match self {
            Domain::ENTERPRISE => "https://attack.mitre.org/tactics/enterprise/",
            Domain::MOBILE => "https://attack.mitre.org/tactics/mobile/",
            Domain::ICS => "https://attack.mitre.org/tactics/ics/",
        }
    }
}

/// A tactic: its id, name and description.
#[derive(Default, Debug)]
pub struct TacticRow {
    pub id: String,
    pub name: String,
    pub description: String,
}

impl TacticRow {
    /// Whether this tactic is what `row` gives.
    pub open spec fn models(&self, row: Seq<Seq<char>>) -> bool {
        &&& self.id@ == col_or_empty(row, 0)
        &&& self.name@ == col_or_empty(row, 1)
        &&& self.description@ == multiline(col_or_empty(row, 2))
    }

    /// Reads a tactic row: the id, the name and the description from the first
    /// three columns.
    pub fn from_row(row: &Row) -> (r: TacticRow)
        ensures
            r.models(row@),
    {
        TacticRow { id: cell(row, 0), name: cell(row, 1), description: cell_multiline(row, 2) }
    }
}

/// The tactics of a domain.
#[derive(Default, Debug)]
pub struct TacticsTable(pub Vec<TacticRow>);

impl TacticsTable {
    /// Whether these tactics are what `rows` give, one for each row.
    pub open spec fn models_rows(&self, rows: Seq<Seq<Seq<char>>>) -> bool {
        &&& self.0@.len() == rows.len()
        &&& forall|i: int| 0 <= i < rows.len() ==> (#[trigger] self.0@[i]).models(rows[i])
    }

    /// Reads each row of `table` as a tactic.
    pub fn from_table(table: &Table) -> (r: TacticsTable)
        ensures
            r.models_rows(table@.rows),
    {
        let mut out: Vec<TacticRow> = Vec::new();
        let mut i: usize = 0;
        while i < table.rows.len()
            invariant
                i <= table.rows.len(),
                out@.len() == i,
                forall|k: int| 0 <= k < i ==> (#[trigger] out@[k]).models(table@.rows[k]),
            decreases table.rows.len() - i,
        {
            let t = TacticRow::from_row(&table.rows[i]);
            out.push(t);
            i = i + 1;
        }
        TacticsTable(out)
    }

    /// The number of tactics.
    pub fn len(&self) -> (r: usize)
        ensures
            r == self.0@.len(),
    {
        self.0.len()
    }

    /// Whether there are no tactics.
    pub fn is_empty(&self) -> (r: bool)
        ensures
            r == (self.0@.len() == 0),
    {
        self.0.len() == 0
    }
}

/// Whether `t` is what the list page `html` gives: the tactics of the page's
/// first table, none where the page has no table.
pub open spec fn tactics_page(html: Seq<char>, t: TacticsTable) -> bool {
    let tables = all_tables(parsed_nodes(html));
    if tables.len() == 0 {
        t.0@.len() == 0
    } else {
        t.models_rows(tables[0].rows)
    }
}

/// Reads the list of tactics from the text of a list page.
pub fn tactics_from_html(html: &str) -> (r: TacticsTable)
    ensures
        tactics_page(html@, r),
{
    let doc = Document::parse(html);
    match first_table(&doc) {
        Some(table) => TacticsTable::from_table(&table),
        None => TacticsTable(Vec::new()),
    }
}

/// Fetches and reads the list of tactics of a domain.
pub fn fetch_tactics(tactic_type: Domain, req_client: &impl WebFetch) -> (r: Result<
    TacticsTable,
    Error,
>)
    ensures
        r matches Ok(t) ==> exists|html: Seq<char>| tactics_page(html, t),
{
    let page = req_client.fetch(tactic_type.url())?;
    let t = tactics_from_html(page.as_str());
    let ghost g = t;
    assert(exists|h: Seq<char>| tactics_page(h, g)) by {
        assert(tactics_page(page@, g));
    }
    let r: Result<TacticsTable, Error> = Ok(t);
        assert(r->Ok_0 == g);
        r
}

/// A tactic as its detail page gives it.
#[derive(Default, Debug)]
pub struct Tactic {
    pub id: String,
    pub name: String,
    pub description: String,
    pub techniques: Option<TechniquesTable>,
}

/// Whether `t` is what the detail page `html` of tactic `id` gives: the id in
/// upper case, the page's name and description, and the techniques of the
/// page's last table, absent where the page has no table.
pub open spec fn tactic_page(id: Seq<char>, html: Seq<char>, t: Tactic) -> bool {
    let s = parsed_nodes(html);
    let tables = all_tables(s);
    &&& t.id@ == upper_of(id)
    &&& t.name@ == entity_name(s)
    &&& t.description@ == entity_description(s)
    &&& if tables.len() == 0 {
        t.techniques is None
    } else {
        t.techniques matches Some(ts) && ts.models_rows(tables.last().rows)
    }
}

/// Whether reading the detail page `html` of a tactic fails: its last table
/// opens with a sub-technique row.
pub open spec fn tactic_page_malformed(html: Seq<char>) -> bool {
    let tables = all_tables(parsed_nodes(html));
    tables.len() > 0 && !groupable(tables.last().rows, 0)
}

/// Reads tactic `tactic_id` from the text of its detail page. Unlike the
/// other detail pages, a tactic's page does not put its techniques under a
/// named section of the page container: it lists them in one table after the
/// tactic's description, the last table of the page. That table is read, with
/// its technique and sub-technique rows grouped; the field is absent only where
/// the page has no table at all.
pub fn tactic_from_html(tactic_id: &str, html: &str) -> (r: Result<Tactic, Error>)
    ensures
        r is Err <==> tactic_page_malformed(html@),
        r matches Ok(t) ==> tactic_page(tactic_id@, html@, t),
{
    let doc = Document::parse(html);
    let techniques = match last_table(&doc) {
        Some(table) => Some(TechniquesTable::from_table(&table)?),
        None => None,
    };
    Ok(
        Tactic {
            id: crate::text::to_upper(tactic_id),
            name: scrape_entity_name(&doc),
            description: scrape_entity_description(&doc),
            techniques,
        },
    )
}

/// The address of the detail page of tactic `tactic_id`: the id in upper case.
pub fn tactic_page_url(tactic_id: &str) -> (r: String)
    ensures
        r@ == "https://attack.mitre.org/tactics/"@ + upper_of(tactic_id@),
{
    let upper = crate::text::to_upper(tactic_id);
    concat("https://attack.mitre.org/tactics/", upper.as_str())
}

impl Tactic {
    /// Fetches and reads the detail page of tactic `tactic_id`, asking for the
    /// address `tactic_page_url` gives.
    pub fn fetch_tactic(tactic_id: &str, req_client: &impl WebFetch) -> (r: Result<Tactic, Error>)
        ensures
            r matches Ok(t) ==> exists|html: Seq<char>| tactic_page(tactic_id@, html, t),
    {
        let url = tactic_page_url(tactic_id);
        let page = req_client.fetch(url.as_str())?;
        tactic_from_html(tactic_id, page.as_str())
    }
}

} // verus!
