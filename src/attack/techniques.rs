//! Techniques: the list of a domain's techniques with their sub-techniques,
//! the detail page of one technique, and the techniques tables that other
//! entities' pages carry.

pub mod domain;

use crate::attack::mitigations::MitigationTable;
use crate::attack::{
    all_tables, cell, cell_multiline, col, col_or_empty, concat, copy_str, entity_description,
    entity_name, first_table, group, group_rows, groupable, scrape_entity_description,
    scrape_entity_h2_tables, scrape_entity_name, section_table, starts_with_char, Row, Table,
    WebFetch,
};
use crate::error::Error;
use crate::html::{parsed_nodes, Document};
use crate::text::{multiline, strip_refs, trimmed, upper_of};
use vstd::prelude::*;

verus! {

/// The address of the techniques section of the site.
pub open spec fn techniques_url() -> Seq<char> {
    "https://attack.mitre.org/techniques/"@
}

/// The domains whose techniques are listed.
#[derive(Debug, Clone, Copy, PartialEq, Eq)]
pub enum Domain {
    ENTERPRISE,
    MOBILE,
    ICS,
}

impl Domain {
    /// The domain named `dom_str` (`enterprise`, `mobile` or `ics`).
    pub fn from_str(dom_str: &str) -> (r: Result<Domain, Error>)
        ensures
            dom_str@ == "enterprise"@ ==> r == Ok::<Domain, Error>(Domain::ENTERPRISE),
            dom_str@ == "mobile"@ ==> r == Ok::<Domain, Error>(Domain::MOBILE),
            dom_str@ == "ics"@ ==> r == Ok::<Domain, Error>(Domain::ICS),
            r is Err <==> (dom_str@ != "enterprise"@ && dom_str@ != "mobile"@ && dom_str@
                != "ics"@),
            r matches Err(e) ==> e is InvalidValue,
            r matches Err(Error::InvalidValue(m)) ==> m@ == dom_str@
                + " is not a valid technique domain"@,
    {
        proof {
            reveal_strlit("enterprise");
            reveal_strlit("mobile");
            reveal_strlit("ics");
            assert("enterprise"@.len() == 10 && "mobile"@.len() == 6 && "ics"@.len() == 3);
        }
        if crate::html::str_eq(dom_str, "enterprise") {
            Ok(Domain::ENTERPRISE)
        } else if crate::html::str_eq(dom_str, "mobile") {
            Ok(Domain::MOBILE)
        } else if crate::html::str_eq(dom_str, "ics") {
            Ok(Domain::ICS)
        } else {
            Err(Error::InvalidValue(concat(dom_str, " is not a valid technique domain")))
        }
    }

    /// The address of the domain's list of techniques.
    pub fn url(&self) -> (r: &'static str)
        ensures
            *self == Domain::ENTERPRISE ==> r@ == "https://attack.mitre.org/techniques/enterprise/"@,
            *self == Domain::MOBILE ==> r@ == "https://attack.mitre.org/techniques/mobile/"@,
            *self == Domain::ICS ==> r@ == "https://attack.mitre.org/techniques/ics/"@,
    {
        match self {
            Domain::ENTERPRISE => "https://attack.mitre.org/techniques/enterprise/",
            Domain::MOBILE => "https://attack.mitre.org/techniques/mobile/",
            Domain::ICS => "https://attack.mitre.org/techniques/ics/",
        }
    }
}

/// A sub-technique as its own row gives it: the id suffix, the name and the description.
#[derive(Debug, Default)]
pub struct SubTechniqueRow {
    pub id: String,
    pub name: String,
    pub description: String,
}

impl SubTechniqueRow {
    /// Reads a child row: the id suffix from the second column, the name from
    /// the third, the description from the fourth.
    pub fn from_row(row: &Row) -> (r: SubTechniqueRow)
        ensures
            r.id@ == col_or_empty(row@, 1),
            r.name@ == col_or_empty(row@, 2),
            r.description@ == multiline(col_or_empty(row@, 3)),
    {
        SubTechniqueRow { id: cell(row, 1), name: cell(row, 2), description: cell_multiline(row, 3) }
    }
}

/// The sub-techniques a technique holds, none where the field is absent.
pub open spec fn subs(o: Option<Vec<SubTechniqueRow>>) -> Seq<SubTechniqueRow> {
    match o {
        Some(v) => v@,
        None => seq![],
    }
}

/// A technique of a domain's list, with its sub-techniques where it has any.
#[derive(Default, Debug)]
pub struct TechniqueRow {
    pub id: String,
    pub name: String,
    pub description: String,
    pub sub_techniques: Option<Vec<SubTechniqueRow>>,
}

impl TechniqueRow {
    /// Reads a parent row: the id from the first column, the name from the
    /// second, the description from the third.
    pub fn from_row(row: &Row) -> (r: TechniqueRow)
        ensures
            r.id@ == col_or_empty(row@, 0),
            r.name@ == col_or_empty(row@, 1),
            r.description@ == multiline(col_or_empty(row@, 2)),
            r.sub_techniques is None,
    {
        TechniqueRow {
            id: cell(row, 0),
            name: cell(row, 1),
            description: cell_multiline(row, 2),
            sub_techniques: None,
        }
    }

    /// Appends a sub-technique; its id becomes this technique's id followed by
    /// its suffix, and its name this technique's name, `": "` and its own name.
    pub fn add_subtechnique(&mut self, subtechnique: SubTechniqueRow)
        ensures
            final(self).id == old(self).id,
            final(self).name == old(self).name,
            final(self).description == old(self).description,
            final(self).sub_techniques is Some,
            subs(final(self).sub_techniques).len() == subs(old(self).sub_techniques).len() + 1,
            forall|j: int|
                0 <= j < subs(old(self).sub_techniques).len() ==> subs(final(self).sub_techniques)[j]
                    == subs(old(self).sub_techniques)[j],
            subs(final(self).sub_techniques).last().id@ == old(self).id@ + subtechnique.id@,
            subs(final(self).sub_techniques).last().name@ == old(self).name@ + seq![':', ' ']
                + subtechnique.name@,
            subs(final(self).sub_techniques).last().description == subtechnique.description,
    {
        let mut list = match self.sub_techniques.take() {
            Some(v) => v,
            None => Vec::new(),
        };
        let mut sub = subtechnique;
        sub.id = concat(self.id.as_str(), sub.id.as_str());
        let prefix = concat(self.name.as_str(), ": ");
        proof {
            reveal_strlit(": ");
        }
        sub.name = concat(prefix.as_str(), sub.name.as_str());
        list.push(sub);
        self.sub_techniques = Some(list);
    }

    /// Whether this technique is what the group (`parent`, `children`) gives.
    pub open spec fn models_group(
        &self,
        parent: Seq<Seq<char>>,
        children: Seq<Seq<Seq<char>>>,
    ) -> bool {
        &&& self.id@ == col_or_empty(parent, 0)
        &&& self.name@ == col_or_empty(parent, 1)
        &&& self.description@ == multiline(col_or_empty(parent, 2))
        &&& (children.len() == 0 <==> self.sub_techniques is None)
        &&& subs(self.sub_techniques).len() == children.len()
        &&& forall|j: int|
            0 <= j < children.len() ==> {
                &&& (#[trigger] subs(self.sub_techniques)[j]).id@ == col_or_empty(parent, 0)
                    + col_or_empty(children[j], 1)
                &&& subs(self.sub_techniques)[j].name@ == col_or_empty(parent, 1) + seq![':', ' ']
                    + col_or_empty(children[j], 2)
                &&& subs(self.sub_techniques)[j].description@ == multiline(
                    col_or_empty(children[j], 3),
                )
            }
    }
}

/// A domain's techniques, in the order of the page.
#[derive(Default, Debug)]
pub struct TechniquesTable(pub Vec<TechniqueRow>);

impl TechniquesTable {
    /// Whether these techniques are what the table rows `rows` give once grouped.
    pub open spec fn models_rows(&self, rows: Seq<Seq<Seq<char>>>) -> bool {
        &&& self.0@.len() == group_rows(rows, 0).len()
        &&& forall|i: int|
            0 <= i < self.0@.len() ==> (#[trigger] self.0@[i]).models_group(
                group_rows(rows, 0)[i].0,
                group_rows(rows, 0)[i].1,
            )
    }

    /// Reads a list of techniques: a row with a first column starts a
    /// technique, a row without one is a sub-technique of the technique above
    /// it. A sub-technique row before any technique is refused.
    pub fn from_table(table: &Table) -> (r: Result<TechniquesTable, Error>)
        ensures
            r is Ok <==> groupable(table@.rows, 0),
            r matches Ok(t) ==> t.models_rows(table@.rows),
    {
        let groups = match group(&table.rows, 0) {
            Ok(g) => g,
            Err(e) => {
                return Err(e);
            },
        };
        let ghost gv = group_rows(table@.rows, 0);
        let mut out: Vec<TechniqueRow> = Vec::new();
        let mut i: usize = 0;
        while i < groups.len()
            invariant
                i <= groups.len(),
                gv == group_rows(table@.rows, 0),
                crate::attack::group_views(groups@) == gv,
                out@.len() == i,
                forall|k: int|
                    0 <= k < i ==> (#[trigger] out@[k]).models_group(gv[k].0, gv[k].1),
            decreases groups.len() - i,
        {
            let g = &groups[i];
            assert(gv[i as int] == g@);
            let mut t = TechniqueRow::from_row(&g.parent);
            let mut j: usize = 0;
            while j < g.children.len()
                invariant
                    j <= g.children.len(),
                    g@ == gv[i as int],
                    t.id@ == col_or_empty(g.parent@, 0),
                    t.name@ == col_or_empty(g.parent@, 1),
                    t.description@ == multiline(col_or_empty(g.parent@, 2)),
                    (j == 0 <==> t.sub_techniques is None),
                    subs(t.sub_techniques).len() == j,
                    forall|m: int|
                        0 <= m < j ==> {
                            &&& (#[trigger] subs(t.sub_techniques)[m]).id@ == col_or_empty(
                                g.parent@,
                                0,
                            ) + col_or_empty(g.children@[m]@, 1)
                            &&& subs(t.sub_techniques)[m].name@ == col_or_empty(g.parent@, 1)
                                + seq![':', ' '] + col_or_empty(g.children@[m]@, 2)
                            &&& subs(t.sub_techniques)[m].description@ == multiline(
                                col_or_empty(g.children@[m]@, 3),
                            )
                        },
                decreases g.children.len() - j,
            {
                let sub = SubTechniqueRow::from_row(&g.children[j]);
                t.add_subtechnique(sub);
                j = j + 1;
            }
            proof {
                assert forall|m: int| 0 <= m < g.children@.len() implies #[trigger] g@.1[m]
                    == g.children@[m]@ by {}
                assert(t.models_group(gv[i as int].0, gv[i as int].1));
            }
            out.push(t);
            i = i + 1;
        }
        Ok(TechniquesTable(out))
    }

    /// The number of techniques, sub-techniques not counted.
    pub fn len(&self) -> (r: usize)
        ensures
            r == self.0@.len(),
    {
        self.0.len()
    }
}

/// Whether `t` is what the list page `html` gives: the techniques of the
/// page's first table, none where the page has no table.
pub open spec fn techniques_page(html: Seq<char>, t: TechniquesTable) -> bool {
    let tables = all_tables(parsed_nodes(html));
    if tables.len() == 0 {
        t.0@.len() == 0
    } else {
        t.models_rows(tables[0].rows)
    }
}

/// Reads the list of techniques from the text of a list page.
pub fn techniques_from_html(html: &str) -> (r: Result<TechniquesTable, Error>)
    ensures
        r is Err <==> (all_tables(parsed_nodes(html@)).len() > 0 && !groupable(
            all_tables(parsed_nodes(html@))[0].rows,
            0,
        )),
        r matches Ok(t) ==> techniques_page(html@, t),
{
    let doc = Document::parse(html);
    match first_table(&doc) {
        Some(table) => TechniquesTable::from_table(&table),
        None => Ok(TechniquesTable(Vec::new())),
    }
}

/// Fetches and reads the list of techniques of a domain.
pub fn fetch_techniques(technique_type: Domain, web_client: &impl WebFetch) -> (r: Result<
    TechniquesTable,
    Error,
>)
    ensures
        r matches Ok(t) ==> exists|html: Seq<char>| techniques_page(html, t),
{
    let page = web_client.fetch(technique_type.url())?;
    techniques_from_html(page.as_str())
}

/// Who a procedure example belongs to, told by the first letter of its id.
#[derive(Debug, Clone, Copy, PartialEq, Eq)]
pub enum ProcedureType {
    SOFTWARE,
    GROUP,
    UNKNOWN,
}

/// The kind of procedure that id `id` names: `S…` software, `G…` a group.
pub open spec fn procedure_type_of(id: Seq<char>) -> ProcedureType {
    if id.len() > 0 && id[0] == 'S' {
        ProcedureType::SOFTWARE
    } else if id.len() > 0 && id[0] == 'G' {
        ProcedureType::GROUP
    } else {
        ProcedureType::UNKNOWN
    }
}

impl ProcedureType {
    /// The kind of procedure that id `str_val` names.
    pub fn from_id(str_val: &String) -> (r: ProcedureType)
        ensures
            r == procedure_type_of(str_val@),
    {
        if starts_with_char(str_val.as_str(), 'S') {
            ProcedureType::SOFTWARE
        } else if starts_with_char(str_val.as_str(), 'G') {
            ProcedureType::GROUP
        } else {
            ProcedureType::UNKNOWN
        }
    }

    /// The label shown for the kind.
    pub fn label(&self) -> (r: String)
        ensures
            *self == ProcedureType::GROUP ==> r@ == "Group"@,
            *self == ProcedureType::SOFTWARE ==> r@ == "Software"@,
            *self == ProcedureType::UNKNOWN ==> r@ == "Unknown"@,
    {
        match self {
            ProcedureType::GROUP => copy_str("Group"),
            ProcedureType::SOFTWARE => copy_str("Software"),
            ProcedureType::UNKNOWN => copy_str("Unknown"),
        }
    }
}

impl Default for ProcedureType {
    fn default() -> (r: ProcedureType)
        ensures
            r == ProcedureType::UNKNOWN,
    {
        ProcedureType::UNKNOWN
    }
}

/// A procedure example: who uses the technique and how.
#[derive(Default, Debug)]
pub struct ProcedureRow {
    pub id: String,
    pub name: String,
    pub description: String,
    pub procedure_type: ProcedureType,
}

impl ProcedureRow {
    /// Whether this procedure is what `row` gives.
    pub open spec fn models(&self, row: Seq<Seq<char>>) -> bool {
        &&& self.id@ == col_or_empty(row, 0)
        &&& self.procedure_type == procedure_type_of(col_or_empty(row, 0))
        &&& self.name@ == col_or_empty(row, 1)
        &&& self.description@ == crate::text::lines_stripped(col_or_empty(row, 2))
    }

    /// Reads a procedure row: id and kind from the first column, name from the
    /// second, description from the third with each line trimmed and stripped
    /// of citation markers.
    pub fn from_row(row: &Row) -> (r: ProcedureRow)
        ensures
            r.models(row@),
    {
        let id = cell(row, 0);
        let procedure_type = ProcedureType::from_id(&id);
        let desc = cell(row, 2);
        ProcedureRow {
            id,
            name: cell(row, 1),
            description: crate::text::strip_lines(desc.as_str()),
            procedure_type,
        }
    }
}

/// The procedure examples of a technique.
#[derive(Default, Debug)]
pub struct ProceduresTable(pub Vec<ProcedureRow>);

impl ProceduresTable {
    /// Whether these procedures are what `rows` give, one for each row.
    pub open spec fn models_rows(&self, rows: Seq<Seq<Seq<char>>>) -> bool {
        &&& self.0@.len() == rows.len()
        &&& forall|i: int| 0 <= i < rows.len() ==> (#[trigger] self.0@[i]).models(rows[i])
    }

    /// Reads each row of `table` as a procedure.
    pub fn from_table(table: &Table) -> (r: ProceduresTable)
        ensures
            r.models_rows(table@.rows),
    {
        let mut out: Vec<ProcedureRow> = Vec::new();
        let mut i: usize = 0;
        while i < table.rows.len()
            invariant
                i <= table.rows.len(),
                out@.len() == i,
                forall|k: int| 0 <= k < i ==> (#[trigger] out@[k]).models(table@.rows[k]),
            decreases table.rows.len() - i,
        {
            let p = ProcedureRow::from_row(&table.rows[i]);
            out.push(p);
            i = i + 1;
        }
        ProceduresTable(out)
    }

    /// The procedures of `table`, none where it has no rows.
    pub fn from_table_opt(table: &Table) -> (r: Option<ProceduresTable>)
        ensures
            r is None <==> table@.rows.len() == 0,
            r matches Some(p) ==> p.models_rows(table@.rows),
    {
        if table.is_empty() {
            None
        } else {
            Some(ProceduresTable::from_table(table))
        }
    }
}

/// How a technique is detected: a data source, one of its components, and
/// what it detects.
#[derive(Debug, Default)]
pub struct DetectionRow {
    pub id: String,
    pub data_source: String,
    pub data_comp: String,
    pub detects: Option<String>,
}

impl DetectionRow {
    /// Reads a detection row: id, data source and component from the first
    /// three columns, what it detects from the fourth where there is one.
    pub fn from_row(row: &Row) -> (r: DetectionRow)
        ensures
            r.id@ == col_or_empty(row@, 0),
            r.data_source@ == col_or_empty(row@, 1),
            r.data_comp@ == col_or_empty(row@, 2),
            detects_of(r.detects) == detects_in(row@),
    {
        let detects = match row.get_col(3) {
            Some(d) => {
                let t = crate::text::trim(d.as_str());
                Some(crate::text::remove_ext_link_ref(t.as_str()))
            },
            None => None,
        };
        DetectionRow {
            id: cell(row, 0),
            data_source: cell(row, 1),
            data_comp: cell(row, 2),
            detects,
        }
    }
}

/// The view of an optional string.
pub open spec fn detects_of(d: Option<String>) -> Option<Seq<char>> {
    match d {
        Some(s) => Some(s@),
        None => None,
    }
}

/// What a detection row says it detects: its fourth column trimmed and
/// stripped of citation markers, where it has one.
pub open spec fn detects_in(row: Seq<Seq<char>>) -> Option<Seq<char>> {
    match col(row, 3) {
        Some(d) => Some(strip_refs(trimmed(d))),
        None => None,
    }
}

/// The last non-empty value of column `c` among rows `0..=i`, or the empty
/// string where there is none.
pub open spec fn sticky(rows: Seq<Seq<Seq<char>>>, i: int, c: int) -> Seq<char>
    decreases i + 1,
{
    if i < 0 || i >= rows.len() {
        seq![]
    } else if col_or_empty(rows[i], c).len() > 0 {
        rows[i][c]
    } else {
        sticky(rows, i - 1, c)
    }
}

/// The detections of a technique.
#[derive(Debug, Default)]
pub struct DetectionsTable(pub Vec<DetectionRow>);

impl DetectionsTable {
    /// Whether these detections are what `rows` give: one for each row, the id
    /// and data source carried down from the rows above where a row leaves
    /// them blank.
    pub open spec fn models_rows(&self, rows: Seq<Seq<Seq<char>>>) -> bool {
        &&& self.0@.len() == rows.len()
        &&& forall|i: int|
            0 <= i < rows.len() ==> {
                &&& (#[trigger] self.0@[i]).id@ == sticky(rows, i, 0)
                &&& self.0@[i].data_source@ == sticky(rows, i, 1)
                &&& self.0@[i].data_comp@ == col_or_empty(rows[i], 2)
                &&& detects_of(self.0@[i].detects) == detects_in(rows[i])
            }
    }

    /// Reads the detections of `table`, none where it has no rows. A row whose
    /// id or data source is blank takes the last one given above it.
    pub fn from_table_opt(table: &Table) -> (r: Option<DetectionsTable>)
        ensures
            r is None <==> table@.rows.len() == 0,
            r matches Some(d) ==> d.models_rows(table@.rows),
    {
        if table.is_empty() {
            return None;
        }
        let ghost rows = table@.rows;
        let mut out: Vec<DetectionRow> = Vec::new();
        let mut base_id = String::new();
        let mut base_data_source = String::new();
        let mut i: usize = 0;
        while i < table.rows.len()
            invariant
                i <= table.rows.len(),
                rows == table@.rows,
                out@.len() == i,
                base_id@ == sticky(rows, i - 1, 0),
                base_data_source@ == sticky(rows, i - 1, 1),
                forall|k: int|
                    0 <= k < i ==> {
                        &&& (#[trigger] out@[k]).id@ == sticky(rows, k, 0)
                        &&& out@[k].data_source@ == sticky(rows, k, 1)
                        &&& out@[k].data_comp@ == col_or_empty(rows[k], 2)
                        &&& detects_of(out@[k].detects) == detects_in(rows[k])
                    },
            decreases table.rows.len() - i,
        {
            let row = &table.rows[i];
            assert(rows[i as int] == row@);
            let id = cell(row, 0);
            if !id.as_str().is_empty() {
                base_id = id;
            }
            let ds = cell(row, 1);
            if !ds.as_str().is_empty() {
                base_data_source = ds;
            }
            let mut d = DetectionRow::from_row(row);
            d.id = base_id.clone();
            d.data_source = base_data_source.clone();
            out.push(d);
            i = i + 1;
        }
        Some(DetectionsTable(out))
    }
}

/// A technique as its detail page gives it.
#[derive(Default, Debug)]
pub struct Technique {
    pub id: String,
    pub name: String,
    pub description: String,
    pub procedures: Option<ProceduresTable>,
    pub mitigations: Option<MitigationTable>,
    pub detections: Option<DetectionsTable>,
}

/// The rows of section `slug` of a detail page where it holds a table with
/// rows; none otherwise.
pub open spec fn section_rows(s: Seq<crate::html::HtmlNode>, slug: Seq<char>) -> Option<
    Seq<Seq<Seq<char>>>,
> {
    match section_table(s, slug) {
        Some(t) => if t.rows.len() > 0 {
            Some(t.rows)
        } else {
            None
        },
        None => None,
    }
}

/// Whether `t` is what the detail page `html` of technique `id` gives.
pub open spec fn technique_page(id: Seq<char>, html: Seq<char>, t: Technique) -> bool {
    let s = parsed_nodes(html);
    &&& t.id@ == id
    &&& t.name@ == entity_name(s)
    &&& t.description@ == entity_description(s)
    &&& match section_rows(s, "examples"@) {
        Some(rows) => t.procedures matches Some(p) && p.models_rows(rows),
        None => t.procedures is None,
    }
    &&& match section_rows(s, "mitigations"@) {
        Some(rows) => t.mitigations matches Some(m) && m.models_rows(rows),
        None => t.mitigations is None,
    }
    &&& match section_rows(s, "detection"@) {
        Some(rows) => t.detections matches Some(d) && d.models_rows(rows),
        None => t.detections is None,
    }
}

/// Reads technique `technique_id` from the text of its detail page: its name,
/// its description, and the procedure examples, mitigations and detections of
/// the sections `examples`, `mitigations` and `detection`, each absent where
/// the page has no such section or the section's table has no rows.
pub fn technique_from_html(technique_id: &str, html: &str) -> (r: Technique)
    ensures
        technique_page(technique_id@, html@, r),
{
    let doc = Document::parse(html);
    let tables = scrape_entity_h2_tables(&doc);
    let procedures = match tables.get("examples") {
        Some(t) => ProceduresTable::from_table_opt(t),
        None => None,
    };
    let mitigations = match tables.get("mitigations") {
        Some(t) => MitigationTable::from_table_opt(t),
        None => None,
    };
    let detections = match tables.get("detection") {
        Some(t) => DetectionsTable::from_table_opt(t),
        None => None,
    };
    Technique {
        id: copy_str(technique_id),
        name: scrape_entity_name(&doc),
        description: scrape_entity_description(&doc),
        procedures,
        mitigations,
        detections,
    }
}

/// The address of the detail page of technique `id`: the id in upper case, a
/// `.` before a sub-technique suffix becoming a `/`.
pub open spec fn technique_url(id: Seq<char>) -> Seq<char> {
    techniques_url() + crate::text::replaced(upper_of(id), seq!['.'], seq!['/'])
}

/// The address of the detail page of technique `technique_id`.
pub fn technique_page_url(technique_id: &str) -> (r: String)
    ensures
        r@ == technique_url(technique_id@),
{
    proof {
        reveal_strlit(".");
        reveal_strlit("/");
        assert("."@ =~= seq!['.']);
        assert("/"@ =~= seq!['/']);
    }
    let upper = crate::text::to_upper(technique_id);
    let path = crate::text::replace_all(upper.as_str(), ".", "/");
    concat("https://attack.mitre.org/techniques/", path.as_str())
}

/// Fetches and reads the detail page of technique `technique_id`, asking for
/// the address `technique_page_url` gives.
pub fn fetch_technique(technique_id: &str, web_client: &impl WebFetch) -> (r: Result<
    Technique,
    Error,
>)
    ensures
        r matches Ok(t) ==> exists|html: Seq<char>| technique_page(technique_id@, html, t),
{
    let url = technique_page_url(technique_id);
    let page = web_client.fetch(url.as_str())?;
    Ok(technique_from_html(technique_id, page.as_str()))
}

/// Whether two techniques hold the same text in every field, sub-techniques included.
pub open spec fn same_technique(x: TechniqueRow, y: TechniqueRow) -> bool {
    &&& x.id@ == y.id@ && x.name@ == y.name@ && x.description@ == y.description@
    &&& (x.sub_techniques is None <==> y.sub_techniques is None)
    &&& subs(x.sub_techniques).len() == subs(y.sub_techniques).len()
    &&& forall|j: int|
        0 <= j < subs(x.sub_techniques).len() ==> {
            &&& (#[trigger] subs(x.sub_techniques)[j]).id@ == subs(y.sub_techniques)[j].id@
            &&& subs(x.sub_techniques)[j].name@ == subs(y.sub_techniques)[j].name@
            &&& subs(x.sub_techniques)[j].description@ == subs(y.sub_techniques)[j].description@
        }
}

proof fn lemma_technique_same_group(
    x: TechniqueRow,
    y: TechniqueRow,
    parent: Seq<Seq<char>>,
    children: Seq<Seq<Seq<char>>>,
)
    requires
        x.models_group(parent, children),
        y.models_group(parent, children),
    ensures
        same_technique(x, y),
{
    assert forall|j: int| 0 <= j < subs(x.sub_techniques).len() implies {
        &&& (#[trigger] subs(x.sub_techniques)[j]).id@ == subs(y.sub_techniques)[j].id@
        &&& subs(x.sub_techniques)[j].name@ == subs(y.sub_techniques)[j].name@
        &&& subs(x.sub_techniques)[j].description@ == subs(y.sub_techniques)[j].description@
    } by {
        assert(subs(y.sub_techniques)[j] == subs(y.sub_techniques)[j]);
    }
}

/// Regrouping is capped at two levels for techniques: reading one technique's
/// rows again, its own row followed by its sub-techniques' rows, gives back
/// that one technique with the same sub-techniques.
pub proof fn lemma_technique_regroup(
    rows: Seq<Seq<Seq<char>>>,
    t: TechniquesTable,
    i: int,
    again: TechniquesTable,
)
    requires
        groupable(rows, 0),
        t.models_rows(rows),
        0 <= i < t.0@.len(),
        again.models_rows(seq![group_rows(rows, 0)[i].0] + group_rows(rows, 0)[i].1),
    ensures
        again.0@.len() == 1,
        same_technique(again.0@[0], t.0@[i]),
{
    crate::attack::lemma_group_idempotent(rows, 0, i);
    let g = group_rows(rows, 0)[i];
    assert(group_rows(seq![g.0] + g.1, 0)[0] == g);
    lemma_technique_same_group(again.0@[0], t.0@[i], g.0, g.1);
}

/// Order is kept block by block: reading rows made of two blocks, the second
/// opening with a parent row, gives the techniques of the first block followed
/// by those of the second, each in its own order. Swapping the blocks swaps the
/// two runs of techniques and changes nothing within either.
pub proof fn lemma_technique_concat(
    a: Seq<Seq<Seq<char>>>,
    b: Seq<Seq<Seq<char>>>,
    ta: TechniquesTable,
    tb: TechniquesTable,
    tab: TechniquesTable,
)
    requires
        b.len() > 0,
        crate::attack::is_parent_row(b[0], 0),
        ta.models_rows(a),
        tb.models_rows(b),
        tab.models_rows(a + b),
    ensures
        tab.0@.len() == ta.0@.len() + tb.0@.len(),
        forall|i: int| 0 <= i < ta.0@.len() ==> same_technique(#[trigger] tab.0@[i], ta.0@[i]),
        forall|i: int|
            0 <= i < tb.0@.len() ==> same_technique(#[trigger] tab.0@[ta.0@.len() + i], tb.0@[i]),
{
    crate::attack::lemma_group_concat(a, b, 0);
    let ga = group_rows(a, 0);
    let gb = group_rows(b, 0);
    assert forall|i: int| 0 <= i < ta.0@.len() implies same_technique(
        #[trigger] tab.0@[i],
        ta.0@[i],
    ) by {
        assert(group_rows(a + b, 0)[i] == ga[i]);
        lemma_technique_same_group(tab.0@[i], ta.0@[i], ga[i].0, ga[i].1);
    }
    assert forall|i: int| 0 <= i < tb.0@.len() implies same_technique(
        #[trigger] tab.0@[ta.0@.len() + i],
        tb.0@[i],
    ) by {
        assert(group_rows(a + b, 0)[ta.0@.len() + i] == gb[i]);
        lemma_technique_same_group(tab.0@[ta.0@.len() + i], tb.0@[i], gb[i].0, gb[i].1);
    }
}

} // verus!
