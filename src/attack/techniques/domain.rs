//! Techniques as the pages of other entities list them: a leading domain
//! column, and a sub-technique either on its own row below its technique or
//! written as a compound id on the row itself.

use crate::attack::{
    cell, col, col_or_empty, concat, group, group_rows, groupable, starts_with_char, Row, Table,
};
use crate::error::Error;
use crate::text::{lines_trimmed, strip_refs, trimmed};
use vstd::prelude::*;

verus! {

/// What a "used for" column says: the text trimmed, stripped of citation
/// markers, its lines trimmed; empty where the column is absent.
pub open spec fn used_for_text(c: Option<Seq<char>>) -> Seq<char> {
    match c {
        Some(u) => lines_trimmed(strip_refs(trimmed(u))),
        None => seq![],
    }
}

/// Reads a "used for" column.
fn used_for_of(row: &Row, i: usize) -> (r: String)
    ensures
        r@ == used_for_text(col(row@, i as int)),
{
    match row.get_col(i) {
        Some(u) => {
            let t = crate::text::trim(u.as_str());
            let st = crate::text::remove_ext_link_ref(t.as_str());
            let cs = crate::text::trim_lines(&crate::text::chars_of(st.as_str()));
            crate::text::string_of(&cs)
        },
        None => String::new(),
    }
}

/// Whether the column after the id exists and starts with `.`: the row then
/// names a sub-technique by a compound id.
pub open spec fn has_suffix_col(row: Seq<Seq<char>>) -> bool {
    row.len() > 2 && row[2].len() > 0 && row[2][0] == '.'
}

/// How far the columns after the id move right on a row with a compound id.
pub open spec fn suffix_shift(row: Seq<Seq<char>>) -> int {
    if has_suffix_col(row) {
        1
    } else {
        0
    }
}

/// A sub-technique listed on its own row below its technique.
#[derive(Debug, Default)]
pub struct DomainSubTechniqueRow {
    pub id: String,
    pub name: String,
    pub used_for: String,
}

impl DomainSubTechniqueRow {
    /// Whether this sub-technique is what `row` gives.
    pub open spec fn models(&self, row: Seq<Seq<char>>) -> bool {
        &&& self.id@ == col_or_empty(row, 2)
        &&& self.name@ == col_or_empty(row, 3)
        &&& self.used_for@ == used_for_text(col(row, 4))
    }

    /// Reads a child row: the id suffix from the third column, the name from
    /// the fourth, what it is used for from the fifth.
    pub fn from_row(row: &Row) -> (r: DomainSubTechniqueRow)
        ensures
            r.models(row@),
    {
        DomainSubTechniqueRow { id: cell(row, 2), name: cell(row, 3), used_for: used_for_of(row, 4) }
    }
}

/// The sub-techniques a technique holds, none where the field is absent.
pub open spec fn domain_subs(o: Option<Vec<DomainSubTechniqueRow>>) -> Seq<DomainSubTechniqueRow> {
    match o {
        Some(v) => v@,
        None => seq![],
    }
}

/// A technique as another entity's page lists it.
#[derive(Debug, Default)]
pub struct DomainTechniqueRow {
    pub domain: String,
    pub id: String,
    pub name: String,
    pub used_for: String,
    pub sub_techniques: Option<Vec<DomainSubTechniqueRow>>,
}

impl DomainTechniqueRow {
    /// Whether this technique's own fields are what `row` gives: the domain
    /// first, then the id, extended by the next column where that one starts
    /// with `.`, then the name and what it is used for in the columns after.
    pub open spec fn models(&self, row: Seq<Seq<char>>) -> bool {
        &&& self.domain@ == col_or_empty(row, 0)
        &&& self.id@ == col_or_empty(row, 1) + (if has_suffix_col(row) {
            row[2]
        } else {
            seq![]
        })
        &&& self.name@ == col_or_empty(row, 2 + suffix_shift(row))
        &&& self.used_for@ == used_for_text(col(row, 3 + suffix_shift(row)))
    }

    /// Reads a parent row with a running column cursor: the domain, the id, a
    /// `.`-suffix that extends the id where the next column starts with `.`,
    /// the name, and what it is used for.
    pub fn from_row(row: &Row) -> (r: DomainTechniqueRow)
        ensures
            r.models(row@),
            r.sub_techniques is None,
    {
        let mut technique = DomainTechniqueRow {
            domain: String::new(),
            id: String::new(),
            name: String::new(),
            used_for: String::new(),
            sub_techniques: None,
        };
        let mut inx: usize = 0;
        if let Some(domain) = row.get_col(inx) {
            technique.domain = domain.clone();
            inx = inx + 1;
        }
        if let Some(id) = row.get_col(inx) {
            technique.id = id.clone();
            inx = inx + 1;
        }
        if let Some(sub_id) = row.get_col(inx) {
            if starts_with_char(sub_id.as_str(), '.') {
                technique.id = concat(technique.id.as_str(), sub_id.as_str());
                inx = inx + 1;
            }
        }
        if let Some(name) = row.get_col(inx) {
            technique.name = name.clone();
            inx = inx + 1;
        }
        technique.used_for = used_for_of(row, inx);
        proof {
            assert(seq![] + col_or_empty(row@, 1) == col_or_empty(row@, 1));
            assert(col_or_empty(row@, 1) + seq![] == col_or_empty(row@, 1));
        }
        technique
    }

    /// Appends a sub-technique; its id becomes this technique's id followed by
    /// its suffix, and its name this technique's name, `": "` and its own name.
    pub fn add_sub_technique(&mut self, sub_technique: DomainSubTechniqueRow)
        ensures
            final(self).domain == old(self).domain,
            final(self).id == old(self).id,
            final(self).name == old(self).name,
            final(self).used_for == old(self).used_for,
            final(self).sub_techniques is Some,
            domain_subs(final(self).sub_techniques).len() == domain_subs(
                old(self).sub_techniques,
            ).len() + 1,
            forall|j: int|
                0 <= j < domain_subs(old(self).sub_techniques).len() ==> domain_subs(
                    final(self).sub_techniques,
                )[j] == domain_subs(old(self).sub_techniques)[j],
            domain_subs(final(self).sub_techniques).last().id@ == old(self).id@
                + sub_technique.id@,
            domain_subs(final(self).sub_techniques).last().name@ == old(self).name@ + seq![
                ':',
                ' ',
            ] + sub_technique.name@,
            domain_subs(final(self).sub_techniques).last().used_for == sub_technique.used_for,
    {
        let mut list = match self.sub_techniques.take() {
            Some(v) => v,
            None => Vec::new(),
        };
        let mut sub = sub_technique;
        sub.id = concat(self.id.as_str(), sub.id.as_str());
        let prefix = concat(self.name.as_str(), ": ");
        proof {
            reveal_strlit(": ");
        }
        sub.name = concat(prefix.as_str(), sub.name.as_str());
        list.push(sub);
        self.sub_techniques = Some(list);
    }

    /// Whether this technique is what the group (`parent`, `children`) gives:
    /// each child's id is this technique's id followed by the child's suffix,
    /// and its name this technique's name, `": "` and the child's name.
    pub open spec fn models_group(
        &self,
        parent: Seq<Seq<char>>,
        children: Seq<Seq<Seq<char>>>,
    ) -> bool {
        &&& self.models(parent)
        &&& (children.len() == 0 <==> self.sub_techniques is None)
        &&& domain_subs(self.sub_techniques).len() == children.len()
        &&& forall|j: int|
            0 <= j < children.len() ==> {
                &&& (#[trigger] domain_subs(self.sub_techniques)[j]).id@ == self.id@
                    + col_or_empty(children[j], 2)
                &&& domain_subs(self.sub_techniques)[j].name@ == self.name@ + seq![':', ' ']
                    + col_or_empty(children[j], 3)
                &&& domain_subs(self.sub_techniques)[j].used_for@ == used_for_text(
                    col(children[j], 4),
                )
            }
    }
}

/// The techniques another entity's page lists.
#[derive(Debug, Default)]
pub struct DomainTechniquesTable(pub Vec<DomainTechniqueRow>);

impl DomainTechniquesTable {
    /// Whether these techniques are what the table rows `rows` give once grouped.
    pub open spec fn models_rows(&self, rows: Seq<Seq<Seq<char>>>) -> bool {
        &&& self.0@.len() == group_rows(rows, 0).len()
        &&& forall|i: int|
            0 <= i < self.0@.len() ==> (#[trigger] self.0@[i]).models_group(
                group_rows(rows, 0)[i].0,
                group_rows(rows, 0)[i].1,
            )
    }

    /// Reads the techniques of `table`: a row with a domain starts a technique,
    /// a row without one is a sub-technique of the technique above it. A
    /// sub-technique row before any technique is refused.
    pub fn from_table(table: &Table) -> (r: Result<DomainTechniquesTable, Error>)
        ensures
            r is Ok <==> groupable(table@.rows, 0),
            r matches Ok(t) ==> t.models_rows(table@.rows),
    {
        let groups = match group(&table.rows, 0) {
            Ok(g) => g,
            Err(e) => {
                return Err(e);
            },
        };
        let ghost gv = group_rows(table@.rows, 0);
        let mut out: Vec<DomainTechniqueRow> = Vec::new();
        let mut i: usize = 0;
        while i < groups.len()
            invariant
                i <= groups.len(),
                gv == group_rows(table@.rows, 0),
                crate::attack::group_views(groups@) == gv,
                out@.len() == i,
                forall|k: int|
                    0 <= k < i ==> (#[trigger] out@[k]).models_group(gv[k].0, gv[k].1),
            decreases groups.len() - i,
        {
            let g = &groups[i];
            assert(gv[i as int] == g@);
            let mut t = DomainTechniqueRow::from_row(&g.parent);
            let ghost parent_id = t.id@;
            let ghost parent_name = t.name@;
            let mut j: usize = 0;
            while j < g.children.len()
                invariant
                    j <= g.children.len(),
                    g@ == gv[i as int],
                    t.models(g.parent@),
                    t.id@ == parent_id,
                    t.name@ == parent_name,
                    (j == 0 <==> t.sub_techniques is None),
                    domain_subs(t.sub_techniques).len() == j,
                    forall|m: int|
                        0 <= m < j ==> {
                            &&& (#[trigger] domain_subs(t.sub_techniques)[m]).id@ == parent_id
                                + col_or_empty(g.children@[m]@, 2)
                            &&& domain_subs(t.sub_techniques)[m].name@ == parent_name + seq![
                                ':',
                                ' ',
                            ] + col_or_empty(g.children@[m]@, 3)
                            &&& domain_subs(t.sub_techniques)[m].used_for@ == used_for_text(
                                col(g.children@[m]@, 4),
                            )
                        },
                decreases g.children.len() - j,
            {
                let sub = DomainSubTechniqueRow::from_row(&g.children[j]);
                t.add_sub_technique(sub);
                j = j + 1;
            }
            proof {
                assert forall|m: int| 0 <= m < g.children@.len() implies #[trigger] g@.1[m]
                    == g.children@[m]@ by {}
                assert(t.models_group(gv[i as int].0, gv[i as int].1));
            }
            out.push(t);
            i = i + 1;
        }
        Ok(DomainTechniquesTable(out))
    }

    /// The techniques of `table`, none where it has no rows.
    pub fn from_table_opt(table: &Table) -> (r: Result<Option<DomainTechniquesTable>, Error>)
        ensures
            r is Ok <==> groupable(table@.rows, 0),
            r matches Ok(o) ==> (o is None <==> table@.rows.len() == 0),
            r matches Ok(Some(t)) ==> t.models_rows(table@.rows),
    {
        if table.is_empty() {
            return Ok(None);
        }
        match DomainTechniquesTable::from_table(table) {
            Ok(t) => Ok(Some(t)),
            Err(e) => Err(e),
        }
    }

    /// Whether no technique is listed.
    pub fn is_empty(&self) -> (r: bool)
        ensures
            r == (self.0@.len() == 0),
    {
        self.0.len() == 0
    }

    /// The number of techniques, sub-techniques not counted.
    pub fn len(&self) -> (r: usize)
        ensures
            r == self.0@.len(),
    {
        self.0.len()
    }
}

/// The compound-id rule. Where the column after the base id starts with `.`,
/// the id is the base id followed by that column, with nothing between, and
/// the name is read from the column after it. Otherwise the id is the base id
/// unchanged and the column after it is read as the name.
pub proof fn lemma_compound_id(t: DomainTechniqueRow, row: Seq<Seq<char>>)
    requires
        t.models(row),
        row.len() >= 3,
    ensures
        row[2].len() > 0 && row[2][0] == '.' ==> t.id@ == row[1] + row[2] && t.name@
            == col_or_empty(row, 3),
        !(row[2].len() > 0 && row[2][0] == '.') ==> t.id@ == row[1] && t.name@ == row[2],
{
    if !has_suffix_col(row) {
        assert(row[1] + Seq::<char>::empty() == row[1]);
    }
}

/// Whether two listed techniques hold the same text in every field, sub-techniques included.
pub open spec fn same_domain_technique(x: DomainTechniqueRow, y: DomainTechniqueRow) -> bool {
    &&& x.domain@ == y.domain@ && x.id@ == y.id@ && x.name@ == y.name@ && x.used_for@ == y.used_for@
    &&& (x.sub_techniques is None <==> y.sub_techniques is None)
    &&& domain_subs(x.sub_techniques).len() == domain_subs(y.sub_techniques).len()
    &&& forall|j: int|
        0 <= j < domain_subs(x.sub_techniques).len() ==> {
            &&& (#[trigger] domain_subs(x.sub_techniques)[j]).id@ == domain_subs(y.sub_techniques)[j].id@
            &&& domain_subs(x.sub_techniques)[j].name@ == domain_subs(y.sub_techniques)[j].name@
            &&& domain_subs(x.sub_techniques)[j].used_for@ == domain_subs(y.sub_techniques)[j].used_for@
        }
}

proof fn lemma_domain_technique_same_group(
    x: DomainTechniqueRow,
    y: DomainTechniqueRow,
    parent: Seq<Seq<char>>,
    children: Seq<Seq<Seq<char>>>,
)
    requires
        x.models_group(parent, children),
        y.models_group(parent, children),
    ensures
        same_domain_technique(x, y),
{
    assert forall|j: int| 0 <= j < domain_subs(x.sub_techniques).len() implies {
        &&& (#[trigger] domain_subs(x.sub_techniques)[j]).id@ == domain_subs(y.sub_techniques)[j].id@
        &&& domain_subs(x.sub_techniques)[j].name@ == domain_subs(y.sub_techniques)[j].name@
        &&& domain_subs(x.sub_techniques)[j].used_for@ == domain_subs(y.sub_techniques)[j].used_for@
    } by {
        assert(domain_subs(y.sub_techniques)[j] == domain_subs(y.sub_techniques)[j]);
    }
}

/// Regrouping is capped at two levels for listed techniques: reading one listed technique's
/// rows again, its own row followed by its sub-techniques' rows, gives back
/// that one listed technique with the same sub-techniques.
pub proof fn lemma_domain_technique_regroup(
    rows: Seq<Seq<Seq<char>>>,
    t: DomainTechniquesTable,
    i: int,
    again: DomainTechniquesTable,
)
    requires
        groupable(rows, 0),
        t.models_rows(rows),
        0 <= i < t.0@.len(),
        again.models_rows(seq![group_rows(rows, 0)[i].0] + group_rows(rows, 0)[i].1),
    ensures
        again.0@.len() == 1,
        same_domain_technique(again.0@[0], t.0@[i]),
{
    crate::attack::lemma_group_idempotent(rows, 0, i);
    let g = group_rows(rows, 0)[i];
    assert(group_rows(seq![g.0] + g.1, 0)[0] == g);
    lemma_domain_technique_same_group(again.0@[0], t.0@[i], g.0, g.1);
}

/// Order is kept block by block: reading rows made of two blocks, the second
/// opening with a parent row, gives the listed techniques of the first block followed
/// by those of the second, each in its own order. Swapping the blocks swaps the
/// two runs of listed techniques and changes nothing within either.
pub proof fn lemma_domain_technique_concat(
    a: Seq<Seq<Seq<char>>>,
    b: Seq<Seq<Seq<char>>>,
    ta: DomainTechniquesTable,
    tb: DomainTechniquesTable,
    tab: DomainTechniquesTable,
)
    requires
        b.len() > 0,
        crate::attack::is_parent_row(b[0], 0),
        ta.models_rows(a),
        tb.models_rows(b),
        tab.models_rows(a + b),
    ensures
        tab.0@.len() == ta.0@.len() + tb.0@.len(),
        forall|i: int| 0 <= i < ta.0@.len() ==> same_domain_technique(#[trigger] tab.0@[i], ta.0@[i]),
        forall|i: int|
            0 <= i < tb.0@.len() ==> same_domain_technique(#[trigger] tab.0@[ta.0@.len() + i], tb.0@[i]),
{
    crate::attack::lemma_group_concat(a, b, 0);
    let ga = group_rows(a, 0);
    let gb = group_rows(b, 0);
    assert forall|i: int| 0 <= i < ta.0@.len() implies same_domain_technique(
        #[trigger] tab.0@[i],
        ta.0@[i],
    ) by {
        assert(group_rows(a + b, 0)[i] == ga[i]);
        lemma_domain_technique_same_group(tab.0@[i], ta.0@[i], ga[i].0, ga[i].1);
    }
    assert forall|i: int| 0 <= i < tb.0@.len() implies same_domain_technique(
        #[trigger] tab.0@[ta.0@.len() + i],
        tb.0@[i],
    ) by {
        assert(group_rows(a + b, 0)[ta.0@.len() + i] == gb[i]);
        lemma_domain_technique_same_group(tab.0@[ta.0@.len() + i], tb.0@[i], gb[i].0, gb[i].1);
    }
}

} // verus!
