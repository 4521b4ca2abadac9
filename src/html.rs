//! A parsed HTML document held as plain values: its nodes in document order,
//! each with the index of its parent, and the queries the table extraction
//! needs (by tag name, by class, by ancestor, and text content).

use crate::text::{chars_of, push_all, words, words_of};
use vstd::prelude::*;

verus! {

/// What a node holds: an element with its tag name and attributes, a run of
/// text, or a comment.
pub enum NodeData {
    Element(String, Vec<(String, String)>),
    Text(String),
    Comment,
}

/// One node of a document, with the index of its parent node.
pub struct HtmlNode {
    pub parent: Option<usize>,
    pub data: NodeData,
}

/// A parsed document: its nodes in document order.
pub struct Document {
    pub nodes: Vec<HtmlNode>,
}

/// The nodes that parsing `html` gives, in document order.
pub uninterp spec fn parsed_nodes(html: Seq<char>) -> Seq<HtmlNode>;

/// Relies on `select::document::Document::from(&str)`, which parses `html` with
/// html5ever and lists its element, text and comment nodes in document order,
/// each with the index of its parent. The nodes are copied field by field.
#[verifier::external_body]
fn parse_nodes(html: &str) -> (r: Vec<HtmlNode>)
    ensures
        r@ == parsed_nodes(html@),
{
    select::document::Document::from(html).nodes.into_iter().map(
        |raw| HtmlNode {
            parent: raw.parent,
            data: match raw.data {
                select::node::Data::Element(name, attrs) => NodeData::Element(
                    name.local.to_string(),
                    attrs.into_iter().map(|(n, v)| (n.local.to_string(), v.to_string())).collect(),
                ),
                select::node::Data::Text(t) => NodeData::Text(t.to_string()),
                select::node::Data::Comment(_) => NodeData::Comment,
            },
        },
    ).collect()
}

impl Document {
    /// Parses an HTML page.
    pub fn parse(html: &str) -> (r: Document)
        ensures
            r.nodes@ == parsed_nodes(html@),
    {
        Document { nodes: parse_nodes(html) }
    }
}

/// The parent of node `j`; a parent index that does not come before `j` is
/// treated as no parent.
pub open spec fn parent_of(s: Seq<HtmlNode>, j: int) -> Option<int> {
    if 0 <= j < s.len() {
        match s[j].parent {
            Some(p) => if p < j {
                Some(p as int)
            } else {
                None
            },
            None => None,
        }
    } else {
        None
    }
}

/// Whether node `a` is a proper ancestor of node `j`.
pub open spec fn is_anc(s: Seq<HtmlNode>, a: int, j: int) -> bool
    decreases j,
{
    if 0 <= j < s.len() {
        match s[j].parent {
            Some(p) => if p < j {
                p == a || is_anc(s, a, p as int)
            } else {
                false
            },
            None => false,
        }
    } else {
        false
    }
}

/// Whether node `j` is node `a` or lies below it.
pub open spec fn in_subtree(s: Seq<HtmlNode>, a: int, j: int) -> bool {
    j == a || is_anc(s, a, j)
}

pub proof fn lemma_anc_before(s: Seq<HtmlNode>, a: int, j: int)
    requires
        is_anc(s, a, j),
    ensures
        0 <= a < j,
    decreases j,
{
    let p = s[j].parent.unwrap() as int;
    if p != a {
        lemma_anc_before(s, a, p);
    }
}


pub proof fn lemma_nearest_before(s: Seq<HtmlNode>, j: int, tag: Seq<char>)
    requires
        nearest_named(s, j, tag) is Some,
    ensures
        0 <= nearest_named(s, j, tag)->0 < j,
    decreases j,
{
    let p = s[j].parent.unwrap() as int;
    if !is_named(s, p, tag) {
        lemma_nearest_before(s, p, tag);
    }
}

pub proof fn lemma_text_upto_before(s: Seq<HtmlNode>, a: int, k: int)
    requires
        k <= a,
    ensures
        text_upto(s, a, k) == Seq::<char>::empty(),
    decreases k,
{
    if k > 0 {
        if is_anc(s, a, k - 1) {
            lemma_anc_before(s, a, k - 1);
        }
        lemma_text_upto_before(s, a, k - 1);
    }
}

/// Whether node `j` is an element named `tag`.
pub open spec fn is_named(s: Seq<HtmlNode>, j: int, tag: Seq<char>) -> bool {
    0 <= j < s.len() && match s[j].data {
        NodeData::Element(name, _) => name@ == tag,
        _ => false,
    }
}

/// Whether node `j` is an element.
pub open spec fn is_element(s: Seq<HtmlNode>, j: int) -> bool {
    0 <= j < s.len() && s[j].data is Element
}

/// Whether node `j` is a text node.
pub open spec fn is_text(s: Seq<HtmlNode>, j: int) -> bool {
    0 <= j < s.len() && s[j].data is Text
}


/// The nearest proper ancestor of node `j` that is an element named `tag`.
pub open spec fn nearest_named(s: Seq<HtmlNode>, j: int, tag: Seq<char>) -> Option<int>
    decreases j,
{
    if 0 <= j < s.len() {
        match s[j].parent {
            Some(p) => if p < j {
                if is_named(s, p as int, tag) {
                    Some(p as int)
                } else {
                    nearest_named(s, p as int, tag)
                }
            } else {
                None
            },
            None => None,
        }
    } else {
        None
    }
}

/// The value of the first attribute named `key` in `attrs`.
pub open spec fn attr_in(attrs: Seq<(String, String)>, key: Seq<char>) -> Option<Seq<char>>
    decreases attrs.len(),
{
    if attrs.len() == 0 {
        None
    } else if attrs[0].0@ == key {
        Some(attrs[0].1@)
    } else {
        attr_in(attrs.drop_first(), key)
    }
}

/// The value of attribute `key` of node `j`, if it is an element that has one.
pub open spec fn attr(s: Seq<HtmlNode>, j: int, key: Seq<char>) -> Option<Seq<char>> {
    if 0 <= j < s.len() {
        match s[j].data {
            NodeData::Element(_, attrs) => attr_in(attrs@, key),
            _ => None,
        }
    } else {
        None
    }
}

/// Whether node `j` is an element whose `class` attribute lists `cls`.
pub open spec fn has_class(s: Seq<HtmlNode>, j: int, cls: Seq<char>) -> bool {
    match attr(s, j, "class"@) {
        Some(v) => words(v).contains(cls),
        None => false,
    }
}

/// Whether node `j` is an element named `tag` whose classes include `cls`.
pub open spec fn is_named_with_class(
    s: Seq<HtmlNode>,
    j: int,
    tag: Seq<char>,
    cls: Seq<char>,
) -> bool {
    is_named(s, j, tag) && has_class(s, j, cls)
}

/// Whether node `a` is an element named `tag` and, where `cls` is given, has that class.
pub open spec fn elem_matches(s: Seq<HtmlNode>, a: int, tag: Seq<char>, cls: Option<Seq<char>>) -> bool {
    is_named(s, a, tag) && match cls {
        Some(c) => has_class(s, a, c),
        None => true,
    }
}

/// Whether some proper ancestor of node `j` matches `tag` and `cls`.
pub open spec fn has_anc(s: Seq<HtmlNode>, j: int, tag: Seq<char>, cls: Option<Seq<char>>) -> bool {
    exists|a: int| is_anc(s, a, j) && #[trigger] elem_matches(s, a, tag, cls)
}

/// Whether node `e` lies below a `tr` element that lies below a `thead` element.
pub open spec fn in_head_row(s: Seq<HtmlNode>, e: int) -> bool {
    exists|a: int|
        is_anc(s, a, e) && #[trigger] is_named(s, a, "tr"@) && has_anc(s, a, "thead"@, None)
}

/// Whether node `e` has no element among its children.
pub open spec fn is_leaf(s: Seq<HtmlNode>, e: int) -> bool {
    forall|k: int| #[trigger] parent_of(s, k) == Some(e) ==> !is_element(s, k)
}

/// The view of an optional class name.
pub open spec fn opt_view(o: Option<&str>) -> Option<Seq<char>> {
    match o {
        Some(c) => Some(c@),
        None => None,
    }
}

pub proof fn lemma_anc_step(s: Seq<HtmlNode>, a: int, j: int)
    ensures
        is_anc(s, a, j) <==> (parent_of(s, j) matches Some(p) && (p == a || is_anc(s, a, p))),
{
}

/// The text of node `j` itself where it is a text node, else nothing.
pub open spec fn own_text(s: Seq<HtmlNode>, j: int) -> Seq<char> {
    if 0 <= j < s.len() {
        match s[j].data {
            NodeData::Text(t) => t@,
            _ => seq![],
        }
    } else {
        seq![]
    }
}

/// The text of the nodes among the first `k` that lie in the subtree of `a`,
/// in document order.
pub open spec fn text_upto(s: Seq<HtmlNode>, a: int, k: int) -> Seq<char>
    decreases k,
{
    if k <= 0 {
        seq![]
    } else if in_subtree(s, a, k - 1) {
        text_upto(s, a, k - 1) + own_text(s, k - 1)
    } else {
        text_upto(s, a, k - 1)
    }
}

/// The combined text of node `a` and all the nodes below it, in document order.
pub open spec fn text_of(s: Seq<HtmlNode>, a: int) -> Seq<char> {
    text_upto(s, a, s.len() as int)
}

/// Whether two strings hold the same characters.
pub fn str_eq(a: &str, b: &str) -> (r: bool)
    ensures
        r == (a@ == b@),
{
    let n = a.unicode_len();
    if n != b.unicode_len() {
        return false;
    }
    let mut i: usize = 0;
    while i < n
        invariant
            i <= n,
            n == a@.len(),
            n == b@.len(),
            forall|k: int| 0 <= k < i ==> a@[k] == b@[k],
        decreases n - i,
    {
        if a.get_char(i) != b.get_char(i) {
            return false;
        }
        i = i + 1;
    }
    assert(a@ == b@);
    true
}

impl Document {
    /// The number of nodes.
    pub fn len(&self) -> (r: usize)
        ensures
            r == self.nodes@.len(),
    {
        self.nodes.len()
    }

    /// The parent of node `j`, as `parent_of` states it.
    pub fn parent(&self, j: usize) -> (r: Option<usize>)
        ensures
            r matches Some(p) ==> parent_of(self.nodes@, j as int) == Some(p as int),
            r is None ==> parent_of(self.nodes@, j as int) is None,
    {
        if j < self.nodes.len() {
            match self.nodes[j].parent {
                Some(p) => if p < j {
                    Some(p)
                } else {
                    None
                },
                None => None,
            }
        } else {
            None
        }
    }

    /// Whether node `a` is a proper ancestor of node `j`.
    pub fn is_ancestor(&self, a: usize, j: usize) -> (r: bool)
        ensures
            r == is_anc(self.nodes@, a as int, j as int),
    {
        let ghost s = self.nodes@;
        let mut cur = j;
        loop
            invariant
                s == self.nodes@,
                is_anc(s, a as int, j as int) == is_anc(s, a as int, cur as int),
            decreases cur,
        {
            match self.parent(cur) {
                Some(p) => {
                    if p == a {
                        return true;
                    }
                    if p < a {
                        proof {
                            if is_anc(s, a as int, p as int) {
                                lemma_anc_before(s, a as int, p as int);
                            }
                        }
                        return false;
                    }
                    cur = p;
                },
                None => {
                    return false;
                },
            }
        }
    }

    /// Whether node `j` is an element named `tag`.
    pub fn is_named(&self, j: usize, tag: &str) -> (r: bool)
        ensures
            r == is_named(self.nodes@, j as int, tag@),
    {
        if j < self.nodes.len() {
            match &self.nodes[j].data {
                NodeData::Element(name, _) => str_eq(name.as_str(), tag),
                _ => false,
            }
        } else {
            false
        }
    }

    /// Whether node `j` is an element.
    pub fn is_element(&self, j: usize) -> (r: bool)
        ensures
            r == is_element(self.nodes@, j as int),
    {
        j < self.nodes.len() && match &self.nodes[j].data {
            NodeData::Element(_, _) => true,
            _ => false,
        }
    }

    /// Whether node `j` is a text node.
    pub fn is_text(&self, j: usize) -> (r: bool)
        ensures
            r == is_text(self.nodes@, j as int),
    {
        j < self.nodes.len() && match &self.nodes[j].data {
            NodeData::Text(_) => true,
            _ => false,
        }
    }

    /// The value of attribute `key` of node `j`.
    pub fn attr(&self, j: usize, key: &str) -> (r: Option<&String>)
        ensures
            r matches Some(v) ==> attr(self.nodes@, j as int, key@) == Some(v@),
            r is None ==> attr(self.nodes@, j as int, key@) is None,
    {
        if j >= self.nodes.len() {
            return None;
        }
        match &self.nodes[j].data {
            NodeData::Element(_, attrs) => {
                assert(attr(self.nodes@, j as int, key@) == attr_in(attrs@, key@));
                let mut i: usize = 0;
                assert(attrs@.subrange(0, attrs@.len() as int) == attrs@);
                while i < attrs.len()
                    invariant
                        i <= attrs.len(),
                        attr(self.nodes@, j as int, key@) == attr_in(attrs@, key@),
                        attr_in(attrs@, key@) == attr_in(attrs@.subrange(
                            i as int,
                            attrs@.len() as int,
                        ), key@),
                    decreases attrs.len() - i,
                {
                    let ghost rest = attrs@.subrange(i as int, attrs@.len() as int);
                    assert(rest[0] == attrs@[i as int]);
                    if str_eq(attrs[i].0.as_str(), key) {
                        return Some(&attrs[i].1);
                    }
                    proof {
                        assert(rest.drop_first() == attrs@.subrange(i + 1, attrs@.len() as int));
                    }
                    i = i + 1;
                }
                None
            },
            _ => None,
        }
    }

    /// Whether node `j` has class `cls`.
    pub fn has_class(&self, j: usize, cls: &str) -> (r: bool)
        ensures
            r == has_class(self.nodes@, j as int, cls@),
    {
        match self.attr(j, "class") {
            Some(v) => {
                let vc = chars_of(v.as_str());
                assert(vc@ == v@);
                let ws = words_of(&vc);
                assert(crate::text::views(ws@) == words(v@));
                let c = chars_of(cls);
                let mut i: usize = 0;
                while i < ws.len()
                    invariant
                        i <= ws.len(),
                        crate::text::views(ws@) == words(v@),
                        c@ == cls@,
                        attr(self.nodes@, j as int, "class"@) == Some(v@),
                        forall|k: int| 0 <= k < i ==> ws@[k]@ != c@,
                    decreases ws.len() - i,
                {
                    if same_chars(&ws[i], &c) {
                        assert(crate::text::views(ws@)[i as int] == c@);
                        assert(words(v@)[i as int] == cls@);
                        return true;
                    }
                    i = i + 1;
                }
                proof {
                    if words(v@).contains(cls@) {
                        let k = choose|k: int| 0 <= k < words(v@).len() && words(v@)[k] == cls@;
                        assert(crate::text::views(ws@)[k] == ws@[k]@);
                    }
                }
                false
            },
            None => false,
        }
    }

    /// Whether node `j` is an element named `tag` with class `cls`.
    pub fn is_named_with_class(&self, j: usize, tag: &str, cls: &str) -> (r: bool)
        ensures
            r == is_named_with_class(self.nodes@, j as int, tag@, cls@),
    {
        self.is_named(j, tag) && self.has_class(j, cls)
    }
}

/// Whether two character vectors are equal.
pub fn same_chars(a: &Vec<char>, b: &Vec<char>) -> (r: bool)
    ensures
        r == (a@ == b@),
{
    if a.len() != b.len() {
        return false;
    }
    let mut i: usize = 0;
    while i < a.len()
        invariant
            i <= a.len() == b.len(),
            forall|k: int| 0 <= k < i ==> a@[k] == b@[k],
        decreases a.len() - i,
    {
        if a[i] != b[i] {
            return false;
        }
        i = i + 1;
    }
    assert(a@ == b@);
    true
}

impl Document {
    /// Whether some proper ancestor of node `j` is an element named `tag` that,
    /// where `cls` is given, has that class.
    pub fn has_ancestor(&self, j: usize, tag: &str, cls: Option<&str>) -> (r: bool)
        ensures
            r == has_anc(self.nodes@, j as int, tag@, opt_view(cls)),
    {
        let ghost s = self.nodes@;
        let ghost c = opt_view(cls);
        let mut cur = j;
        loop
            invariant
                s == self.nodes@,
                c == opt_view(cls),
                has_anc(s, j as int, tag@, c) == has_anc(s, cur as int, tag@, c),
            decreases cur,
        {
            match self.parent(cur) {
                Some(p) => {
                    let found = self.is_named(p, tag) && match cls {
                        Some(k) => self.has_class(p, k),
                        None => true,
                    };
                    proof {
                        assert(found == elem_matches(s, p as int, tag@, c));
                        assert(is_anc(s, p as int, cur as int));
                        if has_anc(s, cur as int, tag@, c) {
                            let a = choose|a: int|
                                is_anc(s, a, cur as int) && #[trigger] elem_matches(s, a, tag@, c);
                            lemma_anc_step(s, a, cur as int);
                        }
                        if has_anc(s, p as int, tag@, c) {
                            let a = choose|a: int|
                                is_anc(s, a, p as int) && #[trigger] elem_matches(s, a, tag@, c);
                            lemma_anc_step(s, a, cur as int);
                        }
                    }
                    if found {
                        return true;
                    }
                    cur = p;
                },
                None => {
                    proof {
                        if has_anc(s, cur as int, tag@, c) {
                            let a = choose|a: int|
                                is_anc(s, a, cur as int) && #[trigger] elem_matches(s, a, tag@, c);
                            lemma_anc_step(s, a, cur as int);
                        }
                    }
                    return false;
                },
            }
        }
    }

    /// Whether node `e` lies below a `tr` element that lies below a `thead` element.
    pub fn in_head_row(&self, e: usize) -> (r: bool)
        ensures
            r == in_head_row(self.nodes@, e as int),
    {
        let ghost s = self.nodes@;
        let mut cur = e;
        loop
            invariant
                s == self.nodes@,
                in_head_row(s, e as int) == in_head_row(s, cur as int),
            decreases cur,
        {
            match self.parent(cur) {
                Some(p) => {
                    let found = self.is_named(p, "tr") && self.has_ancestor(p, "thead", None);
                    proof {
                        assert(opt_view(None) == Option::<Seq<char>>::None);
                        assert(is_anc(s, p as int, cur as int));
                        if in_head_row(s, cur as int) {
                            let a = choose|a: int|
                                is_anc(s, a, cur as int) && #[trigger] is_named(s, a, "tr"@)
                                    && has_anc(s, a, "thead"@, None);
                            lemma_anc_step(s, a, cur as int);
                        }
                        if in_head_row(s, p as int) {
                            let a = choose|a: int|
                                is_anc(s, a, p as int) && #[trigger] is_named(s, a, "tr"@)
                                    && has_anc(s, a, "thead"@, None);
                            lemma_anc_step(s, a, cur as int);
                        }
                    }
                    if found {
                        return true;
                    }
                    cur = p;
                },
                None => {
                    proof {
                        if in_head_row(s, cur as int) {
                            let a = choose|a: int|
                                is_anc(s, a, cur as int) && #[trigger] is_named(s, a, "tr"@)
                                    && has_anc(s, a, "thead"@, None);
                            lemma_anc_step(s, a, cur as int);
                        }
                    }
                    return false;
                },
            }
        }
    }

    /// Whether node `e` has no element among its children.
    pub fn is_leaf(&self, e: usize) -> (r: bool)
        ensures
            r == is_leaf(self.nodes@, e as int),
    {
        let mut k: usize = 0;
        while k < self.nodes.len()
            invariant
                k <= self.nodes.len(),
                forall|i: int|
                    0 <= i < k ==> (#[trigger] parent_of(self.nodes@, i) == Some(e as int)
                        ==> !is_element(self.nodes@, i)),
            decreases self.nodes.len() - k,
        {
            if self.parent(k) == Some(e) && self.is_element(k) {
                return false;
            }
            k = k + 1;
        }
        proof {
            assert forall|i: int| #[trigger]
                parent_of(self.nodes@, i) == Some(e as int) implies !is_element(
                self.nodes@,
                i,
            ) by {
                if !(0 <= i < self.nodes@.len()) {
                    assert(parent_of(self.nodes@, i) is None);
                }
            }
        }
        true
    }

    /// Whether node `j` is node `a` or lies below it.
    pub fn in_subtree(&self, a: usize, j: usize) -> (r: bool)
        ensures
            r == in_subtree(self.nodes@, a as int, j as int),
    {
        j == a || self.is_ancestor(a, j)
    }

    /// The combined text of node `a` and the nodes below it, in document order.
    pub fn text_chars(&self, a: usize) -> (r: Vec<char>)
        ensures
            r@ == text_of(self.nodes@, a as int),
    {
        let ghost s = self.nodes@;
        let mut out: Vec<char> = Vec::new();
        let mut k: usize = a;
        proof {
            lemma_text_upto_before(s, a as int, a as int);
        }
        if k > self.nodes.len() {
            k = self.nodes.len();
            proof {
                lemma_text_upto_before(s, a as int, k as int);
            }
        }
        while k < self.nodes.len()
            invariant
                s == self.nodes@,
                k <= s.len(),
                out@ == text_upto(s, a as int, k as int),
            decreases s.len() - k,
        {
            if self.in_subtree(a, k) {
                match &self.nodes[k].data {
                    NodeData::Text(t) => {
                        let cs = chars_of(t.as_str());
                        push_all(&mut out, &cs);
                    },
                    _ => {
                        assert(own_text(s, k as int) == Seq::<char>::empty());
                        assert(out@ + seq![] == out@);
                    },
                }
            }
            k = k + 1;
        }
        out
    }
}

impl Document {
    /// The nearest proper ancestor of node `j` that is an element named `tag`.
    pub fn nearest_named(&self, j: usize, tag: &str) -> (r: Option<usize>)
        ensures
            r matches Some(a) ==> nearest_named(self.nodes@, j as int, tag@) == Some(a as int),
            r is None ==> nearest_named(self.nodes@, j as int, tag@) is None,
    {
        let ghost s = self.nodes@;
        let mut cur = j;
        loop
            invariant
                s == self.nodes@,
                nearest_named(s, j as int, tag@) == nearest_named(s, cur as int, tag@),
            decreases cur,
        {
            match self.parent(cur) {
                Some(p) => {
                    if self.is_named(p, tag) {
                        return Some(p);
                    }
                    cur = p;
                },
                None => {
                    return None;
                },
            }
        }
    }
}

} // verus!
