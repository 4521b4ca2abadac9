use mitre_cli::attack::{
    first_table, last_table, scrape_entity_description, scrape_entity_h2_tables,
    scrape_entity_name, scrape_tables, Row,
};
use mitre_cli::html::Document;

fn page(body: &str) -> String {
    format!("<html><head><title>t</title></head><body>{}</body></html>", body)
}

const LIST: &str = "<table><thead><tr><th>ID</th><th> Name </th><th><a>Desc</a></th></tr></thead>\
<tbody><tr><td> TA0001 </td><td>Initial Access</td><td>Gets in[1]</td></tr>\
<tr></tr><tr><td>TA0002</td><td><b>Exec</b>ution</td></tr></tbody></table>";

fn cols(r: &Row) -> Vec<&str> {
    r.cols.iter().map(|c| c.as_str()).collect()
}

#[test]
fn table_headers_and_rows_are_extracted() {
    let doc = Document::parse(&page(LIST));
    let table = first_table(&doc).unwrap();
    assert_eq!(table.headers, vec!["ID", "Name", "Desc"]);
    assert_eq!(table.rows.len(), 3);
    assert_eq!(cols(&table.rows[0]), vec!["TA0001", "Initial Access", "Gets in[1]"]);
    assert_eq!(table.rows[1].cols.len(), 0);
    assert_eq!(cols(&table.rows[2]), vec!["TA0002", "Execution"]);
    assert_eq!(table.rows[0].get_col(1).map(|c| c.as_str()), Some("Initial Access"));
    assert_eq!(table.rows[0].get_col(3), None);
    assert!(!table.is_empty());
}

#[test]
fn first_and_last_table_of_a_page() {
    let body = format!(
        "{}<table><tbody><tr><td>only</td></tr></tbody></table>",
        LIST
    );
    let doc = Document::parse(&page(&body));
    assert_eq!(scrape_tables(&doc).len(), 2);
    assert_eq!(first_table(&doc).unwrap().rows.len(), 3);
    let last = last_table(&doc).unwrap();
    assert_eq!(cols(&last.rows[0]), vec!["only"]);
}

#[test]
fn page_without_table_has_no_first_table() {
    let doc = Document::parse(&page("<p>nothing here</p>"));
    assert!(first_table(&doc).is_none());
    assert!(last_table(&doc).is_none());
    assert_eq!(scrape_tables(&doc).len(), 0);
}

#[test]
fn sections_pair_tables_with_the_heading_before_them() {
    let body = "<div class=\"container-fluid\">\
<h2 id=\"examples\">Examples</h2><table><tbody><tr><td>first</td></tr></tbody></table>\
<h2>No id</h2><table><tbody><tr><td>dropped</td></tr></tbody></table>\
<h2 id=\"detection\">Detection</h2><table><tbody><tr><td>d1</td></tr></tbody></table>\
<h2 id=\"examples\">Again</h2><table><tbody><tr><td>second</td></tr></tbody></table>\
</div><h2 id=\"outside\">Outside</h2><table><tbody><tr><td>x</td></tr></tbody></table>";
    let doc = Document::parse(&page(body));
    let sections = scrape_entity_h2_tables(&doc);
    assert_eq!(sections.entries.len(), 3);
    let examples = sections.get("examples").unwrap();
    assert_eq!(cols(&examples.rows[0]), vec!["second"]);
    assert_eq!(cols(&sections.get("detection").unwrap().rows[0]), vec!["d1"]);
    assert!(sections.get("outside").is_none());
    assert!(sections.get("mitigations").is_none());
}

#[test]
fn entity_name_and_description() {
    let body = "<h1> Initial <span>x</span> Access </h1>\
<div class=\"description-body\"><p>Adversaries use PsExec[1] here.</p><p>Second  part.</p></div>\
<p>Not part of it.</p>";
    let doc = Document::parse(&page(body));
    assert_eq!(scrape_entity_name(&doc), "Initial Access");
    assert_eq!(
        scrape_entity_description(&doc),
        "Adversaries use PsExec here. Second part."
    );
}

#[test]
fn class_matching_uses_whole_class_names() {
    let body = "<div class=\"a container-fluid b\"><h2 id=\"groups\">G</h2>\
<table><tbody><tr><td>g</td></tr></tbody></table></div>\
<div class=\"container-fluidish\"><h2 id=\"software\">S</h2>\
<table><tbody><tr><td>s</td></tr></tbody></table></div>";
    let doc = Document::parse(&page(body));
    let sections = scrape_entity_h2_tables(&doc);
    assert!(sections.get("groups").is_some());
    assert!(sections.get("software").is_none());
}

#[test]
fn nested_table_is_flattened_into_its_cell() {
    let body = "<table><tbody><tr><td>outer</td><td>a<table><tbody><tr><td>in1</td><td>in2</td></tr></tbody></table>b</td></tr></tbody></table>";
    let doc = Document::parse(&page(body));
    let tables = scrape_tables(&doc);
    assert_eq!(tables.len(), 2);
    let outer = &tables[0];
    assert_eq!(outer.rows.len(), 1);
    assert_eq!(cols(&outer.rows[0]), vec!["outer", "ain1in2b"]);
    assert_eq!(cols(&tables[1].rows[0]), vec!["in1", "in2"]);
}
