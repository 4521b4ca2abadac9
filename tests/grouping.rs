use mitre_cli::attack::{group, Row, RowGroup};
use mitre_cli::error::Error;

fn row(cols: &[&str]) -> Row {
    Row {
        cols: cols.iter().map(|c| c.to_string()).collect(),
    }
}

fn cols(r: &Row) -> Vec<String> {
    r.cols.clone()
}

fn flatten(groups: &[RowGroup]) -> Vec<Vec<String>> {
    let mut out = Vec::new();
    for g in groups {
        out.push(cols(&g.parent));
        for c in &g.children {
            out.push(cols(c));
        }
    }
    out
}

fn sample() -> Vec<Row> {
    vec![
        row(&["T1", "Alpha"]),
        row(&["", ".001", "x"]),
        row(&["", ".002", "y"]),
        row(&["T2", "Beta"]),
        row(&["T3", "Gamma"]),
        row(&["", ".001", "z"]),
    ]
}

#[test]
fn group_builds_parents_with_children() {
    let groups = group(&sample(), 0).unwrap();
    assert_eq!(groups.len(), 3);
    assert_eq!(groups[0].parent.cols[0], "T1");
    assert_eq!(groups[0].children.len(), 2);
    assert_eq!(groups[0].children[1].cols[1], ".002");
    assert_eq!(groups[1].children.len(), 0);
    assert_eq!(groups[2].children.len(), 1);
}

#[test]
fn group_keeps_row_order() {
    let rows = sample();
    let expected: Vec<Vec<String>> = rows.iter().map(cols).collect();
    let groups = group(&rows, 0).unwrap();
    assert_eq!(flatten(&groups), expected);
}

#[test]
fn regrouping_one_group_gives_it_back() {
    let groups = group(&sample(), 0).unwrap();
    for g in &groups {
        let mut rows = vec![row(&[])];
        rows[0].cols = cols(&g.parent);
        for c in &g.children {
            let mut r = row(&[]);
            r.cols = cols(c);
            rows.push(r);
        }
        let again = group(&rows, 0).unwrap();
        assert_eq!(again.len(), 1);
        assert_eq!(flatten(&again), flatten(std::slice::from_ref(g)));
    }
}

#[test]
fn child_row_before_any_parent_is_refused() {
    let rows = vec![row(&["", "orphan"]), row(&["T1", "Alpha"])];
    assert!(matches!(group(&rows, 0), Err(Error::Parser(_))));
    let rows = vec![row(&[]), row(&["T1"])];
    assert!(matches!(group(&rows, 0), Err(Error::Parser(_))));
}

#[test]
fn group_of_no_rows_is_empty() {
    assert_eq!(group(&Vec::new(), 0).unwrap().len(), 0);
}

#[test]
fn empty_row_is_a_child() {
    let groups = group(&vec![row(&["T1"]), row(&[])], 0).unwrap();
    assert_eq!(groups.len(), 1);
    assert_eq!(groups[0].children.len(), 1);
    assert_eq!(groups[0].children[0].cols.len(), 0);
}

#[test]
fn marker_column_can_be_another_column() {
    let rows = vec![row(&["a", "P"]), row(&["b", ""]), row(&["c"])];
    let groups = group(&rows, 1).unwrap();
    assert_eq!(groups.len(), 1);
    assert_eq!(groups[0].children.len(), 2);
}
