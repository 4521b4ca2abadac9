use mitre_cli::attack::data_sources::{
    DataSourceRow, DataSourcesTable, DetectionRow as ComponentDetectionRow,
    DetectionsTable as ComponentDetectionsTable, SubDetectionRow,
};
use mitre_cli::attack::groups::{GroupRow, GroupsTable, SoftwareRow as GroupSoftwareRow};
use mitre_cli::attack::mitigations::{MitigationRow, MitigationTable};
use mitre_cli::attack::software::{AssocGroupsTable, SoftwareRow, SoftwareTable};
use mitre_cli::attack::tactics::{TacticRow, TacticsTable};
use mitre_cli::attack::techniques::domain::{DomainTechniqueRow, DomainTechniquesTable};
use mitre_cli::attack::techniques::{
    DetectionsTable, ProcedureRow, ProcedureType, ProceduresTable, SubTechniqueRow, TechniqueRow,
    TechniquesTable,
};
use mitre_cli::attack::{data_sources, groups, mitigations, software, tactics, techniques, Row, Table};
use mitre_cli::error::Error;

fn row(cols: &[&str]) -> Row {
    Row {
        cols: cols.iter().map(|c| c.to_string()).collect(),
    }
}

fn table(rows: Vec<Row>) -> Table {
    Table {
        headers: Vec::new(),
        rows,
    }
}

#[test]
fn sub_technique_id_is_parent_id_and_suffix() {
    let t = table(vec![
        row(&["T1548", "Abuse Elevation Control Mechanism", "Escalate"]),
        row(&["", ".002", "Bypass User Account Control", "Skip  \n  UAC"]),
        row(&["T1134", "Access Token Manipulation", "Tokens"]),
    ]);
    let techniques = TechniquesTable::from_table(&t).unwrap();
    assert_eq!(techniques.len(), 2);
    let subs = techniques.0[0].sub_techniques.as_ref().unwrap();
    assert_eq!(subs.len(), 1);
    assert_eq!(subs[0].id, "T1548.002");
    assert_eq!(
        subs[0].name,
        "Abuse Elevation Control Mechanism: Bypass User Account Control"
    );
    assert_eq!(subs[0].description, "Skip\nUAC");
    assert!(techniques.0[1].sub_techniques.is_none());
}

#[test]
fn sub_technique_before_technique_is_refused() {
    let t = table(vec![row(&["", ".002", "Orphan", "d"])]);
    assert!(matches!(TechniquesTable::from_table(&t), Err(Error::Parser(_))));
}

#[test]
fn add_subtechnique_qualifies_id_and_name() {
    let mut t = TechniqueRow::from_row(&row(&["T1003", "OS Credential Dumping", "d"]));
    t.add_subtechnique(SubTechniqueRow::from_row(&row(&["", ".001", "LSASS Memory", "x"])));
    t.add_subtechnique(SubTechniqueRow::from_row(&row(&["", ".002", "SAM", "y"])));
    let subs = t.sub_techniques.unwrap();
    assert_eq!(subs[0].id, "T1003.001");
    assert_eq!(subs[1].id, "T1003.002");
    assert_eq!(subs[1].name, "OS Credential Dumping: SAM");
}

#[test]
fn compound_id_joins_base_and_suffix() {
    let r = DomainTechniqueRow::from_row(&row(&[
        "Enterprise",
        "T1548",
        ".002",
        "Bypass User Account Control",
        "Used [1] to bypass",
    ]));
    assert_eq!(r.domain, "Enterprise");
    assert_eq!(r.id, "T1548.002");
    assert_eq!(r.name, "Bypass User Account Control");
    assert_eq!(r.used_for, "Used to bypass");
}

#[test]
fn column_after_id_without_dot_is_the_name() {
    let r = DomainTechniqueRow::from_row(&row(&[
        "Enterprise",
        "T1059",
        "Command and Scripting Interpreter",
        "Runs scripts",
    ]));
    assert_eq!(r.id, "T1059");
    assert_eq!(r.name, "Command and Scripting Interpreter");
    assert_eq!(r.used_for, "Runs scripts");
}

#[test]
fn short_domain_technique_rows_leave_fields_empty() {
    let r = DomainTechniqueRow::from_row(&row(&["Enterprise", "T1548", ".002"]));
    assert_eq!(r.id, "T1548.002");
    assert_eq!(r.name, "");
    assert_eq!(r.used_for, "");
    let r = DomainTechniqueRow::from_row(&row(&[]));
    assert_eq!(r.domain, "");
    assert_eq!(r.id, "");
}

#[test]
fn domain_techniques_table_groups_sub_techniques() {
    let t = table(vec![
        row(&["Enterprise", "T1003", "OS Credential Dumping", "dumps"]),
        row(&["", "", ".001", "LSASS Memory", "reads [2] memory"]),
        row(&["Mobile", "T1404", "Exploitation", "exploits"]),
    ]);
    let techniques = DomainTechniquesTable::from_table(&t).unwrap();
    assert_eq!(techniques.len(), 2);
    assert!(!techniques.is_empty());
    let subs = techniques.0[0].sub_techniques.as_ref().unwrap();
    assert_eq!(subs[0].id, "T1003.001");
    assert_eq!(subs[0].name, "OS Credential Dumping: LSASS Memory");
    assert_eq!(subs[0].used_for, "reads memory");
    assert!(DomainTechniquesTable::from_table_opt(&table(Vec::new())).unwrap().is_none());
}

#[test]
fn detections_carry_id_and_source_down() {
    let t = table(vec![
        row(&["DS0026", "Source A", "Comp1", "detects X"]),
        row(&["", "", "Comp2", "detects Y"]),
        row(&["", "Source B", "Comp3"]),
    ]);
    let d = DetectionsTable::from_table_opt(&t).unwrap();
    assert_eq!(d.0.len(), 3);
    assert_eq!(d.0[1].id, "DS0026");
    assert_eq!(d.0[1].data_source, "Source A");
    assert_eq!(d.0[1].data_comp, "Comp2");
    assert_eq!(d.0[1].detects.as_deref(), Some("detects Y"));
    assert_eq!(d.0[2].id, "DS0026");
    assert_eq!(d.0[2].data_source, "Source B");
    assert_eq!(d.0[2].detects, None);
    assert!(DetectionsTable::from_table_opt(&table(Vec::new())).is_none());
}

#[test]
fn mitigation_row_and_domain_technique_row_map_to_same_fields() {
    let m = MitigationRow::from_row(&row(&["M1036", "Account Use Policies", "Lock accounts"]));
    let t = DomainTechniqueRow::from_row(&row(&[
        "Enterprise",
        "M1036",
        "Account Use Policies",
        "Lock accounts",
    ]));
    assert_eq!(m.id, t.id);
    assert_eq!(m.name, t.name);
    assert_eq!(m.description, t.used_for);
    assert_eq!(m.id, "M1036");
    assert_eq!(m.name, "Account Use Policies");
    assert_eq!(m.description, "Lock accounts");
}

#[test]
fn procedure_kind_follows_id_prefix() {
    assert_eq!(ProcedureType::from_id(&"S0029".to_string()), ProcedureType::SOFTWARE);
    assert_eq!(ProcedureType::from_id(&"G0007".to_string()), ProcedureType::GROUP);
    assert_eq!(ProcedureType::from_id(&"C0001".to_string()), ProcedureType::UNKNOWN);
    assert_eq!(ProcedureType::from_id(&String::new()), ProcedureType::UNKNOWN);
    assert_eq!(ProcedureType::GROUP.label(), "Group");
    assert_eq!(ProcedureType::SOFTWARE.label(), "Software");
    assert_eq!(ProcedureType::UNKNOWN.label(), "Unknown");
    assert_eq!(ProcedureType::default(), ProcedureType::UNKNOWN);
}

#[test]
fn procedure_description_lines_are_stripped() {
    let p = ProcedureRow::from_row(&row(&["S0029", "PsExec", "Line one [1]\n  line two[2] "]));
    assert_eq!(p.procedure_type, ProcedureType::SOFTWARE);
    assert_eq!(p.description, "Line one\nline two");
    let table = ProceduresTable::from_table_opt(&table(vec![row(&["G0007", "APT28"])])).unwrap();
    assert_eq!(table.0[0].procedure_type, ProcedureType::GROUP);
    assert_eq!(table.0[0].description, "");
}

#[test]
fn list_rows_of_tactics_and_mitigations() {
    let t = table(vec![
        row(&["TA0001", "Initial Access", "First\n   step"]),
        row(&["TA0002"]),
    ]);
    let tactics = TacticsTable::from_table(&t);
    assert_eq!(tactics.len(), 2);
    assert!(!tactics.is_empty());
    assert_eq!(tactics.0[0].description, "First\nstep");
    assert_eq!(tactics.0[1].name, "");
    let r = TacticRow::from_row(&row(&["TA0003", "Persistence", "Stays"]));
    assert_eq!(r.id, "TA0003");
    let m = MitigationTable::from_table(&t);
    assert_eq!(m.len(), 2);
    assert!(MitigationTable::from_table_opt(&table(Vec::new())).is_none());
}

#[test]
fn group_row_splits_associated_groups_on_commas() {
    let g = GroupRow::from_row(&row(&["G0018", "admin@338", "Temper Panda, TEMP.Tick", "d"]));
    assert_eq!(
        g.assoc_groups,
        Some(vec!["Temper Panda".to_string(), " TEMP.Tick".to_string()])
    );
    let g = GroupRow::from_row(&row(&["G0018", "admin@338"]));
    assert_eq!(g.assoc_groups, None);
    let groups = GroupsTable::from_table(&table(vec![row(&["G1", "n", "", "d"])]));
    assert_eq!(groups.len(), 1);
    assert_eq!(groups.0[0].assoc_groups, Some(vec![String::new()]));
}

#[test]
fn software_row_splits_associated_names_on_comma_space() {
    let s = SoftwareRow::from_row(&row(&["S0029", "PsExec", "PsExec Alias, Other,x", "d"]));
    assert_eq!(
        s.assoc_software,
        Some(vec!["PsExec Alias".to_string(), "Other,x".to_string()])
    );
    let table_ = SoftwareTable::from_table(&table(vec![row(&["S1"])]));
    assert_eq!(table_.len(), 1);
    assert_eq!(table_.0[0].assoc_software, None);
    assert!(AssocGroupsTable::from_table_opt(&table(Vec::new())).is_none());
}

#[test]
fn group_software_row_lists_techniques() {
    let s = GroupSoftwareRow::from_row(&row(&["S0002", "Mimikatz", "x", "T1003,T1134"]));
    assert_eq!(s.techniques, vec!["T1003".to_string(), "T1134".to_string()]);
    let s = GroupSoftwareRow::from_row(&row(&["S0002", "Mimikatz"]));
    assert!(s.techniques.is_empty());
}

#[test]
fn data_source_rows() {
    let d = DataSourceRow::from_row(&row(&["DS0026", "Active Directory", "Enterprise\n  ICS", "d"]));
    assert_eq!(d.domain, "Enterprise\nICS");
    let t = DataSourcesTable::from_table(&table(vec![row(&["DS1"]), row(&["DS2"])]));
    assert_eq!(t.len(), 2);
    assert!(!t.is_empty());
}

#[test]
fn component_detections_group_sub_detections() {
    let t = table(vec![
        row(&["Enterprise", "T1003", "OS Credential Dumping", "Monitor [3] it"]),
        row(&["", "", ".006", "DCSync", "Watch [4]"]),
        row(&["Enterprise", "T1558", ".004", "AS-REP Roasting", "Look"]),
    ]);
    let d = ComponentDetectionsTable::from_table(&t).unwrap();
    assert!(!d.is_empty());
    assert_eq!(d.0.len(), 2);
    assert_eq!(d.0[0].detects, "Monitor it");
    let subs = d.0[0].sub_detections.as_ref().unwrap();
    assert_eq!(subs[0].id, "T1003.006");
    assert_eq!(subs[0].name, "OS Credential DumpingDCSync");
    assert_eq!(subs[0].detects, "Watch");
    assert_eq!(d.0[1].id, "T1558.004");
    assert_eq!(d.0[1].name, "AS-REP Roasting");
    let mut r = ComponentDetectionRow::from_row(&row(&["Enterprise", "T1", "N", "d"]));
    r.add_subdetection(SubDetectionRow::from_row(&row(&["", "", ".1", "M", "e"])));
    assert_eq!(r.sub_detections.unwrap()[0].id, "T1.1");
}

#[test]
fn domain_names_and_addresses() {
    assert_eq!(
        techniques::Domain::from_str("mobile").unwrap().url(),
        "https://attack.mitre.org/techniques/mobile/"
    );
    assert!(matches!(
        techniques::Domain::from_str("space"),
        Err(Error::InvalidValue(_))
    ));
    assert_eq!(
        tactics::Domain::from_str("ics").unwrap().url(),
        "https://attack.mitre.org/tactics/ics/"
    );
    assert!(matches!(tactics::Domain::from_str("ICS"), Err(Error::InvalidValue(_))));
    assert_eq!(
        mitigations::Domain::from_str("enterprise").unwrap().url(),
        "https://attack.mitre.org/mitigations/enterprise/"
    );
    assert_eq!(
        mitigations::Domain::from_str("x"),
        Err("x is not a valid mitigation domain".to_string())
    );
}

#[test]
fn domain_error_messages_name_the_input() {
    assert_eq!(
        techniques::Domain::from_str("space"),
        Err(Error::InvalidValue("space is not a valid technique domain".to_string()))
    );
    assert_eq!(
        tactics::Domain::from_str("pc"),
        Err(Error::InvalidValue("pc is not a valid tactic domain".to_string()))
    );
}

#[test]
fn page_addresses() {
    assert_eq!(data_sources::data_sources_url(), "https://attack.mitre.org/datasources/");
    assert_eq!(groups::groups_url(), "https://attack.mitre.org/groups/");
    assert_eq!(software::software_url(), "https://attack.mitre.org/software/");
    assert_eq!(groups::group_page_url("G0018"), "https://attack.mitre.org/groups/G0018");
    assert_eq!(software::software_page_url("S0029"), "https://attack.mitre.org/software/S0029");
    assert_eq!(
        mitigations::mitigation_page_url("M1026"),
        "https://attack.mitre.org/mitigations/M1026"
    );
    assert_eq!(
        techniques::technique_page_url("t1548.002"),
        "https://attack.mitre.org/techniques/T1548/002"
    );
    assert_eq!(tactics::tactic_page_url("ta0001"), "https://attack.mitre.org/tactics/TA0001");
}
