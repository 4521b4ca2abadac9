use std::cell::RefCell;

use mitre_cli::attack::data_sources::{data_source_from_html, fetch_data_source};
use mitre_cli::attack::groups::{group_from_html, Group};
use mitre_cli::attack::mitigations::{mitigation_from_html, Mitigation, MitigationTable};
use mitre_cli::attack::software::{fetch_software_info, software_info_from_html};
use mitre_cli::attack::tactics::{fetch_tactics, tactic_from_html, Domain, Tactic};
use mitre_cli::attack::techniques::{fetch_technique, fetch_techniques, technique_from_html};
use mitre_cli::attack::WebFetch;
use mitre_cli::error::Error;

#[derive(Default)]
struct FakeHttpReqwest {
    success_response: String,
    error_response: Option<Error>,
    asked: RefCell<Vec<String>>,
}

impl FakeHttpReqwest {
    fn set_success_response(mut self, response: String) -> Self {
        self.success_response = response;
        self
    }

    fn set_error_response(mut self, error: Error) -> Self {
        self.error_response = Some(error);
        self
    }
}

impl WebFetch for FakeHttpReqwest {
    fn fetch(&self, url: &str) -> Result<String, Error> {
        self.asked.borrow_mut().push(url.to_string());
        if let Some(err) = &self.error_response {
            return Err(err.clone());
        }
        Ok(self.success_response.clone())
    }
}

fn page(body: &str) -> String {
    format!("<html><head><title>t</title></head><body>{}</body></html>", body)
}

fn section(slug: &str, rows: &str) -> String {
    format!(
        "<h2 id=\"{}\">{}</h2><table><thead><tr><th>h</th></tr></thead><tbody>{}</tbody></table>",
        slug, slug, rows
    )
}

fn container(inner: &str) -> String {
    format!(
        "<h1>Entity Name</h1><div class=\"description-body\"><p>About it[1].</p></div>\
<div class=\"container-fluid\">{}</div>",
        inner
    )
}

#[test]
fn test_dont_panic_on_request_error() {
    let fake_reqwest_client =
        FakeHttpReqwest::default().set_error_response(Error::Request(format!("Reqwest error")));
    let error: Error = fetch_tactics(Domain::ENTERPRISE, &fake_reqwest_client).unwrap_err();

    assert!(matches!(error, Error::Request(_)));
}

#[test]
fn absent_sections_leave_fields_absent() {
    let body = container(&section(
        "techniques",
        "<tr><td>Enterprise</td><td>T1021</td><td>.002</td><td>SMB</td><td>Moves [1]</td></tr>",
    ));
    let sw = software_info_from_html("S0029", &page(&body)).unwrap();
    assert_eq!(sw.id, "S0029");
    assert_eq!(sw.name, "Entity Name");
    assert_eq!(sw.desc, "About it.");
    let techniques = sw.techniques.unwrap();
    assert_eq!(techniques.0[0].id, "T1021.002");
    assert_eq!(techniques.0[0].used_for, "Moves");
    assert!(sw.groups.is_none());

    let g = group_from_html("G0018", &page(&body)).unwrap();
    assert!(g.techniques.is_some());
    assert!(g.software.is_none());
    assert!(g.assoc_groups.is_none());

    let m = mitigation_from_html("M1026", &page(&body)).unwrap();
    assert_eq!(m.addressed_techniques.unwrap().len(), 1);
}

#[test]
fn empty_section_table_counts_as_absent() {
    let body = container(&(section("techniques", "") + &section("groups", "")));
    let sw = software_info_from_html("S0029", &page(&body)).unwrap();
    assert!(sw.techniques.is_none());
    assert!(sw.groups.is_none());
}

#[test]
fn malformed_techniques_section_is_an_error() {
    let body = container(&section(
        "techniques",
        "<tr><td></td><td></td><td>.002</td><td>Orphan</td></tr>",
    ));
    assert!(matches!(
        mitigation_from_html("M1026", &page(&body)),
        Err(Error::Parser(_))
    ));
    assert!(matches!(
        group_from_html("G1", &page(&body)),
        Err(Error::Parser(_))
    ));
}

#[test]
fn technique_page_sections() {
    let body = container(
        &(section(
            "examples",
            "<tr><td>S0029</td><td>PsExec</td><td>Runs [5] remotely</td></tr>",
        ) + &section(
            "detection",
            "<tr><td>DS0017</td><td>Command</td><td>Execution</td><td>Watch [2]</td></tr>\
<tr><td></td><td></td><td>Creation</td><td>More</td></tr>",
        )),
    );
    let t = technique_from_html("T1548", &page(&body));
    assert_eq!(t.id, "T1548");
    assert_eq!(t.name, "Entity Name");
    let procedures = t.procedures.unwrap();
    assert_eq!(procedures.0[0].description, "Runs remotely");
    assert!(t.mitigations.is_none());
    let detections = t.detections.unwrap();
    assert_eq!(detections.0.len(), 2);
    assert_eq!(detections.0[1].id, "DS0017");
    assert_eq!(detections.0[1].data_source, "Command");
    assert_eq!(detections.0[1].data_comp, "Creation");
    assert_eq!(detections.0[0].detects.as_deref(), Some("Watch"));
}

#[test]
fn group_page_aliases_and_software() {
    let body = container(
        &(section("aliasDescription", "<tr><td>admin@338</td><td>x</td></tr><tr></tr>")
            + &section(
                "software",
                "<tr><td>S0002</td><td>Mimikatz</td><td>y</td><td>T1003,T1134</td></tr>",
            )),
    );
    let g: Group = group_from_html("G0018", &page(&body)).unwrap();
    assert_eq!(g.assoc_groups, Some(vec!["admin@338".to_string(), String::new()]));
    assert_eq!(g.software.unwrap().0[0].techniques.len(), 2);
    let body = container(&section(
        "techniques",
        "<tr><td>Enterprise</td><td>T1548</td><td>Abuse Elevation</td><td>u</td></tr>\
<tr><td></td><td></td><td>.002</td><td>Bypass UAC</td><td>v [1]</td></tr>",
    ));
    let g2 = group_from_html("G0018", &page(&body)).unwrap();
    let t = g2.techniques.unwrap();
    let sub = &t.0[0].sub_techniques.as_ref().unwrap()[0];
    assert_eq!(sub.id, "T1548.002");
    assert_eq!(sub.name, "Abuse Elevation: Bypass UAC");
    assert_eq!(sub.used_for, "v");
    assert!(g.techniques.is_none());
}

#[test]
fn tactic_page_reads_last_table_and_upper_cases_id() {
    let body = "<h1>Initial Access</h1>\
<table><tbody><tr><td>first</td></tr></tbody></table>\
<table><tbody><tr><td>T1189</td><td>Drive-by</td><td>d</td></tr>\
<tr><td></td><td>.001</td><td>Sub</td><td>s</td></tr></tbody></table>";
    let t: Tactic = tactic_from_html("ta0001", &page(body)).unwrap();
    assert_eq!(t.id, "TA0001");
    assert_eq!(t.name, "Initial Access");
    let techniques = t.techniques.unwrap();
    assert_eq!(techniques.len(), 1);
    assert_eq!(techniques.0[0].sub_techniques.as_ref().unwrap()[0].id, "T1189.001");
    let none = tactic_from_html("ta0002", &page("<h1>x</h1>")).unwrap();
    assert!(none.techniques.is_none());
}

#[test]
fn data_source_page_components() {
    let body = "<h1>Active Directory</h1><div class=\"section-view\">\
<a class=\"anchor\" id=\"Active Directory Credential Request\"></a>\
<div class=\"anchor-section\"><div class=\"description-body\"><p>Requests for credentials</p></div></div>\
<table class=\"table\"><thead><tr><th>Domain</th></tr></thead><tbody>\
<tr><td>Enterprise</td><td>T1003</td><td>OS Credential Dumping</td><td>Monitor [3]</td></tr>\
<tr><td></td><td></td><td>.006</td><td>DCSync</td><td>Watch</td></tr></tbody></table>\
<table class=\"table\"><tbody><tr><td>Enterprise</td><td>T1087</td><td>Account Discovery</td><td>Look</td></tr></tbody></table>\
</div>";
    let d = data_source_from_html("DS0026", &page(body)).unwrap();
    assert_eq!(d.name, "Active Directory");
    assert_eq!(d.components.len(), 2);
    let c = &d.components[0];
    assert_eq!(c.name, "Active Directory Credential Request");
    assert_eq!(c.description, "Requests for credentials");
    assert_eq!(c.detections.0[0].detects, "Monitor");
    let subs = c.detections.0[0].sub_detections.as_ref().unwrap();
    assert_eq!(subs[0].id, "T1003.006");
    assert_eq!(d.components[1].name, "");
    assert_eq!(d.components[1].description, "");
}

#[test]
fn fetches_ask_for_the_right_addresses() {
    let fake = FakeHttpReqwest::default().set_success_response(page("<h1>T</h1>"));
    let t = fetch_technique("t1548.002", &fake).unwrap();
    assert_eq!(t.id, "t1548.002");
    fetch_data_source("ds0026", &fake).unwrap();
    Tactic::fetch_tactic("ta0001", &fake).unwrap();
    Mitigation::fetch_mitigation("M1026", &fake).unwrap();
    Group::fetch_group("G0018", &fake).unwrap();
    fetch_software_info("S0029", &fake).unwrap();
    assert_eq!(
        *fake.asked.borrow(),
        vec![
            "https://attack.mitre.org/techniques/T1548/002".to_string(),
            "https://attack.mitre.org/datasources/DS0026".to_string(),
            "https://attack.mitre.org/tactics/TA0001".to_string(),
            "https://attack.mitre.org/mitigations/M1026".to_string(),
            "https://attack.mitre.org/groups/G0018".to_string(),
            "https://attack.mitre.org/software/S0029".to_string(),
        ]
    );
}

#[test]
fn list_fetches_read_the_first_table() {
    let body = "<table><tbody><tr><td>T1</td><td>A</td><td>d</td></tr>\
<tr><td></td><td>.001</td><td>B</td><td>e</td></tr></tbody></table>\
<table><tbody><tr><td>ignored</td></tr></tbody></table>";
    let fake = FakeHttpReqwest::default().set_success_response(page(body));
    let techniques = fetch_techniques(mitre_cli::attack::techniques::Domain::ICS, &fake).unwrap();
    assert_eq!(techniques.len(), 1);
    let mitigations =
        MitigationTable::fetch_mitigations(mitre_cli::attack::mitigations::Domain::MOBILE, &fake)
            .unwrap();
    assert_eq!(mitigations.len(), 2);
    assert_eq!(
        fake.asked.borrow()[0],
        "https://attack.mitre.org/techniques/ics/"
    );
    let empty = FakeHttpReqwest::default().set_success_response(page("<p>none</p>"));
    assert_eq!(fetch_tactics(Domain::MOBILE, &empty).unwrap().len(), 0);
    assert_eq!(mitre_cli::attack::groups::fetch_groups(&empty).unwrap().len(), 0);
    assert_eq!(mitre_cli::attack::software::fetch_software(&empty).unwrap().len(), 0);
    assert_eq!(
        mitre_cli::attack::data_sources::fetch_data_sources(&empty).unwrap().len(),
        0
    );
}

#[test]
fn large_list_page_is_read_whole() {
    let mut rows = String::new();
    for i in 0..150 {
        rows.push_str(&format!(
            "<tr><td>T{:04}</td><td>Technique {}</td><td>Does [{}] things</td></tr>",
            i, i, i
        ));
        rows.push_str(&format!(
            "<tr><td></td><td>.001</td><td>Sub {}</td><td>More</td></tr>",
            i
        ));
    }
    let body = format!(
        "<h1>Techniques</h1><table><thead><tr><th>ID</th><th>Name</th><th>Description</th></tr></thead><tbody>{}</tbody></table>",
        rows
    );
    let techniques = mitre_cli::attack::techniques::techniques_from_html(&page(&body)).unwrap();
    assert_eq!(techniques.len(), 150);
    let last = &techniques.0[149];
    assert_eq!(last.id, "T0149");
    assert_eq!(last.description, "Does [149] things");
    assert_eq!(last.sub_techniques.as_ref().unwrap()[0].id, "T0149.001");
}
