use cfd::cf_ips::CFIPs;
use cfd::checker::Checker;
use cfd::domain::{Header, HttpResponse, Probe};
use cfd::report::{
    build_full_table, build_small_table, full_row, report_extension, report_kind,
    reported_domains, small_row, ReportKind,
};

fn checked() -> Checker {
    let ips = CFIPs::load("104.16.0.0/13".to_string(), String::new());
    let mut checker = Checker::build("example.com\ncloudflare.com\ndown.example".to_string(), ips);
    let probes = vec![
        Probe::Reached {
            response: HttpResponse { remote_addr: None, headers: vec![] },
            certificates: None,
        },
        Probe::Reached {
            response: HttpResponse {
                remote_addr: Some("104.16.1.1".to_string()),
                headers: vec![Header { name: "cf-ray".to_string(), value: "x".to_string() }],
            },
            certificates: None,
        },
        Probe::Unreachable,
    ];
    checker.check(&probes).unwrap();
    checker
}

#[test]
fn form_follows_the_flags() {
    assert_eq!(report_kind(true, false), ReportKind::FullTable);
    assert_eq!(report_kind(true, true), ReportKind::FullTable);
    assert_eq!(report_kind(false, false), ReportKind::SmallTable);
    assert_eq!(report_kind(false, true), ReportKind::Names);
    assert_eq!(report_extension(ReportKind::FullTable), "csv");
    assert_eq!(report_extension(ReportKind::SmallTable), "csv");
    assert_eq!(report_extension(ReportKind::Names), "txt");
}

#[test]
fn filter_keeps_detected_records() {
    let checker = checked();
    let all = reported_domains(&checker, false);
    assert_eq!(all.len(), 3);
    assert_eq!(all[2].name, "down.example");
    assert!(all[2].is_unreachable);
    let some = reported_domains(&checker, true);
    assert_eq!(some.len(), 1);
    assert_eq!(some[0].name, "cloudflare.com");
    assert_eq!(some[0].check_result, 0b00011);
}

#[test]
fn rows_hold_name_and_words() {
    let checker = checked();
    assert_eq!(
        full_row(&checker.domains[1]),
        vec!["cloudflare.com", "false", "false", "true", "true", "false", "false"]
    );
    assert_eq!(
        full_row(&checker.domains[2]),
        vec!["down.example", "true", "false", "false", "false", "false", "false"]
    );
    assert_eq!(small_row(&checker.domains[0]), vec!["example.com", "CF not detected"]);
    assert_eq!(small_row(&checker.domains[1]), vec!["cloudflare.com", "CF detected"]);
    assert_eq!(small_row(&checker.domains[2]), vec!["down.example", "Unreachable"]);
}

#[test]
fn tables_begin_with_their_headings() {
    let checker = checked();
    let full = build_full_table(&checker.domains);
    assert_eq!(full.len(), 4);
    assert_eq!(
        full[0],
        vec!["Domain", "Unreachable", "CF SSL", "CF IP", "CF-Ray", "CF-Cache-Status", "CF-Server"]
    );
    assert_eq!(full[2][0], "cloudflare.com");
    let small = build_small_table(&checker.domains);
    assert_eq!(small.len(), 4);
    assert_eq!(small[0], vec!["Domain", "Status"]);
    assert_eq!(small[3], vec!["down.example", "Unreachable"]);
    assert_eq!(build_small_table(&vec![]).len(), 1);
}
