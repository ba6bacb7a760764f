use cfd::cf_ips::CFIPs;
use cfd::checker::{CheckError, Checker};
use cfd::domain::{Header, HttpResponse, Probe};

fn ranges() -> CFIPs {
    CFIPs::load("131.0.72.0/22\n104.16.0.0/13".to_string(), String::new())
}

fn plain() -> Probe {
    Probe::Reached {
        response: HttpResponse {
            remote_addr: Some("93.184.216.34".to_string()),
            headers: vec![Header { name: "server".to_string(), value: "ECS".to_string() }],
        },
        certificates: Some(vec![]),
    }
}

fn fronted() -> Probe {
    Probe::Reached {
        response: HttpResponse {
            remote_addr: Some("104.16.132.229".to_string()),
            headers: vec![
                Header { name: "server".to_string(), value: "cloudflare".to_string() },
                Header { name: "cf-ray".to_string(), value: "7d0f-FRA".to_string() },
            ],
        },
        certificates: None,
    }
}

#[test]
fn build_with_one_or_several_targets() {
    let solo = Checker::build("example.com".to_string(), ranges());
    assert_eq!(solo.domains.len(), 1);
    let multi = Checker::build("example.com\nexample2.com\nexample3.com".to_string(), ranges());
    assert_eq!(multi.domains.len(), 3);
    assert_eq!(multi.domains[1].name, "example2.com");
    assert_eq!(multi.cf_ips.ipsv4.len(), 2);
}

#[test]
fn build_leaves_out_lines_that_are_no_domain() {
    let target = "example.com\n\n-bad.com!\nftp://files.example.com\nhttps://cloudflare.com\r\nlocalhost\n";
    let checker = Checker::build(target.to_string(), ranges());
    let names: Vec<&str> = checker.domains.iter().map(|d| d.name.as_str()).collect();
    assert_eq!(names, vec!["example.com", "cloudflare.com"]);
    assert!(checker.domains.iter().all(|d| d.check_result == 0 && !d.is_unreachable));
}

#[test]
fn detected_only_keeps_order_and_nonzero_masks() {
    let target = "example.com\ncloudflare.com";
    let mut checker = Checker::build(target.to_string(), ranges());
    assert_eq!(checker.check(&vec![plain(), fronted()]), Ok(()));
    let detected = checker.cf_detected_domains();
    assert_eq!(detected.len() == 1, true);
    assert_eq!(detected[0].name, "cloudflare.com");
    assert_eq!(detected[0].check_result, 0b01011);
    assert_eq!(checker.domains[0].check_result, 0);
    assert_eq!(checker.domains[0].get_status(), "CF not detected");
    assert_eq!(checker.domains[1].get_status(), "CF detected");
}

#[test]
fn detected_only_skips_unreachable_domains() {
    let mut checker = Checker::build("a.example\nb.example\nc.example".to_string(), ranges());
    assert!(checker.cf_detected_domains().is_empty());
    checker.check(&vec![fronted(), Probe::Unreachable, fronted()]).unwrap();
    let detected = checker.cf_detected_domains();
    let names: Vec<&str> = detected.iter().map(|d| d.name.as_str()).collect();
    assert_eq!(names, vec!["a.example", "c.example"]);
    assert!(checker.domains[1].is_unreachable);
    assert_eq!(checker.domains[1].check_result, 0);
}

#[test]
fn check_wants_one_probe_for_each_domain() {
    let mut checker = Checker::build("example.com\ncloudflare.com".to_string(), ranges());
    assert_eq!(checker.check(&vec![fronted()]), Err(CheckError::ProbeCount));
    assert_eq!(checker.domains.len(), 2);
    assert_eq!(checker.domains[0].check_result, 0);
    assert_eq!(checker.check(&vec![]), Err(CheckError::ProbeCount));
}

#[test]
fn fresh_checkers_give_the_same_masks() {
    let target = "example.com\ncloudflare.com\nunreachable.example";
    let mut first = Checker::build(target.to_string(), ranges());
    let mut second = Checker::build(target.to_string(), ranges());
    first.check(&vec![plain(), fronted(), Probe::Unreachable]).unwrap();
    second.check(&vec![plain(), fronted(), Probe::Unreachable]).unwrap();
    second.check(&vec![plain(), fronted(), Probe::Unreachable]).unwrap();
    for i in 0..3 {
        assert_eq!(first.domains[i].check_result, second.domains[i].check_result);
        assert_eq!(first.domains[i].is_unreachable, second.domains[i].is_unreachable);
    }
}

#[test]
fn a_record_follows_its_own_probe_only() {
    let target = "one.example\ntwo.example";
    let mut first = Checker::build(target.to_string(), ranges());
    let mut second = Checker::build(target.to_string(), ranges());
    first.check(&vec![fronted(), plain()]).unwrap();
    second.check(&vec![fronted(), Probe::Unreachable]).unwrap();
    assert_eq!(first.domains[0].check_result, 0b01011);
    assert_eq!(second.domains[0].check_result, 0b01011);
    assert_eq!(first.domains[1].check_result, 0);
    assert!(second.domains[1].is_unreachable);
}

#[test]
fn run_builds_and_checks() {
    let target = "example.com\nnot a domain\nhttps://cloudflare.com";
    let checker = cfd::run(target.to_string(), ranges(), &vec![plain(), fronted()]).unwrap();
    assert_eq!(checker.domains.len(), 2);
    assert_eq!(checker.domains[0].name, "example.com");
    assert_eq!(checker.domains[0].check_result, 0);
    assert_eq!(checker.domains[1].name, "cloudflare.com");
    assert_eq!(checker.domains[1].check_result, 0b01011);
    assert_eq!(checker.cf_detected_domains().len() == 1, true);
}

#[test]
fn run_fails_without_a_probe_for_each_domain() {
    let target = "example.com\ncloudflare.com";
    let short = cfd::run(target.to_string(), ranges(), &vec![plain()]);
    assert_eq!(short.unwrap_err(), CheckError::ProbeCount);
    let none = cfd::run(String::new(), ranges(), &vec![]);
    assert!(none.unwrap().domains.is_empty());
}

#[test]
fn run_is_repeatable() {
    let target = "example.com\ncloudflare.com";
    let first = cfd::run(target.to_string(), ranges(), &vec![plain(), fronted()]).unwrap();
    let second = cfd::run(target.to_string(), ranges(), &vec![plain(), fronted()]).unwrap();
    for i in 0..2 {
        assert_eq!(first.domains[i].name, second.domains[i].name);
        assert_eq!(first.domains[i].check_result, second.domains[i].check_result);
        assert_eq!(first.domains[i].is_unreachable, second.domains[i].is_unreachable);
    }
}
