use cfd::cf_ips::CFIPs;
use cfd::domain::check_result;
use cfd::domain::{Domain, Header, HttpResponse, Probe, ValidationError};

fn ranges() -> CFIPs {
    CFIPs::load("131.0.72.0/22\n104.16.0.0/13".to_string(), String::new())
}

fn header(name: &str, value: &str) -> Header {
    Header { name: name.to_string(), value: value.to_string() }
}

fn response(addr: Option<&str>, headers: Vec<Header>) -> HttpResponse {
    HttpResponse { remote_addr: addr.map(|a| a.to_string()), headers }
}

#[test]
fn build_accepts_a_plain_name() {
    let domain = Domain::build("example.com".to_string());
    assert!(domain.is_ok());
    let domain = domain.unwrap();
    assert_eq!(domain.name, "example.com");
    assert_eq!(domain.check_result, check_result::EMPTY);
    assert!(!domain.is_unreachable);
}

#[test]
fn build_rejects_a_malformed_name() {
    let fail_domain = Domain::build("-example.com!".to_string());
    assert!(fail_domain.is_err());
    assert_eq!(fail_domain.unwrap_err(), ValidationError::InvalidName);
}

#[test]
fn is_valid_tells_names_apart() {
    assert_eq!(Domain::is_valid(&"example.com".to_string()), true);
    assert_ne!(Domain::is_valid(&"-example.com!".to_string()), true);
}

#[test]
fn scheme_is_taken_off() {
    for domain in ["http://example.com", "https://example.com"] {
        let res = Domain::clear_name_from_proto(&domain.to_string());
        assert_eq!(res, "example.com".to_string());
        assert_eq!(Domain::build(domain.to_string()).unwrap().name, "example.com");
    }
}

#[test]
fn whitespace_is_trimmed_after_the_scheme() {
    assert_eq!(Domain::clear_name_from_proto(&"  example.com \r\n".to_string()), "example.com");
    assert_eq!(Domain::clear_name_from_proto(&"http:// example.com ".to_string()), "example.com");
    assert_eq!(Domain::build("example.com\r".to_string()).unwrap().name, "example.com");
}

#[test]
fn other_scheme_is_a_validation_error() {
    assert!(!Domain::has_supported_scheme(&"ftp://example.com".to_string()));
    assert!(Domain::has_supported_scheme(&"https://example.com".to_string()));
    assert!(Domain::has_supported_scheme(&"example.com".to_string()));
    assert!(!Domain::is_valid(&"ftp://example.com".to_string()));
    assert_eq!(
        Domain::build("ftp://example.com".to_string()).unwrap_err(),
        ValidationError::UnsupportedScheme
    );
    assert_eq!(
        Domain::build("HTTP://example.com".to_string()).unwrap_err(),
        ValidationError::UnsupportedScheme
    );
    assert_eq!(
        Domain::build("://example.com".to_string()).unwrap_err(),
        ValidationError::UnsupportedScheme
    );
}

#[test]
fn text_after_a_second_separator_is_not_dropped() {
    assert_eq!(
        Domain::build("http://example.com://x".to_string()).unwrap_err(),
        ValidationError::InvalidName
    );
}

#[test]
fn name_needs_two_labels() {
    assert!(!Domain::is_valid(&"localhost".to_string()));
    assert!(!Domain::is_valid(&"".to_string()));
    assert!(!Domain::is_valid(&"   ".to_string()));
    assert!(!Domain::is_valid(&"http://".to_string()));
    assert!(Domain::is_valid(&"a.b".to_string()));
}

#[test]
fn label_length_limit() {
    let ok = format!("{}.com", "a".repeat(63));
    let long = format!("{}.com", "a".repeat(64));
    assert!(Domain::is_valid(&ok));
    assert!(!Domain::is_valid(&long));
}

#[test]
fn name_length_limit() {
    let label = "a".repeat(61);
    let ok = format!("{0}.{0}.{0}.{0}.abcde", label);
    assert_eq!(ok.len(), 253);
    let long = format!("{0}.{0}.{0}.{0}.abcdef", label);
    assert_eq!(long.len(), 254);
    assert!(Domain::is_valid(&ok));
    assert!(!Domain::is_valid(&long));
}

#[test]
fn hyphens_only_inside_labels() {
    assert!(Domain::is_valid(&"my-site.example.com".to_string()));
    assert!(!Domain::is_valid(&"-site.example.com".to_string()));
    assert!(!Domain::is_valid(&"site-.example.com".to_string()));
    assert!(!Domain::is_valid(&"example.-com".to_string()));
    assert!(!Domain::is_valid(&"example.com-".to_string()));
    assert!(!Domain::is_valid(&"-.com".to_string()));
}

#[test]
fn label_characters() {
    assert!(Domain::is_valid(&"Example123.COM".to_string()));
    assert!(Domain::is_valid(&"münchen.de".to_string()));
    assert!(!Domain::is_valid(&"exa mple.com".to_string()));
    assert!(!Domain::is_valid(&"exa_mple.com".to_string()));
    assert!(!Domain::is_valid(&"example.com/path".to_string()));
    assert!(!Domain::is_valid(&"example.com:80".to_string()));
}

#[test]
fn probe_with_every_signal() {
    let mut domain = Domain::build("http://cloudflare.com".to_string()).unwrap();
    let probe = Probe::Reached {
        response: response(
            Some("104.16.132.229"),
            vec![
                header("date", "today"),
                header("cf-ray", "8a1b2c3d4e5f-AMS"),
                header("cf-cache-status", "DYNAMIC"),
                header("server", "cloudflare"),
            ],
        ),
        certificates: None,
    };
    domain.verify_domain(&probe, &ranges());
    assert_eq!(domain.check_result, 0b01111);
    assert!(!domain.is_unreachable);
    assert!(domain.has_cf_ip());
    assert!(domain.has_cf_ray_header());
    assert!(domain.has_cf_cache_status_header());
    assert!(domain.has_cf_server_header());
    assert!(!domain.has_cf_ssl());
    assert_eq!(domain.get_status(), "CF detected");
    assert_eq!(domain.name, "cloudflare.com");
}

#[test]
fn each_signal_sets_its_own_bit() {
    let ips = ranges();
    let only_ip = Probe::Reached { response: response(Some("131.0.72.1"), vec![]), certificates: None };
    assert_eq!(Domain::probe_result(&only_ip, &ips), check_result::CF_IP);
    let only_ray = Probe::Reached {
        response: response(Some("8.8.8.8"), vec![header("cf-ray", "")]),
        certificates: None,
    };
    assert_eq!(Domain::probe_result(&only_ray, &ips), check_result::CF_RAY_HEADER);
    let only_cache = Probe::Reached {
        response: response(None, vec![header("cf-cache-status", "HIT")]),
        certificates: Some(vec![]),
    };
    assert_eq!(Domain::probe_result(&only_cache, &ips), check_result::CF_CACHE_STATUS_HEADER);
    let only_server = Probe::Reached {
        response: response(None, vec![header("server", "cloudflare-nginx")]),
        certificates: Some(vec![vec![0, 1, 2]]),
    };
    assert_eq!(Domain::probe_result(&only_server, &ips), check_result::CF_SERVER);
}

#[test]
fn server_header_is_read_as_it_stands() {
    let ips = ranges();
    let upper = Probe::Reached {
        response: response(None, vec![header("server", "Cloudflare")]),
        certificates: None,
    };
    assert_eq!(Domain::probe_result(&upper, &ips), check_result::EMPTY);
    let first_counts = Probe::Reached {
        response: response(None, vec![header("server", "nginx"), header("server", "cloudflare")]),
        certificates: None,
    };
    assert_eq!(Domain::probe_result(&first_counts, &ips), check_result::EMPTY);
}

#[test]
fn missing_server_header_is_no_signal() {
    let mut domain = Domain::build("example.com".to_string()).unwrap();
    let probe = Probe::Reached { response: response(Some("93.184.216.34"), vec![]), certificates: None };
    domain.verify_domain(&probe, &ranges());
    assert_eq!(domain.check_result, check_result::EMPTY);
    assert!(!domain.is_unreachable);
    assert_eq!(domain.get_status(), "CF not detected");
}

#[test]
fn unreachable_domain_keeps_an_empty_mask() {
    let mut domain = Domain::build("example.com".to_string()).unwrap();
    domain.check_result = 0b11111;
    domain.verify_domain(&Probe::Unreachable, &ranges());
    assert_eq!(domain.check_result, check_result::EMPTY);
    assert!(domain.is_unreachable);
    assert_eq!(domain.get_status(), "Unreachable");
}

#[test]
fn verifying_again_overwrites_the_record() {
    let mut domain = Domain::build("example.com".to_string()).unwrap();
    domain.verify_domain(&Probe::Unreachable, &ranges());
    let probe = Probe::Reached {
        response: response(None, vec![header("cf-ray", "1")]),
        certificates: None,
    };
    domain.verify_domain(&probe, &ranges());
    assert!(!domain.is_unreachable);
    assert_eq!(domain.check_result, check_result::CF_RAY_HEADER);
    let copy = domain.duplicate();
    assert_eq!(copy.name, "example.com");
    assert_eq!(copy.check_result, check_result::CF_RAY_HEADER);
}

#[test]
fn accessors_read_single_bits() {
    let mut domain = Domain::build("example.com".to_string()).unwrap();
    domain.check_result = check_result::CF_SSL;
    assert!(domain.has_cf_ssl());
    assert!(!domain.has_cf_ip());
    assert!(!domain.has_cf_ray_header());
    assert!(!domain.has_cf_cache_status_header());
    assert!(!domain.has_cf_server_header());
    domain.check_result = check_result::CF_IP | check_result::CF_SERVER;
    assert!(domain.has_cf_ip());
    assert!(domain.has_cf_server_header());
    assert!(!domain.has_cf_ssl());
}

#[test]
fn empty_labels_break_no_rule() {
    assert!(Domain::is_valid(&"example..com".to_string()));
    assert!(Domain::is_valid(&"example.com.".to_string()));
    assert!(!Domain::is_valid(&".".repeat(254)));
}
