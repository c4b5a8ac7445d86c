use pinner::config::SecurityEntry;
use pinner::domain::DependencyName;
use pinner::error::PinnerError;
use pinner::pipeline::findings::{class_positions, picked_entries, scan_finding, scan_report, unlisted, Finding, TargetCheck};
use pinner::pipeline::scan::{ScanClass, ScanTarget};

fn finding(action: &str, sha: &str, reasons: Vec<(&str, &str, bool)>) -> Finding {
    Finding {
        action: action.to_string(),
        sha: sha.to_string(),
        candidate: "None".to_string(),
        version: Some("v1".to_string()),
        reasons: reasons.into_iter().map(|(a, b, c)| (a.to_string(), b.to_string(), c)).collect(),
    }
}

fn sample() -> Vec<Finding> {
    vec![
        finding("a/clean", "c1", vec![]),
        finding("a/bad", "b1", vec![("GHSA-1", "Malicious release", true), ("CVE-2", "overflow", false)]),
        finding("a/cve", "v1", vec![("CVE-3", "overflow", false)]),
        finding("a/clean2", "c2", vec![]),
    ]
}

fn entry(reference: &str) -> SecurityEntry {
    SecurityEntry { reference: reference.to_string(), tag: None, timestamp: None }
}

#[test]
fn findings_fall_in_their_classes() {
    let fs = sample();
    assert_eq!(class_positions(&fs, ScanClass::Clean), vec![0, 3]);
    assert_eq!(class_positions(&fs, ScanClass::Compromised), vec![1]);
    assert_eq!(class_positions(&fs, ScanClass::Vulnerable), vec![2]);
}

#[test]
fn listed_findings_are_left_out() {
    let fs = sample();
    let listed = vec![entry("a/clean@c1")];
    assert_eq!(unlisted(&fs, &vec![0, 3], &listed), vec![3]);
    let by_sha = vec![entry("c2")];
    assert_eq!(unlisted(&fs, &vec![0, 3], &by_sha), vec![0]);
    assert_eq!(unlisted(&fs, &vec![0, 3], &vec![]), vec![0, 3]);
}

#[test]
fn picks_become_entries() {
    let fs = sample();
    let picked = picked_entries(&fs, &vec![0, 3], &vec![1]);
    assert_eq!(picked, vec![("a/clean2".to_string(), "c2".to_string(), Some("v1".to_string()))]);
    assert!(picked_entries(&fs, &vec![0, 3], &vec![]).is_empty());
}

#[test]
fn report_lists_sections_in_order() {
    let fs = sample();
    let lines = scan_report(&fs, &vec![1], &vec![2], &vec![0, 3]);
    assert_eq!(lines.len(), 1 + 4 + 3 + 3);
    assert!(lines[0].starts_with('\n') && lines[0].contains("=== Pinner Security Scan Report ==="));
    assert!(lines[1].contains("Compromised Dependencies (Supply Chain Attacks):"));
    assert!(lines[2].contains("a/bad") && lines[2].contains("is COMPROMISED! (Upgrade candidate: "));
    assert!(lines[3].starts_with("    - ") && lines[3].contains("GHSA-1") && lines[3].ends_with(": Malicious release"));
    assert!(lines[4].contains("CVE-2") && lines[4].ends_with(": overflow"));
    assert!(lines[5].contains("Vulnerable Dependencies (Standard CVEs):"));
    assert!(lines[6].contains("a/cve") && lines[6].contains("has known vulnerabilities: (Upgrade candidate: "));
    assert!(lines[7].contains("CVE-3"));
    assert!(lines[8].contains("Clean Dependencies:"));
    assert!(lines[9].contains("a/clean") && lines[9].ends_with(")"));
    assert!(lines[10].contains("a/clean2"));
}

#[test]
fn report_without_findings_is_its_heading() {
    let lines = scan_report(&vec![], &vec![], &vec![], &vec![]);
    assert_eq!(lines.len(), 1);
}

#[test]
fn checked_targets_become_findings() {
    let target = ScanTarget {
        action: DependencyName::from("a/b"),
        sha: "abc".to_string(),
        tag: Some("v1".to_string()),
        candidate: "None".to_string(),
    };
    let osv = vec![
        ("GHSA-1".to_string(), "Backdoor found".to_string(), String::new()),
        ("CVE-2".to_string(), "overflow".to_string(), String::new()),
    ];
    let f = scan_finding(&target, TargetCheck::Osv(Some(osv))).unwrap();
    assert_eq!(f.action, "a/b");
    assert_eq!(f.version, Some("v1".to_string()));
    assert_eq!(
        f.reasons,
        vec![("GHSA-1".to_string(), "Backdoor found".to_string(), true), ("CVE-2".to_string(), "overflow".to_string(), false)]
    );
    assert!(scan_finding(&target, TargetCheck::Osv(None)).unwrap().reasons.is_empty());
    assert!(scan_finding(&target, TargetCheck::Provenance(Ok(true))).unwrap().reasons.is_empty());
    let failed = scan_finding(&target, TargetCheck::Provenance(Ok(false))).unwrap();
    assert_eq!(failed.reasons, vec![("PROVENANCE_FAIL".to_string(), "Provenance signature verification failed".to_string(), true)]);
    assert!(scan_finding(&target, TargetCheck::Provenance(Err(PinnerError::Api("x".to_string())))).is_none());
}
