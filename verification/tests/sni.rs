use rahgozar::sni::{
    active_rows, add_custom, checked_hosts, default_google_sni_pool, default_rows, enable_all,
    get_sni_pool, keep_working_only, pool_for_names, probe_names, sni_pool_for_form, SniHostDto,
    SniRow,
};

fn texts(items: &[&str]) -> Vec<String> {
    items.iter().map(|s| s.to_string()).collect()
}

fn row(name: &str, enabled: bool) -> SniRow {
    SniRow {
        name: name.into(),
        enabled,
    }
}

fn host(name: &str, enabled: bool) -> SniHostDto {
    SniHostDto {
        host: name.into(),
        enabled,
    }
}

fn shown(rows: &[SniHostDto]) -> Vec<(String, bool)> {
    rows.iter().map(|r| (r.host.clone(), r.enabled)).collect()
}

#[test]
fn the_default_pool_is_the_google_one() {
    assert_eq!(
        default_google_sni_pool(),
        vec![
            "www.google.com",
            "mail.google.com",
            "drive.google.com",
            "docs.google.com",
            "calendar.google.com"
        ]
    );
    assert_eq!(default_rows().len(), 5);
    assert!(default_rows().iter().all(|r| r.enabled));
}

#[test]
fn a_configured_pool_is_shown_as_it_is() {
    let rows = sni_pool_for_form(&Some(texts(&[" a.com ", "", "b.com"])), "www.google.com");
    let names: Vec<&str> = rows.iter().map(|r| r.name.as_str()).collect();
    assert_eq!(names, vec!["a.com", "b.com"]);
    assert!(rows.iter().all(|r| r.enabled));
}

#[test]
fn without_a_pool_the_front_domain_comes_first() {
    let rows = sni_pool_for_form(&None, "front.example");
    assert_eq!(rows[0].name, "front.example");
    assert!(rows.iter().any(|r| r.name == "mail.google.com"));
    let rows = sni_pool_for_form(&None, "www.google.com");
    assert_eq!(rows.len(), 5, "a front domain of the pool is not listed twice");
}

#[test]
fn only_enabled_rows_are_saved() {
    let rows = vec![row(" a ", true), row("b", false), row("  ", true), row("c", true)];
    assert_eq!(active_rows(&rows), vec!["a", "c"]);
    assert_eq!(probe_names(&rows), vec!["a", "b", "c"]);
    assert_eq!(
        checked_hosts(&vec![host("x", true), host("y", false)]).unwrap(),
        vec!["x"]
    );
    assert_eq!(
        checked_hosts(&vec![host(" ", true), host("y", false)]).unwrap_err(),
        "At least one SNI host must remain enabled"
    );
}

#[test]
fn opted_out_defaults_stay_in_sight() {
    let rows = pool_for_names(&texts(&["MAIL.google.com", "own.example"]));
    let v = shown(&rows);
    assert_eq!(v[0], ("MAIL.google.com".to_string(), true));
    assert_eq!(v[1], ("own.example".to_string(), true));
    assert_eq!(v.len(), 6);
    assert!(v[2..].iter().all(|r| !r.1 && r.0 != "mail.google.com"));
    let saved = checked_hosts(&rows).unwrap();
    assert_eq!(saved, vec!["MAIL.google.com", "own.example"]);
}

#[test]
fn the_saved_document_decides_the_pool() {
    assert_eq!(get_sni_pool(None, "p").unwrap().len(), 5);
    let bytes = b"{\"sni_hosts\": [\"a\"]}".to_vec();
    let rows = get_sni_pool(Some(&bytes), "p").unwrap();
    assert_eq!(shown(&rows)[0], ("a".to_string(), true));
    assert_eq!(rows.len(), 6);
    let bytes = b"{\"sni_hosts\": 3}".to_vec();
    let e = get_sni_pool(Some(&bytes), "p").unwrap_err();
    assert!(e.starts_with("malformed sni_hosts: "), "{e}");
    let bytes = b"{".to_vec();
    let e = get_sni_pool(Some(&bytes), "cfg").unwrap_err();
    assert!(e.starts_with("parse cfg: "), "{e}");
}

#[test]
fn rows_are_edited() {
    let mut rows = vec![row("a", true), row("b", false)];
    assert_eq!(add_custom(&mut rows, " c "), Some("c".to_string()));
    assert_eq!(add_custom(&mut rows, "a"), None);
    assert_eq!(add_custom(&mut rows, "  "), None);
    assert_eq!(rows.len(), 3);
    keep_working_only(&mut rows, &texts(&["b"]));
    let flags: Vec<bool> = rows.iter().map(|r| r.enabled).collect();
    assert_eq!(flags, vec![false, true, false]);
    enable_all(&mut rows);
    assert!(rows.iter().all(|r| r.enabled));
}
