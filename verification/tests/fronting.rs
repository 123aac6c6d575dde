use rahgozar::config::FrontingGroup;
use rahgozar::fronting::{
    add_discovered_group, build_fronting_groups_from_editor, check_groups, has_domains,
    initial_buffers, remove_group, sync_buffers,
};

fn mk_group(name: &str, ip: &str, sni: &str, domains: &[&str]) -> FrontingGroup {
    FrontingGroup {
        name: name.into(),
        ip: ip.into(),
        sni: sni.into(),
        domains: domains.iter().map(|s| (*s).into()).collect(),
    }
}

#[test]
fn duplicate_group_names_get_distinct_buffers() {
    let groups = vec![
        mk_group("akamai", "2.22.151.143", "www.bbc.com", &[]),
        mk_group("akamai", "2.22.151.150", "www.akamai.com", &[]),
    ];
    let buffers = vec![
        "reddit.com\ngithub.com".to_string(),
        "microsoft.com\nicloud.com".to_string(),
    ];
    let out = build_fronting_groups_from_editor(&groups, &buffers);
    assert_eq!(out.len(), 2, "both same-named groups must survive");
    assert_eq!(out[0].name, "akamai");
    assert_eq!(out[0].ip, "2.22.151.143");
    assert_eq!(out[0].domains, vec!["reddit.com", "github.com"]);
    assert_eq!(out[1].name, "akamai");
    assert_eq!(out[1].ip, "2.22.151.150");
    assert_eq!(out[1].domains, vec!["microsoft.com", "icloud.com"]);
}

#[test]
fn empty_buffer_drops_group_before_save() {
    let groups = vec![
        mk_group("draft-only", "1.2.3.4", "example.com", &[]),
        mk_group("real", "5.6.7.8", "real.example", &[]),
    ];
    let buffers = vec!["  \n , \n".to_string(), "site.test".to_string()];
    let out = build_fronting_groups_from_editor(&groups, &buffers);
    assert_eq!(out.len(), 1, "draft group should be dropped");
    assert_eq!(out[0].name, "real");
    assert_eq!(out[0].domains, vec!["site.test"]);
}

#[test]
fn buffer_separators_trim_and_dedup_blanks() {
    let groups = vec![mk_group("g", "1.1.1.1", "sni.test", &[])];
    let buffers = vec!["  a.com , b.com\n\n c.com,  ,\nd.com  ".to_string()];
    let out = build_fronting_groups_from_editor(&groups, &buffers);
    assert_eq!(out.len(), 1);
    assert_eq!(out[0].domains, vec!["a.com", "b.com", "c.com", "d.com"]);
}

#[test]
fn buffer_dedups_domains_preserving_first_seen_order() {
    let groups = vec![mk_group("g", "1.1.1.1", "sni.test", &[])];
    let buffers = vec!["a.com\nb.com\na.com\nc.com\n  B.COM  \nb.com".to_string()];
    let out = build_fronting_groups_from_editor(&groups, &buffers);
    assert_eq!(out.len(), 1);
    assert_eq!(out[0].domains, vec!["a.com", "b.com", "c.com", "B.COM"],);
}

#[test]
fn missing_buffer_falls_back_to_existing_domains() {
    let groups = vec![mk_group(
        "loaded",
        "9.9.9.9",
        "x.test",
        &["alpha.test", "beta.test"],
    )];
    let buffers: Vec<String> = vec![];
    let out = build_fronting_groups_from_editor(&groups, &buffers);
    assert_eq!(out.len(), 1);
    assert_eq!(out[0].domains, vec!["alpha.test", "beta.test"]);
}

#[test]
fn untouched_groups_keep_their_domains() {
    let groups = vec![mk_group("a", "1.1.1.1", "s", &["x.test", "y.test"])];
    let buffers = initial_buffers(&groups);
    assert_eq!(buffers, vec!["x.test\ny.test"]);
    let out = build_fronting_groups_from_editor(&groups, &buffers);
    assert_eq!(out[0].domains, vec!["x.test", "y.test"]);
}

#[test]
fn discovered_groups_get_new_names() {
    let mut groups = vec![mk_group("react.dev", "1.1.1.1", "react.dev", &["a"])];
    let mut buffers = initial_buffers(&groups);
    add_discovered_group(&mut groups, &mut buffers, "react.dev", "2.2.2.2");
    add_discovered_group(&mut groups, &mut buffers, "react.dev", "3.3.3.3");
    assert_eq!(groups[1].name, "react.dev-2");
    assert_eq!(groups[2].name, "react.dev-3");
    assert_eq!(groups[2].sni, "react.dev");
    assert_eq!(buffers.len(), 3);
    remove_group(&mut groups, &mut buffers, 1);
    assert_eq!(groups.len(), 2);
    assert_eq!(groups[1].name, "react.dev-3");
    assert_eq!(buffers.len(), 2);
}

#[test]
fn buffers_are_brought_into_step() {
    let groups = vec![
        mk_group("a", "1.1.1.1", "s", &["x"]),
        mk_group("b", "1.1.1.1", "s", &["y", "z"]),
    ];
    let mut buffers = vec!["edited".to_string()];
    sync_buffers(&groups, &mut buffers);
    assert_eq!(buffers, vec!["edited", "y\nz"]);
    let mut long = vec!["1".to_string(), "2".to_string(), "3".to_string()];
    sync_buffers(&groups, &mut long);
    assert_eq!(long, vec!["1", "2"]);
}

#[test]
fn draft_groups_are_told_apart() {
    assert!(has_domains(" a "));
    assert!(!has_domains(" , \n"));
    assert!(!has_domains(""));
}

#[test]
fn submitted_groups_are_checked() {
    let ok = check_groups(&vec![
        mk_group(" n ", " 1.1.1.1 ", " s ", &[" d ", " "]),
        mk_group(" ", "", "", &[" "]),
    ])
    .expect("a complete and a blank row");
    assert_eq!(ok.len(), 1);
    assert_eq!(ok[0].name, "n");
    assert_eq!(ok[0].domains, vec!["d"]);
    let err = |g: FrontingGroup| check_groups(&vec![g]).unwrap_err();
    assert_eq!(err(mk_group("", "1", "s", &["d"])), "Group #1: name is required");
    assert_eq!(err(mk_group("n", "", "s", &["d"])), "Group 'n': IP is required");
    assert_eq!(err(mk_group("n", "1", "", &["d"])), "Group 'n': SNI is required");
    assert_eq!(
        err(mk_group("n", "1", "s", &[])),
        "Group 'n': at least one domain is required"
    );
}
