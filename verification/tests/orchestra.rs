use mcp_run::cli_error::Error;
use mcp_run::network::{int_to_ipv4, ipv4_to_int, is_ipv4_cidr, is_lowercase_alnum,
    pick_available_subnet, resolve_network_settings};
use mcp_run::projects::{list_running_projects, RunningPodItem};
use mcp_run::resolve::{command_names_path, path_candidates, resolve_literal};

#[test]
fn cidr_notation_is_recognized() {
    assert!(is_ipv4_cidr("10.90.1.0/24"));
    assert!(is_ipv4_cidr("0.0.0.0/0"));
    assert!(!is_ipv4_cidr("10.90.1.0"));
    assert!(!is_ipv4_cidr("10.90.1/24"));
    assert!(!is_ipv4_cidr("300.1.1.1/24"));
    assert!(!is_ipv4_cidr("1.2.3.4/33"));
    assert!(!is_ipv4_cidr("1.2.3.4/"));
}

#[test]
fn ipv4_round_trips_through_its_number() {
    assert_eq!(ipv4_to_int("10.90.1.0"), Some(0x0A5A0100));
    assert_eq!(ipv4_to_int("255.255.255.255"), Some(0xFFFFFFFF));
    assert_eq!(ipv4_to_int("1.2.3"), None);
    assert_eq!(ipv4_to_int("1.2.3.4.5"), None);
    assert_eq!(ipv4_to_int("1.2.3.256"), None);
    assert_eq!(int_to_ipv4(0x0A5A0100), "10.90.1.0");
    assert_eq!(int_to_ipv4(0), "0.0.0.0");
    assert_eq!(
        ipv4_to_int(&int_to_ipv4(0xC0A80101)),
        Some(0xC0A80101)
    );
}

#[test]
fn network_settings_derive_addresses_and_names() {
    let settings = resolve_network_settings("demo", " 10.90.1.0/24 ").expect("valid subnet");
    assert_eq!(settings.network, "demo_cladding_net");
    assert_eq!(settings.network_subnet, "10.90.1.0/24");
    assert_eq!(settings.proxy_ip, "10.90.1.2");
    assert_eq!(settings.sandbox_ip, "10.90.1.3");
    assert_eq!(settings.cli_ip, "10.90.1.4");
    assert_eq!(settings.proxy_pod_name, "demo-proxy-pod");
    assert_eq!(settings.sandbox_pod_name, "demo-sandbox-pod");
    assert_eq!(settings.cli_pod_name, "demo-cli-pod");

    // The host bits of the address are masked off before the pods are
    // numbered.
    let settings = resolve_network_settings("demo", "10.90.1.7/24").expect("valid subnet");
    assert_eq!(settings.network_subnet, "10.90.1.0/24");
}

#[test]
fn bad_subnets_are_rejected_with_their_reason() {
    let check = |subnet: &str, want: &str| {
        match resolve_network_settings("demo", subnet) {
            Err(Error::Message(m)) => assert_eq!(m, want),
            _ => panic!("expected a failure for {subnet}"),
        }
    };
    check("10.90.1.0", "invalid subnet format");
    check("/24", "invalid subnet format");
    check("10.90.1.0/", "invalid subnet format");
    check("10.90.1.0/abc", "invalid subnet prefix");
    check("10.90.1.0/33", "invalid subnet prefix");
    check("10.90.1/24", "invalid subnet ip");
    check("10.90.1.0/30", "subnet too small");
}

#[test]
fn subnet_picker_skips_used_slices() {
    let used: Vec<String> = vec![];
    assert_eq!(pick_available_subnet(&used), Ok("10.90.0.0/24".to_string()));
    let used = vec!["10.90.0.0/24".to_string(), "10.90.1.0/24".to_string()];
    assert_eq!(pick_available_subnet(&used), Ok("10.90.2.0/24".to_string()));
}

#[test]
fn lowercase_alnum_names_are_recognized()  {
    assert!(is_lowercase_alnum("myproject9"));
    assert!(!is_lowercase_alnum(""));
    assert!(!is_lowercase_alnum("MyProject"));
    assert!(!is_lowercase_alnum("bad-name"));
}

#[test]
fn exit_codes_propagate_from_failed_commands() {
    let failed = Error::CommandFailed { context: "podman exec", code: 7 };
    assert_eq!(failed.exit_code(), 7);
    let plain = Error::message("missing cladding.json");
    assert_eq!(plain.exit_code(), 1);
    match plain {
        Error::Message(m) => assert_eq!(m, "missing cladding.json"),
        _ => panic!("wrong variant"),
    }
}

fn pod(name: &str, root: &str) -> RunningPodItem {
    RunningPodItem {
        pod_id: format!("{name}-{root}"),
        name: name.to_string(),
        project_root: root.to_string(),
    }
}

#[test]
fn running_projects_are_grouped_counted_and_sorted() {
    let items = vec![
        pod("zeta", "/z"),
        pod("alpha", "/b"),
        pod("zeta", "/z"),
        pod("alpha", "/a"),
        pod("zeta", "/z"),
    ];
    let projects = list_running_projects(&items);
    let summary: Vec<(String, String, usize)> = projects
        .iter()
        .map(|p| (p.name.clone(), p.project_root.clone(), p.pod_count))
        .collect();
    assert_eq!(
        summary,
        vec![
            ("alpha".to_string(), "/a".to_string(), 1),
            ("alpha".to_string(), "/b".to_string(), 1),
            ("zeta".to_string(), "/z".to_string(), 3),
        ]
    );
}

#[test]
fn path_search_keeps_entries_verbatim() {
    // A PATH entry that is a symlink resolves to the link's own path text;
    // nothing is canonicalized.
    let candidates = path_candidates("cargo", "/opt/link:/usr/bin/:");
    assert_eq!(
        candidates,
        vec![
            "/opt/link/cargo".to_string(),
            "/usr/bin/cargo".to_string(),
            "cargo".to_string(),
        ]
    );
}

#[test]
fn literal_commands_resolve_against_the_working_directory() {
    assert!(command_names_path("./tool"));
    assert!(command_names_path("/bin/sh"));
    assert!(!command_names_path("sh"));
    assert_eq!(resolve_literal("/bin/sh", "/work"), "/bin/sh");
    assert_eq!(resolve_literal("./tool", "/work"), "/work/./tool");
}
