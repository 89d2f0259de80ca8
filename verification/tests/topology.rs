use nod::topology::{ExportFormat, FleetNode, FleetTopology, GraphFormat};

fn node(name: &str, target: &str, tags: &[&str], role: Option<&str>, system: Option<&str>) -> FleetNode {
    FleetNode {
        name: name.to_string(),
        target_host: target.to_string(),
        tags: tags.iter().map(|t| t.to_string()).collect(),
        role: role.map(|r| r.to_string()),
        system: system.map(|s| s.to_string()),
        is_local: false,
    }
}

#[test]
fn topology_renders_valid_mermaid_and_dot() {
    let topo = FleetTopology {
        nodes: vec![
            FleetNode {
                name: "yorke".to_string(),
                target_host: "10.0.0.1".to_string(),
                tags: vec!["core".to_string()],
                role: Some("server".to_string()),
                system: Some("x86_64-linux".to_string()),
                is_local: false,
            },
            FleetNode {
                name: "selway".to_string(),
                target_host: "10.0.0.2".to_string(),
                tags: vec!["edge".to_string()],
                role: Some("gateway".to_string()),
                system: Some("aarch64-linux".to_string()),
                is_local: false,
            },
        ],
        flake_uri: ".".to_string(),
    };

    let mermaid = topo.to_mermaid();
    assert!(mermaid.contains("yorke"));
    assert!(mermaid.contains("selway"));
    assert!(mermaid.contains("Role: server"));

    let dot = topo.to_dot();
    assert!(dot.contains("digraph FleetTopology"));
    assert!(dot.contains("\"yorke\""));

    let ansible = topo.to_ansible_inventory();
    assert!(ansible.contains("role_server:"));
    assert!(ansible.contains("ansible_host: \"10.0.0.1\""));

    let groups = topo.prometheus_groups();
    assert_eq!(groups[0].targets, vec!["10.0.0.1:9100".to_string()]);
    assert!(groups[0].labels.contains(&("instance".to_string(), "yorke".to_string())));
}

#[test]
fn mermaid_groups_roles_in_ascending_order() {
    let topo = FleetTopology {
        nodes: vec![
            node("b", "h2", &[], Some("web"), None),
            node("a", "h1", &[], Some("db"), Some("x86_64-linux")),
            node("c", "h3", &[], Some("web"), None),
            node("d", "h4", &[], None, None),
        ],
        flake_uri: ".".to_string(),
    };
    let expected = [
        "graph TD\n  subgraph Fleet[\"NixOS Fleet\"]\n",
        "    b[\"b\\n<i>role: web | arch: unknown</i>\"]\n",
        "    a[\"a\\n<i>role: db | arch: x86_64-linux</i>\"]\n",
        "    c[\"c\\n<i>role: web | arch: unknown</i>\"]\n",
        "    d[\"d\\n<i>role: node | arch: unknown</i>\"]\n",
        "  end\n",
        "  subgraph Role_db[\"Role: db\"]\n    a\n  end\n",
        "  subgraph Role_web[\"Role: web\"]\n    b\n    c\n  end\n",
    ]
    .concat();
    assert_eq!(topo.to_mermaid(), expected);
}

#[test]
fn dot_lists_every_node_with_its_target_and_role() {
    let topo = FleetTopology { nodes: vec![node("a", "10.0.0.1", &[], None, None)], flake_uri: ".".to_string() };
    let dot = topo.to_dot();
    assert_eq!(
        dot,
        "digraph FleetTopology {\n  rankdir=LR;\n  node [shape=box, style=\"rounded,filled\", fillcolor=\"#f0f4f8\", fontname=\"Helvetica\"];\n  \"a\" [label=\"a\\n(10.0.0.1)\\nrole: -\"];\n}\n"
    );
}

#[test]
fn ansible_inventory_sorts_hosts_and_groups() {
    let topo = FleetTopology {
        nodes: vec![
            node("zeta", "10.0.0.9", &["prod", "edge"], Some("web"), None),
            node("alpha", "10.0.0.1", &["prod"], None, Some("aarch64-linux")),
        ],
        flake_uri: ".".to_string(),
    };
    let expected = [
        "---\nall:\n  hosts:\n",
        "    alpha:\n      ansible_host: \"10.0.0.1\"\n      nix_system: \"aarch64-linux\"\n",
        "    zeta:\n      ansible_host: \"10.0.0.9\"\n",
        "  children:\n",
        "    role_web:\n      hosts:\n        zeta:\n",
        "    tag_edge:\n      hosts:\n        zeta:\n",
        "    tag_prod:\n      hosts:\n        alpha:\n        zeta:\n",
    ]
    .concat();
    assert_eq!(topo.to_ansible_inventory(), expected);
}

#[test]
fn ansible_inventory_without_roles_or_tags_has_no_children() {
    let topo = FleetTopology { nodes: vec![node("a", "h", &[], None, None)], flake_uri: ".".to_string() };
    assert_eq!(topo.to_ansible_inventory(), "---\nall:\n  hosts:\n    a:\n      ansible_host: \"h\"\n");
}

#[test]
fn duplicate_host_names_keep_the_last_definition() {
    let topo = FleetTopology {
        nodes: vec![node("a", "old", &[], None, None), node("a", "new", &[], None, None)],
        flake_uri: ".".to_string(),
    };
    assert_eq!(topo.to_ansible_inventory(), "---\nall:\n  hosts:\n    a:\n      ansible_host: \"new\"\n");
}

#[test]
fn prometheus_labels_are_sorted_and_ports_defaulted() {
    let topo = FleetTopology {
        nodes: vec![
            node("a", "10.0.0.1:9200", &["x", "y"], Some("db"), Some("x86_64-linux")),
            node("b", "10.0.0.2", &[], None, None),
        ],
        flake_uri: ".".to_string(),
    };
    let g = topo.prometheus_groups();
    assert_eq!(g[0].targets, vec!["10.0.0.1:9200".to_string()]);
    let keys: Vec<&str> = g[0].labels.iter().map(|(k, _)| k.as_str()).collect();
    assert_eq!(keys, ["arch", "instance", "role", "tags"]);
    assert_eq!(g[0].labels[3].1, "x,y");
    assert_eq!(g[1].targets, vec!["10.0.0.2:9100".to_string()]);
    assert_eq!(g[1].labels, vec![("instance".to_string(), "b".to_string())]);
}

#[test]
fn formats_parse_with_aliases_and_reject_unknown_names() {
    assert_eq!("DOT".parse::<GraphFormat>(), Ok(GraphFormat::Dot));
    assert_eq!("mermaid".parse::<GraphFormat>(), Ok(GraphFormat::Mermaid));
    assert_eq!(
        "svg".parse::<GraphFormat>(),
        Err("unknown graph format: 'svg' (expected: dot, mermaid, json)".to_string())
    );
    assert_eq!("yaml".parse::<ExportFormat>(), Ok(ExportFormat::Ansible));
    assert_eq!("Prom".parse::<ExportFormat>(), Ok(ExportFormat::Prometheus));
    assert_eq!("json".parse::<ExportFormat>(), Ok(ExportFormat::Json));
    assert_eq!(
        "CSV".parse::<ExportFormat>(),
        Err("unknown export format: 'csv' (expected: ansible, prometheus, json)".to_string())
    );
}
