use std::str::FromStr;
use rudderc::config;
use rudderc::remote_run::{
    Condition,
    Error,
    NodeInfo,
    NodesList,
    RemoteRun,
    RemoteRunTarget,
    RunParameters,
    parse_bool,
    split_commas,
};

#[test]
fn it_handles_command_injection() {
    assert!(Condition::from_str("cl$$y").is_err());
    assert!(Condition::from_str("cl~#~").is_err());
}

#[test]
fn it_defines_parameters() {
    assert_eq!(
        RunParameters::new(None, None, Some(&"".to_string())).unwrap(),
        RunParameters {
            asynchronous: false,
            keep_output: false,
            conditions: vec![],
        }
    );
    assert_eq!(
        RunParameters::new(
            Some(&"true".to_string()),
            Some(&"true".to_string()),
            Some(&"test".to_string())
        )
        .unwrap(),
        RunParameters {
            asynchronous: true,
            keep_output: true,
            conditions: vec![Condition::from_str("test").unwrap()],
        }
    );
}

#[test]
fn it_handles_too_long_conditions() {
    assert!(Condition::from_str("Qr6U6s161z8umvzZTMSPtsZpe3s2sAjwUeCD5pbzvwtT9jg8AsqaW1hbgJhDvOQ34J6GdUS0bEJLKz4zfWHO70rYdq70jrKip5gYwdbVyB7APyK3RRAGHGS7EZ8bUNEXUlHp1QsYOQeqPyPKCCJUYhAzWsD8b1lC4gOkmzATyabEBhaoAb5TLELtBra5dS1YzG1TxgHEthd8z7Qf7PHeltK1X628rfwPqVY2FHkgBGvNMAFTYUdnyabV0j7PHal4f31nNRCqZPdUv6iIlHHQo0oUQlwZ7ATUNYt2cznLYu5v8RhBL0uqOxMD9xHAnRxYRo57BDQxkunNyb7oTjruainGIqbXoDPjcKCQRrf3IrVvAQ6mwAgIdEzJkxBaZUkAGeNQFZEh5b3zJSryfgML2kc87ohLMmsIh5OvNnrPUipSnkpGruJV2uCRX1EYNH6skC9QY1oji6D3SYNeH0lZFIe8goO0Sa1geORlB5UpDwrGeWKgo6k7xBORpPdiVFjR1fAsO7po2CPrR2OwBv6IP0VcU4pPY3eIXgSWSecRE4UXDR2dyaSqSyo4E2l4KAIwy7LieKechiA3yROPrkk0MBC6JfUeOXrCvFBDpQ29Q0TE1J8LK0Xt8DexBZdTUI2ni3Gs1Clli4cvXwfyvTGWFpnTsgS7S7zOyYaIGVqI8UmmszQM8Y4IZBt5nmUsMcrsNBvp4ZqseHoaR0WHTp93c6l83dw3EuuQyFvbqmwQAeDNOrSW2YYAL6Ab5ru5XoRfxCB0LitHWeocyUCo6ukE7YnS8ZmqBIWjLizUD7OnaCSWajdalXINhHDmUQgBehAbPOOiFSlLEyUQeBfZEmWvV5CJ4NN2gBgpDGJywm9mKxr8KcN1TPtp4rGpVYWgDK4N3RjUcQiH7rkSN2zd3vb1MkvtvQsMSX45CpmVng6UQf2LPeRIBNBEaiiNeQAvhfTm86EWNkOwnhHr8QHd7yzLQ6kd4D7Q05oNkRrDDNn5zhS6rvJCujTVFqp5eMa2jbiUa").is_err());
}

#[test]
fn valid_conditions_are_kept() {
    let c = Condition::from_str("class_1").unwrap();
    assert_eq!(c.data, "class_1");
    assert!(Condition::from_str("_leading_underscore").is_err());
    assert!(Condition::from_str("").is_err());
}

#[test]
fn boolean_options_must_be_exact() {
    assert_eq!(parse_bool("true").unwrap(), true);
    assert_eq!(parse_bool("false").unwrap(), false);
    assert!(matches!(
        parse_bool("yes"),
        Err(Error::ParseBoolean { .. })
    ));
    assert!(RunParameters::new(Some(&"yes".to_string()), None, None).is_err());
}

#[test]
fn conditions_are_split_on_commas() {
    assert_eq!(split_commas("a,b,c"), vec!["a", "b", "c"]);
    assert_eq!(split_commas(""), vec![""]);
    assert_eq!(split_commas("a,,b"), vec!["a", "", "b"]);
    let rp = RunParameters::new(None, None, Some(&"one,two".to_string())).unwrap();
    assert_eq!(rp.conditions.len(), 2);
    assert_eq!(rp.conditions[1].data, "two");
    assert!(RunParameters::new(None, None, Some(&"one,,two".to_string())).is_err());
}

#[test]
fn remote_run_reads_options() {
    let options = vec![
        ("asynchronous".to_string(), "true".to_string()),
        ("classes".to_string(), "abc".to_string()),
    ];
    let rr = RemoteRun::new(RemoteRunTarget::All, &options).unwrap();
    assert_eq!(rr.run_parameters.asynchronous, true);
    assert_eq!(rr.run_parameters.keep_output, false);
    assert_eq!(rr.run_parameters.conditions[0].data, "abc");
    let options2 = vec![
        ("conditions".to_string(), "newer".to_string()),
        ("classes".to_string(), "older".to_string()),
    ];
    let rr2 = RemoteRun::new(RemoteRunTarget::Nodes(vec!["n1".to_string()]), &options2).unwrap();
    assert_eq!(rr2.run_parameters.conditions[0].data, "newer");
}

#[test]
fn command_lines_are_assembled() {
    let rp = RunParameters::new(None, None, Some(&"c1,c2".to_string())).unwrap();
    let cfg = config::RemoteRun {
        command: "/opt/agent".to_string(),
        use_sudo: true,
    };
    let nodes = vec!["n1".to_string(), "n2".to_string()];
    assert_eq!(
        rp.command(&cfg, &nodes),
        vec!["sudo", "/opt/agent", "remote", "run", "-D", "c1,c2", "n1,n2"]
    );
    let cfg2 = config::RemoteRun {
        command: "/opt/agent".to_string(),
        use_sudo: false,
    };
    let rp2 = RunParameters::new(None, None, None).unwrap();
    assert_eq!(rp2.command(&cfg2, &nodes), vec!["/opt/agent", "remote", "run", "n1,n2"]);
}

fn sample_nodes() -> NodesList {
    NodesList {
        my_id: "root".to_string(),
        nodes: vec![
            NodeInfo {
                id: "relay1".to_string(),
                hostname: "relay1.example".to_string(),
                policy_server: "root".to_string(),
            },
            NodeInfo {
                id: "leaf1".to_string(),
                hostname: "leaf1.example".to_string(),
                policy_server: "relay1".to_string(),
            },
            NodeInfo {
                id: "leaf2".to_string(),
                hostname: "leaf2.example".to_string(),
                policy_server: "root".to_string(),
            },
        ],
    }
}

#[test]
fn neighbors_are_direct_children() {
    let nl = sample_nodes();
    assert_eq!(
        RemoteRunTarget::All.neighbors(&nl),
        vec!["relay1.example", "leaf2.example"]
    );
    assert_eq!(
        RemoteRunTarget::Nodes(vec!["leaf2".to_string()]).neighbors(&nl),
        vec!["leaf2.example"]
    );
    assert_eq!(
        RemoteRunTarget::Nodes(vec!["leaf1".to_string()]).neighbors(&nl),
        Vec::<String>::new()
    );
}

#[test]
fn next_hops_group_by_sub_relay() {
    let nl = sample_nodes();
    let hops = RemoteRunTarget::All.next_hops(&nl);
    assert_eq!(hops.len(), 1);
    assert_eq!(hops[0].0, "relay1.example");
    assert_eq!(hops[0].1, RemoteRunTarget::All);
    let hops2 = RemoteRunTarget::Nodes(vec!["leaf1".to_string()]).next_hops(&nl);
    assert_eq!(hops2.len(), 1);
    assert_eq!(
        hops2[0].1,
        RemoteRunTarget::Nodes(vec!["leaf1".to_string()])
    );
    let hops3 = RemoteRunTarget::Nodes(vec!["leaf2".to_string()]).next_hops(&nl);
    assert_eq!(hops3.len(), 0);
}
