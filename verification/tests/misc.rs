use rudderc::Action;
use rudderc::cfstrings::{
    eq_ignore_ascii_case,
    escape,
    i64_to_string,
    join,
    paren,
    quoted,
    str_eq,
    u64_to_string,
};
use rudderc::config::{
    default_catchup_frequency,
    default_catchup_limit,
    default_cleanup_frequency,
    default_cleanup_retention,
    CatchupConfig,
    CleanupConfig,
    DatabaseConfig,
    InventoryConfig,
    InventoryOutputSelect,
    OutputSelect,
    ReportingOutputSelect,
    Secret,
};
use rudderc::error::Error;
use rudderc::logger::{json_log_record, json_opener, json_result_record, panic_message, result_line};

#[test]
fn actions_have_labels() {
    assert_eq!(Action::Compile.label(), "compile");
    assert_eq!(Action::Migrate.description(), "Migration");
    assert_eq!(Action::ReadTechnique.label(), "read technique");
    assert_eq!(Action::GenerateTechnique.description(), "Technique generation");
}

#[test]
fn defaults_are_documented_values() {
    assert_eq!(default_catchup_frequency(), 10);
    assert_eq!(default_catchup_limit(), 50);
    assert_eq!(default_cleanup_frequency(), 3600);
    assert_eq!(default_cleanup_retention(), 604800);
}

#[test]
fn outputs_know_when_they_are_disabled() {
    assert!(ReportingOutputSelect::Database.is_enabled());
    assert!(ReportingOutputSelect::Upstream.is_enabled());
    assert!(!ReportingOutputSelect::Disabled.is_enabled());
    assert!(InventoryOutputSelect::Upstream.is_enabled());
    assert!(!InventoryOutputSelect::Disabled.is_enabled());
}

#[test]
fn configuration_values_are_plain_data() {
    let inv = InventoryConfig {
        directory: "target/tmp/inventories/".to_string(),
        output: InventoryOutputSelect::Upstream,
        catchup: CatchupConfig {
            frequency: default_catchup_frequency(),
            limit: default_catchup_limit(),
        },
        cleanup: CleanupConfig {
            frequency: 10,
            retention: 10,
        },
    };
    assert_eq!(inv.catchup.frequency, 10);
    assert_eq!(inv.catchup.limit, 50);
    let db = DatabaseConfig {
        url: "postgres://reports@127.0.0.1/base".to_string(),
        password: Secret::new("PASSWORD".to_string()),
        max_pool_size: 5,
    };
    assert_eq!(db.password, Secret::new("PASSWORD".to_string()));
}

#[test]
fn numbers_render_in_decimal() {
    assert_eq!(u64_to_string(0), "0");
    assert_eq!(u64_to_string(18446744073709551615), "18446744073709551615");
    assert_eq!(i64_to_string(-9223372036854775808), "-9223372036854775808");
    assert_eq!(i64_to_string(42), "42");
}

#[test]
fn text_helpers_behave() {
    assert!(str_eq("abc", "abc"));
    assert!(!str_eq("abc", "abd"));
    assert!(eq_ignore_ascii_case("KePt", "kept"));
    assert!(!eq_ignore_ascii_case("kept", "keep"));
    assert_eq!(paren("x"), "(x)");
    assert_eq!(quoted("x"), "\"x\"");
    assert_eq!(
        join(&vec!["a".to_string(), "b".to_string(), "c".to_string()], ", "),
        "a, b, c"
    );
    assert_eq!(join(&vec![], "|"), "");
}

#[test]
fn escaping_is_reversible_on_mixed_input() {
    assert_eq!(escape("a\\\\b"), "a\\\\\\\\b");
    assert_eq!(escape("say \"hi\" for $5"), "say \\\"hi\\\" for ${const.dollar}5");
}

#[test]
fn error_messages_are_one_line() {
    assert_eq!(
        Error::User("No file to create".to_string()).message(),
        "error: No file to create"
    );
    assert_eq!(
        Error::MissingMetadata {
            field: "parameters".to_string()
        }
        .message(),
        "missing metadata field: parameters"
    );
    assert_eq!(
        Error::WrongMetadataShape {
            field: "component".to_string()
        }
        .message(),
        "wrong shape for metadata field: component"
    );
    assert_eq!(
        Error::TechniqueResourceCount { count: 2 }.message(),
        "expected exactly one technique resource definition"
    );
    assert_eq!(
        Error::InvalidVersion("abc".to_string()).message(),
        "invalid version: abc"
    );
    assert_eq!(
        Error::Unimplemented("range comparison in enum expression".to_string()).message(),
        "unimplemented: range comparison in enum expression"
    );
    assert_eq!(
        Error::Internal("class prefix read before allocation".to_string()).message(),
        "internal invariant broken: class prefix read before allocation"
    );
}

#[test]
fn diagnostic_lines_are_exact() {
    assert_eq!(
        result_line(true, "in.rl", "out.cf"),
        "Everything worked as expected, \"out.cf\" generated from \"in.rl\""
    );
    assert_eq!(
        result_line(false, "in.rl", "out.cf"),
        "An error occured, \"out.cf\" file has not been created from \"in.rl\""
    );
    assert!(json_result_record(true, "a", "b", "/wd").contains("\"status\": \"SUCCESS\""));
    assert!(json_result_record(false, "a", "b", "/wd").contains("\"status\": \"FAILURE\""));
    assert_eq!(json_opener("123"), "{\n  \"time\": \"123\",\n  \"logs\": [");
    assert!(json_log_record("warn", "watch out").contains("\"message\": \"watch out\""));
    assert_eq!(
        panic_message(" in file 'x' at line 3", "boom"),
        "The following unrecoverable error occured in file 'x' at line 3: 'boom'"
    );
}
