use mysticeti_sync::protocol::{
    BenchmarkParameters, Instance, MysticetiBenchmarkType, MysticetiProtocol, RatioParseError,
    Settings,
};
use mysticeti_sync::strings::{join_strings, u64_to_dec};
use mysticeti_sync::types::Committee;

#[test]
fn ratio_parses_and_caps_at_one_hundred() {
    assert_eq!(MysticetiBenchmarkType::from_str("42").unwrap().shared_objects_ratio(), 42);
    assert_eq!(MysticetiBenchmarkType::from_str("0").unwrap().shared_objects_ratio(), 0);
    assert_eq!(MysticetiBenchmarkType::from_str("100").unwrap().shared_objects_ratio(), 100);
    assert_eq!(MysticetiBenchmarkType::from_str("150").unwrap().shared_objects_ratio(), 100);
    assert_eq!(MysticetiBenchmarkType::from_str("65535").unwrap().shared_objects_ratio(), 100);
    assert_eq!(MysticetiBenchmarkType::from_str("+7").unwrap().shared_objects_ratio(), 7);
}

#[test]
fn ratio_parse_errors() {
    assert_eq!(MysticetiBenchmarkType::from_str(""), Err(RatioParseError::Empty));
    assert_eq!(MysticetiBenchmarkType::from_str("+"), Err(RatioParseError::InvalidDigit));
    assert_eq!(MysticetiBenchmarkType::from_str("12x"), Err(RatioParseError::InvalidDigit));
    assert_eq!(MysticetiBenchmarkType::from_str("x12"), Err(RatioParseError::InvalidDigit));
    assert_eq!(MysticetiBenchmarkType::from_str("-5"), Err(RatioParseError::InvalidDigit));
    assert_eq!(MysticetiBenchmarkType::from_str("65536"), Err(RatioParseError::PosOverflow));
    assert_eq!(MysticetiBenchmarkType::from_str("70000"), Err(RatioParseError::PosOverflow));
    assert_eq!(
        MysticetiBenchmarkType::from_str("99999999999999999999"),
        Err(RatioParseError::PosOverflow)
    );
    // The scan meets the overflow before the stray digit.
    assert_eq!(MysticetiBenchmarkType::from_str("99999x"), Err(RatioParseError::PosOverflow));
    // ... but a stray character within a small number comes first.
    assert_eq!(MysticetiBenchmarkType::from_str("65x"), Err(RatioParseError::InvalidDigit));
}

#[test]
fn default_benchmark_is_owned_objects_only() {
    let t: MysticetiBenchmarkType = Default::default();
    assert_eq!(t.shared_objects_ratio(), 0);
}

fn test_protocol() -> MysticetiProtocol {
    MysticetiProtocol::new(&Settings { working_dir: String::from("/tmp/mysticeti") })
}

#[test]
fn genesis_command_lists_all_ips() {
    let protocol = test_protocol();
    let instances = vec![
        Instance { main_ip: String::from("10.0.0.1") },
        Instance { main_ip: String::from("10.0.0.2") },
    ];
    let cmd = protocol.genesis_command(&instances);
    assert_eq!(
        cmd,
        "source $HOME/.cargo/env && cargo run --release --bin mysticeti -- \
         benchmark-genesis --ips 10.0.0.1 10.0.0.2 --working_directory /tmp/mysticeti"
    );
}

#[test]
fn node_command_numbers_authorities_in_order() {
    let protocol = test_protocol();
    let instances = vec![
        Instance { main_ip: String::from("10.0.0.1") },
        Instance { main_ip: String::from("10.0.0.2") },
    ];
    let parameters = BenchmarkParameters { benchmark_type: Default::default() };
    let commands = protocol.node_command(&instances, &parameters);
    assert_eq!(commands.len(), 2);
    assert_eq!(commands[0].0.main_ip, "10.0.0.1");
    assert_eq!(commands[1].0.main_ip, "10.0.0.2");
    assert_eq!(
        commands[1].1,
        "source $HOME/.cargo/env && cargo run --release --bin mysticeti -- \
         --authority 1 --committee-path /tmp/mysticeti/committee.yaml \
         --parameters-path /tmp/mysticeti/parameters.yaml \
         --private-config-path /tmp/mysticeti/private-config-1.yaml"
    );
}

#[test]
fn client_command_and_dependencies_are_empty() {
    let protocol = test_protocol();
    let parameters = BenchmarkParameters { benchmark_type: Default::default() };
    let no_instances: Vec<Instance> = Vec::new();
    assert!(protocol.client_command(&no_instances, &parameters).is_empty());
    assert!(protocol.protocol_dependencies().is_empty());
    assert!(protocol.db_directories().is_empty());
}

#[test]
fn committee_quorum_is_two_thirds_plus_one() {
    let committee = Committee::new(4);
    assert_eq!(committee.len(), 4);
    assert_eq!(committee.quorum_threshold(), 3);
    assert_eq!(Committee::new(1).quorum_threshold(), 1);
    assert_eq!(Committee::new(10).quorum_threshold(), 7);
}

#[test]
fn decimal_rendering_and_joining() {
    assert_eq!(u64_to_dec(0), "0");
    assert_eq!(u64_to_dec(7), "7");
    assert_eq!(u64_to_dec(12345), "12345");
    assert_eq!(u64_to_dec(u64::MAX), "18446744073709551615");
    let parts = vec![String::from("a"), String::from("b"), String::from("c")];
    assert_eq!(join_strings(&parts, " && "), "a && b && c");
    assert_eq!(join_strings(&Vec::new(), ", "), "");
}
