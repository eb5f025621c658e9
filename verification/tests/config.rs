use eths::cfg::{Config, ConfigError, Node, DEFAULT_FILENAME, DEFAULT_TIMEOUT};

#[test]
fn test_config_from_str() {
    let csv = "1,2,3\n4,5,6";
    let config = Config::from_str(csv).unwrap();
    assert_eq!(config.nodes.len(), 2);
    let n = &config.nodes[0];
    assert_eq!(n.id, "1");
    assert_eq!(n.ip, "2");
    assert_eq!(n.port, 3);
}

#[test]
fn from_str_keeps_every_record_in_order() {
    let config = Config::from_str("aa,10.0.0.1,30303\nbb,10.0.0.2,30304\ncc,example.org,1\n").unwrap();
    assert_eq!(config.nodes.len(), 3);
    assert_eq!(
        config.nodes[1],
        Node { id: "bb".to_string(), ip: "10.0.0.2".to_string(), port: 30304 }
    );
    assert_eq!(
        config.nodes[2],
        Node { id: "cc".to_string(), ip: "example.org".to_string(), port: 1 }
    );
    assert_eq!(config.timeout, 2500);
}

#[test]
fn from_str_takes_the_first_line_as_a_record() {
    let config = Config::from_str("id,ip,7\n").unwrap();
    assert_eq!(config.nodes.len(), 1);
    assert_eq!(config.nodes[0].id, "id");
}

#[test]
fn empty_source_is_invalid() {
    assert!(matches!(Config::from_str(""), Err(ConfigError::InvalidNodeFile)));
}

#[test]
fn port_that_is_no_number_is_a_csv_error() {
    assert!(matches!(Config::from_str("1,2,port"), Err(ConfigError::CsvError(_))));
}

#[test]
fn port_out_of_range_is_a_csv_error() {
    assert!(matches!(Config::from_str("1,2,65536"), Err(ConfigError::CsvError(_))));
    assert_eq!(Config::from_str("1,2,65535").unwrap().nodes[0].port, 65535);
}

#[test]
fn short_record_is_a_csv_error() {
    assert!(matches!(Config::from_str("1,2"), Err(ConfigError::CsvError(_))));
}

#[test]
fn uneven_records_are_a_csv_error() {
    assert!(matches!(Config::from_str("1,2,3\n4,5,6,7\n"), Err(ConfigError::CsvError(_))));
}

#[test]
fn from_rows_builds_one_node_per_row() {
    let rows = vec![
        ("a".to_string(), "h1".to_string(), 1u16),
        ("b".to_string(), "h2".to_string(), 2u16),
    ];
    let config = Config::from_rows(rows).unwrap();
    assert_eq!(
        config.nodes,
        vec![
            Node { id: "a".to_string(), ip: "h1".to_string(), port: 1 },
            Node { id: "b".to_string(), ip: "h2".to_string(), port: 2 },
        ]
    );
    assert_eq!(config.timeout, DEFAULT_TIMEOUT);
}

#[test]
fn from_rows_refuses_no_rows() {
    assert!(matches!(Config::from_rows(Vec::new()), Err(ConfigError::InvalidNodeFile)));
}

#[test]
fn with_timeout_changes_only_the_timeout() {
    let config = Config::from_str("1,2,3").unwrap();
    let nodes = config.nodes.clone();
    let config = config.with_timeout(10);
    assert_eq!(config.timeout, 10);
    assert_eq!(config.nodes, nodes);
}

#[test]
fn defaults() {
    assert_eq!(DEFAULT_FILENAME, "nodes.csv");
    assert_eq!(DEFAULT_TIMEOUT, 2500);
}

#[test]
fn config_clone_is_equal() {
    let config = Config::from_str("1,2,3\n4,5,6").unwrap().with_timeout(77);
    let copy = config.clone();
    assert_eq!(copy.nodes, config.nodes);
    assert_eq!(copy.timeout, 77);
}
