use doris_resource_topn::address::{extract_addresses, find_address_column, find_address_in_row};
use doris_resource_topn::ip::{is_address, is_ipv4, is_ipv6};
use doris_resource_topn::record::ReportError;

fn table(rows: &[&[&str]]) -> Vec<Vec<String>> {
    rows.iter().map(|row| row.iter().map(|cell| cell.to_string()).collect()).collect()
}

#[test]
fn coordinator_row_yields_its_address() {
    let rows = table(&[&["1", "10.0.0.1", "BE", "ALIVE"]]);
    assert_eq!(extract_addresses(&rows), Ok(vec!["10.0.0.1".to_string()]));
}

#[test]
fn one_address_per_row_from_one_column() {
    let rows = table(&[
        &["10001", "10.0.0.1", "9050", "true"],
        &["10002", "10.0.0.2", "9050", "true"],
        &["10003", "10.0.0.3", "9050", "false"],
    ]);
    assert_eq!(find_address_column(&rows), Some(1));
    assert_eq!(
        extract_addresses(&rows),
        Ok(vec!["10.0.0.1".to_string(), "10.0.0.2".to_string(), "10.0.0.3".to_string()])
    );
}

#[test]
fn column_is_the_first_match_of_the_whole_table() {
    let rows = table(&[&["a", "b", "c"], &["x", "fe80::1", "10.0.0.9"], &["10.0.0.3", "y", "z"]]);
    assert_eq!(find_address_column(&rows), Some(1));
    assert_eq!(
        extract_addresses(&rows),
        Ok(vec!["b".to_string(), "fe80::1".to_string(), "y".to_string()])
    );
}

#[test]
fn first_address_of_a_row_wins() {
    let row: Vec<String> = vec!["n".into(), "::1".into(), "127.0.0.1".into()];
    assert_eq!(find_address_in_row(&row), Some(1));
    let none: Vec<String> = vec!["n".into(), "host.example".into()];
    assert_eq!(find_address_in_row(&none), None);
    assert_eq!(find_address_in_row(&Vec::new()), None);
}

#[test]
fn table_without_address_is_malformed() {
    let rows = table(&[&["1", "backend-a", "BE"], &["2", "backend-b", "BE"]]);
    assert_eq!(find_address_column(&rows), None);
    assert_eq!(extract_addresses(&rows), Err(ReportError::MalformedRow));
}

#[test]
fn row_that_does_not_reach_the_column_is_malformed() {
    let rows = table(&[&["1", "x", "10.0.0.1"], &["2", "y"]]);
    assert_eq!(extract_addresses(&rows), Err(ReportError::MalformedRow));
    let before = table(&[&["2"], &["1", "10.0.0.1"]]);
    assert_eq!(extract_addresses(&before), Err(ReportError::MalformedRow));
    let empty_row = table(&[&["1", "10.0.0.1"], &[]]);
    assert_eq!(extract_addresses(&empty_row), Err(ReportError::MalformedRow));
}

#[test]
fn table_without_rows_has_no_backend() {
    let rows: Vec<Vec<String>> = Vec::new();
    assert_eq!(extract_addresses(&rows), Ok(Vec::new()));
    assert_eq!(find_address_column(&rows), None);
}

#[test]
fn ipv4_syntax() {
    for text in ["0.0.0.0", "10.0.0.1", "255.255.255.255", "192.168.1.100", "1.2.3.4"] {
        assert!(is_ipv4(text), "{}", text);
        assert!(is_address(text), "{}", text);
        assert!(!is_ipv6(text), "{}", text);
    }
    for text in [
        "", ".", "1", "1.2.3", "1.2.3.4.5", "256.0.0.1", "1.2.3.256", "01.2.3.4", "1.2.3.04",
        "1..3.4", ".1.2.3", "1.2.3.", "1.2.3.4 ", " 1.2.3.4", "1.2.3.a", "+1.2.3.4", "1.2.3.-4",
        "1000.1.1.1", "1.2.3.4/24", "１.2.3.4", "0x1.2.3.4", "00.0.0.0",
    ] {
        assert!(!is_ipv4(text), "{}", text);
        assert!(!is_address(text), "{}", text);
    }
}

#[test]
fn ipv6_syntax() {
    for text in [
        "::", "::1", "1::", "fe80::1", "2001:db8::ff00:42:8329", "1:2:3:4:5:6:7:8",
        "1:2:3:4:5:6:7::", "::2:3:4:5:6:7:8", "1::3:4:5:6:7:8", "FFFF:ffff:0:0:0:0:0:1",
        "::ffff:10.0.0.1", "::10.0.0.1", "1:2:3:4:5:6:10.0.0.1", "64:ff9b::192.0.2.33",
        "1:2:3:4:5::10.0.0.1", "0000:0000:0000:0000:0000:0000:0000:0000", "a:B:c:D::",
    ] {
        assert!(is_ipv6(text), "{}", text);
        assert!(is_address(text), "{}", text);
        assert!(!is_ipv4(text), "{}", text);
    }
    for text in [
        "", ":", ":::", "1", "1:2", "1:2:3:4:5:6:7", "1:2:3:4:5:6:7:8:9", "1::2::3", "::1::",
        "12345::", "::12345", "g::", "1:::2", ":1::", "::1:", "1:2:3:4:5:6:7:8::", "::1:2:3:4:5:6:7:8",
        "1:2:3:4:5:6:7::8", "10.0.0.1::", "1:10.0.0.1::", "1:2:3:4:5:6:7:10.0.0.1",
        "1:2:3:4:5:10.0.0.1", "1:2:3:4:5:6::10.0.0.1", "::10.0.0.1:1", "::10.0.0", "::10.0.0.256",
        "::01.0.0.1", "fe80::1%eth0", "[::1]", "::1 ", " ::1", "1:2:3:4:5:6:7:8 ", "::ffff:10.0.0.1.",
    ] {
        assert!(!is_ipv6(text), "{}", text);
        assert!(!is_address(text), "{}", text);
    }
}
