use doris_resource_topn::record::ReportError;
use rand::rngs::StdRng;
use rand::SeedableRng;
use doris_resource_topn::request::{basic_authorization, choose_host, coordinator_url, host_list};
use doris_resource_topn::text::decimal;

#[test]
fn address_of_the_coordinator() {
    assert_eq!(
        coordinator_url("fe1.example", 8030),
        "http://fe1.example:8030/api/show_proc/?path=//backends"
    );
    assert_eq!(coordinator_url("10.0.0.7", 0), "http://10.0.0.7:0/api/show_proc/?path=//backends");
    assert_eq!(coordinator_url("", 65535), "http://:65535/api/show_proc/?path=//backends");
}

#[test]
fn decimal_digits() {
    for n in [0u128, 1, 9, 10, 11, 99, 100, 101, 8030, 8040, 9999, 10000, 65535, u128::MAX] {
        assert_eq!(decimal(n), n.to_string());
    }
}

#[test]
fn credentials_are_encoded() {
    assert_eq!(basic_authorization("secret"), Some("Basic cm9vdDpzZWNyZXQ=".to_string()));
    assert_eq!(basic_authorization(""), Some("Basic cm9vdDo=".to_string()));
    assert_eq!(basic_authorization("pässword"), Some("Basic cm9vdDpww6Rzc3dvcmQ=".to_string()));
    assert_eq!(basic_authorization("a:b c"), Some("Basic cm9vdDphOmIgYw==".to_string()));
}

#[test]
fn hosts_of_a_list() {
    assert_eq!(host_list("fe1"), Ok(vec!["fe1".to_string()]));
    assert_eq!(
        host_list("fe1,fe2,10.0.0.3"),
        Ok(vec!["fe1".to_string(), "fe2".to_string(), "10.0.0.3".to_string()])
    );
    assert_eq!(host_list("fe1,,fe2,"), Ok(vec!["fe1".to_string(), "".to_string(), "fe2".to_string(), "".to_string()]));
    assert_eq!(host_list(","), Ok(vec!["".to_string(), "".to_string()]));
    assert_eq!(host_list(" fe1 , fe2"), Ok(vec![" fe1 ".to_string(), " fe2".to_string()]));
    assert_eq!(host_list(""), Err(ReportError::MissingArgument));
}

#[test]
fn a_host_is_chosen_from_the_list() {
    let hosts = vec!["fe1".to_string(), "fe2".to_string(), "fe3".to_string()];
    let mut rng = StdRng::seed_from_u64(7);
    let mut seen = [false; 3];
    for _ in 0..200 {
        let host = choose_host(&hosts, &mut rng).unwrap();
        let at = hosts.iter().position(|known| *known == host).unwrap();
        seen[at] = true;
    }
    assert_eq!(seen, [true, true, true]);
    assert_eq!(choose_host(&vec!["only".to_string()], &mut rng), Ok("only".to_string()));
    assert_eq!(choose_host(&Vec::new(), &mut rng), Err(ReportError::NoHostsSelected));
}

#[test]
fn the_same_seed_chooses_the_same_hosts() {
    let hosts: Vec<String> = (0..50).map(|n| format!("fe{}", n)).collect();
    let mut one = StdRng::seed_from_u64(2024);
    let mut other = StdRng::seed_from_u64(2024);
    for _ in 0..100 {
        assert_eq!(choose_host(&hosts, &mut one), choose_host(&hosts, &mut other));
    }
}
