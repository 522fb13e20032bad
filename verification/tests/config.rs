use toll_gate::Config;
use toll_gate::from_file;
use toll_gate::to_file;

#[test]
fn loader_yields_the_defaults() {
    let c = from_file();
    assert_eq!(c.ip(), "192.168.64.1");
    assert_eq!(c.port(), 9901);
}

#[test]
fn default_matches_loader() {
    let d = Config::default();
    let c = from_file();
    assert_eq!(d.ip(), c.ip());
    assert_eq!(d.port(), c.port());
}

#[test]
fn new_keeps_its_arguments() {
    let c = Config::new(String::from("10.0.0.7"), 7777);
    assert_eq!(c.ip(), "10.0.0.7");
    assert_eq!(c.port(), 7777);
}

#[test]
fn store_is_a_stub() {
    let c = Config::new(String::from("10.0.0.7"), 7777);
    to_file(&c);
    // Nothing was persisted and the value is untouched.
    assert_eq!(c.ip(), "10.0.0.7");
    assert_eq!(c.port(), 7777);
}
