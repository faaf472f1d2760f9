use clap_layers::env::Env;
use clap_layers::error::SourceLayer;

#[test]
fn a_later_pair_replaces_an_earlier_one() {
    let env = Env::from_pairs(vec![
        ("A".to_string(), "1".to_string()),
        ("B".to_string(), "2".to_string()),
        ("A".to_string(), "3".to_string()),
    ]);
    assert_eq!(env.get("A"), Some("3"));
    assert_eq!(env.get("B"), Some("2"));
    assert_eq!(env.get("C"), None);

    let env = Env::from_iter([("A", "1"), ("A", "2")]);
    assert_eq!(env.get("A"), Some("2"));
}

#[test]
fn environments_are_equal_when_they_set_the_same_variables() {
    let a = Env::from_iter([("A", "1"), ("B", "2")]);
    let b = Env::from_iter([("B", "2"), ("A", "1")]);
    let c = Env::from_iter([("A", "1"), ("B", "3")]);
    let d = Env::from_iter([("A", "1")]);
    let e = Env::from_iter([("A", "0"), ("A", "1")]);
    assert_eq!(a, b);
    assert_ne!(a, c);
    assert_ne!(a, d);
    assert_ne!(d, a);
    assert_eq!(d, e);
    assert_eq!(Env::default(), Env::empty());
    assert_ne!(Env::empty(), d);
}

#[test]
fn line_numbers_render_in_decimal() {
    let layer = |line| SourceLayer::ConfigFile { path: "c.toml".to_string(), line };
    assert_eq!(layer(0).to_string(), "c.toml, line 0");
    assert_eq!(layer(9).to_string(), "c.toml, line 9");
    assert_eq!(layer(10).to_string(), "c.toml, line 10");
    assert_eq!(layer(1234567).to_string(), "c.toml, line 1234567");
}
