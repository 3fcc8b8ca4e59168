use mini_ls::Config;

fn to_string_vec(str_slice: Vec<&str>) -> Vec<String> {
    str_slice
        .into_iter()
        .map(|elem| elem.to_string())
        .collect::<Vec<String>>()
}

#[test]
fn no_arguments() {
    let args = [String::from("mini-ls")];
    let config = Config::build(args.to_vec());
    assert_eq!(config, Ok(Config::new()));
}

#[test]
fn parse_l() {
    let args = to_string_vec(vec!["mini-ls", "-l"]);
    let config = Config::build(args);
    let mut expected = Config::new();
    expected.set_flag('l');
    assert_eq!(config, Ok(expected));
}

#[test]
fn parse_la() {
    let args = to_string_vec(vec!["mini-ls", "-la"]);
    let config = Config::build(args);
    let mut expected = Config::new();
    expected.set_flag('l');
    expected.set_flag('a');
    assert_eq!(config, Ok(expected));
}

#[test]
fn parse_a_l() {
    let args = to_string_vec(vec!["mini-ls", "-a", "-l"]);
    let config = Config::build(args);
    let mut expected = Config::new();
    expected.set_flag('l');
    expected.set_flag('a');
    assert_eq!(config, Ok(expected));
}

#[test]
fn parse_al() {
    let args = to_string_vec(vec!["mini-ls", "-al"]);
    let config = Config::build(args);
    let mut expected = Config::new();
    expected.set_flag('l');
    expected.set_flag('a');
    assert_eq!(config, Ok(expected));
}

#[test]
fn parse_path_al() {
    let args = to_string_vec(vec!["mini-ls", "projects/", "-al"]);
    let config = Config::build(args);
    let mut expected = Config::new();
    expected.set_path(String::from("projects/"));
    expected.set_flag('l');
    expected.set_flag('a');
    assert_eq!(config, Ok(expected));
}

#[test]
fn parse_a_path_l() {
    let args = to_string_vec(vec!["mini-ls", "-a", "projects/", "-l"]);
    let config = Config::build(args);
    let mut expected = Config::new();
    expected.set_path(String::from("projects/"));
    expected.set_flag('l');
    expected.set_flag('a');
    assert_eq!(config, Ok(expected));
}

#[test]
fn parse_unrecognized_flags_ignored() {
    let args = to_string_vec(vec!["mini-ls", "-lxyz"]);
    let config = Config::build(args);
    let mut expected = Config::new();
    expected.set_flag('l');
    assert_eq!(config, Ok(expected));
}

#[test]
fn parse_last_path_wins() {
    let args = to_string_vec(vec!["mini-ls", "first/", "-l", "second/"]);
    let config = Config::build(args);
    let mut expected = Config::new();
    expected.set_flag('l');
    expected.set_path(String::from("second/"));
    assert_eq!(config, Ok(expected));
}

#[test]
fn parse_all_flags() {
    let args = to_string_vec(vec!["mini-ls", "-laFhSRrtd"]);
    let config = Config::build(args).unwrap();
    assert!(config.l && config.a && config.F && config.h);
    assert!(config.S && config.R && config.r && config.t && config.d);
}
