use fdllm::expand::expand_tilde;

#[test]
fn leading_tilde_is_replaced() {
    let home = String::from("/home/user");
    assert_eq!(expand_tilde("~/docs/a.txt", Some(&home)), "/home/user/docs/a.txt");
}

#[test]
fn only_the_first_tilde_is_replaced() {
    let home = String::from("/h");
    assert_eq!(expand_tilde("~/a b/~x", Some(&home)), "/h/a b/~x");
}

#[test]
fn path_without_tilde_is_unchanged() {
    let home = String::from("/home/user");
    assert_eq!(expand_tilde("/etc/config.toml", Some(&home)), "/etc/config.toml");
}

#[test]
fn no_home_leaves_path_unchanged() {
    assert_eq!(expand_tilde("~/docs", None), "~/docs");
}

#[test]
fn inner_tilde_is_replaced_once() {
    let home = String::from("/home/u");
    assert_eq!(expand_tilde("/data/~/x", Some(&home)), "/data//home/u/x");
}

#[test]
fn empty_path_stays_empty() {
    let home = String::from("/home/u");
    assert_eq!(expand_tilde("", Some(&home)), "");
}
