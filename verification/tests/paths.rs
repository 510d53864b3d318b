use csv2qif::path::derive_output_path;

#[test]
fn extension_is_replaced_not_appended() {
    assert_eq!(derive_output_path("/a/b/report.CSV"), "/a/b/report.qif");
    assert_eq!(derive_output_path("statement.csv"), "statement.qif");
}

#[test]
fn missing_extension_is_appended() {
    assert_eq!(derive_output_path("/a/b/noext"), "/a/b/noext.qif");
    assert_eq!(derive_output_path("noext"), "noext.qif");
}

#[test]
fn only_the_final_component_counts() {
    assert_eq!(derive_output_path("/a/b.c/d"), "/a/b.c/d.qif");
    assert_eq!(derive_output_path("/a/b.c/d.txt"), "/a/b.c/d.qif");
}

#[test]
fn leading_dot_name_has_no_extension() {
    assert_eq!(derive_output_path(".bashrc"), ".bashrc.qif");
    assert_eq!(derive_output_path("/home/u/.bashrc"), "/home/u/.bashrc.qif");
}

#[test]
fn last_dot_wins() {
    assert_eq!(derive_output_path("dir/archive.tar.gz"), "dir/archive.tar.qif");
}

#[test]
fn empty_path_gets_extension() {
    assert_eq!(derive_output_path(""), ".qif");
}
