use opc::naming::{
    icon_path, is_conform, node_path, resolve_paths, split_l_camel_case, widget_file,
    widget_paths, ElementKind,
};
use opc::templates::{node_js, widget_js};

#[test]
fn display_name_splits_camel_case() {
    assert_eq!(split_l_camel_case("sampleWidget"), "Sample Widget");
    assert_eq!(split_l_camel_case("chart"), "Chart");
    assert_eq!(split_l_camel_case("myBigChart"), "My Big Chart");
}

#[test]
fn display_name_edge_cases() {
    assert_eq!(split_l_camel_case(""), "");
    assert_eq!(split_l_camel_case("x"), "X");
    assert_eq!(split_l_camel_case("Foo"), " Foo");
    assert_eq!(split_l_camel_case("a1b"), "A1b");
}

#[test]
fn identifier_rule() {
    assert!(is_conform("fooBar"));
    assert!(is_conform("chart"));
    assert!(!is_conform("Foo"));
    assert!(!is_conform("foo_bar"));
    assert!(!is_conform("foo-bar"));
    assert!(!is_conform(""));
}

#[test]
fn widget_paths_follow_convention() {
    assert_eq!(
        widget_paths("foo"),
        vec!["foo/foo.html", "foo/foo.css", "foo/foo.js", "foo/foo.svg"]
    );
    assert_eq!(widget_file("chart", "css"), "chart/chart.css");
}

#[test]
fn node_and_icon_paths() {
    assert_eq!(node_path("bar"), "bar.js");
    assert_eq!(icon_path(), "icon.svg");
}

#[test]
fn resolve_paths_by_kind() {
    assert_eq!(resolve_paths(ElementKind::Node, "bar"), vec!["bar.js"]);
    assert_eq!(
        resolve_paths(ElementKind::Widget, "w"),
        vec!["w/w.html", "w/w.css", "w/w.js", "w/w.svg"]
    );
}

#[test]
fn templates_name_the_class() {
    let js = widget_js("chart");
    assert!(js.starts_with("export default class chart {"));
    let node = node_js("adder");
    assert!(node.starts_with("export default class adder {"));
}
