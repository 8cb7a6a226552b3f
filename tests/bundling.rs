use opc::bundle::{extract_from, Extraction};
use opc::files::{FileEntry, FileTree};
use opc::lifecycle::add_widget;
use opc::models::{JsonValue, Node, Opb, OpcError, PluginJson, Prototype, Widget};
use opc::templates::widget_js;

fn manifest(widgets: &[&str], nodes: &[&str]) -> PluginJson {
    PluginJson {
        plugin_name: "P".to_string(),
        plugin_id: "p".to_string(),
        plugin_description: "desc".to_string(),
        plugin_version: "1.0.0".to_string(),
        plugin_author: "me".to_string(),
        plugin_category_label: "cat".to_string(),
        widgets: widgets
            .iter()
            .map(|w| Widget {
                widget_name: w.to_uppercase(),
                widget_id: w.to_string(),
                prototype: Prototype::default(),
            })
            .collect(),
        nodes: nodes
            .iter()
            .map(|n| Node { node_name: n.to_uppercase(), node_id: n.to_string() })
            .collect(),
    }
}

fn project_files(widgets: &[&str], nodes: &[&str]) -> FileTree {
    let mut t = FileTree::new();
    t.insert("icon.svg".to_string(), "<svg/>".to_string());
    for w in widgets {
        for ext in ["html", "css", "js", "svg"] {
            t.insert(format!("{w}/{w}.{ext}"), format!("{ext} of {w}"));
        }
    }
    for n in nodes {
        t.insert(format!("{n}.js"), format!("script of {n}"));
    }
    t
}

#[test]
fn file_tree_later_insert_wins() {
    let mut t = FileTree::new();
    t.insert("a".to_string(), "1".to_string());
    t.insert("b".to_string(), "2".to_string());
    t.insert("a".to_string(), "3".to_string());
    assert_eq!(t.get(&"a".to_string()), Some(&"3".to_string()));
    assert_eq!(t.get(&"b".to_string()), Some(&"2".to_string()));
    assert_eq!(t.get(&"c".to_string()), None);
}

#[test]
fn bundle_embeds_every_file_in_order() {
    let files = project_files(&["foo", "bar"], &["adder"]);
    let b = Opb::bundle(manifest(&["foo", "bar"], &["adder"]), &files).unwrap();
    assert_eq!(b.plugin_id, "p");
    assert_eq!(b.widgets.len(), 2);
    assert_eq!(b.widgets[0].widget_id, "foo");
    assert_eq!(b.widgets[1].widget_id, "bar");
    assert_eq!(b.widgets[0].file_contents.html, "html of foo");
    assert_eq!(b.widgets[0].file_contents.css, "css of foo");
    assert_eq!(b.widgets[1].file_contents.js, "js of bar");
    assert_eq!(b.widgets[1].file_contents.svg, "svg of bar");
    assert_eq!(b.nodes.len(), 1);
    assert_eq!(b.nodes[0].js.js, "script of adder");
    assert_eq!(b.icon.svg, "<svg/>");
    assert_eq!(b.widgets[0].prototype, Prototype::default());
}

#[test]
fn missing_widget_file_fails_bundle() {
    let mut files = FileTree::new();
    files.insert("icon.svg".to_string(), "<svg/>".to_string());
    files.insert("foo/foo.html".to_string(), String::new());
    files.insert("foo/foo.css".to_string(), String::new());
    files.insert("foo/foo.js".to_string(), String::new());
    let r = Opb::bundle(manifest(&["foo"], &[]), &files);
    assert_eq!(
        r,
        Err(OpcError::MissingElementFile("foo".to_string(), "foo/foo.svg".to_string()))
    );
}

#[test]
fn first_missing_file_is_reported() {
    let files = FileTree::new();
    let r = Opb::bundle(manifest(&["foo", "bar"], &["adder"]), &files);
    assert_eq!(
        r,
        Err(OpcError::MissingElementFile("foo".to_string(), "foo/foo.html".to_string()))
    );
}

#[test]
fn missing_node_file_fails_bundle() {
    let mut files = project_files(&["foo"], &[]);
    files.insert("other.js".to_string(), String::new());
    let r = Opb::bundle(manifest(&["foo"], &["adder"]), &files);
    assert_eq!(
        r,
        Err(OpcError::MissingElementFile("adder".to_string(), "adder.js".to_string()))
    );
}

#[test]
fn missing_icon_fails_bundle() {
    let mut files = FileTree::new();
    files.insert("adder.js".to_string(), String::new());
    let r = Opb::bundle(manifest(&[], &["adder"]), &files);
    assert_eq!(r, Err(OpcError::MissingIcon));
}

#[test]
fn bundling_twice_gives_identical_bundles() {
    let files = project_files(&["foo"], &["adder"]);
    let b1 = Opb::bundle(manifest(&["foo"], &["adder"]), &files).unwrap();
    let b2 = Opb::bundle(manifest(&["foo"], &["adder"]), &files).unwrap();
    assert_eq!(b1, b2);
}

fn written(e: &Extraction) -> Vec<FileEntry> {
    let mut all = vec![e.icon.clone()];
    all.extend(e.nodes.iter().cloned());
    for w in &e.widgets {
        all.extend(w.iter().cloned());
    }
    all
}

#[test]
fn extract_of_bundle_gives_project_back() {
    let files = project_files(&["foo", "bar"], &["adder", "mul"]);
    let b = Opb::bundle(manifest(&["foo", "bar"], &["adder", "mul"]), &files).unwrap();
    let e = extract_from(b);
    assert_eq!(e.manifest, manifest(&["foo", "bar"], &["adder", "mul"]));
    let out = written(&e);
    assert_eq!(out.len(), 1 + 2 + 8);
    for f in &out {
        assert_eq!(files.get(&f.path), Some(&f.contents));
    }
    for f in &files.entries {
        assert!(out.iter().any(|o| o.path == f.path && o.contents == f.contents));
    }
}

#[test]
fn extract_writes_conventional_paths() {
    let files = project_files(&["foo"], &["adder"]);
    let b = Opb::bundle(manifest(&["foo"], &["adder"]), &files).unwrap();
    let e = extract_from(b);
    assert_eq!(e.icon.path, "icon.svg");
    assert_eq!(e.nodes[0].path, "adder.js");
    let paths: Vec<&str> = e.widgets[0].iter().map(|f| f.path.as_str()).collect();
    assert_eq!(paths, vec!["foo/foo.html", "foo/foo.css", "foo/foo.js", "foo/foo.svg"]);
    assert_eq!(e.widgets[0][2].contents, "js of foo");
}

#[test]
fn bundle_of_extract_gives_bundle_back() {
    let files = project_files(&["foo"], &["adder"]);
    let b = Opb::bundle(manifest(&["foo"], &["adder"]), &files).unwrap();
    let copy = Opb::bundle(manifest(&["foo"], &["adder"]), &files).unwrap();
    let e = extract_from(b);
    let tree = FileTree::from_entries(written(&e));
    let again = Opb::bundle(e.manifest, &tree).unwrap();
    assert_eq!(again, copy);
}

#[test]
fn add_then_bundle() {
    let mut m = manifest(&[], &[]);
    let writes = add_widget(&mut m, "chart".to_string(), false).unwrap();
    assert_eq!(m.widgets.len(), 1);
    assert_eq!(m.widgets[0].widget_id, "chart");
    assert_eq!(m.widgets[0].widget_name, "Chart");
    let mut files = FileTree::new();
    files.insert("icon.svg".to_string(), "<svg/>".to_string());
    for w in writes {
        files.insert(w.path, w.contents);
    }
    let b = Opb::bundle(m, &files).unwrap();
    assert_eq!(b.widgets.len(), 1);
    assert_eq!(b.widgets[0].widget_id, "chart");
    assert_eq!(b.widgets[0].file_contents.js, widget_js("chart"));
    assert!(b.widgets[0].file_contents.js.contains("class chart"));
    assert_eq!(b.widgets[0].file_contents.html, "");
}

#[test]
fn prototype_params_pass_through() {
    let mut m = manifest(&["foo"], &[]);
    m.widgets[0].prototype.params = JsonValue::Object(vec![(
        "color".to_string(),
        JsonValue::Array(vec![JsonValue::Number("1.5".to_string()), JsonValue::Null]),
    )]);
    m.widgets[0].prototype.pos_x = "2.25".to_string();
    let files = project_files(&["foo"], &[]);
    let b = Opb::bundle(m, &files).unwrap();
    assert_eq!(b.widgets[0].prototype.pos_x, "2.25");
    assert_eq!(
        b.widgets[0].prototype.params,
        JsonValue::Object(vec![(
            "color".to_string(),
            JsonValue::Array(vec![JsonValue::Number("1.5".to_string()), JsonValue::Null]),
        )])
    );
}

#[test]
fn extraction_writes_distinct_paths() {
    let files = project_files(&["foo", "bar"], &["adder", "mul"]);
    let b = Opb::bundle(manifest(&["foo", "bar"], &["adder", "mul"]), &files).unwrap();
    let out = written(&extract_from(b));
    let mut paths: Vec<&String> = out.iter().map(|f| &f.path).collect();
    let n = paths.len();
    paths.sort();
    paths.dedup();
    assert_eq!(paths.len(), n);
}

#[test]
fn duplicate_widget_ids_collide_on_extract() {
    let files = project_files(&["foo"], &[]);
    let mut b = Opb::bundle(manifest(&["foo", "foo"], &[]), &files).unwrap();
    b.widgets[1].file_contents.js = "other".to_string();
    let e = extract_from(b);
    let tree = FileTree::from_entries(written(&e));
    let again = Opb::bundle(e.manifest, &tree).unwrap();
    assert_eq!(again.widgets[0].file_contents.js, "other");
}
