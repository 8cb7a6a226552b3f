use opc::lifecycle::{
    add_node, add_widget, create_plugin, create_plugin_blank, removal_outcome, Removal,
};
use opc::files::FileTree;
use opc::models::{JsonValue, Opb, OpcError, PluginJson, Prototype};

fn blank() -> PluginJson {
    let mut m = PluginJson::default();
    m.plugin_id = "p".to_string();
    m.widgets.clear();
    m.nodes.clear();
    m
}

fn unique(m: &PluginJson) -> bool {
    let mut w: Vec<&String> = m.widgets.iter().map(|w| &w.widget_id).collect();
    let mut n: Vec<&String> = m.nodes.iter().map(|n| &n.node_id).collect();
    let (lw, ln) = (w.len(), n.len());
    w.sort();
    w.dedup();
    n.sort();
    n.dedup();
    w.len() == lw && n.len() == ln
}

#[test]
fn invalid_identifiers_are_rejected() {
    for name in ["Foo", "foo_bar", "foo-bar"] {
        let mut m = blank();
        let r = add_widget(&mut m, name.to_string(), false);
        assert_eq!(r, Err(OpcError::InvalidIdentifier));
        assert_eq!(m, blank());
        let r = add_node(&mut m, name.to_string(), false);
        assert_eq!(r, Err(OpcError::InvalidIdentifier));
        assert_eq!(m, blank());
    }
}

#[test]
fn add_widget_writes_four_files() {
    let mut m = blank();
    let writes = add_widget(&mut m, "myChart".to_string(), false).unwrap();
    let paths: Vec<&str> = writes.iter().map(|w| w.path.as_str()).collect();
    assert_eq!(
        paths,
        vec!["myChart/myChart.html", "myChart/myChart.css", "myChart/myChart.js", "myChart/myChart.svg"]
    );
    assert_eq!(writes[0].contents, "");
    assert_eq!(writes[1].contents, "");
    assert!(writes[2].contents.contains("class myChart"));
    assert_eq!(writes[3].contents, "");
    assert_eq!(m.widgets.len(), 1);
    assert_eq!(m.widgets[0].widget_id, "myChart");
    assert_eq!(m.widgets[0].widget_name, "My Chart");
    assert_eq!(m.widgets[0].prototype, Prototype::default());
}

#[test]
fn add_widget_rejects_existing_directory() {
    let mut m = blank();
    assert_eq!(add_widget(&mut m, "chart".to_string(), true), Err(OpcError::ElementAlreadyExists));
    assert_eq!(m, blank());
}

#[test]
fn add_widget_rejects_listed_widget() {
    let mut m = blank();
    add_widget(&mut m, "chart".to_string(), false).unwrap();
    assert_eq!(add_widget(&mut m, "chart".to_string(), false), Err(OpcError::ElementAlreadyExists));
    assert_eq!(m.widgets.len(), 1);
}

#[test]
fn add_node_writes_one_file() {
    let mut m = blank();
    let w = add_node(&mut m, "sumAll".to_string(), false).unwrap();
    assert_eq!(w.path, "sumAll.js");
    assert!(w.contents.contains("class sumAll"));
    assert_eq!(m.nodes.len(), 1);
    assert_eq!(m.nodes[0].node_id, "sumAll");
    assert_eq!(m.nodes[0].node_name, "Sum All");
    assert_eq!(add_node(&mut m, "other".to_string(), true), Err(OpcError::ElementAlreadyExists));
    assert_eq!(add_node(&mut m, "sumAll".to_string(), false), Err(OpcError::ElementAlreadyExists));
}

#[test]
fn identifiers_stay_unique() {
    let mut m = blank();
    for name in ["a", "b", "a", "c", "b"] {
        let _ = add_widget(&mut m, name.to_string(), false);
        let _ = add_node(&mut m, name.to_string(), false);
        assert!(unique(&m));
    }
    m.remove_widget("b".to_string()).unwrap();
    let _ = add_widget(&mut m, "b".to_string(), false);
    m.remove_node("a".to_string()).unwrap();
    assert!(unique(&m));
    assert_eq!(m.widgets.len(), 3);
    assert_eq!(m.nodes.len(), 2);
}

#[test]
fn remove_widget_takes_it_out_of_manifest() {
    let mut m = blank();
    add_widget(&mut m, "foo".to_string(), false).unwrap();
    add_widget(&mut m, "bar".to_string(), false).unwrap();
    assert_eq!(m.remove_widget("foo".to_string()), Ok(()));
    assert_eq!(m.find_widget(&"foo".to_string()), None);
    assert_eq!(m.find_widget(&"bar".to_string()), Some(0));
    assert_eq!(m.remove_widget("foo".to_string()), Err(OpcError::ElementNotFound));
}

#[test]
fn remove_node_missing_is_not_found() {
    let mut m = blank();
    assert_eq!(m.remove_node("x".to_string()), Err(OpcError::ElementNotFound));
    add_node(&mut m, "x".to_string(), false).unwrap();
    assert_eq!(m.remove_node("x".to_string()), Ok(()));
    assert!(m.nodes.is_empty());
}

#[test]
fn remove_with_files_already_gone_warns() {
    let mut m = blank();
    add_widget(&mut m, "gone".to_string(), false).unwrap();
    assert_eq!(m.remove_widget("gone".to_string()), Ok(()));
    assert!(m.widgets.is_empty());
    assert_eq!(removal_outcome(false), Removal::OrphanedFilesWarning);
    assert_eq!(removal_outcome(true), Removal::Removed);
}

#[test]
fn created_plugin_bundles() {
    let s = create_plugin("myPlugin".to_string(), false).unwrap();
    assert_eq!(s.manifest.plugin_id, "myPlugin");
    assert_eq!(s.manifest.plugin_name, "My Plugin");
    let tree = FileTree::from_entries(s.files.clone());
    let b = Opb::bundle(s.manifest, &tree).unwrap();
    assert_eq!(b.widgets[0].widget_id, "sampleWidget");
    assert_eq!(b.nodes[0].node_id, "sampleNode");
}

#[test]
fn create_plugin_errors() {
    assert_eq!(create_plugin("Bad".to_string(), false).err(), Some(OpcError::InvalidIdentifier));
    assert_eq!(create_plugin("good".to_string(), true).err(), Some(OpcError::DestinationExists));
    assert_eq!(create_plugin_blank("a_b".to_string(), false).err(), Some(OpcError::InvalidIdentifier));
    assert_eq!(create_plugin_blank("good".to_string(), true).err(), Some(OpcError::DestinationExists));
}

#[test]
fn blank_plugin_has_no_elements() {
    let s = create_plugin_blank("emptyOne".to_string(), false).unwrap();
    assert_eq!(s.manifest.plugin_id, "emptyOne");
    assert_eq!(s.manifest.plugin_name, "Empty One");
    assert!(s.manifest.widgets.is_empty());
    assert!(s.manifest.nodes.is_empty());
    let tree = FileTree::from_entries(s.files.clone());
    assert!(Opb::bundle(s.manifest, &tree).is_ok());
}

#[test]
fn default_prototype_geometry() {
    let p = Prototype::default();
    assert_eq!(p.pos_x, "0.0");
    assert_eq!(p.size_x, "8.0");
    assert_eq!(p.size_y, "8.0");
    assert_eq!(p.size_bounds, vec![vec!["3.0", "30.0"], vec!["3.0", "30.0"]]);
    assert_eq!(p.params, JsonValue::Object(vec![]));
}

#[test]
fn default_manifest() {
    let m = PluginJson::default();
    assert_eq!(m.plugin_version, "1.0.0");
    assert_eq!(m.widgets[0].widget_id, "sampleWidget");
    assert_eq!(m.widgets[0].widget_name, "Sample Widget");
    assert_eq!(m.nodes[0].node_id, "sampleNode");
}
