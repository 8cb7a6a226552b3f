use vstd::prelude::*;

use crate::bundle::first_missing_file;
use crate::files::{lemma_tree_of_has, tree_of, FileEntry};
use crate::manifest::{has_node, has_widget, ids_unique, same_but_nodes, same_but_widgets};
use crate::models::{is_default_prototype, Node, OpcError, PluginJson, Prototype, Widget};
use crate::naming::{
    display_name, icon_path, icon_path_spec, is_conform, node_path, node_path_spec,
    split_l_camel_case, valid_identifier, widget_file, widget_paths_spec,
};
use crate::templates::{
    node_js, node_js_spec, sample_icon_svg, sample_widget_css, sample_widget_html,
    sample_widget_js, sample_widget_svg, widget_js, widget_js_spec,
};

verus! {

/// `new` is `old` with one widget appended: identifier `id`, the display name
/// of `id`, and the default geometry.
pub open spec fn appends_widget(old: PluginJson, new: PluginJson, id: Seq<char>) -> bool {
    &&& same_but_widgets(new, old)
    &&& new.widgets@.len() == old.widgets@.len() + 1
    &&& new.widgets@.drop_last() == old.widgets@
    &&& new.widgets@.last().widget_id@ == id
    &&& new.widgets@.last().widget_name@ == display_name(id)
    &&& is_default_prototype(new.widgets@.last().prototype)
}

/// `new` is `old` with one node appended: identifier `id` and the display
/// name of `id`.
pub open spec fn appends_node(old: PluginJson, new: PluginJson, id: Seq<char>) -> bool {
    &&& same_but_nodes(new, old)
    &&& new.nodes@.len() == old.nodes@.len() + 1
    &&& new.nodes@.drop_last() == old.nodes@
    &&& new.nodes@.last().node_id@ == id
    &&& new.nodes@.last().node_name@ == display_name(id)
}

/// The files of a new widget `id`, in the order html, css, js, svg: all empty
/// but the script, a stub class named `id`.
pub open spec fn new_widget_files(writes: Seq<FileEntry>, id: Seq<char>) -> bool {
    &&& writes.len() == 4
    &&& forall|k: int| 0 <= k < 4 ==> (#[trigger] writes[k]).path@ == widget_paths_spec(id)[k]
    &&& writes[0].contents@ == Seq::<char>::empty()
    &&& writes[1].contents@ == Seq::<char>::empty()
    &&& writes[2].contents@ == widget_js_spec(id)
    &&& writes[3].contents@ == Seq::<char>::empty()
}

/// Adds widget `name` to the manifest `settings` and returns the files to
/// write for it. `dir_exists` tells whether a directory `name` is already in
/// the project. Fails with `InvalidIdentifier` if `name` breaks the naming
/// rule, then with `ElementAlreadyExists` if the directory is there or the
/// manifest already lists the widget; on failure nothing changes.
pub fn add_widget(settings: &mut PluginJson, name: String, dir_exists: bool) -> (r: Result<
    Vec<FileEntry>,
    OpcError,
>)
    ensures
        !valid_identifier(name@) ==> (r matches Err(OpcError::InvalidIdentifier)),
        valid_identifier(name@) && (dir_exists || has_widget(*old(settings), name@)) ==> (
        r matches Err(OpcError::ElementAlreadyExists)),
        r is Err ==> *final(settings) == *old(settings),
        valid_identifier(name@) && !dir_exists && !has_widget(*old(settings), name@) ==> (
        r matches Ok(writes) && new_widget_files(writes@, name@)),
        r matches Ok(writes) ==> new_widget_files(writes@, name@),
        r is Ok ==> appends_widget(*old(settings), *final(settings), name@) && has_widget(
            *final(settings),
            name@,
        ),
        ids_unique(*old(settings)) ==> ids_unique(*final(settings)),
{
    if !is_conform(name.as_str()) {
        return Err(OpcError::InvalidIdentifier);
    }
    if dir_exists {
        return Err(OpcError::ElementAlreadyExists);
    }
    if settings.find_widget(&name).is_some() {
        return Err(OpcError::ElementAlreadyExists);
    }
    let id = name.as_str();
    let mut writes: Vec<FileEntry> = Vec::new();
    writes.push(FileEntry { path: widget_file(id, "html"), contents: String::new() });
    writes.push(FileEntry { path: widget_file(id, "css"), contents: String::new() });
    writes.push(FileEntry { path: widget_file(id, "js"), contents: widget_js(id) });
    writes.push(FileEntry { path: widget_file(id, "svg"), contents: String::new() });
    assert forall|k: int| 0 <= k < 4 implies (#[trigger] writes@[k]).path@ == widget_paths_spec(
        name@,
    )[k] by {
        if k == 0 {
        } else if k == 1 {
        } else if k == 2 {
        } else {
        }
    }
    let ghost before = *settings;
    let widget = Widget {
        widget_name: split_l_camel_case(id),
        widget_id: name,
        prototype: Prototype::default(),
    };
    settings.widgets.push(widget);
    proof {
        assert(settings.widgets@.drop_last() =~= before.widgets@);
        let last = settings.widgets@.len() - 1;
        assert(settings.widgets@[last].widget_id@ == name@);
        if ids_unique(before) {
            assert forall|i: int, j: int|
                0 <= i < j < settings.widgets@.len() implies (
            #[trigger] settings.widgets@[i]).widget_id@ != (
            #[trigger] settings.widgets@[j]).widget_id@ by {
                assert(settings.widgets@[i] == before.widgets@[i]);
                if j < last {
                    assert(settings.widgets@[j] == before.widgets@[j]);
                }
            }
        }
    }
    Ok(writes)
}

/// Adds node `name` to the manifest `settings` and returns the file to write
/// for it, a stub class named `name`. `file_exists` tells whether the file
/// `name.js` is already in the project. Fails with `InvalidIdentifier` if
/// `name` breaks the naming rule, then with `ElementAlreadyExists` if the
/// file is there or the manifest already lists the node; on failure nothing
/// changes.
pub fn add_node(settings: &mut PluginJson, name: String, file_exists: bool) -> (r: Result<
    FileEntry,
    OpcError,
>)
    ensures
        !valid_identifier(name@) ==> (r matches Err(OpcError::InvalidIdentifier)),
        valid_identifier(name@) && (file_exists || has_node(*old(settings), name@)) ==> (
        r matches Err(OpcError::ElementAlreadyExists)),
        r is Err ==> *final(settings) == *old(settings),
        valid_identifier(name@) && !file_exists && !has_node(*old(settings), name@) ==> (
        r matches Ok(write) && write.path@ == node_path_spec(name@) && write.contents@
            == node_js_spec(name@)),
        r matches Ok(write) ==> write.path@ == node_path_spec(name@) && write.contents@
            == node_js_spec(name@),
        r is Ok ==> appends_node(*old(settings), *final(settings), name@) && has_node(
            *final(settings),
            name@,
        ),
        ids_unique(*old(settings)) ==> ids_unique(*final(settings)),
{
    if !is_conform(name.as_str()) {
        return Err(OpcError::InvalidIdentifier);
    }
    if file_exists {
        return Err(OpcError::ElementAlreadyExists);
    }
    if settings.find_node(&name).is_some() {
        return Err(OpcError::ElementAlreadyExists);
    }
    let id = name.as_str();
    let write = FileEntry { path: node_path(id), contents: node_js(id) };
    let ghost before = *settings;
    let node = Node { node_name: split_l_camel_case(id), node_id: name };
    settings.nodes.push(node);
    proof {
        assert(settings.nodes@.drop_last() =~= before.nodes@);
        let last = settings.nodes@.len() - 1;
        assert(settings.nodes@[last].node_id@ == name@);
        if ids_unique(before) {
            assert forall|i: int, j: int|
                0 <= i < j < settings.nodes@.len() implies (
            #[trigger] settings.nodes@[i]).node_id@ != (#[trigger] settings.nodes@[j]).node_id@ by {
                assert(settings.nodes@[i] == before.nodes@[i]);
                if j < last {
                    assert(settings.nodes@[j] == before.nodes@[j]);
                }
            }
        }
    }
    Ok(write)
}

/// What the files of a removed element came to.
#[derive(Debug, Clone, Copy, PartialEq, Eq, Structural)]
pub enum Removal {
    /// The element's files were deleted.
    Removed,
    /// The manifest entry is gone but its files could not be deleted (they
    /// may have been deleted by hand already). The removal still stands.
    OrphanedFilesWarning,
}

/// The outcome of a removal whose manifest entry is gone, given whether its
/// files could be deleted: the manifest decides whether an element exists, so
/// files that could not be deleted only earn a warning.
pub fn removal_outcome(files_deleted: bool) -> (r: Removal)
    ensures
        r == (if files_deleted {
            Removal::Removed
        } else {
            Removal::OrphanedFilesWarning
        }),
{
    if files_deleted {
        Removal::Removed
    } else {
        Removal::OrphanedFilesWarning
    }
}

/// A new project: its manifest, and its files relative to the project root.
#[derive(Debug)]
pub struct Scaffold {
    pub manifest: PluginJson,
    pub files: Vec<FileEntry>,
}

/// The project is complete: every file that its manifest refers to, and the
/// icon, is among its files, so that it bundles.
pub open spec fn complete(s: Scaffold) -> bool {
    &&& first_missing_file(s.manifest, tree_of(s.files@)) is None
    &&& tree_of(s.files@).contains_key(icon_path_spec())
}

/// Scaffolds plugin `name` with a sample widget and a sample node.
/// `dir_exists` tells whether a directory `name` is already there. Fails with
/// `InvalidIdentifier` if `name` breaks the naming rule, then with
/// `DestinationExists` if the directory is there.
pub fn create_plugin(name: String, dir_exists: bool) -> (r: Result<Scaffold, OpcError>)
    ensures
        !valid_identifier(name@) ==> (r matches Err(OpcError::InvalidIdentifier)),
        valid_identifier(name@) && dir_exists ==> (r matches Err(OpcError::DestinationExists)),
        valid_identifier(name@) && !dir_exists ==> (r matches Ok(s) && s.manifest.plugin_id@
            == name@ && s.manifest.plugin_name@ == display_name(name@) && s.manifest.widgets@.len()
            == 1 && s.manifest.widgets@[0].widget_id@ == "sampleWidget"@
            && s.manifest.nodes@.len() == 1 && s.manifest.nodes@[0].node_id@ == "sampleNode"@
            && ids_unique(s.manifest) && complete(s)),
{
    if !is_conform(name.as_str()) {
        return Err(OpcError::InvalidIdentifier);
    }
    if dir_exists {
        return Err(OpcError::DestinationExists);
    }
    let mut manifest = PluginJson::default();
    manifest.plugin_name = split_l_camel_case(name.as_str());
    manifest.plugin_id = name;
    let mut files: Vec<FileEntry> = Vec::new();
    files.push(FileEntry { path: icon_path(), contents: sample_icon_svg() });
    let node_id = manifest.nodes[0].node_id.as_str();
    files.push(FileEntry { path: node_path(node_id), contents: node_js(node_id) });
    let widget_id = manifest.widgets[0].widget_id.as_str();
    files.push(FileEntry { path: widget_file(widget_id, "html"), contents: sample_widget_html() });
    files.push(FileEntry { path: widget_file(widget_id, "css"), contents: sample_widget_css() });
    files.push(FileEntry { path: widget_file(widget_id, "js"), contents: sample_widget_js() });
    files.push(FileEntry { path: widget_file(widget_id, "svg"), contents: sample_widget_svg() });
    let s = Scaffold { manifest, files };
    proof {
        let t = tree_of(s.files@);
        let m = s.manifest;
        lemma_tree_of_has(s.files@, 0);
        lemma_tree_of_has(s.files@, 1);
        lemma_tree_of_has(s.files@, 2);
        lemma_tree_of_has(s.files@, 3);
        lemma_tree_of_has(s.files@, 4);
        lemma_tree_of_has(s.files@, 5);
        let p = widget_paths_spec(m.widgets@[0].widget_id@);
        assert(t.contains_key(p[0]) && t.contains_key(p[1]) && t.contains_key(p[2])
            && t.contains_key(p[3]));
        assert(crate::bundle::missing_in_widgets(m.widgets@, t, 1) is None);
        assert(crate::bundle::missing_in_widgets(m.widgets@, t, 0) is None);
        assert(crate::bundle::missing_in_nodes(m.nodes@, t, 1) is None);
        assert(crate::bundle::missing_in_nodes(m.nodes@, t, 0) is None);
    }
    Ok(s)
}

/// Scaffolds plugin `name` with no elements: a manifest and an icon.
/// `dir_exists` tells whether a directory `name` is already there. Fails with
/// `InvalidIdentifier` if `name` breaks the naming rule, then with
/// `DestinationExists` if the directory is there.
pub fn create_plugin_blank(name: String, dir_exists: bool) -> (r: Result<Scaffold, OpcError>)
    ensures
        !valid_identifier(name@) ==> (r matches Err(OpcError::InvalidIdentifier)),
        valid_identifier(name@) && dir_exists ==> (r matches Err(OpcError::DestinationExists)),
        valid_identifier(name@) && !dir_exists ==> (r matches Ok(s) && s.manifest.plugin_id@
            == name@ && s.manifest.plugin_name@ == display_name(name@) && s.manifest.widgets@.len()
            == 0 && s.manifest.nodes@.len() == 0 && ids_unique(s.manifest) && complete(s)),
{
    if !is_conform(name.as_str()) {
        return Err(OpcError::InvalidIdentifier);
    }
    if dir_exists {
        return Err(OpcError::DestinationExists);
    }
    let mut manifest = PluginJson::default();
    manifest.plugin_name = split_l_camel_case(name.as_str());
    manifest.plugin_id = name;
    manifest.widgets = Vec::new();
    manifest.nodes = Vec::new();
    let mut files: Vec<FileEntry> = Vec::new();
    files.push(FileEntry { path: icon_path(), contents: sample_icon_svg() });
    let s = Scaffold { manifest, files };
    proof {
        lemma_tree_of_has(s.files@, 0);
    }
    Ok(s)
}

} // verus!
