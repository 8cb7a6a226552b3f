use vstd::prelude::*;

use crate::files::{FileEntry, FileTree};
use crate::models::{
    FullNode, FullWidget, IconFileContents, Node, NodeFiles, Opb, OpcError, PluginJson, Widget,
    WidgetFiles,
};
use crate::naming::{
    icon_path, icon_path_spec, lemma_node_paths_distinct, lemma_widget_file_not_root,
    lemma_widget_file_prefix, lemma_widget_paths_distinct, no_slash, node_path, node_path_spec,
    widget_file, widget_file_spec, widget_paths_spec,
};

verus! {

/// The first of the four files of widget `id` that `files` lacks, if any.
pub open spec fn widget_missing(id: Seq<char>, files: Map<Seq<char>, Seq<char>>) -> Option<
    Seq<char>,
> {
    let p = widget_paths_spec(id);
    if !files.contains_key(p[0]) {
        Some(p[0])
    } else if !files.contains_key(p[1]) {
        Some(p[1])
    } else if !files.contains_key(p[2]) {
        Some(p[2])
    } else if !files.contains_key(p[3]) {
        Some(p[3])
    } else {
        None
    }
}

/// The first missing file among the widgets from index `i` on, with the
/// identifier of its widget.
pub open spec fn missing_in_widgets(
    ws: Seq<Widget>,
    files: Map<Seq<char>, Seq<char>>,
    i: int,
) -> Option<(Seq<char>, Seq<char>)>
    decreases ws.len() - i,
{
    if i < 0 || i >= ws.len() {
        None
    } else {
        match widget_missing(ws[i].widget_id@, files) {
            Some(p) => Some((ws[i].widget_id@, p)),
            None => missing_in_widgets(ws, files, i + 1),
        }
    }
}

/// The first missing file among the nodes from index `i` on, with the
/// identifier of its node.
pub open spec fn missing_in_nodes(
    ns: Seq<Node>,
    files: Map<Seq<char>, Seq<char>>,
    i: int,
) -> Option<(Seq<char>, Seq<char>)>
    decreases ns.len() - i,
{
    if i < 0 || i >= ns.len() {
        None
    } else if !files.contains_key(node_path_spec(ns[i].node_id@)) {
        Some((ns[i].node_id@, node_path_spec(ns[i].node_id@)))
    } else {
        missing_in_nodes(ns, files, i + 1)
    }
}

/// The first element file, in manifest order (widgets, each html, css, js,
/// svg; then nodes), that `files` lacks, with the identifier of its element.
pub open spec fn first_missing_file(m: PluginJson, files: Map<Seq<char>, Seq<char>>) -> Option<
    (Seq<char>, Seq<char>),
> {
    match missing_in_widgets(m.widgets@, files, 0) {
        Some(x) => Some(x),
        None => missing_in_nodes(m.nodes@, files, 0),
    }
}

/// The contents of the four files of a bundled widget, in the order html,
/// css, js, svg.
pub open spec fn widget_contents(fw: FullWidget) -> Seq<Seq<char>> {
    seq![
        fw.file_contents.html@,
        fw.file_contents.css@,
        fw.file_contents.js@,
        fw.file_contents.svg@,
    ]
}

/// `w` is `fw` without its file contents.
pub open spec fn strips_widget(fw: FullWidget, w: Widget) -> bool {
    &&& fw.widget_name == w.widget_name
    &&& fw.widget_id == w.widget_id
    &&& fw.prototype == w.prototype
}

/// `n` is `f` without its file contents.
pub open spec fn strips_node(f: FullNode, n: Node) -> bool {
    &&& f.node_name == n.node_name
    &&& f.node_id == n.node_id
}

/// The manifest `m` is the bundle `b` with every file content taken out.
pub open spec fn strips(b: Opb, m: PluginJson) -> bool {
    &&& b.plugin_name == m.plugin_name
    &&& b.plugin_id == m.plugin_id
    &&& b.plugin_description == m.plugin_description
    &&& b.plugin_version == m.plugin_version
    &&& b.plugin_author == m.plugin_author
    &&& b.plugin_category_label == m.plugin_category_label
    &&& b.widgets@.len() == m.widgets@.len()
    &&& forall|i: int|
        0 <= i < b.widgets@.len() ==> strips_widget(#[trigger] b.widgets@[i], m.widgets@[i])
    &&& b.nodes@.len() == m.nodes@.len()
    &&& forall|j: int| 0 <= j < b.nodes@.len() ==> strips_node(#[trigger] b.nodes@[j], m.nodes@[j])
}

/// The four files of the bundled widget `fw` are those that `files` holds at
/// its paths.
pub open spec fn embeds_widget(fw: FullWidget, files: Map<Seq<char>, Seq<char>>) -> bool {
    forall|k: int|
        0 <= k < 4 ==> files.contains_key(#[trigger] widget_paths_spec(fw.widget_id@)[k])
            && files[widget_paths_spec(fw.widget_id@)[k]] == widget_contents(fw)[k]
}

/// The file of the bundled node `f` is the one that `files` holds at its path.
pub open spec fn embeds_node(f: FullNode, files: Map<Seq<char>, Seq<char>>) -> bool {
    &&& files.contains_key(node_path_spec(f.node_id@))
    &&& files[node_path_spec(f.node_id@)] == f.js.js@
}

/// Every file that `b` embeds, the icon included, is the one that `files`
/// holds at its conventional path.
pub open spec fn embeds(b: Opb, files: Map<Seq<char>, Seq<char>>) -> bool {
    &&& forall|i: int| 0 <= i < b.widgets@.len() ==> embeds_widget(#[trigger] b.widgets@[i], files)
    &&& forall|j: int| 0 <= j < b.nodes@.len() ==> embeds_node(#[trigger] b.nodes@[j], files)
    &&& files.contains_key(icon_path_spec())
    &&& files[icon_path_spec()] == b.icon.svg@
}

/// `b` is the bundle of the project with manifest `m` and files `files`.
pub open spec fn bundles(b: Opb, m: PluginJson, files: Map<Seq<char>, Seq<char>>) -> bool {
    strips(b, m) && embeds(b, files)
}

/// What extracting a bundle writes: the reduced manifest, and each embedded
/// file as an entry at its conventional path.
#[derive(Debug)]
pub struct Extraction {
    pub manifest: PluginJson,
    pub icon: FileEntry,
    pub nodes: Vec<FileEntry>,
    /// The four files of each widget, in the order html, css, js, svg.
    pub widgets: Vec<Vec<FileEntry>>,
}

/// `ws` writes the four files of the bundled widget `fw`.
pub open spec fn writes_widget(fw: FullWidget, ws: Seq<FileEntry>) -> bool {
    &&& ws.len() == 4
    &&& forall|k: int|
        0 <= k < 4 ==> (#[trigger] ws[k]).path@ == widget_paths_spec(fw.widget_id@)[k]
            && ws[k].contents@ == widget_contents(fw)[k]
}

/// `f` writes the file of the bundled node `n`.
pub open spec fn writes_node(n: FullNode, f: FileEntry) -> bool {
    &&& f.path@ == node_path_spec(n.node_id@)
    &&& f.contents@ == n.js.js@
}

/// `e` is the extraction of `b`: its manifest is `b` without file contents,
/// and it writes every embedded file at its conventional path.
pub open spec fn extracts(b: Opb, e: Extraction) -> bool {
    &&& strips(b, e.manifest)
    &&& e.icon.path@ == icon_path_spec()
    &&& e.icon.contents@ == b.icon.svg@
    &&& e.nodes@.len() == b.nodes@.len()
    &&& forall|j: int| 0 <= j < b.nodes@.len() ==> writes_node(#[trigger] b.nodes@[j], e.nodes@[j])
    &&& e.widgets@.len() == b.widgets@.len()
    &&& forall|i: int|
        0 <= i < b.widgets@.len() ==> writes_widget(#[trigger] b.widgets@[i], e.widgets@[i]@)
}

/// The contents of `path` in `files`, or the missing-file error of element `id`.
fn read_element_file(files: &FileTree, id: &String, path: String) -> (r: Result<String, OpcError>)
    ensures
        match r {
            Ok(c) => files@.contains_key(path@) && c@ == files@[path@],
            Err(e) => !files@.contains_key(path@) && (e matches OpcError::MissingElementFile(i, p)
                && i@ == id@ && p@ == path@),
        },
{
    match files.get(&path) {
        Some(c) => Ok(c.clone()),
        None => Err(OpcError::MissingElementFile(id.clone(), path)),
    }
}

/// Embeds the four files of `w`, failing on the first that is missing.
fn bundle_widget(w: Widget, files: &FileTree) -> (r: Result<FullWidget, OpcError>)
    ensures
        match widget_missing(w.widget_id@, files@) {
            None => r matches Ok(fw) && strips_widget(fw, w) && embeds_widget(fw, files@),
            Some(p) => r matches Err(OpcError::MissingElementFile(i, q)) && i@ == w.widget_id@ && q@
                == p,
        },
{
    let id = w.widget_id.as_str();
    let html = match read_element_file(files, &w.widget_id, widget_file(id, "html")) {
        Ok(c) => c,
        Err(e) => return Err(e),
    };
    let css = match read_element_file(files, &w.widget_id, widget_file(id, "css")) {
        Ok(c) => c,
        Err(e) => return Err(e),
    };
    let js = match read_element_file(files, &w.widget_id, widget_file(id, "js")) {
        Ok(c) => c,
        Err(e) => return Err(e),
    };
    let svg = match read_element_file(files, &w.widget_id, widget_file(id, "svg")) {
        Ok(c) => c,
        Err(e) => return Err(e),
    };
    let fw = FullWidget {
        widget_name: w.widget_name,
        widget_id: w.widget_id,
        prototype: w.prototype,
        file_contents: WidgetFiles { html, css, js, svg },
    };
    assert(embeds_widget(fw, files@)) by {
        assert forall|k: int| 0 <= k < 4 implies files@.contains_key(
            #[trigger] widget_paths_spec(fw.widget_id@)[k],
        ) && files@[widget_paths_spec(fw.widget_id@)[k]] == widget_contents(fw)[k] by {
            if k == 0 {
            } else if k == 1 {
            } else if k == 2 {
            } else {
            }
        }
    }
    Ok(fw)
}

/// Embeds the file of `n`, failing if it is missing.
fn bundle_node(n: Node, files: &FileTree) -> (r: Result<FullNode, OpcError>)
    ensures
        files@.contains_key(node_path_spec(n.node_id@)) ==> (r matches Ok(f) && strips_node(f, n)
            && embeds_node(f, files@)),
        !files@.contains_key(node_path_spec(n.node_id@)) ==> (r matches Err(
            OpcError::MissingElementFile(i, q),
        ) && i@ == n.node_id@ && q@ == node_path_spec(n.node_id@)),
{
    let js = match read_element_file(files, &n.node_id, node_path(n.node_id.as_str())) {
        Ok(c) => c,
        Err(e) => return Err(e),
    };
    Ok(FullNode { node_name: n.node_name, node_id: n.node_id, js: NodeFiles { js } })
}

impl Opb {
    /// Bundles the project whose manifest is `settings` and whose files are
    /// `files`: every element in manifest order with its files embedded, and
    /// the icon. Fails on the first missing element file (widgets first, each
    /// in the order html, css, js, svg, then nodes), then on a missing icon;
    /// no partial bundle comes back.
    pub fn bundle(settings: PluginJson, files: &FileTree) -> (r: Result<Opb, OpcError>)
        ensures
            r is Ok <==> first_missing_file(settings, files@) is None && files@.contains_key(
                icon_path_spec(),
            ),
            r matches Ok(b) ==> bundles(b, settings, files@),
            first_missing_file(settings, files@) matches Some((id, path)) ==> (r matches Err(
                OpcError::MissingElementFile(i, p),
            ) && i@ == id && p@ == path),
            first_missing_file(settings, files@) is None && !files@.contains_key(icon_path_spec())
                ==> r matches Err(OpcError::MissingIcon),
    {
        let ghost m = settings;
        let PluginJson {
            plugin_name,
            plugin_id,
            plugin_description,
            plugin_version,
            plugin_author,
            plugin_category_label,
            widgets,
            nodes,
        } = settings;
        let mut rest = widgets;
        let mut full_widgets: Vec<FullWidget> = Vec::new();
        while rest.len() > 0
            invariant
                m == settings,
                full_widgets@.len() + rest@.len() == m.widgets@.len(),
                rest@ == m.widgets@.subrange(full_widgets@.len() as int, m.widgets@.len() as int),
                forall|j: int|
                    0 <= j < full_widgets@.len() ==> strips_widget(
                        #[trigger] full_widgets@[j],
                        m.widgets@[j],
                    ) && embeds_widget(full_widgets@[j], files@),
                missing_in_widgets(m.widgets@, files@, 0) == missing_in_widgets(
                    m.widgets@,
                    files@,
                    full_widgets@.len() as int,
                ),
            decreases rest@.len(),
        {
            let ghost i = full_widgets@.len() as int;
            let w = rest.remove(0);
            assert(w == m.widgets@[i]);
            match bundle_widget(w, files) {
                Ok(fw) => {
                    full_widgets.push(fw);
                    assert(rest@ =~= m.widgets@.subrange(i + 1, m.widgets@.len() as int));
                },
                Err(e) => {
                    assert(widget_missing(m.widgets@[i].widget_id@, files@) is Some);
                    return Err(e);
                },
            }
        }
        assert(missing_in_widgets(m.widgets@, files@, full_widgets@.len() as int) is None);
        let mut rest_nodes = nodes;
        let mut full_nodes: Vec<FullNode> = Vec::new();
        while rest_nodes.len() > 0
            invariant
                m == settings,
                full_nodes@.len() + rest_nodes@.len() == m.nodes@.len(),
                rest_nodes@ == m.nodes@.subrange(full_nodes@.len() as int, m.nodes@.len() as int),
                forall|j: int|
                    0 <= j < full_nodes@.len() ==> strips_node(
                        #[trigger] full_nodes@[j],
                        m.nodes@[j],
                    ) && embeds_node(full_nodes@[j], files@),
                missing_in_widgets(m.widgets@, files@, 0) is None,
                missing_in_nodes(m.nodes@, files@, 0) == missing_in_nodes(
                    m.nodes@,
                    files@,
                    full_nodes@.len() as int,
                ),
            decreases rest_nodes@.len(),
        {
            let ghost j = full_nodes@.len() as int;
            let n = rest_nodes.remove(0);
            assert(n == m.nodes@[j]);
            match bundle_node(n, files) {
                Ok(f) => {
                    full_nodes.push(f);
                    assert(rest_nodes@ =~= m.nodes@.subrange(j + 1, m.nodes@.len() as int));
                },
                Err(e) => {
                    assert(!files@.contains_key(node_path_spec(m.nodes@[j].node_id@)));
                    return Err(e);
                },
            }
        }
        assert(missing_in_nodes(m.nodes@, files@, full_nodes@.len() as int) is None);
        let svg = match files.get(&icon_path()) {
            Some(c) => c.clone(),
            None => return Err(OpcError::MissingIcon),
        };
        Ok(
            Opb {
                plugin_name,
                plugin_id,
                plugin_description,
                plugin_version,
                plugin_author,
                plugin_category_label,
                widgets: full_widgets,
                nodes: full_nodes,
                icon: IconFileContents { svg },
            },
        )
    }
}

/// Takes the files out of a bundled widget: the descriptor, and the four
/// writes.
fn extract_widget(fw: FullWidget) -> (r: (Widget, Vec<FileEntry>))
    ensures
        strips_widget(fw, r.0),
        writes_widget(fw, r.1@),
{
    let ghost old_fw = fw;
    let mut writes: Vec<FileEntry> = Vec::new();
    let id = fw.widget_id.as_str();
    writes.push(FileEntry { path: widget_file(id, "html"), contents: fw.file_contents.html });
    writes.push(FileEntry { path: widget_file(id, "css"), contents: fw.file_contents.css });
    writes.push(FileEntry { path: widget_file(id, "js"), contents: fw.file_contents.js });
    writes.push(FileEntry { path: widget_file(id, "svg"), contents: fw.file_contents.svg });
    let w = Widget {
        widget_name: fw.widget_name,
        widget_id: fw.widget_id,
        prototype: fw.prototype,
    };
    assert forall|k: int| 0 <= k < 4 implies (#[trigger] writes@[k]).path@ == widget_paths_spec(
        old_fw.widget_id@,
    )[k] && writes@[k].contents@ == widget_contents(old_fw)[k] by {
        if k == 0 {
        } else if k == 1 {
        } else if k == 2 {
        } else {
        }
    }
    (w, writes)
}

/// Takes the file out of a bundled node: the descriptor, and the write.
fn extract_node(f: FullNode) -> (r: (Node, FileEntry))
    ensures
        strips_node(f, r.0),
        writes_node(f, r.1),
{
    let path = node_path(f.node_id.as_str());
    (Node { node_name: f.node_name, node_id: f.node_id }, FileEntry { path, contents: f.js.js })
}

/// Extracts bundle `b`: the reduced manifest (every descriptor without its
/// file contents) and, at its conventional path, every file that `b` embeds:
/// the icon, each node's script, each widget's four files.
pub fn extract_from(b: Opb) -> (r: Extraction)
    ensures
        extracts(b, r),
{
    let ghost ob = b;
    let Opb {
        plugin_name,
        plugin_id,
        plugin_description,
        plugin_version,
        plugin_author,
        plugin_category_label,
        widgets,
        nodes,
        icon,
    } = b;
    let icon = FileEntry { path: icon_path(), contents: icon.svg };
    let mut rest = widgets;
    let mut manifest_widgets: Vec<Widget> = Vec::new();
    let mut widget_writes: Vec<Vec<FileEntry>> = Vec::new();
    while rest.len() > 0
        invariant
            ob == b,
            manifest_widgets@.len() == widget_writes@.len(),
            manifest_widgets@.len() + rest@.len() == ob.widgets@.len(),
            rest@ == ob.widgets@.subrange(manifest_widgets@.len() as int, ob.widgets@.len() as int),
            forall|j: int|
                0 <= j < manifest_widgets@.len() ==> strips_widget(
                    #[trigger] ob.widgets@[j],
                    manifest_widgets@[j],
                ) && writes_widget(ob.widgets@[j], widget_writes@[j]@),
        decreases rest@.len(),
    {
        let ghost i = manifest_widgets@.len() as int;
        let fw = rest.remove(0);
        assert(fw == ob.widgets@[i]);
        let (w, writes) = extract_widget(fw);
        manifest_widgets.push(w);
        widget_writes.push(writes);
        assert(rest@ =~= ob.widgets@.subrange(i + 1, ob.widgets@.len() as int));
    }
    let mut rest_nodes = nodes;
    let mut manifest_nodes: Vec<Node> = Vec::new();
    let mut node_writes: Vec<FileEntry> = Vec::new();
    while rest_nodes.len() > 0
        invariant
            ob == b,
            manifest_nodes@.len() == node_writes@.len(),
            manifest_nodes@.len() + rest_nodes@.len() == ob.nodes@.len(),
            rest_nodes@ == ob.nodes@.subrange(manifest_nodes@.len() as int, ob.nodes@.len() as int),
            forall|j: int|
                0 <= j < manifest_nodes@.len() ==> strips_node(
                    #[trigger] ob.nodes@[j],
                    manifest_nodes@[j],
                ) && writes_node(ob.nodes@[j], node_writes@[j]),
        decreases rest_nodes@.len(),
    {
        let ghost j = manifest_nodes@.len() as int;
        let f = rest_nodes.remove(0);
        assert(f == ob.nodes@[j]);
        let (n, write) = extract_node(f);
        manifest_nodes.push(n);
        node_writes.push(write);
        assert(rest_nodes@ =~= ob.nodes@.subrange(j + 1, ob.nodes@.len() as int));
    }
    let manifest = PluginJson {
        plugin_name,
        plugin_id,
        plugin_description,
        plugin_version,
        plugin_author,
        plugin_category_label,
        widgets: manifest_widgets,
        nodes: manifest_nodes,
    };
    Extraction { manifest, icon, nodes: node_writes, widgets: widget_writes }
}

/// Two manifests with the same fields and the same descriptors, in the same
/// order.
pub open spec fn same_manifest(a: PluginJson, m: PluginJson) -> bool {
    &&& a.plugin_name == m.plugin_name
    &&& a.plugin_id == m.plugin_id
    &&& a.plugin_description == m.plugin_description
    &&& a.plugin_version == m.plugin_version
    &&& a.plugin_author == m.plugin_author
    &&& a.plugin_category_label == m.plugin_category_label
    &&& a.widgets@ == m.widgets@
    &&& a.nodes@ == m.nodes@
}

/// Extracting the bundle of a project gives the project back: the manifest
/// written is the project's manifest, every file written is byte for byte
/// the project's file at that path, and every file that the manifest refers
/// to, and the icon, is written.
pub proof fn lemma_extract_of_bundle(
    m: PluginJson,
    files: Map<Seq<char>, Seq<char>>,
    b: Opb,
    e: Extraction,
)
    requires
        bundles(b, m, files),
        extracts(b, e),
    ensures
        same_manifest(e.manifest, m),
        files.contains_key(e.icon.path@) && files[e.icon.path@] == e.icon.contents@,
        forall|j: int|
            0 <= j < e.nodes@.len() ==> files.contains_key((#[trigger] e.nodes@[j]).path@)
                && files[e.nodes@[j].path@] == e.nodes@[j].contents@,
        forall|i: int, k: int|
            0 <= i < e.widgets@.len() && 0 <= k < e.widgets@[i]@.len() ==> files.contains_key(
                (#[trigger] e.widgets@[i]@[k]).path@,
            ) && files[e.widgets@[i]@[k].path@] == e.widgets@[i]@[k].contents@,
        e.icon.path@ == icon_path_spec(),
        e.nodes@.len() == m.nodes@.len(),
        forall|j: int|
            0 <= j < m.nodes@.len() ==> (#[trigger] e.nodes@[j]).path@ == node_path_spec(
                m.nodes@[j].node_id@,
            ),
        e.widgets@.len() == m.widgets@.len(),
        forall|i: int|
            0 <= i < m.widgets@.len() ==> views_of_paths((#[trigger] e.widgets@[i])@)
                == widget_paths_spec(m.widgets@[i].widget_id@),
{
    assert(e.manifest.widgets@ =~= m.widgets@) by {
        assert forall|i: int| 0 <= i < m.widgets@.len() implies e.manifest.widgets@[i]
            == m.widgets@[i] by {
            assert(strips_widget(b.widgets@[i], m.widgets@[i]));
            assert(strips_widget(b.widgets@[i], e.manifest.widgets@[i]));
        }
    }
    assert(e.manifest.nodes@ =~= m.nodes@) by {
        assert forall|j: int| 0 <= j < m.nodes@.len() implies e.manifest.nodes@[j]
            == m.nodes@[j] by {
            assert(strips_node(b.nodes@[j], m.nodes@[j]));
            assert(strips_node(b.nodes@[j], e.manifest.nodes@[j]));
        }
    }
    assert forall|j: int| 0 <= j < e.nodes@.len() implies files.contains_key(
        (#[trigger] e.nodes@[j]).path@,
    ) && files[e.nodes@[j].path@] == e.nodes@[j].contents@ by {
        assert(writes_node(b.nodes@[j], e.nodes@[j]));
        assert(embeds_node(b.nodes@[j], files));
    }
    assert forall|i: int, k: int|
        0 <= i < e.widgets@.len() && 0 <= k < e.widgets@[i]@.len() implies files.contains_key(
        (#[trigger] e.widgets@[i]@[k]).path@,
    ) && files[e.widgets@[i]@[k].path@] == e.widgets@[i]@[k].contents@ by {
        assert(writes_widget(b.widgets@[i], e.widgets@[i]@));
        assert(embeds_widget(b.widgets@[i], files));
        assert(widget_paths_spec(b.widgets@[i].widget_id@)[k] == e.widgets@[i]@[k].path@);
    }
    assert forall|j: int| 0 <= j < m.nodes@.len() implies (#[trigger] e.nodes@[j]).path@
        == node_path_spec(m.nodes@[j].node_id@) by {
        assert(writes_node(b.nodes@[j], e.nodes@[j]));
        assert(strips_node(b.nodes@[j], m.nodes@[j]));
    }
    assert forall|i: int| 0 <= i < m.widgets@.len() implies views_of_paths(
        (#[trigger] e.widgets@[i])@,
    ) == widget_paths_spec(m.widgets@[i].widget_id@) by {
        assert(writes_widget(b.widgets@[i], e.widgets@[i]@));
        assert(strips_widget(b.widgets@[i], m.widgets@[i]));
        assert(views_of_paths(e.widgets@[i]@) =~= widget_paths_spec(m.widgets@[i].widget_id@));
    }
}

/// The paths of a sequence of file entries.
pub open spec fn views_of_paths(ws: Seq<FileEntry>) -> Seq<Seq<char>> {
    ws.map_values(|f: FileEntry| f.path@)
}

/// Two bundles with the same fields, the same descriptors in the same order,
/// and byte for byte the same embedded files.
pub open spec fn same_bundle(a: Opb, b: Opb) -> bool {
    &&& a.plugin_name == b.plugin_name
    &&& a.plugin_id == b.plugin_id
    &&& a.plugin_description == b.plugin_description
    &&& a.plugin_version == b.plugin_version
    &&& a.plugin_author == b.plugin_author
    &&& a.plugin_category_label == b.plugin_category_label
    &&& a.widgets@.len() == b.widgets@.len()
    &&& forall|i: int|
        0 <= i < a.widgets@.len() ==> {
            &&& (#[trigger] a.widgets@[i]).widget_name == b.widgets@[i].widget_name
            &&& a.widgets@[i].widget_id == b.widgets@[i].widget_id
            &&& a.widgets@[i].prototype == b.widgets@[i].prototype
            &&& widget_contents(a.widgets@[i]) == widget_contents(b.widgets@[i])
        }
    &&& a.nodes@.len() == b.nodes@.len()
    &&& forall|j: int|
        0 <= j < a.nodes@.len() ==> {
            &&& (#[trigger] a.nodes@[j]).node_name == b.nodes@[j].node_name
            &&& a.nodes@[j].node_id == b.nodes@[j].node_id
            &&& a.nodes@[j].js.js@ == b.nodes@[j].js.js@
        }
    &&& a.icon.svg@ == b.icon.svg@
}

/// Bundling is deterministic: two bundles of one project, unchanged in
/// between, are identical.
pub proof fn lemma_bundle_deterministic(
    m: PluginJson,
    files: Map<Seq<char>, Seq<char>>,
    b1: Opb,
    b2: Opb,
)
    requires
        bundles(b1, m, files),
        bundles(b2, m, files),
    ensures
        same_bundle(b1, b2),
{
    assert forall|i: int| 0 <= i < b1.widgets@.len() implies {
        &&& (#[trigger] b1.widgets@[i]).widget_name == b2.widgets@[i].widget_name
        &&& b1.widgets@[i].widget_id == b2.widgets@[i].widget_id
        &&& b1.widgets@[i].prototype == b2.widgets@[i].prototype
        &&& widget_contents(b1.widgets@[i]) == widget_contents(b2.widgets@[i])
    } by {
        let (w1, w2) = (b1.widgets@[i], b2.widgets@[i]);
        assert(strips_widget(w1, m.widgets@[i]));
        assert(strips_widget(w2, m.widgets@[i]));
        assert(embeds_widget(w1, files));
        assert(embeds_widget(w2, files));
        let p = widget_paths_spec(w1.widget_id@);
        assert forall|k: int| 0 <= k < 4 implies widget_contents(w1)[k] == widget_contents(w2)[k] by {
            assert(files[p[k]] == widget_contents(w1)[k]);
        }
        assert(widget_contents(w1) =~= widget_contents(w2));
    }
    assert forall|j: int| 0 <= j < b1.nodes@.len() implies {
        &&& (#[trigger] b1.nodes@[j]).node_name == b2.nodes@[j].node_name
        &&& b1.nodes@[j].node_id == b2.nodes@[j].node_id
        &&& b1.nodes@[j].js.js@ == b2.nodes@[j].js.js@
    } by {
        assert(strips_node(b1.nodes@[j], m.nodes@[j]));
        assert(strips_node(b2.nodes@[j], m.nodes@[j]));
        assert(embeds_node(b1.nodes@[j], files));
        assert(embeds_node(b2.nodes@[j], files));
    }
}

/// Every write of `e` holds in `files`: the files at the destination are
/// those that the extraction wrote.
pub open spec fn holds_writes(e: Extraction, files: Map<Seq<char>, Seq<char>>) -> bool {
    &&& files.contains_key(e.icon.path@) && files[e.icon.path@] == e.icon.contents@
    &&& forall|j: int|
        0 <= j < e.nodes@.len() ==> files.contains_key((#[trigger] e.nodes@[j]).path@)
            && files[e.nodes@[j].path@] == e.nodes@[j].contents@
    &&& forall|i: int, k: int|
        0 <= i < e.widgets@.len() && 0 <= k < e.widgets@[i]@.len() ==> files.contains_key(
            (#[trigger] e.widgets@[i]@[k]).path@,
        ) && files[e.widgets@[i]@[k].path@] == e.widgets@[i]@[k].contents@
}

/// Bundling an extracted project gives the bundle back: where the files hold
/// what extracting `b` wrote, bundling the extracted manifest finds every file
/// and yields a bundle identical to `b`.
pub proof fn lemma_bundle_of_extract(
    b: Opb,
    e: Extraction,
    files: Map<Seq<char>, Seq<char>>,
    again: Opb,
)
    requires
        extracts(b, e),
        holds_writes(e, files),
    ensures
        first_missing_file(e.manifest, files) is None,
        files.contains_key(icon_path_spec()),
        bundles(again, e.manifest, files) ==> same_bundle(again, b),
{
    let m = e.manifest;
    assert forall|i: int| 0 <= i < m.widgets@.len() implies widget_missing(
        (#[trigger] m.widgets@[i]).widget_id@,
        files,
    ) is None by {
        assert(strips_widget(b.widgets@[i], m.widgets@[i]));
        assert(writes_widget(b.widgets@[i], e.widgets@[i]@));
        let ws = e.widgets@[i]@;
        assert(files.contains_key(ws[0].path@) && files.contains_key(ws[1].path@)
            && files.contains_key(ws[2].path@) && files.contains_key(ws[3].path@));
    }
    lemma_no_missing_widget(m.widgets@, files, 0);
    assert forall|j: int| 0 <= j < m.nodes@.len() implies files.contains_key(
        node_path_spec((#[trigger] m.nodes@[j]).node_id@),
    ) by {
        assert(strips_node(b.nodes@[j], m.nodes@[j]));
        assert(writes_node(b.nodes@[j], e.nodes@[j]));
    }
    lemma_no_missing_node(m.nodes@, files, 0);
    if bundles(again, m, files) {
        assert forall|i: int| 0 <= i < again.widgets@.len() implies {
            &&& (#[trigger] again.widgets@[i]).widget_name == b.widgets@[i].widget_name
            &&& again.widgets@[i].widget_id == b.widgets@[i].widget_id
            &&& again.widgets@[i].prototype == b.widgets@[i].prototype
            &&& widget_contents(again.widgets@[i]) == widget_contents(b.widgets@[i])
        } by {
            let (w1, w2) = (again.widgets@[i], b.widgets@[i]);
            assert(strips_widget(w1, m.widgets@[i]));
            assert(strips_widget(w2, m.widgets@[i]));
            assert(embeds_widget(w1, files));
            assert(writes_widget(w2, e.widgets@[i]@));
            assert forall|k: int| 0 <= k < 4 implies widget_contents(w1)[k] == widget_contents(
                w2,
            )[k] by {
                assert(e.widgets@[i]@[k].path@ == widget_paths_spec(w1.widget_id@)[k]);
            }
            assert(widget_contents(w1) =~= widget_contents(w2));
        }
        assert forall|j: int| 0 <= j < again.nodes@.len() implies {
            &&& (#[trigger] again.nodes@[j]).node_name == b.nodes@[j].node_name
            &&& again.nodes@[j].node_id == b.nodes@[j].node_id
            &&& again.nodes@[j].js.js@ == b.nodes@[j].js.js@
        } by {
            assert(strips_node(again.nodes@[j], m.nodes@[j]));
            assert(strips_node(b.nodes@[j], m.nodes@[j]));
            assert(embeds_node(again.nodes@[j], files));
            assert(writes_node(b.nodes@[j], e.nodes@[j]));
        }
    }
}

/// No widget from index `i` on misses a file, so none is reported.
proof fn lemma_no_missing_widget(ws: Seq<Widget>, files: Map<Seq<char>, Seq<char>>, i: int)
    requires
        0 <= i,
        forall|a: int| 0 <= a < ws.len() ==> widget_missing((#[trigger] ws[a]).widget_id@, files) is None,
    ensures
        missing_in_widgets(ws, files, i) is None,
    decreases ws.len() - i,
{
    if i < ws.len() {
        lemma_no_missing_widget(ws, files, i + 1);
    }
}

/// No node from index `i` on misses its file, so none is reported.
proof fn lemma_no_missing_node(ns: Seq<Node>, files: Map<Seq<char>, Seq<char>>, i: int)
    requires
        0 <= i,
        forall|a: int| 0 <= a < ns.len() ==> files.contains_key(node_path_spec((#[trigger] ns[a]).node_id@)),
    ensures
        missing_in_nodes(ns, files, i) is None,
    decreases ns.len() - i,
{
    if i < ns.len() {
        lemma_no_missing_node(ns, files, i + 1);
    }
}

/// The identifiers of `b` keep its files apart: widget identifiers are
/// pairwise distinct and hold no `/`, and so are node identifiers.
pub open spec fn path_safe(b: Opb) -> bool {
    &&& forall|i: int, j: int|
        0 <= i < j < b.widgets@.len() ==> (#[trigger] b.widgets@[i]).widget_id@ != (
        #[trigger] b.widgets@[j]).widget_id@
    &&& forall|i: int| 0 <= i < b.widgets@.len() ==> no_slash((#[trigger] b.widgets@[i]).widget_id@)
    &&& forall|i: int, j: int|
        0 <= i < j < b.nodes@.len() ==> (#[trigger] b.nodes@[i]).node_id@ != (
        #[trigger] b.nodes@[j]).node_id@
    &&& forall|i: int| 0 <= i < b.nodes@.len() ==> no_slash((#[trigger] b.nodes@[i]).node_id@)
}

/// A file of a widget is a widget file of its identifier.
proof fn lemma_widget_path_form(id: Seq<char>, k: int)
    requires
        0 <= k < 4,
    ensures
        exists|ext: Seq<char>| widget_paths_spec(id)[k] == widget_file_spec(id, ext),
{
    if k == 0 {
        assert(widget_paths_spec(id)[k] == widget_file_spec(id, "html"@));
    } else if k == 1 {
        assert(widget_paths_spec(id)[k] == widget_file_spec(id, "css"@));
    } else if k == 2 {
        assert(widget_paths_spec(id)[k] == widget_file_spec(id, "js"@));
    } else {
        assert(widget_paths_spec(id)[k] == widget_file_spec(id, "svg"@));
    }
}

/// Extraction never writes two files to one path when the identifiers of the
/// bundle are path-safe: whatever the order of the writes, the destination
/// ends up holding every one of them.
pub proof fn lemma_extraction_paths_distinct(b: Opb, e: Extraction)
    requires
        extracts(b, e),
        path_safe(b),
    ensures
        forall|j: int| 0 <= j < e.nodes@.len() ==> (#[trigger] e.nodes@[j]).path@ != e.icon.path@,
        forall|i: int, k: int|
            0 <= i < e.widgets@.len() && 0 <= k < e.widgets@[i]@.len() ==> (
            #[trigger] e.widgets@[i]@[k]).path@ != e.icon.path@,
        forall|j1: int, j2: int|
            0 <= j1 < e.nodes@.len() && 0 <= j2 < e.nodes@.len() && j1 != j2 ==> (
            #[trigger] e.nodes@[j1]).path@ != (#[trigger] e.nodes@[j2]).path@,
        forall|i: int, k: int, j: int|
            0 <= i < e.widgets@.len() && 0 <= k < e.widgets@[i]@.len() && 0 <= j
                < e.nodes@.len() ==> (#[trigger] e.widgets@[i]@[k]).path@ != (
            #[trigger] e.nodes@[j]).path@,
        forall|i1: int, k1: int, i2: int, k2: int|
            0 <= i1 < e.widgets@.len() && 0 <= k1 < e.widgets@[i1]@.len() && 0 <= i2
                < e.widgets@.len() && 0 <= k2 < e.widgets@[i2]@.len() && (i1 != i2 || k1 != k2)
                ==> (#[trigger] e.widgets@[i1]@[k1]).path@ != (#[trigger] e.widgets@[i2]@[k2]).path@,
{
    assert forall|j: int| 0 <= j < e.nodes@.len() implies (#[trigger] e.nodes@[j]).path@
        != e.icon.path@ by {
        assert(writes_node(b.nodes@[j], e.nodes@[j]));
        lemma_node_paths_distinct(b.nodes@[j].node_id@, b.nodes@[j].node_id@);
    }
    assert forall|j1: int, j2: int|
        0 <= j1 < e.nodes@.len() && 0 <= j2 < e.nodes@.len() && j1 != j2 implies (
    #[trigger] e.nodes@[j1]).path@ != (#[trigger] e.nodes@[j2]).path@ by {
        assert(writes_node(b.nodes@[j1], e.nodes@[j1]));
        assert(writes_node(b.nodes@[j2], e.nodes@[j2]));
        if j1 < j2 {
            assert(b.nodes@[j1].node_id@ != b.nodes@[j2].node_id@);
        } else {
            assert(b.nodes@[j2].node_id@ != b.nodes@[j1].node_id@);
        }
        lemma_node_paths_distinct(b.nodes@[j1].node_id@, b.nodes@[j2].node_id@);
    }
    assert forall|i: int, k: int|
        0 <= i < e.widgets@.len() && 0 <= k < e.widgets@[i]@.len() implies (
    #[trigger] e.widgets@[i]@[k]).path@ != e.icon.path@ by {
        let id = b.widgets@[i].widget_id@;
        assert(writes_widget(b.widgets@[i], e.widgets@[i]@));
        lemma_widget_path_form(id, k);
        let ext = choose|ext: Seq<char>| widget_paths_spec(id)[k] == widget_file_spec(id, ext);
        lemma_widget_file_not_root(id, ext, Seq::empty());
    }
    assert forall|i: int, k: int, j: int|
        0 <= i < e.widgets@.len() && 0 <= k < e.widgets@[i]@.len() && 0 <= j
            < e.nodes@.len() implies (#[trigger] e.widgets@[i]@[k]).path@ != (
    #[trigger] e.nodes@[j]).path@ by {
        let id = b.widgets@[i].widget_id@;
        assert(writes_widget(b.widgets@[i], e.widgets@[i]@));
        assert(writes_node(b.nodes@[j], e.nodes@[j]));
        assert(no_slash(b.nodes@[j].node_id@));
        lemma_widget_path_form(id, k);
        let ext = choose|ext: Seq<char>| widget_paths_spec(id)[k] == widget_file_spec(id, ext);
        lemma_widget_file_not_root(id, ext, b.nodes@[j].node_id@);
    }
    assert forall|i1: int, k1: int, i2: int, k2: int|
        0 <= i1 < e.widgets@.len() && 0 <= k1 < e.widgets@[i1]@.len() && 0 <= i2
            < e.widgets@.len() && 0 <= k2 < e.widgets@[i2]@.len() && (i1 != i2 || k1 != k2) implies (
    #[trigger] e.widgets@[i1]@[k1]).path@ != (#[trigger] e.widgets@[i2]@[k2]).path@ by {
        let a = b.widgets@[i1].widget_id@;
        let c = b.widgets@[i2].widget_id@;
        assert(writes_widget(b.widgets@[i1], e.widgets@[i1]@));
        assert(writes_widget(b.widgets@[i2], e.widgets@[i2]@));
        if i1 == i2 {
            lemma_widget_paths_distinct(a, k1, k2);
        } else {
            if i1 < i2 {
                assert(a != c);
            } else {
                assert(c != a);
            }
            assert(no_slash(a) && no_slash(c));
            lemma_widget_path_form(a, k1);
            lemma_widget_path_form(c, k2);
            let ea = choose|ext: Seq<char>| widget_paths_spec(a)[k1] == widget_file_spec(a, ext);
            let ec = choose|ext: Seq<char>| widget_paths_spec(c)[k2] == widget_file_spec(c, ext);
            if widget_file_spec(a, ea) == widget_file_spec(c, ec) {
                lemma_widget_file_prefix(a, ea, c, ec);
            }
        }
    }
}

} // verus!
