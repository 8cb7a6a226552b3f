use vstd::prelude::*;

verus! {

/// A JSON value whose shape nobody fixed: the parameters of a widget
/// prototype. Numbers are held as their JSON text, exactly as written.
#[derive(Debug, PartialEq)]
pub enum JsonValue {
    Null,
    Bool(bool),
    Number(String),
    Str(String),
    Array(Vec<JsonValue>),
    Object(Vec<(String, JsonValue)>),
}

/// The layout of a widget on the dashboard. Each number is held as its JSON
/// text (`"8.0"`), so that it passes through unchanged.
#[derive(Debug, PartialEq)]
pub struct Prototype {
    pub pos_x: String,
    pub pos_y: String,
    pub size_x: String,
    pub size_y: String,
    pub sim_x: String,
    pub sim_y: String,
    pub sim_resize_x: String,
    pub sim_resize_y: String,
    /// `[min, max]` for each axis.
    pub size_bounds: Vec<Vec<String>>,
    pub params: JsonValue,
}

/// The geometry that a new widget starts with: at the origin, 8 by 8, resizable
/// from 3 to 30 on each axis, no parameters.
pub open spec fn is_default_prototype(p: Prototype) -> bool {
    &&& p.pos_x@ == "0.0"@
    &&& p.pos_y@ == "0.0"@
    &&& p.size_x@ == "8.0"@
    &&& p.size_y@ == "8.0"@
    &&& p.sim_x@ == "0.0"@
    &&& p.sim_y@ == "0.0"@
    &&& p.sim_resize_x@ == "0.0"@
    &&& p.sim_resize_y@ == "0.0"@
    &&& p.size_bounds@.len() == 2
    &&& forall|k: int|
        0 <= k < 2 ==> {
            &&& (#[trigger] p.size_bounds@[k])@.len() == 2
            &&& p.size_bounds@[k]@[0]@ == "3.0"@
            &&& p.size_bounds@[k]@[1]@ == "30.0"@
        }
    &&& p.params matches JsonValue::Object(members) && members@.len() == 0
}

fn bounds(min: &str, max: &str) -> (r: Vec<String>)
    ensures
        r@.len() == 2,
        r@[0]@ == min@,
        r@[1]@ == max@,
{
    let mut r: Vec<String> = Vec::new();
    r.push(String::from_str(min));
    r.push(String::from_str(max));
    r
}

impl Default for Prototype {
    fn default() -> (r: Prototype)
        ensures
            is_default_prototype(r),
    {
        let mut size_bounds: Vec<Vec<String>> = Vec::new();
        size_bounds.push(bounds("3.0", "30.0"));
        size_bounds.push(bounds("3.0", "30.0"));
        Prototype {
            pos_x: String::from_str("0.0"),
            pos_y: String::from_str("0.0"),
            size_x: String::from_str("8.0"),
            size_y: String::from_str("8.0"),
            sim_x: String::from_str("0.0"),
            sim_y: String::from_str("0.0"),
            sim_resize_x: String::from_str("0.0"),
            sim_resize_y: String::from_str("0.0"),
            size_bounds,
            params: JsonValue::Object(Vec::new()),
        }
    }
}

/// A widget as the manifest describes it: no file contents, only the
/// identifier by which its files are found.
#[derive(Debug, PartialEq)]
pub struct Widget {
    pub widget_name: String,
    pub widget_id: String,
    pub prototype: Prototype,
}

/// A node as the manifest describes it.
#[derive(Debug, Clone, PartialEq)]
pub struct Node {
    pub node_name: String,
    pub node_id: String,
}

/// The manifest of a plugin project (`plugin.json`).
#[derive(Debug, PartialEq)]
pub struct PluginJson {
    pub plugin_name: String,
    pub plugin_id: String,
    pub plugin_description: String,
    pub plugin_version: String,
    pub plugin_author: String,
    pub plugin_category_label: String,
    pub widgets: Vec<Widget>,
    pub nodes: Vec<Node>,
}

/// The contents of the four files of a widget.
#[derive(Debug, Clone, PartialEq)]
pub struct WidgetFiles {
    pub html: String,
    pub css: String,
    pub js: String,
    pub svg: String,
}

/// A widget with its files embedded.
#[derive(Debug, PartialEq)]
pub struct FullWidget {
    pub widget_name: String,
    pub widget_id: String,
    pub prototype: Prototype,
    pub file_contents: WidgetFiles,
}

/// The contents of the file of a node.
#[derive(Debug, Clone, PartialEq)]
pub struct NodeFiles {
    pub js: String,
}

/// A node with its file embedded.
#[derive(Debug, Clone, PartialEq)]
pub struct FullNode {
    pub node_name: String,
    pub node_id: String,
    pub js: NodeFiles,
}

/// The contents of the project icon.
#[derive(Debug, Clone, PartialEq)]
pub struct IconFileContents {
    pub svg: String,
}

/// A bundle (`.opb`): the manifest with every file of every element, and the
/// icon, embedded. It depends on no file system.
#[derive(Debug, PartialEq)]
pub struct Opb {
    pub plugin_name: String,
    pub plugin_id: String,
    pub plugin_description: String,
    pub plugin_version: String,
    pub plugin_author: String,
    pub plugin_category_label: String,
    pub widgets: Vec<FullWidget>,
    pub nodes: Vec<FullNode>,
    pub icon: IconFileContents,
}

/// The arguments of the command that creates a plugin.
#[derive(Debug, Clone)]
pub struct Create {
    pub name: String,
    pub blank: bool,
}

/// The arguments of the command that adds a node.
#[derive(Debug, Clone)]
pub struct AddNode {
    pub name: String,
}

/// The arguments of the command that adds a widget.
#[derive(Debug, Clone)]
pub struct AddWidget {
    pub name: String,
}

/// The arguments of the command that extracts a bundle.
#[derive(Debug, Clone)]
pub struct Extract {
    pub origin_path: String,
}

/// What can go wrong in an operation on a plugin project.
#[derive(Debug, Clone, PartialEq, Eq)]
pub enum OpcError {
    /// No manifest at the project root.
    NotAPluginProject,
    /// The manifest does not have the expected shape.
    MalformedManifest,
    /// An identifier breaks the naming rule.
    InvalidIdentifier,
    /// An element, or a directory, of that name is already there.
    ElementAlreadyExists,
    /// The manifest has no element of that identifier.
    ElementNotFound,
    /// A file of an element (its identifier, then the path) is missing.
    MissingElementFile(String, String),
    /// The project icon is missing.
    MissingIcon,
    /// The destination of an extraction is already there.
    DestinationExists,
    /// A file could not be written.
    WriteFailure,
    /// Writing an extracted project failed, for the reason given.
    ExtractionFailed(String),
}

} // verus!
