use vstd::prelude::*;

use crate::models::{is_default_prototype, Node, OpcError, PluginJson, Prototype, Widget};

verus! {

/// The manifest lists a widget with identifier `id`.
pub open spec fn has_widget(m: PluginJson, id: Seq<char>) -> bool {
    exists|i: int| 0 <= i < m.widgets@.len() && (#[trigger] m.widgets@[i]).widget_id@ == id
}

/// The manifest lists a node with identifier `id`.
pub open spec fn has_node(m: PluginJson, id: Seq<char>) -> bool {
    exists|i: int| 0 <= i < m.nodes@.len() && (#[trigger] m.nodes@[i]).node_id@ == id
}

/// No two widgets share an identifier, and no two nodes do.
pub open spec fn ids_unique(m: PluginJson) -> bool {
    &&& forall|i: int, j: int|
        0 <= i < j < m.widgets@.len() ==> (#[trigger] m.widgets@[i]).widget_id@ != (
        #[trigger] m.widgets@[j]).widget_id@
    &&& forall|i: int, j: int|
        0 <= i < j < m.nodes@.len() ==> (#[trigger] m.nodes@[i]).node_id@ != (
        #[trigger] m.nodes@[j]).node_id@
}

/// `a` and `b` agree on every field but the widgets.
pub open spec fn same_but_widgets(a: PluginJson, b: PluginJson) -> bool {
    &&& a.plugin_name == b.plugin_name
    &&& a.plugin_id == b.plugin_id
    &&& a.plugin_description == b.plugin_description
    &&& a.plugin_version == b.plugin_version
    &&& a.plugin_author == b.plugin_author
    &&& a.plugin_category_label == b.plugin_category_label
    &&& a.nodes == b.nodes
}

/// `a` and `b` agree on every field but the nodes.
pub open spec fn same_but_nodes(a: PluginJson, b: PluginJson) -> bool {
    &&& a.plugin_name == b.plugin_name
    &&& a.plugin_id == b.plugin_id
    &&& a.plugin_description == b.plugin_description
    &&& a.plugin_version == b.plugin_version
    &&& a.plugin_author == b.plugin_author
    &&& a.plugin_category_label == b.plugin_category_label
    &&& a.widgets == b.widgets
}

/// `i` is the first index of a widget with identifier `id`.
pub open spec fn first_widget_at(m: PluginJson, id: Seq<char>, i: int) -> bool {
    &&& 0 <= i < m.widgets@.len()
    &&& m.widgets@[i].widget_id@ == id
    &&& forall|j: int| 0 <= j < i ==> (#[trigger] m.widgets@[j]).widget_id@ != id
}

/// `i` is the first index of a node with identifier `id`.
pub open spec fn first_node_at(m: PluginJson, id: Seq<char>, i: int) -> bool {
    &&& 0 <= i < m.nodes@.len()
    &&& m.nodes@[i].node_id@ == id
    &&& forall|j: int| 0 <= j < i ==> (#[trigger] m.nodes@[j]).node_id@ != id
}

/// Removing one entry keeps identifiers distinct, and with distinct
/// identifiers none is left with the identifier removed.
proof fn lemma_remove_keeps_unique<T>(s: Seq<T>, key: spec_fn(T) -> Seq<char>, i: int)
    requires
        0 <= i < s.len(),
        forall|a: int, b: int| 0 <= a < b < s.len() ==> key(#[trigger] s[a]) != key(#[trigger] s[b]),
    ensures
        forall|a: int, b: int|
            0 <= a < b < s.remove(i).len() ==> key(#[trigger] s.remove(i)[a]) != key(
                #[trigger] s.remove(i)[b],
            ),
        forall|a: int| 0 <= a < s.remove(i).len() ==> key(#[trigger] s.remove(i)[a]) != key(s[i]),
{
    let r = s.remove(i);
    assert forall|a: int| 0 <= a < r.len() implies r[a] == (if a < i {
        s[a]
    } else {
        s[a + 1]
    }) by {}
    assert forall|a: int, b: int| 0 <= a < b < r.len() implies key(#[trigger] r[a]) != key(
        #[trigger] r[b],
    ) by {
        let sa = if a < i {
            a
        } else {
            a + 1
        };
        let sb = if b < i {
            b
        } else {
            b + 1
        };
        assert(r[a] == s[sa] && r[b] == s[sb] && sa < sb);
    }
    assert forall|a: int| 0 <= a < r.len() implies key(#[trigger] r[a]) != key(s[i]) by {
        if a < i {
            assert(r[a] == s[a]);
        } else {
            assert(r[a] == s[a + 1]);
        }
    }
}

impl Default for PluginJson {
    /// The manifest of a freshly created plugin, with one sample widget and
    /// one sample node.
    fn default() -> (r: PluginJson)
        ensures
            r.plugin_name@ == "Plugin Name"@,
            r.plugin_id@ == "Plugin ID"@,
            r.plugin_description@ == "Plugin Description"@,
            r.plugin_version@ == "1.0.0"@,
            r.plugin_author@ == "Plugin Author"@,
            r.plugin_category_label@ == "Category Label"@,
            r.widgets@.len() == 1,
            r.widgets@[0].widget_name@ == "Sample Widget"@,
            r.widgets@[0].widget_id@ == "sampleWidget"@,
            is_default_prototype(r.widgets@[0].prototype),
            r.nodes@.len() == 1,
            r.nodes@[0].node_name@ == "Sample Node"@,
            r.nodes@[0].node_id@ == "sampleNode"@,
    {
        let mut widgets: Vec<Widget> = Vec::new();
        widgets.push(
            Widget {
                widget_name: String::from_str("Sample Widget"),
                widget_id: String::from_str("sampleWidget"),
                prototype: Prototype::default(),
            },
        );
        let mut nodes: Vec<Node> = Vec::new();
        nodes.push(
            Node {
                node_name: String::from_str("Sample Node"),
                node_id: String::from_str("sampleNode"),
            },
        );
        PluginJson {
            plugin_name: String::from_str("Plugin Name"),
            plugin_id: String::from_str("Plugin ID"),
            plugin_description: String::from_str("Plugin Description"),
            plugin_version: String::from_str("1.0.0"),
            plugin_author: String::from_str("Plugin Author"),
            plugin_category_label: String::from_str("Category Label"),
            widgets,
            nodes,
        }
    }
}

impl PluginJson {
    /// The index of the first widget with identifier `id`.
    pub fn find_widget(&self, id: &String) -> (r: Option<usize>)
        ensures
            match r {
                Some(i) => first_widget_at(*self, id@, i as int),
                None => !has_widget(*self, id@),
            },
    {
        let mut i: usize = 0;
        while i < self.widgets.len()
            invariant
                i <= self.widgets@.len(),
                forall|j: int| 0 <= j < i ==> (#[trigger] self.widgets@[j]).widget_id@ != id@,
            decreases self.widgets@.len() - i,
        {
            if self.widgets[i].widget_id == *id {
                return Some(i);
            }
            i += 1;
        }
        None
    }

    /// The index of the first node with identifier `id`.
    pub fn find_node(&self, id: &String) -> (r: Option<usize>)
        ensures
            match r {
                Some(i) => first_node_at(*self, id@, i as int),
                None => !has_node(*self, id@),
            },
    {
        let mut i: usize = 0;
        while i < self.nodes.len()
            invariant
                i <= self.nodes@.len(),
                forall|j: int| 0 <= j < i ==> (#[trigger] self.nodes@[j]).node_id@ != id@,
            decreases self.nodes@.len() - i,
        {
            if self.nodes[i].node_id == *id {
                return Some(i);
            }
            i += 1;
        }
        None
    }

    /// Removes the node with identifier `id` from the manifest; the file
    /// system is not touched.
    pub fn remove_node(&mut self, id: String) -> (r: Result<(), OpcError>)
        ensures
            r is Ok <==> has_node(*old(self), id@),
            r is Ok ==> exists|i: int|
                first_node_at(*old(self), id@, i) && #[trigger] final(self).nodes@ == old(
                    self,
                ).nodes@.remove(i),
            r is Ok ==> same_but_nodes(*final(self), *old(self)),
            r is Err ==> (r matches Err(OpcError::ElementNotFound)) && *final(self) == *old(self),
            ids_unique(*old(self)) ==> ids_unique(*final(self)) && !has_node(*final(self), id@),
    {
        match self.find_node(&id) {
            Some(i) => {
                let ghost before = *self;
                self.nodes.remove(i);
                proof {
                    if ids_unique(before) {
                        lemma_remove_keeps_unique(before.nodes@, |n: Node| n.node_id@, i as int);
                        assert forall|a: int, b: int|
                            0 <= a < b < self.nodes@.len() implies (#[trigger] self.nodes@[a]).node_id@
                            != (#[trigger] self.nodes@[b]).node_id@ by {
                            assert((|n: Node| n.node_id@)(self.nodes@[a]) != (|n: Node| n.node_id@)(
                                self.nodes@[b],
                            ));
                        }
                        assert forall|a: int| 0 <= a < self.nodes@.len() implies (
                        #[trigger] self.nodes@[a]).node_id@ != id@ by {
                            assert((|n: Node| n.node_id@)(self.nodes@[a]) != (|n: Node| n.node_id@)(
                                before.nodes@[i as int],
                            ));
                        }
                    }
                }
                Ok(())
            },
            None => Err(OpcError::ElementNotFound),
        }
    }

    /// Removes the widget with identifier `id` from the manifest; the file
    /// system is not touched.
    pub fn remove_widget(&mut self, id: String) -> (r: Result<(), OpcError>)
        ensures
            r is Ok <==> has_widget(*old(self), id@),
            r is Ok ==> exists|i: int|
                first_widget_at(*old(self), id@, i) && #[trigger] final(self).widgets@ == old(
                    self,
                ).widgets@.remove(i),
            r is Ok ==> same_but_widgets(*final(self), *old(self)),
            r is Err ==> (r matches Err(OpcError::ElementNotFound)) && *final(self) == *old(self),
            ids_unique(*old(self)) ==> ids_unique(*final(self)) && !has_widget(*final(self), id@),
    {
        match self.find_widget(&id) {
            Some(i) => {
                let ghost before = *self;
                self.widgets.remove(i);
                proof {
                    if ids_unique(before) {
                        lemma_remove_keeps_unique(
                            before.widgets@,
                            |w: Widget| w.widget_id@,
                            i as int,
                        );
                        assert forall|a: int, b: int|
                            0 <= a < b < self.widgets@.len() implies (
                        #[trigger] self.widgets@[a]).widget_id@ != (
                        #[trigger] self.widgets@[b]).widget_id@ by {
                            assert((|w: Widget| w.widget_id@)(self.widgets@[a]) != (|w: Widget|
                                w.widget_id@)(self.widgets@[b]));
                        }
                        assert forall|a: int| 0 <= a < self.widgets@.len() implies (
                        #[trigger] self.widgets@[a]).widget_id@ != id@ by {
                            assert((|w: Widget| w.widget_id@)(self.widgets@[a]) != (|w: Widget|
                                w.widget_id@)(before.widgets@[i as int]));
                        }
                    }
                }
                Ok(())
            },
            None => Err(OpcError::ElementNotFound),
        }
    }
}

} // verus!
