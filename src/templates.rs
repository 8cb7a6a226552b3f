use vstd::prelude::*;

verus! {

/// The stub script of a new widget whose class is named `name`.
pub open spec fn widget_js_spec(name: Seq<char>) -> Seq<char> {
    "export default class "@ + name
        + " {\n    constructor(element, params) {\n        this.element = element;\n        this.params = params;\n    }\n}\n"@
}

/// The stub script of a new node whose class is named `name`.
pub open spec fn node_js_spec(name: Seq<char>) -> Seq<char> {
    "export default class "@ + name + " {\n    run(inputs) {\n        return inputs;\n    }\n}\n"@
}

/// The stub script of a new widget: a class named after the widget.
pub fn widget_js(name: &str) -> (r: String)
    ensures
        r@ == widget_js_spec(name@),
{
    let mut r = String::from_str("export default class ");
    r.append(name);
    r.append(
        " {\n    constructor(element, params) {\n        this.element = element;\n        this.params = params;\n    }\n}\n",
    );
    r
}

/// The stub script of a new node: a class named after the node.
pub fn node_js(name: &str) -> (r: String)
    ensures
        r@ == node_js_spec(name@),
{
    let mut r = String::from_str("export default class ");
    r.append(name);
    r.append(" {\n    run(inputs) {\n        return inputs;\n    }\n}\n");
    r
}

/// The icon of a freshly created plugin.
pub fn sample_icon_svg() -> (r: String)
    ensures
        r@ == "<svg xmlns=\"http://www.w3.org/2000/svg\" viewBox=\"0 0 24 24\"><rect x=\"3\" y=\"3\" width=\"18\" height=\"18\" rx=\"4\"/></svg>\n"@,
{
    String::from_str("<svg xmlns=\"http://www.w3.org/2000/svg\" viewBox=\"0 0 24 24\"><rect x=\"3\" y=\"3\" width=\"18\" height=\"18\" rx=\"4\"/></svg>\n")
}

/// The markup of the sample widget of a freshly created plugin.
pub fn sample_widget_html() -> (r: String)
    ensures
        r@ == "<div class=\"sampleWidget\">Sample Widget</div>\n"@,
{
    String::from_str("<div class=\"sampleWidget\">Sample Widget</div>\n")
}

/// The style sheet of the sample widget of a freshly created plugin.
pub fn sample_widget_css() -> (r: String)
    ensures
        r@ == ".sampleWidget {\n    padding: 8px;\n}\n"@,
{
    String::from_str(".sampleWidget {\n    padding: 8px;\n}\n")
}

/// The script of the sample widget of a freshly created plugin.
pub fn sample_widget_js() -> (r: String)
    ensures
        r@ == widget_js_spec("sampleWidget"@),
{
    widget_js("sampleWidget")
}

/// The preview image of the sample widget of a freshly created plugin.
pub fn sample_widget_svg() -> (r: String)
    ensures
        r@ == "<svg xmlns=\"http://www.w3.org/2000/svg\" viewBox=\"0 0 24 24\"><circle cx=\"12\" cy=\"12\" r=\"9\"/></svg>\n"@,
{
    String::from_str("<svg xmlns=\"http://www.w3.org/2000/svg\" viewBox=\"0 0 24 24\"><circle cx=\"12\" cy=\"12\" r=\"9\"/></svg>\n")
}

} // verus!
