use vstd::prelude::*;

verus! {

/// Whether `c` is an ASCII capital letter.
pub open spec fn is_upper(c: char) -> bool {
    'A' <= c && c <= 'Z'
}

/// The ASCII capital of `c`, or `c` itself when it is no ASCII small letter.
pub open spec fn upper_of(c: char) -> char {
    if 'a' <= c && c <= 'z' {
        ((c as u32) - 32) as char
    } else {
        c
    }
}

/// The naming rule for element and plugin identifiers (lowerCamelCase): not
/// empty, not starting with a capital, and holding neither `_` nor `-`.
pub open spec fn valid_identifier(s: Seq<char>) -> bool {
    &&& s.len() > 0
    &&& !is_upper(s[0])
    &&& forall|i: int| 0 <= i < s.len() ==> s[i] != '_' && s[i] != '-'
}

/// One character of an identifier as it appears in a display name.
pub open spec fn spaced(c: char) -> Seq<char> {
    if is_upper(c) {
        seq![' ', c]
    } else {
        seq![c]
    }
}

/// Every character of `s`, each capital preceded by a space.
pub open spec fn spaced_all(s: Seq<char>) -> Seq<char>
    decreases s.len(),
{
    if s.len() == 0 {
        Seq::empty()
    } else {
        spaced_all(s.drop_last()) + spaced(s.last())
    }
}

/// How the first character of an identifier opens its display name.
pub open spec fn display_head(c: char) -> Seq<char> {
    if is_upper(c) {
        seq![' ', c]
    } else {
        seq![upper_of(c)]
    }
}

/// The human-readable name of a lowerCamelCase identifier: a space before each
/// capital, and the first character capitalised (`sampleWidget` gives
/// `Sample Widget`).
pub open spec fn display_name(s: Seq<char>) -> Seq<char> {
    if s.len() == 0 {
        Seq::empty()
    } else {
        display_head(s[0]) + spaced_all(s.drop_first())
    }
}

/// Where the file of a widget with extension `ext` lives: `id/id.ext`.
pub open spec fn widget_file_spec(id: Seq<char>, ext: Seq<char>) -> Seq<char> {
    id + "/"@ + id + "."@ + ext
}

/// The four files of a widget, in the order html, css, js, svg.
pub open spec fn widget_paths_spec(id: Seq<char>) -> Seq<Seq<char>> {
    seq![
        widget_file_spec(id, "html"@),
        widget_file_spec(id, "css"@),
        widget_file_spec(id, "js"@),
        widget_file_spec(id, "svg"@),
    ]
}

/// The one file of a node: `id.js` at the project root.
pub open spec fn node_path_spec(id: Seq<char>) -> Seq<char> {
    id + ".js"@
}

/// The project icon, at the project root.
pub open spec fn icon_path_spec() -> Seq<char> {
    "icon.svg"@
}

/// The views of a sequence of strings.
pub open spec fn views(v: Seq<String>) -> Seq<Seq<char>> {
    v.map_values(|s: String| s@)
}

/// The two kinds of element a plugin holds.
#[derive(Debug, Clone, Copy, PartialEq, Eq, Structural)]
pub enum ElementKind {
    Widget,
    Node,
}

/// The files that an element of the given kind owns, relative to the project
/// root.
pub open spec fn resolve_paths_spec(kind: ElementKind, id: Seq<char>) -> Seq<Seq<char>> {
    match kind {
        ElementKind::Widget => widget_paths_spec(id),
        ElementKind::Node => seq![node_path_spec(id)],
    }
}

/// Relies on char::to_ascii_uppercase: small ASCII letters become capitals,
/// every other character stays.
#[verifier::external_body]
fn ascii_upper(c: char) -> (r: char)
    ensures
        r == upper_of(c),
{
    c.to_ascii_uppercase()
}

/// Relies on String::push: the character is appended.
#[verifier::external_body]
fn push_char(s: &mut String, c: char)
    ensures
        final(s)@ == old(s)@.push(c),
{
    s.push(c)
}

/// Whether `c` is an ASCII capital letter.
pub fn is_ascii_upper(c: char) -> (r: bool)
    ensures
        r == is_upper(c),
{
    'A' <= c && c <= 'Z'
}

/// Whether `name` follows the identifier rule.
pub fn is_conform(name: &str) -> (r: bool)
    ensures
        r == valid_identifier(name@),
{
    let n = name.unicode_len();
    if n == 0 {
        return false;
    }
    if is_ascii_upper(name.get_char(0)) {
        return false;
    }
    let mut i: usize = 0;
    while i < n
        invariant
            n == name@.len(),
            i <= n,
            forall|j: int| 0 <= j < i ==> name@[j] != '_' && name@[j] != '-',
        decreases n - i,
    {
        let c = name.get_char(i);
        if c == '_' || c == '-' {
            return false;
        }
        i += 1;
    }
    true
}

proof fn lemma_spaced_all_step(s: Seq<char>, i: int)
    requires
        0 <= i < s.len(),
    ensures
        spaced_all(s.subrange(0, i + 1)) == spaced_all(s.subrange(0, i)) + spaced(s[i]),
{
    assert(s.subrange(0, i + 1).drop_last() =~= s.subrange(0, i));
}

/// The display name of an identifier: a space before each capital and the
/// first character capitalised.
pub fn split_l_camel_case(s: &str) -> (r: String)
    ensures
        r@ == display_name(s@),
{
    let n = s.unicode_len();
    let mut r = String::new();
    if n == 0 {
        return r;
    }
    proof {
        reveal_strlit(" ");
    }
    let first = s.get_char(0);
    if is_ascii_upper(first) {
        r.append(" ");
        push_char(&mut r, first);
    } else {
        push_char(&mut r, ascii_upper(first));
    }
    let ghost rest = s@.drop_first();
    assert(r@ =~= display_head(s@[0]) + spaced_all(rest.subrange(0, 0)));
    let mut i: usize = 1;
    while i < n
        invariant
            n == s@.len(),
            1 <= i <= n,
            rest == s@.drop_first(),
            r@ == display_head(s@[0]) + spaced_all(rest.subrange(0, i - 1)),
        decreases n - i,
    {
        let c = s.get_char(i);
        let ghost before = r@;
        proof {
            lemma_spaced_all_step(rest, i - 1);
            assert(rest[i - 1] == c);
            reveal_strlit(" ");
        }
        if is_ascii_upper(c) {
            r.append(" ");
            push_char(&mut r, c);
            assert(r@ =~= before + seq![' ', c]);
        } else {
            push_char(&mut r, c);
            assert(r@ =~= before + seq![c]);
        }
        assert(r@ =~= display_head(s@[0]) + spaced_all(rest.subrange(0, i as int)));
        i += 1;
    }
    assert(rest.subrange(0, n - 1) =~= rest);
    r
}

/// `id/id.ext`, the file of widget `id` with extension `ext`.
pub fn widget_file(id: &str, ext: &str) -> (r: String)
    ensures
        r@ == widget_file_spec(id@, ext@),
{
    let mut r = String::from_str(id);
    r.append("/");
    r.append(id);
    r.append(".");
    r.append(ext);
    r
}

/// The four files of widget `id`, in the order html, css, js, svg.
pub fn widget_paths(id: &str) -> (r: Vec<String>)
    ensures
        views(r@) == widget_paths_spec(id@),
{
    let mut r: Vec<String> = Vec::new();
    r.push(widget_file(id, "html"));
    r.push(widget_file(id, "css"));
    r.push(widget_file(id, "js"));
    r.push(widget_file(id, "svg"));
    assert(views(r@) =~= widget_paths_spec(id@));
    r
}

/// `id.js`, the file of node `id`.
pub fn node_path(id: &str) -> (r: String)
    ensures
        r@ == node_path_spec(id@),
{
    let mut r = String::from_str(id);
    r.append(".js");
    r
}

/// `icon.svg`, the project icon.
pub fn icon_path() -> (r: String)
    ensures
        r@ == icon_path_spec(),
{
    String::from_str("icon.svg")
}

/// The files that the element `id` of the given kind owns, relative to the
/// project root. Looks at no file system.
pub fn resolve_paths(kind: ElementKind, id: &str) -> (r: Vec<String>)
    ensures
        views(r@) == resolve_paths_spec(kind, id@),
{
    match kind {
        ElementKind::Widget => widget_paths(id),
        ElementKind::Node => {
            let mut r: Vec<String> = Vec::new();
            r.push(node_path(id));
            assert(views(r@) =~= seq![node_path_spec(id@)]);
            r
        },
    }
}

/// `s` holds no `/`: as an identifier, it names a file or directory directly
/// under the project root.
pub open spec fn no_slash(s: Seq<char>) -> bool {
    forall|i: int| 0 <= i < s.len() ==> s[i] != '/'
}

/// The prefix before the first `/` of a widget file is the widget's identifier.
pub proof fn lemma_widget_file_prefix(a: Seq<char>, ea: Seq<char>, b: Seq<char>, eb: Seq<char>)
    requires
        no_slash(a),
        no_slash(b),
        widget_file_spec(a, ea) == widget_file_spec(b, eb),
    ensures
        a == b,
{
    reveal_strlit("/");
    let p = widget_file_spec(a, ea);
    assert(p == a + ("/"@ + a + "."@ + ea)) by {
        assert(p =~= a + ("/"@ + a + "."@ + ea));
    }
    assert(p == b + ("/"@ + b + "."@ + eb)) by {
        assert(p =~= b + ("/"@ + b + "."@ + eb));
    }
    assert(p[a.len() as int] == '/');
    assert(p[b.len() as int] == '/');
    if a.len() < b.len() {
        assert(p[a.len() as int] == b[a.len() as int]);
    } else if b.len() < a.len() {
        assert(p[b.len() as int] == a[b.len() as int]);
    }
    assert(a =~= p.subrange(0, a.len() as int));
    assert(b =~= p.subrange(0, b.len() as int));
}

/// The four files of one widget are distinct.
pub proof fn lemma_widget_paths_distinct(id: Seq<char>, k1: int, k2: int)
    requires
        0 <= k1 < 4,
        0 <= k2 < 4,
        k1 != k2,
    ensures
        widget_paths_spec(id)[k1] != widget_paths_spec(id)[k2],
{
    reveal_strlit("/");
    reveal_strlit(".");
    reveal_strlit("html");
    reveal_strlit("css");
    reveal_strlit("js");
    reveal_strlit("svg");
    let at: int = 2 * (id.len() as int) + 2;
    let p1 = widget_paths_spec(id)[k1];
    let p2 = widget_paths_spec(id)[k2];
    assert(p1[at] != p2[at]);
}

/// A widget file holds a `/`; a node file or the icon, with identifiers free
/// of `/`, holds none.
pub proof fn lemma_widget_file_not_root(id: Seq<char>, ext: Seq<char>, nid: Seq<char>)
    requires
        no_slash(nid),
    ensures
        widget_file_spec(id, ext) != node_path_spec(nid),
        widget_file_spec(id, ext) != icon_path_spec(),
{
    reveal_strlit("/");
    reveal_strlit(".js");
    reveal_strlit("icon.svg");
    let p = widget_file_spec(id, ext);
    assert(p[id.len() as int] == '/');
    let n = node_path_spec(nid);
    assert(".js"@ =~= seq!['.', 'j', 's']);
    if p == n {
        assert(p.len() == n.len());
        if id.len() < nid.len() {
            assert(n[id.len() as int] == nid[id.len() as int]);
        } else {
            let k = id.len() - nid.len();
            assert(0 <= k < 3);
            assert(n[id.len() as int] == ".js"@[k]);
        }
    }
    let icon = icon_path_spec();
    assert(icon =~= seq!['i', 'c', 'o', 'n', '.', 's', 'v', 'g']);
    if p == icon {
        assert(id.len() < 8);
        assert(icon[id.len() as int] != '/');
    }
}

/// Node files of distinct identifiers are distinct, and none is the icon.
pub proof fn lemma_node_paths_distinct(a: Seq<char>, b: Seq<char>)
    ensures
        a != b ==> node_path_spec(a) != node_path_spec(b),
        node_path_spec(a) != icon_path_spec(),
{
    reveal_strlit(".js");
    reveal_strlit("icon.svg");
    if node_path_spec(a) == node_path_spec(b) {
        assert(a =~= node_path_spec(a).subrange(0, a.len() as int));
        assert(b =~= node_path_spec(b).subrange(0, b.len() as int));
    }
    let n = node_path_spec(a);
    assert(n[n.len() - 1] == 's');
}

} // verus!
