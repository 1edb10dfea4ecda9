//! Rendering rich text for the user interfaces: plain text, and HTML with the
//! text escaped.
use vstd::prelude::*;
use vstd::string::*;
use crate::message::{RichNode, node_text, nodes_text};

verus! {

/// Turns a message's nodes into something a user interface shows.
pub trait RichTextRenderer {
    type Output;

    fn render(nodes: &[RichNode]) -> Self::Output;
}

/// Renders nodes as HTML.
pub struct HtmlRenderer;

/// Renders nodes as plain text.
pub struct PlainTextRenderer;

/// The HTML for one character of text: the five characters that HTML gives a
/// meaning become entities, every other character stands for itself.
pub open spec fn escape_char(c: char) -> Seq<char> {
    if c == '&' {
        seq!['&', 'a', 'm', 'p', ';']
    } else if c == '<' {
        seq!['&', 'l', 't', ';']
    } else if c == '>' {
        seq!['&', 'g', 't', ';']
    } else if c == '"' {
        seq!['&', 'q', 'u', 'o', 't', ';']
    } else if c == '\'' {
        seq!['&', '#', '3', '9', ';']
    } else {
        seq![c]
    }
}

/// Text escaped for HTML, character by character. (Replacing `&` first and
/// then the other four characters, one after another, gives the same text,
/// since no replacement brings in a character that a later one replaces.)
pub open spec fn escape_html_spec(s: Seq<char>) -> Seq<char>
    decreases s.len(),
{
    if s.len() == 0 {
        Seq::empty()
    } else {
        escape_html_spec(s.drop_last()) + escape_char(s.last())
    }
}

/// The text that starts the HTML of a node this client does not show.
pub open spec fn unsupported_open() -> Seq<char> {
    "<span class=\"message-unsupported\" data-kind=\""@
}

/// The HTML of one node: escaped text, or a marked span that carries the
/// node's kind and shows its summary.
pub open spec fn html_node(node: RichNode) -> Seq<char> {
    match node {
        RichNode::Text { text } => escape_html_spec(text@),
        RichNode::Unsupported { kind, summary } => unsupported_open() + escape_html_spec(kind@) + "\">"@
            + escape_html_spec(summary@) + "</span>"@,
    }
}

/// The HTML of the nodes, one after another.
pub open spec fn html_nodes(nodes: Seq<RichNode>) -> Seq<char>
    decreases nodes.len(),
{
    if nodes.len() == 0 {
        Seq::empty()
    } else {
        html_nodes(nodes.drop_last()) + html_node(nodes.last())
    }
}

/// Law: the HTML of nodes put one after another is their HTML one after
/// another, whatever the nodes are and wherever they stand.
pub proof fn lemma_html_nodes_concat(a: Seq<RichNode>, b: Seq<RichNode>)
    ensures
        html_nodes(a + b) == html_nodes(a) + html_nodes(b),
    decreases b.len(),
{
    if b.len() == 0 {
        assert(a + b =~= a);
        assert(html_nodes(a) + html_nodes(b) =~= html_nodes(a));
    } else {
        lemma_html_nodes_concat(a, b.drop_last());
        assert((a + b).drop_last() =~= a + b.drop_last());
        assert((a + b).last() == b.last());
        assert(html_nodes(a) + html_nodes(b.drop_last()) + html_node(b.last()) =~= html_nodes(a) + (html_nodes(
            b.drop_last(),
        ) + html_node(b.last())));
    }
}

/// Law: a single text node is its escaped text; a single node this client
/// does not show is a span marked `message-unsupported` whose `data-kind` is
/// the escaped kind and whose content is the escaped summary.
pub proof fn lemma_html_nodes_single(n: RichNode)
    ensures
        html_nodes(seq![n]) == match n {
            RichNode::Text { text } => escape_html_spec(text@),
            RichNode::Unsupported { kind, summary } => "<span class=\"message-unsupported\" data-kind=\""@
                + escape_html_spec(kind@) + "\">"@ + escape_html_spec(summary@) + "</span>"@,
        },
{
    let one = seq![n];
    assert(one.drop_last() =~= Seq::<RichNode>::empty());
    assert(one.last() == n);
    assert(html_nodes(Seq::<RichNode>::empty()) == Seq::<char>::empty());
    assert(html_nodes(one) == html_nodes(one.drop_last()) + html_node(one.last()));
    assert(Seq::<char>::empty() + html_node(n) =~= html_node(n));
}

/// Escapes the five characters that HTML gives a meaning.
pub fn escape_html(value: &str) -> (escaped: String)
    ensures
        escaped@ == escape_html_spec(value@),
{
    let n = value.unicode_len();
    let mut escaped = String::new();
    for i in 0..n
        invariant
            n == value@.len(),
            escaped@ == escape_html_spec(value@.take(i as int)),
    {
        let c = value.get_char(i);
        if c == '&' {
            escaped.append("&amp;");
            proof { reveal_strlit("&amp;"); }
        } else if c == '<' {
            escaped.append("&lt;");
            proof { reveal_strlit("&lt;"); }
        } else if c == '>' {
            escaped.append("&gt;");
            proof { reveal_strlit("&gt;"); }
        } else if c == '"' {
            escaped.append("&quot;");
            proof { reveal_strlit("&quot;"); }
        } else if c == '\'' {
            escaped.append("&#39;");
            proof { reveal_strlit("&#39;"); }
        } else {
            escaped.push(c);
        }
        assert(value@.take(i + 1).drop_last() =~= value@.take(i as int));
        assert(escaped@ =~= escape_html_spec(value@.take(i + 1)));
    }
    assert(value@.take(n as int) =~= value@);
    escaped
}

/// The plain text of one node.
pub fn render_plain_node(node: &RichNode) -> (text: String)
    ensures
        text@ == node_text(*node),
{
    match node {
        RichNode::Text { text } => text.clone(),
        RichNode::Unsupported { summary, .. } => summary.clone(),
    }
}

/// The HTML of one node.
pub fn render_html_node(node: &RichNode) -> (html: String)
    ensures
        html@ == html_node(*node),
{
    match node {
        RichNode::Text { text } => escape_html(text.as_str()),
        RichNode::Unsupported { kind, summary } => {
            let mut html = String::from_str("<span class=\"message-unsupported\" data-kind=\"");
            let k = escape_html(kind.as_str());
            html.append(k.as_str());
            html.append("\">");
            let s = escape_html(summary.as_str());
            html.append(s.as_str());
            html.append("</span>");
            html
        },
    }
}

impl RichTextRenderer for HtmlRenderer {
    type Output = String;

    /// The HTML of the nodes, one after another.
    fn render(nodes: &[RichNode]) -> (html: String)
        ensures
            html@ == html_nodes(nodes@),
    {
        let mut html = String::new();
        for i in 0..nodes.len()
            invariant
                html@ == html_nodes(nodes@.take(i as int)),
        {
            let part = render_html_node(&nodes[i]);
            html.append(part.as_str());
            assert(nodes@.take(i + 1).drop_last() =~= nodes@.take(i as int));
        }
        assert(nodes@.take(nodes@.len() as int) =~= nodes@);
        html
    }
}

impl RichTextRenderer for PlainTextRenderer {
    type Output = String;

    /// The text of the nodes, one after another: the same text as a
    /// message's preview.
    fn render(nodes: &[RichNode]) -> (text: String)
        ensures
            text@ == nodes_text(nodes@),
    {
        let mut text = String::new();
        for i in 0..nodes.len()
            invariant
                text@ == nodes_text(nodes@.take(i as int)),
        {
            let part = render_plain_node(&nodes[i]);
            text.append(part.as_str());
            assert(nodes@.take(i + 1).drop_last() =~= nodes@.take(i as int));
        }
        assert(nodes@.take(nodes@.len() as int) =~= nodes@);
        text
    }
}

/// The plain text of the nodes, as a preview shows it.
pub fn plain_text_preview(nodes: &[RichNode]) -> (text: String)
    ensures
        text@ == nodes_text(nodes@),
{
    PlainTextRenderer::render(nodes)
}

/// Whether a character is one that HTML would read as markup or as the end
/// of an attribute value.
pub open spec fn is_markup_char(c: char) -> bool {
    c == '<' || c == '>' || c == '"' || c == '\''
}

/// Law: escaped text holds no character that HTML reads as markup, so text
/// of a message cannot open a tag or close an attribute.
pub proof fn lemma_escaped_has_no_markup(s: Seq<char>)
    ensures
        forall|i: int| 0 <= i < escape_html_spec(s).len() ==> !is_markup_char(#[trigger] escape_html_spec(s)[i]),
    decreases s.len(),
{
    if s.len() > 0 {
        lemma_escaped_has_no_markup(s.drop_last());
        let a = escape_html_spec(s.drop_last());
        let b = escape_char(s.last());
        assert forall|i: int| 0 <= i < (a + b).len() implies !is_markup_char(#[trigger] (a + b)[i]) by {
            if i >= a.len() {
                assert((a + b)[i] == b[i - a.len()]);
            }
        }
    }
}

/// Law: text without the five special characters is its own escape.
pub proof fn lemma_plain_text_unescaped(s: Seq<char>)
    requires
        forall|i: int| 0 <= i < s.len() ==> !is_markup_char(#[trigger] s[i]) && s[i] != '&',
    ensures
        escape_html_spec(s) == s,
    decreases s.len(),
{
    if s.len() > 0 {
        lemma_plain_text_unescaped(s.drop_last());
        assert(!is_markup_char(s[s.len() - 1]));
        assert(s.drop_last() + seq![s.last()] =~= s);
    }
}

/// `s` with each occurrence of a non-empty `pattern`, found from the left and
/// without overlap, replaced by `with`, as `str::replace` does.
pub open spec fn replace_spec(s: Seq<char>, pattern: Seq<char>, with: Seq<char>) -> Seq<char>
    decreases s.len(),
{
    if s.len() == 0 || pattern.len() == 0 {
        s
    } else if pattern.len() <= s.len() && s.take(pattern.len() as int) == pattern {
        with + replace_spec(s.skip(pattern.len() as int), pattern, with)
    } else {
        seq![s[0]] + replace_spec(s.drop_first(), pattern, with)
    }
}

/// The `k`th character that escaping replaces, in the order that
/// unescaping puts them back: `<`, `>`, `"`, `'`, and `&` last.
pub open spec fn special_char(k: int) -> char {
    if k == 0 {
        '<'
    } else if k == 1 {
        '>'
    } else if k == 2 {
        '"'
    } else if k == 3 {
        '\''
    } else {
        '&'
    }
}

/// Escaped text turned back: each entity replaced by its character, `&amp;`
/// last.
pub open spec fn unescape_html_spec(t: Seq<char>) -> Seq<char> {
    let t0 = replace_spec(t, escape_char(special_char(0)), seq![special_char(0)]);
    let t1 = replace_spec(t0, escape_char(special_char(1)), seq![special_char(1)]);
    let t2 = replace_spec(t1, escape_char(special_char(2)), seq![special_char(2)]);
    let t3 = replace_spec(t2, escape_char(special_char(3)), seq![special_char(3)]);
    replace_spec(t3, escape_char(special_char(4)), seq![special_char(4)])
}

/// Where a character stands among the five that escaping replaces; 5 for any
/// other character.
pub open spec fn special_index(c: char) -> int {
    if c == '<' {
        0
    } else if c == '>' {
        1
    } else if c == '"' {
        2
    } else if c == '\'' {
        3
    } else if c == '&' {
        4
    } else {
        5
    }
}

/// The text of a character once the first `k` entities are turned back.
spec fn chunk(c: char, k: int) -> Seq<char> {
    if special_index(c) < k {
        seq![c]
    } else {
        escape_char(c)
    }
}

spec fn encoded(s: Seq<char>, k: int) -> Seq<char>
    decreases s.len(),
{
    if s.len() == 0 {
        Seq::empty()
    } else {
        chunk(s[0], k) + encoded(s.drop_first(), k)
    }
}

proof fn lemma_encoded_push(s: Seq<char>, c: char, k: int)
    ensures
        encoded(s.push(c), k) == encoded(s, k) + chunk(c, k),
    decreases s.len(),
{
    if s.len() == 0 {
        assert(s.push(c).drop_first() =~= Seq::<char>::empty());
        assert(s.push(c)[0] == c);
        assert(encoded(s.push(c).drop_first(), k) == Seq::<char>::empty());
        assert(encoded(s.push(c), k) == chunk(c, k) + Seq::<char>::empty());
        assert(encoded(s.push(c), k) =~= encoded(s, k) + chunk(c, k));
    } else {
        lemma_encoded_push(s.drop_first(), c, k);
        assert(s.push(c).drop_first() =~= s.drop_first().push(c));
        assert(s.push(c)[0] == s[0]);
        assert(encoded(s.push(c), k) =~= encoded(s, k) + chunk(c, k));
    }
}

proof fn lemma_encoded_escape(s: Seq<char>)
    ensures
        encoded(s, 0) == escape_html_spec(s),
    decreases s.len(),
{
    if s.len() > 0 {
        lemma_encoded_escape(s.drop_last());
        lemma_encoded_push(s.drop_last(), s.last(), 0);
        assert(s.drop_last().push(s.last()) =~= s);
    }
}

proof fn lemma_encoded_all(s: Seq<char>)
    ensures
        encoded(s, 5) == s,
    decreases s.len(),
{
    if s.len() > 0 {
        lemma_encoded_all(s.drop_first());
        assert(chunk(s[0], 5) =~= seq![s[0]]);
        assert(seq![s[0]] + s.drop_first() =~= s);
    }
}

proof fn lemma_replace_skips(x: Seq<char>, rest: Seq<char>, pattern: Seq<char>, with: Seq<char>)
    requires
        pattern.len() > 0,
        pattern[0] == '&',
        forall|i: int| 0 <= i < x.len() ==> #[trigger] x[i] != '&',
    ensures
        replace_spec(x + rest, pattern, with) == x + replace_spec(rest, pattern, with),
    decreases x.len(),
{
    if x.len() == 0 {
        assert(x + rest =~= rest);
        assert(x + replace_spec(rest, pattern, with) =~= replace_spec(rest, pattern, with));
    } else {
        let t = x + rest;
        assert(t[0] == x[0]);
        if pattern.len() <= t.len() && t.take(pattern.len() as int) == pattern {
            assert(t.take(pattern.len() as int)[0] == t[0]);
        }
        let x1 = x.drop_first();
        assert forall|i: int| 0 <= i < x1.len() implies #[trigger] x1[i] != '&' by {
            assert(x1[i] == x[i + 1]);
        }
        lemma_replace_skips(x1, rest, pattern, with);
        assert(t.drop_first() =~= x1 + rest);
        assert(seq![x[0]] + (x1 + replace_spec(rest, pattern, with)) =~= x + replace_spec(rest, pattern, with));
    }
}

proof fn lemma_unescape_step(s: Seq<char>, k: int)
    requires
        0 <= k < 5,
    ensures
        replace_spec(encoded(s, k), escape_char(special_char(k)), seq![special_char(k)]) == encoded(s, k + 1),
    decreases s.len(),
{
    let p = escape_char(special_char(k));
    let w = seq![special_char(k)];
    if s.len() == 0 {
    } else {
        let c = s[0];
        let e = encoded(s.drop_first(), k);
        let ch = chunk(c, k);
        lemma_unescape_step(s.drop_first(), k);
        assert(encoded(s, k) == ch + e);
        assert(encoded(s, k + 1) == chunk(c, k + 1) + encoded(s.drop_first(), k + 1));
        if special_index(c) == k {
            assert(ch == p);
            let t = ch + e;
            assert(t.take(p.len() as int) =~= p);
            assert(t.skip(p.len() as int) =~= e);
            assert(chunk(c, k + 1) =~= w);
        } else if special_index(c) < k || special_index(c) == 5 {
            assert(ch =~= seq![c]);
            assert(c != '&');
            lemma_replace_skips(ch, e, p, w);
            assert(chunk(c, k + 1) =~= seq![c]);
        } else {
            let t = ch + e;
            assert(ch[0] == '&');
            assert(ch[1] != p[1]);
            if p.len() <= t.len() && t.take(p.len() as int) == p {
                assert(t.take(p.len() as int)[1] == t[1]);
                assert(t[1] == ch[1]);
            }
            let tail = ch.drop_first();
            assert forall|i: int| 0 <= i < tail.len() implies #[trigger] tail[i] != '&' by {
                assert(tail[i] == ch[i + 1]);
            }
            lemma_replace_skips(tail, e, p, w);
            assert(t.drop_first() =~= tail + e);
            assert(seq![ch[0]] + (tail + replace_spec(e, p, w)) =~= ch + replace_spec(e, p, w));
            assert(chunk(c, k + 1) == ch);
        }
    }
}

/// Law: unescaping escaped text gives the text back.
pub proof fn lemma_unescape_escape(s: Seq<char>)
    ensures
        unescape_html_spec(escape_html_spec(s)) == s,
{
    lemma_encoded_escape(s);
    lemma_unescape_step(s, 0);
    lemma_unescape_step(s, 1);
    lemma_unescape_step(s, 2);
    lemma_unescape_step(s, 3);
    lemma_unescape_step(s, 4);
    lemma_encoded_all(s);
}

/// Whether one of the five entities starts at position `i` of `t`.
pub open spec fn entity_at(t: Seq<char>, i: int) -> bool {
    exists|c: char|
        #![trigger escape_char(c)]
        special_index(c) < 5 && i + escape_char(c).len() <= t.len() && t.subrange(
            i,
            i + escape_char(c).len(),
        ) == escape_char(c)
}

/// Law: in escaped text every `&` starts one of the five entities.
pub proof fn lemma_escaped_ampersands(s: Seq<char>)
    ensures
        forall|i: int|
            0 <= i < escape_html_spec(s).len() && #[trigger] escape_html_spec(s)[i] == '&' ==> entity_at(
                escape_html_spec(s),
                i,
            ),
    decreases s.len(),
{
    if s.len() > 0 {
        lemma_escaped_ampersands(s.drop_last());
        let a = escape_html_spec(s.drop_last());
        let c = s.last();
        let b = escape_char(c);
        let t = a + b;
        assert(t == escape_html_spec(s));
        assert forall|i: int| 0 <= i < t.len() && #[trigger] t[i] == '&' implies entity_at(t, i) by {
            if i < a.len() {
                assert(a[i] == '&');
                assert(entity_at(a, i));
                let d = choose|d: char|
                    #![trigger escape_char(d)]
                    special_index(d) < 5 && i + escape_char(d).len() <= a.len() && a.subrange(
                        i,
                        i + escape_char(d).len(),
                    ) == escape_char(d);
                assert(t.subrange(i, i + escape_char(d).len()) =~= a.subrange(i, i + escape_char(d).len()));
            } else {
                assert(t[i] == b[i - a.len()]);
                assert(i == a.len());
                assert(special_index(c) < 5);
                assert(t.subrange(i, i + b.len()) =~= b);
            }
        }
    }
}

} // verus!
