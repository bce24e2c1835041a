//! Widget templates: the element tree an XML template describes, read with
//! `quick_xml`'s pull parser.
use vstd::prelude::*;
use quick_xml::events::{BytesStart, Event};
use quick_xml::Reader;
use crate::error::NovaError;
use crate::factory::is_container;
use crate::factory::is_container_tag;
use crate::strmap::StrMap;
use crate::text::{concat, lowercase_of, to_lowercase};

verus! {

#[verifier::external_type_specification]
#[verifier::external_body]
#[verifier::reject_recursive_types(R)]
pub struct ExXmlReader<R>(Reader<R>);

/// One event of the pull parser, with its text decoded.
#[derive(Debug, Clone)]
pub enum XmlToken {
    /// A tag: its name, its attributes (`None` for a malformed one), and
    /// whether it opens an element (`<tag>`) rather than being self-closing
    Element { name: String, attrs: Vec<Option<(String, String)>>, opens: bool },
    /// A closing tag
    End,
    /// Text, comments, declarations and the like
    Other,
    /// End of input
    Eof,
    /// A syntax error, with the parser's message
    Error(String),
}

/// The value of an `XmlToken`.
pub enum TokenView {
    Element(Seq<char>, Seq<Option<(Seq<char>, Seq<char>)>>, bool),
    End,
    Other,
    Eof,
    Error(Seq<char>),
}

pub open spec fn attr_views(a: Seq<Option<(String, String)>>) -> Seq<Option<(Seq<char>, Seq<char>)>> {
    a.map_values(|x: Option<(String, String)>| match x {
        Some((k, v)) => Some((k@, v@)),
        None => None,
    })
}

pub open spec fn token_view(t: XmlToken) -> TokenView {
    match t {
        XmlToken::Element { name, attrs, opens } => TokenView::Element(name@, attr_views(attrs@), opens),
        XmlToken::End => TokenView::End,
        XmlToken::Other => TokenView::Other,
        XmlToken::Eof => TokenView::Eof,
        XmlToken::Error(m) => TokenView::Error(m@),
    }
}

pub open spec fn token_views(t: Seq<XmlToken>) -> Seq<TokenView> {
    t.map_values(|x: XmlToken| token_view(x))
}

pub open spec fn is_terminal(t: TokenView) -> bool {
    t is Eof || t is Error
}

/// The events the parser yields for `template` (text trimmed), up to and
/// including the first end of input or error.
pub uninterp spec fn xml_events(template: Seq<char>) -> Seq<TokenView>;

/// The events a reader has still to yield, up to and including the first end
/// of input or error.
pub uninterp spec fn xml_pending(r: Reader<&[u8]>) -> Seq<TokenView>;

/// A well-formed event stream: it ends with its first end of input or error.
pub open spec fn ends_once(s: Seq<TokenView>) -> bool {
    &&& s.len() > 0
    &&& is_terminal(s.last())
    &&& forall|i: int| 0 <= i < s.len() - 1 ==> !is_terminal(#[trigger] s[i])
}

/// `Reader::from_str`, configured with `trim_text(true)` as templates are read.
/// Claims: the reader will yield the events of `template`, and that stream
/// reaches an end of input or an error.
#[verifier::external_body]
fn xml_reader(template: &str) -> (r: Reader<&[u8]>)
    ensures
        xml_pending(r) == xml_events(template@),
        ends_once(xml_pending(r)),
{
    let mut r = Reader::from_str(template);
    r.trim_text(true);
    r
}

/// `Reader::read_event`: the next event, with its tag name and attributes
/// decoded as UTF-8 (a malformed attribute as `None`). Claims: it is the
/// first pending event.
#[verifier::external_body]
fn xml_read_event(r: &mut Reader<&[u8]>) -> (t: XmlToken)
    requires
        xml_pending(*old(r)).len() > 0,
    ensures
        token_view(t) == xml_pending(*old(r))[0],
        xml_pending(*final(r)) == xml_pending(*old(r)).drop_first(),
{
    let text = |b: &[u8]| String::from_utf8_lossy(b).into_owned();
    let tag = |e: BytesStart, opens| XmlToken::Element { name: text(e.name().as_ref()),
        attrs: e.attributes().map(|a| a.ok().map(|a| (text(a.key.as_ref()), text(&a.value)))).collect(), opens };
    match r.read_event() {
        Ok(Event::Start(e)) => tag(e, true),
        Ok(Event::Empty(e)) => tag(e, false),
        Ok(Event::End(_)) => XmlToken::End,
        Ok(Event::Eof) => XmlToken::Eof,
        Ok(_) => XmlToken::Other,
        Err(e) => XmlToken::Error(e.to_string()),
    }
}

/// The events of a template, in order, through the first end of input or error.
pub fn template_tokens(template: &str) -> (r: Vec<XmlToken>)
    ensures
        token_views(r@) == xml_events(template@),
{
    let mut reader = xml_reader(template);
    let ghost all = xml_events(template@);
    let mut out: Vec<XmlToken> = Vec::new();
    loop
        invariant
            all == xml_events(template@),
            ends_once(all),
            out@.len() < all.len(),
            token_views(out@) == all.take(out@.len() as int),
            xml_pending(reader) == all.skip(out@.len() as int),
            forall|i: int| 0 <= i < out@.len() ==> !is_terminal(#[trigger] token_view(out@[i])),
        decreases all.len() - out@.len(),
    {
        let ghost k = out@.len() as int;
        let t = xml_read_event(&mut reader);
        let ghost before = out@;
        let terminal = match t {
            XmlToken::Eof => true,
            XmlToken::Error(_) => true,
            _ => false,
        };
        proof {
            assert(all.skip(k)[0] == all[k]);
            assert(token_view(t) == all[k]);
            assert(terminal == is_terminal(token_view(t)));
        }
        out.push(t);
        proof {
            assert(token_views(out@) =~= token_views(before).push(token_view(t)));
            assert(all.take(k + 1) =~= all.take(k).push(all[k]));
            assert(all.skip(k).drop_first() =~= all.skip(k + 1));
        }
        if terminal {
            proof {
                assert(is_terminal(all[k]));
                assert(k == all.len() - 1);
                assert(all.take(k + 1) =~= all);
            }
            return out;
        }
        proof {
            assert(!is_terminal(all[k]));
        }
    }
}

// ---- the element tree -------------------------------------------------------

/// Where an element hangs.
#[derive(Debug, Clone, Copy, PartialEq, Eq, Structural)]
pub enum NodeParent {
    /// A top-level element (the last one is the template's root)
    Top,
    /// A child of the container element with this index
    Child(usize),
    /// Inside an element that takes no children: shown nowhere
    Detached,
}

/// One element of a template.
#[derive(Debug)]
pub struct TemplateNode {
    /// Lower-cased tag name
    pub tag: String,
    /// Attributes as written (placeholders not yet interpolated)
    pub raw_attrs: StrMap<String>,
    pub parent: NodeParent,
}

/// The elements of a template in document order, and which is the root.
#[derive(Debug)]
pub struct TemplateTree {
    pub nodes: Vec<TemplateNode>,
    pub root: usize,
}

/// The value of a template node.
pub struct NodeView {
    pub tag: Seq<char>,
    pub attrs: Map<Seq<char>, Seq<char>>,
    pub parent: NodeParent,
}

pub open spec fn node_view(n: TemplateNode) -> NodeView {
    NodeView { tag: n.tag@, attrs: n.raw_attrs@.map_values(|v: String| v@), parent: n.parent }
}

pub open spec fn node_views(s: Seq<TemplateNode>) -> Seq<NodeView> {
    s.map_values(|n: TemplateNode| node_view(n))
}

/// The attribute map a list of attributes gives: malformed ones skipped, a
/// repeated name keeping its last value.
pub open spec fn attr_map(a: Seq<Option<(Seq<char>, Seq<char>)>>) -> Map<Seq<char>, Seq<char>>
    decreases a.len(),
{
    if a.len() == 0 {
        Map::empty()
    } else {
        match a.last() {
            Some((k, v)) => attr_map(a.drop_last()).insert(k, v),
            None => attr_map(a.drop_last()),
        }
    }
}

/// The parser state while the events are replayed: open containers
/// (`None` for a detached one), elements so far, root so far.
pub struct BuildState {
    pub stack: Seq<Option<nat>>,
    pub nodes: Seq<NodeView>,
    pub root: Option<nat>,
}

/// The state after an element (open or self-closing) named `name`.
pub open spec fn add_element(st: BuildState, name: Seq<char>, attrs: Seq<Option<(Seq<char>, Seq<char>)>>, opens: bool) -> BuildState {
    let tag = lowercase_of(name);
    let idx = st.nodes.len();
    let parent = if st.stack.len() == 0 {
        NodeParent::Top
    } else {
        match st.stack.last() {
            Some(p) => NodeParent::Child(p as usize),
            None => NodeParent::Detached,
        }
    };
    let node = NodeView { tag, attrs: attr_map(attrs), parent };
    let stack = if opens {
        st.stack.push(if is_container_tag(tag) { Some(idx) } else { None })
    } else {
        st.stack
    };
    BuildState {
        stack,
        nodes: st.nodes.push(node),
        root: if st.stack.len() == 0 { Some(idx) } else { st.root },
    }
}

/// Replays `events[i..]` from state `st`: the final state, or the parser's
/// error message.
pub open spec fn replay(events: Seq<TokenView>, i: int, st: BuildState) -> Result<BuildState, Seq<char>>
    decreases events.len() - i,
{
    if i < 0 || i >= events.len() {
        Ok(st)
    } else {
        match events[i] {
            TokenView::Element(n, a, opens) => replay(events, i + 1, add_element(st, n, a, opens)),
            TokenView::End => replay(events, i + 1, BuildState {
                stack: if st.stack.len() > 0 { st.stack.drop_last() } else { st.stack },
                ..st
            }),
            TokenView::Other => replay(events, i + 1, st),
            TokenView::Eof => Ok(st),
            TokenView::Error(m) => Err(m),
        }
    }
}

pub open spec fn initial_state() -> BuildState {
    BuildState { stack: Seq::empty(), nodes: Seq::empty(), root: None }
}

/// The tree built from a stream of parser events: an XML error becomes an
/// `Xml` error, a template without elements a `Widget` error.
pub open spec fn tree_of(events: Seq<TokenView>, r: Result<TemplateTree, NovaError>) -> bool {
    match replay(events, 0, initial_state()) {
        Err(m) => r matches Err(NovaError::Xml(d)) && d@ == "XML parse error: "@ + m,
        Ok(st) => match st.root {
            None => r matches Err(NovaError::Widget(d)) && d@ == "Empty widget template"@,
            Some(root) => r matches Ok(t) && node_views(t.nodes@) == st.nodes && t.root == root,
        },
    }
}

fn attrs_to_map(attrs: &Vec<Option<(String, String)>>) -> (m: StrMap<String>)
    ensures
        m@.map_values(|v: String| v@) == attr_map(attr_views(attrs@)),
{
    let mut m: StrMap<String> = StrMap::new();
    let mut i: usize = 0;
    assert(attr_views(attrs@).take(0) =~= Seq::<Option<(Seq<char>, Seq<char>)>>::empty());
    assert(m@.map_values(|v: String| v@) =~= Map::<Seq<char>, Seq<char>>::empty());
    while i < attrs.len()
        invariant
            i <= attrs@.len(),
            m@.map_values(|v: String| v@) == attr_map(attr_views(attrs@).take(i as int)),
        decreases attrs.len() - i,
    {
        let ghost before = m@.map_values(|v: String| v@);
        proof {
            assert(attr_views(attrs@).take(i as int + 1).drop_last() =~= attr_views(attrs@).take(i as int));
        }
        match &attrs[i] {
            Some((k, v)) => {
                m.insert(k.clone(), v.clone());
                assert(m@.map_values(|v: String| v@) =~= before.insert(k@, v@));
            },
            None => {},
        }
        i = i + 1;
    }
    assert(attr_views(attrs@).take(i as int) =~= attr_views(attrs@));
    m
}

pub open spec fn stack_view(s: Seq<Option<usize>>) -> Seq<Option<nat>> {
    s.map_values(|o: Option<usize>| match o {
        Some(p) => Some(p as nat),
        None => None,
    })
}

pub open spec fn root_view(r: Option<usize>) -> Option<nat> {
    match r {
        Some(p) => Some(p as nat),
        None => None,
    }
}

pub open spec fn state_view(stack: Seq<Option<usize>>, nodes: Seq<TemplateNode>, root: Option<usize>) -> BuildState {
    BuildState { stack: stack_view(stack), nodes: node_views(nodes), root: root_view(root) }
}

/// Build the element tree of a template from its parser events.
pub fn build_template_tree(events: &Vec<XmlToken>) -> (r: Result<TemplateTree, NovaError>)
    ensures
        tree_of(token_views(events@), r),
{
    let ghost ev = token_views(events@);
    let mut stack: Vec<Option<usize>> = Vec::new();
    let mut nodes: Vec<TemplateNode> = Vec::new();
    let mut root: Option<usize> = None;
    let mut i: usize = 0;
    proof {
        assert(state_view(stack@, nodes@, root) == initial_state()) by {
            assert(stack_view(stack@) =~= Seq::<Option<nat>>::empty());
            assert(node_views(nodes@) =~= Seq::<NodeView>::empty());
        }
    }
    while i < events.len()
        invariant
            ev == token_views(events@),
            i <= events@.len(),
            nodes@.len() <= i,
            replay(ev, 0, initial_state()) == replay(ev, i as int, state_view(stack@, nodes@, root)),
        decreases events.len() - i,
    {
        let ghost st = state_view(stack@, nodes@, root);
        proof {
            assert(ev[i as int] == token_view(events@[i as int]));
        }
        match &events[i] {
            XmlToken::Element { name, attrs, opens } => {
                element(&mut stack, &mut nodes, &mut root, name, attrs, *opens);
                proof {
                    assert(replay(ev, i as int, st) == replay(ev, i + 1, add_element(st, name@, attr_views(attrs@), *opens)));
                }
            },
            XmlToken::End => {
                let ghost before = stack@;
                if stack.len() > 0 {
                    stack.pop();
                    proof {
                        assert(stack_view(stack@) =~= stack_view(before).drop_last());
                    }
                }
                proof {
                    let st2 = BuildState {
                        stack: if st.stack.len() > 0 { st.stack.drop_last() } else { st.stack },
                        ..st
                    };
                    assert(state_view(stack@, nodes@, root) == st2);
                }
            },
            XmlToken::Other => {},
            XmlToken::Eof => {
                i = events.len();
                continue;
            },
            XmlToken::Error(m) => {
                return Err(NovaError::Xml(concat("XML parse error: ", m.as_str())));
            },
        }
        i = i + 1;
    }
    match root {
        Some(r) => Ok(TemplateTree { nodes, root: r }),
        None => Err(NovaError::Widget("Empty widget template".to_owned())),
    }
}

/// Adds one element to the tree being built.
fn element(
    stack: &mut Vec<Option<usize>>,
    nodes: &mut Vec<TemplateNode>,
    root: &mut Option<usize>,
    name: &String,
    attrs: &Vec<Option<(String, String)>>,
    opens: bool,
)
    requires
        old(nodes)@.len() < usize::MAX,
    ensures
        state_view(final(stack)@, final(nodes)@, *final(root))
            == add_element(state_view(old(stack)@, old(nodes)@, *old(root)), name@, attr_views(attrs@), opens),
        final(nodes)@.len() == old(nodes)@.len() + 1,
{
    let ghost st = state_view(stack@, nodes@, *root);
    let tag = to_lowercase(name.as_str());
    let idx = nodes.len();
    let top = stack.len() == 0;
    let parent = if top {
        NodeParent::Top
    } else {
        match stack[stack.len() - 1] {
            Some(p) => NodeParent::Child(p),
            None => NodeParent::Detached,
        }
    };
    let container = is_container(tag.as_str());
    let raw_attrs = attrs_to_map(attrs);
    let ghost node = TemplateNode { tag, raw_attrs, parent };
    let ghost before_nodes = nodes@;
    let ghost before_stack = stack@;
    nodes.push(TemplateNode { tag, raw_attrs, parent });
    if opens {
        if container {
            stack.push(Some(idx));
        } else {
            stack.push(None);
        }
    }
    if top {
        *root = Some(idx);
    }
    proof {
        let want = add_element(st, name@, attr_views(attrs@), opens);
        assert(node_views(nodes@) =~= node_views(before_nodes).push(node_view(nodes@[idx as int])));
        if !top {
            assert(st.stack.last() == (match before_stack.last() {
                Some(p) => Some(p as nat),
                None => None,
            }));
        }
        assert(node_view(nodes@[idx as int]) == want.nodes.last());
        assert(node_views(nodes@) =~= want.nodes);
        assert(stack_view(stack@) =~= want.stack);
    }
}

/// Elements are well placed: each child hangs from an earlier container, and
/// each open container on the stack is an earlier element.
pub open spec fn well_placed(st: BuildState) -> bool {
    &&& forall|i: int| 0 <= i < st.nodes.len() ==> match (#[trigger] st.nodes[i]).parent {
        NodeParent::Child(p) => p < i && is_container_tag(st.nodes[p as int].tag),
        _ => true,
    }
    &&& forall|k: int| 0 <= k < st.stack.len() ==> match #[trigger] st.stack[k] {
        Some(p) => p < st.nodes.len() && is_container_tag(st.nodes[p as int].tag),
        None => true,
    }
}

proof fn lemma_replay_well_placed(events: Seq<TokenView>, i: int, st: BuildState)
    requires
        0 <= i <= events.len(),
        events.len() <= usize::MAX,
        st.nodes.len() <= i,
        well_placed(st),
    ensures
        replay(events, i, st) matches Ok(fin) ==> well_placed(fin),
    decreases events.len() - i,
{
    if i < events.len() {
        match events[i] {
            TokenView::Element(n, a, opens) => {
                let st2 = add_element(st, n, a, opens);
                assert forall|j: int| 0 <= j < st2.nodes.len() implies match (#[trigger] st2.nodes[j]).parent {
                    NodeParent::Child(p) => p < j && is_container_tag(st2.nodes[p as int].tag),
                    _ => true,
                } by {
                    if j < st.nodes.len() {
                        assert(st2.nodes[j] == st.nodes[j]);
                        match st.nodes[j].parent {
                            NodeParent::Child(p) => assert(st2.nodes[p as int] == st.nodes[p as int]),
                            _ => {},
                        }
                    } else if st.stack.len() > 0 {
                        let k = st.stack.len() - 1;
                        match st.stack[k] {
                            Some(p) => assert(st2.nodes[p as int] == st.nodes[p as int]),
                            None => {},
                        }
                    }
                }
                assert forall|k: int| 0 <= k < st2.stack.len() implies match #[trigger] st2.stack[k] {
                    Some(p) => p < st2.nodes.len() && is_container_tag(st2.nodes[p as int].tag),
                    None => true,
                } by {
                    if k < st.stack.len() {
                        assert(st2.stack[k] == st.stack[k]);
                        match st.stack[k] {
                            Some(p) => assert(st2.nodes[p as int] == st.nodes[p as int]),
                            None => {},
                        }
                    }
                }
                lemma_replay_well_placed(events, i + 1, st2);
            },
            TokenView::End => {
                let st2 = BuildState { stack: if st.stack.len() > 0 { st.stack.drop_last() } else { st.stack }, ..st };
                assert forall|k: int| 0 <= k < st2.stack.len() implies match #[trigger] st2.stack[k] {
                    Some(p) => p < st2.nodes.len() && is_container_tag(st2.nodes[p as int].tag),
                    None => true,
                } by {
                    assert(st2.stack[k] == st.stack[k]);
                }
                lemma_replay_well_placed(events, i + 1, st2);
            },
            TokenView::Other => {
                lemma_replay_well_placed(events, i + 1, st);
            },
            _ => {},
        }
    }
}

/// In every template tree, an element nested in another hangs from an
/// earlier container element (children come after their parent, and only
/// containers take children).
pub proof fn law_children_follow_container(events: Seq<TokenView>)
    requires
        events.len() <= usize::MAX,
    ensures
        replay(events, 0, initial_state()) matches Ok(st) ==> forall|i: int| 0 <= i < st.nodes.len() ==>
            match (#[trigger] st.nodes[i]).parent {
                NodeParent::Child(p) => p < i && is_container_tag(st.nodes[p as int].tag),
                _ => true,
            },
{
    lemma_replay_well_placed(events, 0, initial_state());
}

/// The element tree of a template: its parser events, replayed.
pub fn parse_template(template: &str) -> (r: Result<TemplateTree, NovaError>)
    ensures
        tree_of(xml_events(template@), r),
{
    let tokens = template_tokens(template);
    build_template_tree(&tokens)
}

} // verus!
