//! The tree of traceable items that a walk builds, and its flattening into
//! interchange records.
use vstd::prelude::*;
use vstd::string::*;
use crate::annotations::opt_text;
use crate::context::{segments_of, Context};
use crate::cst::{
    all_children, as_positions, all_with, child_positions, children_of, first_child, first_with,
    node_text, text_of_node, CstEvent, SyntaxTag,
};
use crate::location::{position_suffix, FileReference};

verus! {

broadcast use vstd::std_specs::vec::group_vec_axioms;

/// What a traceable node stands for.
#[derive(Debug, Clone, Copy, PartialEq, Eq, Structural)]
pub enum NodeKind {
    Source,
    Struct,
    Enum,
    Trait,
    Function,
    Context,
}

/// The name under which a kind is reported.
pub open spec fn kind_name(k: NodeKind) -> Seq<char> {
    match k {
        NodeKind::Source => "Module"@,
        NodeKind::Struct => "Struct"@,
        NodeKind::Enum => "Enum"@,
        NodeKind::Trait => "Trait"@,
        NodeKind::Function => "Function"@,
        NodeKind::Context => "Context"@,
    }
}

impl NodeKind {
    /// The name under which the kind is reported.
    pub fn to_str(self) -> (r: &'static str)
        ensures
            r@ == kind_name(self),
    {
        match self {
            NodeKind::Source => "Module",
            NodeKind::Struct => "Struct",
            NodeKind::Enum => "Enum",
            NodeKind::Trait => "Trait",
            NodeKind::Function => "Function",
            NodeKind::Context => "Context",
        }
    }
}

/// The namespace that a module or impl block opens, and for a trait impl the
/// trait's name.
#[derive(Debug, Clone)]
pub struct ContextData {
    pub context: Context,
    pub trait_imp: Option<String>,
}

impl ContextData {
    pub fn new(context: Context, trait_imp: Option<String>) -> (r: ContextData)
        ensures
            r.context@ == context@,
            opt_text(r.trait_imp) == opt_text(trait_imp),
    {
        ContextData { context, trait_imp }
    }
}

/// An item of the analysed sources, with the items nested in it.
#[derive(Debug)]
pub struct RustTraceableNode {
    pub name: String,
    pub kind: NodeKind,
    pub location: FileReference,
    pub children: Vec<RustTraceableNode>,
    pub just: Vec<String>,
    pub refs: Vec<String>,
    pub context_data: Option<ContextData>,
}

pub open spec fn texts(v: Seq<String>) -> Seq<Seq<char>> {
    v.map_values(|s: String| s@)
}

/// A node as built: the given name and kind, no children, no annotations,
/// no namespace.
pub open spec fn is_fresh(n: RustTraceableNode, name: Seq<char>, kind: NodeKind) -> bool {
    &&& n.name@ == name
    &&& n.kind == kind
    &&& n.children@.len() == 0
    &&& n.just@.len() == 0
    &&& n.refs@.len() == 0
}

/// Two nodes that differ at most in their location.
pub open spec fn same_but_location(p: RustTraceableNode, q: RustTraceableNode) -> bool {
    &&& p.name == q.name
    &&& p.kind == q.kind
    &&& p.children == q.children
    &&& p.just == q.just
    &&& p.refs == q.refs
    &&& p.context_data == q.context_data
}

/// The placeholder location of a node not yet placed.
pub open spec fn is_default_location(l: FileReference) -> bool {
    l.filename@ == "main.rs"@ && l.line is None && l.column is None
}

/// The text of the first `NAME` child of the node entered at position `i`.
pub open spec fn name_text(ev: Seq<CstEvent>, i: int) -> Option<Seq<char>> {
    match first_with(ev, children_of(ev, i), SyntaxTag::Name, true) {
        Some(p) => Some(node_text(ev, p)),
        None => None,
    }
}

/// The texts of the `PATH_TYPE` children of the node entered at position `i`.
pub open spec fn path_type_texts(ev: Seq<CstEvent>, i: int) -> Seq<Seq<char>> {
    all_with(ev, children_of(ev, i), SyntaxTag::PathType, true).map_values(|p: int| node_text(ev, p))
}

/// Whether the node entered at position `i` has a `for` keyword among its tokens.
pub open spec fn has_for_keyword(ev: Seq<CstEvent>, i: int) -> bool {
    first_with(ev, children_of(ev, i), SyntaxTag::ForKw, false) is Some
}

/// The namespace an impl block opens, and the trait it implements: one
/// path is an inherent impl, two paths with `for` a trait impl for the second.
pub open spec fn impl_shape(ev: Seq<CstEvent>, i: int) -> Option<(Seq<char>, Option<Seq<char>>)> {
    let paths = path_type_texts(ev, i);
    if paths.len() == 1 {
        Some((paths[0], None))
    } else if paths.len() == 2 && has_for_keyword(ev, i) {
        Some((paths[1], Some(paths[0])))
    } else {
        None
    }
}

/// The kind of traceable node that a syntax node of kind `tag` becomes.
pub open spec fn node_kind_of(tag: SyntaxTag) -> Option<NodeKind> {
    match tag {
        SyntaxTag::Fn => Some(NodeKind::Function),
        SyntaxTag::SourceFile => Some(NodeKind::Source),
        SyntaxTag::Struct => Some(NodeKind::Struct),
        SyntaxTag::Enum => Some(NodeKind::Enum),
        SyntaxTag::Trait => Some(NodeKind::Trait),
        SyntaxTag::Impl => Some(NodeKind::Context),
        SyntaxTag::Module => Some(NodeKind::Context),
        _ => None,
    }
}

/// The kind of traceable node that a syntax node of kind `tag` becomes.
pub fn syntax_kind_to_node_kind(tag: SyntaxTag) -> (r: Option<NodeKind>)
    ensures
        r == node_kind_of(tag),
{
    match tag {
        SyntaxTag::Fn => Some(NodeKind::Function),
        SyntaxTag::SourceFile => Some(NodeKind::Source),
        SyntaxTag::Struct => Some(NodeKind::Struct),
        SyntaxTag::Enum => Some(NodeKind::Enum),
        SyntaxTag::Trait => Some(NodeKind::Trait),
        SyntaxTag::Impl => Some(NodeKind::Context),
        SyntaxTag::Module => Some(NodeKind::Context),
        _ => None,
    }
}

/// `r` is the node of a function or struct entered at position `i`: named
/// `prefix.name` after its `NAME` child; none where it has no name.
pub open spec fn item_built(ev: Seq<CstEvent>, i: int, kind: NodeKind, prefix: Seq<char>, r: Option<
    RustTraceableNode,
>) -> bool {
    &&& r is Some <==> name_text(ev, i) is Some
    &&& r matches Some(n) ==> is_fresh(n, prefix + "."@ + name_text(ev, i)->Some_0, kind)
        && is_default_location(n.location) && n.context_data is None
}

/// `r` is the node of a trait entered at position `i`, named after its
/// `NAME` child; none where it has no name.
pub open spec fn trait_built(ev: Seq<CstEvent>, i: int, r: Option<RustTraceableNode>) -> bool {
    &&& r is Some <==> name_text(ev, i) is Some
    &&& r matches Some(n) ==> is_fresh(n, name_text(ev, i)->Some_0, NodeKind::Trait)
        && is_default_location(n.location) && n.context_data is None
}

/// `r` is the scope node of the impl block entered at position `i`: named
/// `Impl`, opening the namespace of the target type; none where the impl is
/// malformed.
pub open spec fn impl_built(ev: Seq<CstEvent>, i: int, r: Option<RustTraceableNode>) -> bool {
    &&& r is Some <==> impl_shape(ev, i) is Some
    &&& r matches Some(n) ==> {
        &&& is_fresh(n, "Impl"@, NodeKind::Context)
        &&& is_default_location(n.location)
        &&& n.context_data matches Some(cd)
        &&& cd.context@ == segments_of(impl_shape(ev, i)->Some_0.0)
        &&& opt_text(cd.trait_imp) == impl_shape(ev, i)->Some_0.1
    }
}

/// `r` is the scope node of the inline module entered at position `i`,
/// named and scoped after its `NAME` child; none where it has no name.
pub open spec fn module_built(ev: Seq<CstEvent>, i: int, r: Option<RustTraceableNode>) -> bool {
    &&& r is Some <==> name_text(ev, i) is Some
    &&& r matches Some(n) ==> {
        &&& is_fresh(n, name_text(ev, i)->Some_0, NodeKind::Context)
        &&& is_default_location(n.location)
        &&& n.context_data matches Some(cd)
        &&& cd.context@ == segments_of(name_text(ev, i)->Some_0)
        &&& cd.trait_imp is None
    }
}

/// What `from_node` builds for the node entered at position `i`.
pub open spec fn node_built(ev: Seq<CstEvent>, i: int, prefix: Seq<char>, r: Option<RustTraceableNode>) -> bool {
    match ev[i] {
        CstEvent::Enter(SyntaxTag::Fn) => item_built(ev, i, NodeKind::Function, prefix, r),
        CstEvent::Enter(SyntaxTag::Struct) => item_built(ev, i, NodeKind::Struct, prefix, r),
        CstEvent::Enter(SyntaxTag::SourceFile) => r matches Some(n) && is_fresh(n, "FILE"@, NodeKind::Source)
            && is_default_location(n.location) && n.context_data is None,
        CstEvent::Enter(SyntaxTag::Trait) => trait_built(ev, i, r),
        CstEvent::Enter(SyntaxTag::Impl) => impl_built(ev, i, r),
        CstEvent::Enter(SyntaxTag::Module) => module_built(ev, i, r),
        _ => r is None,
    }
}

/// The text of the first `NAME` child of the node entered at position `i`.
pub fn name_of(ev: &Vec<CstEvent>, i: usize) -> (r: Option<String>)
    requires
        i < ev@.len(),
    ensures
        opt_text(r) == name_text(ev@, i as int),
{
    let kids = child_positions(ev, i);
    match first_child(ev, &kids, SyntaxTag::Name, true) {
        Some(p) => Some(text_of_node(ev, p)),
        None => None,
    }
}

impl RustTraceableNode {
    /// A node with the given name, location and kind, and nothing in it yet.
    pub fn new(name: String, location: FileReference, kind: NodeKind) -> (r: RustTraceableNode)
        ensures
            is_fresh(r, name@, kind),
            r.location == location,
            r.context_data is None,
    {
        RustTraceableNode {
            name,
            kind,
            location,
            children: Vec::new(),
            just: Vec::new(),
            refs: Vec::new(),
            context_data: None,
        }
    }

    /// Adds `child` after the node's other children.
    pub fn append_child(&mut self, child: RustTraceableNode)
        ensures
            final(self).children@ == old(self).children@.push(child),
            final(self).name == old(self).name,
            final(self).kind == old(self).kind,
            final(self).location == old(self).location,
            final(self).just == old(self).just,
            final(self).refs == old(self).refs,
            final(self).context_data == old(self).context_data,
    {
        self.children.push(child);
    }

    /// The node of a function or struct entered at position `i`: named
    /// `prefix.name` after its `NAME` child; `None` where it has none.
    pub fn from_item_node(ev: &Vec<CstEvent>, i: usize, kind: NodeKind, prefix: &str) -> (r: Option<
        RustTraceableNode,
    >)
        requires
            i < ev@.len(),
        ensures
            item_built(ev@, i as int, kind, prefix@, r),
    {
        let name = name_of(ev, i);
        match name {
            Some(text) => {
                let mut full = String::from_str(prefix);
                full.append(".");
                full.append(text.as_str());
                proof {
                    reveal_strlit(".");
                }
                assert(full@ =~= prefix@ + "."@ + text@);
                Some(RustTraceableNode::new(full, FileReference::new_default(), kind))
            },
            None => None,
        }
    }

    /// The node for the syntax node entered at position `i`, by its kind:
    /// functions and structs named `prefix.name`, the source file's root,
    /// traits, and the scopes of impl blocks and inline modules; `None` for
    /// any other kind and where a required child is missing.
    pub fn from_node(ev: &Vec<CstEvent>, i: usize, prefix: &str) -> (r: Option<RustTraceableNode>)
        requires
            i < ev@.len(),
        ensures
            node_built(ev@, i as int, prefix@, r),
    {
        let tag = match &ev[i] {
            CstEvent::Enter(t) => *t,
            _ => return None,
        };
        match syntax_kind_to_node_kind(tag) {
            Some(NodeKind::Function) => RustTraceableNode::from_item_node(ev, i, NodeKind::Function, prefix),
            Some(NodeKind::Struct) => RustTraceableNode::from_item_node(ev, i, NodeKind::Struct, prefix),
            Some(NodeKind::Source) => Some(
                RustTraceableNode::new(String::from_str("FILE"), FileReference::new_default(), NodeKind::Source),
            ),
            Some(NodeKind::Context) => match tag {
                SyntaxTag::Impl => RustTraceableNode::from_impl_node(ev, i),
                SyntaxTag::Module => RustTraceableNode::from_module_node(ev, i),
                _ => None,
            },
            Some(NodeKind::Trait) => match name_of(ev, i) {
                Some(name) => Some(RustTraceableNode::new(name, FileReference::new_default(), NodeKind::Trait)),
                None => None,
            },
            _ => None,
        }
    }

    /// The node for the syntax node entered at position `i`, as `from_node`
    /// builds it, placed at `location`.
    pub fn from_node_with_location(
        ev: &Vec<CstEvent>,
        i: usize,
        location: FileReference,
        prefix: &str,
    ) -> (r: Option<RustTraceableNode>)
        requires
            i < ev@.len(),
        ensures
            exists|b: Option<RustTraceableNode>|
                #[trigger] node_built(ev@, i as int, prefix@, b) && (b is Some <==> r is Some) && (
                r matches Some(n) ==> same_but_location(b->Some_0, n) && n.location == location),
    {
        let built = RustTraceableNode::from_node(ev, i, prefix);
        match built {
            Some(mut node) => {
                let ghost b = node;
                node.location = location;
                assert(same_but_location(b, node));
                Some(node)
            },
            None => None,
        }
    }

    /// The scope node of an impl block entered at position `i`; `None` for
    /// a malformed impl (neither one path, nor two paths with `for`).
    pub fn from_impl_node(ev: &Vec<CstEvent>, i: usize) -> (r: Option<RustTraceableNode>)
        requires
            i < ev@.len(),
        ensures
            impl_built(ev@, i as int, r),
    {
        let kids = child_positions(ev, i);
        let paths = all_children(ev, &kids, SyntaxTag::PathType, true);
        let ghost pt = all_with(ev@, children_of(ev@, i as int), SyntaxTag::PathType, true);
        assert(as_positions(paths@) == pt);
        assert(pt.len() == paths@.len());
        let (target, trait_imp) = if paths.len() == 1 {
            assert(pt[0] == paths@[0] as int);
            (text_of_node(ev, paths[0]), None)
        } else if paths.len() == 2 && first_child(ev, &kids, SyntaxTag::ForKw, false).is_some() {
            assert(pt[0] == paths@[0] as int);
            assert(pt[1] == paths@[1] as int);
            let t = text_of_node(ev, paths[0]);
            (text_of_node(ev, paths[1]), Some(t))
        } else {
            return None;
        };
        let data = ContextData::new(Context::from_str(target.as_str()), trait_imp);
        let mut node = RustTraceableNode::new(
            String::from_str("Impl"),
            FileReference::new_default(),
            NodeKind::Context,
        );
        node.context_data = Some(data);
        Some(node)
    }

    /// The scope node of an inline module entered at position `i`, named and
    /// scoped after its `NAME` child; `None` where it has none.
    pub fn from_module_node(ev: &Vec<CstEvent>, i: usize) -> (r: Option<RustTraceableNode>)
        requires
            i < ev@.len(),
        ensures
            module_built(ev@, i as int, r),
    {
        match name_of(ev, i) {
            Some(name) => {
                let data = ContextData::new(Context::from_str(name.as_str()), None);
                let mut node = RustTraceableNode::new(name, FileReference::new_default(), NodeKind::Context);
                node.context_data = Some(data);
                Some(node)
            },
            None => None,
        }
    }
}

/// An interchange record as plain values.
pub struct RecordSpec {
    pub tag: Seq<char>,
    pub name: Seq<char>,
    pub file: Seq<char>,
    pub line: Option<usize>,
    pub column: Option<usize>,
    pub messages: Seq<Seq<char>>,
    pub just_up: Seq<Seq<char>>,
    pub just_down: Seq<Seq<char>>,
    pub just_global: Seq<Seq<char>>,
    pub refs: Seq<Seq<char>>,
    pub language: Seq<char>,
    pub kind: Seq<char>,
}

/// One interchange record: a function or struct with its location, its
/// justifications and its requirement references, with every field of the
/// interchange format.
pub struct Record {
    pub tag: String,
    pub name: String,
    pub location: FileReference,
    pub messages: Vec<String>,
    pub just_up: Vec<String>,
    pub just_down: Vec<String>,
    pub just_global: Vec<String>,
    pub refs: Vec<String>,
    pub language: String,
    pub kind: String,
}

impl View for Record {
    type V = RecordSpec;

    open spec fn view(&self) -> RecordSpec {
        RecordSpec {
            tag: self.tag@,
            name: self.name@,
            file: self.location.filename@,
            line: self.location.line,
            column: self.location.column,
            messages: texts(self.messages@),
            just_up: texts(self.just_up@),
            just_down: texts(self.just_down@),
            just_global: texts(self.just_global@),
            refs: texts(self.refs@),
            language: self.language@,
            kind: self.kind@,
        }
    }
}

/// The record of a node: tagged `rust <name>`, in language `Rust`, with no
/// messages and no downward or global justifications.
pub open spec fn record_of(n: RustTraceableNode) -> RecordSpec {
    RecordSpec {
        tag: "rust "@ + n.name@,
        name: n.name@,
        file: n.location.filename@,
        line: n.location.line,
        column: n.location.column,
        messages: Seq::empty(),
        just_up: texts(n.just@),
        just_down: Seq::empty(),
        just_global: Seq::empty(),
        refs: texts(n.refs@),
        language: "Rust"@,
        kind: kind_name(n.kind),
    }
}

/// The records of a tree: a function or struct is one record; a source file
/// or a scope gives the records of its children in order; enums and traits
/// give none.
pub open spec fn flatten(n: RustTraceableNode) -> Seq<RecordSpec>
    decreases n, n.children@.len() + 1,
{
    match n.kind {
        NodeKind::Function | NodeKind::Struct => seq![record_of(n)],
        NodeKind::Source | NodeKind::Context => flatten_children(n, 0),
        _ => Seq::empty(),
    }
}

/// The records of the children of `n` from the `j`-th on.
pub open spec fn flatten_children(n: RustTraceableNode, j: int) -> Seq<RecordSpec>
    decreases n, n.children@.len() - j,
{
    if j < 0 || j >= n.children@.len() {
        Seq::empty()
    } else {
        flatten(n.children[j]) + flatten_children(n, j + 1)
    }
}

pub open spec fn records_view(v: Seq<Record>) -> Seq<RecordSpec> {
    v.map_values(|r: Record| r@)
}

/// A copy of a list of texts.
pub fn copy_texts(v: &Vec<String>) -> (r: Vec<String>)
    ensures
        texts(r@) == texts(v@),
{
    let mut out: Vec<String> = Vec::new();
    let mut k: usize = 0;
    while k < v.len()
        invariant
            k <= v@.len(),
            out@.len() == k,
            forall|j: int| 0 <= j < k ==> #[trigger] out@[j]@ == v@[j]@,
        decreases v@.len() - k,
    {
        out.push(v[k].clone());
        k = k + 1;
    }
    assert(texts(out@) =~= texts(v@));
    out
}

impl RustTraceableNode {
    /// A one-line description: `Node <kind> <name> at <location>`.
    pub fn to_string(&self) -> (r: String)
        ensures
            r@ == "Node "@ + kind_name(self.kind) + " "@ + self.name@ + " at "@
                + self.location.filename@ + position_suffix(self.location.line) + position_suffix(
                self.location.column,
            ) + "\n"@,
    {
        let mut out = String::from_str("Node ");
        out.append(self.kind.to_str());
        out.append(" ");
        out.append(self.name.as_str());
        out.append(" at ");
        let place = self.location.to_string();
        out.append(place.as_str());
        out.append("\n");
        proof {
            reveal_strlit("Node ");
            reveal_strlit(" ");
            reveal_strlit(" at ");
            reveal_strlit("\n");
        }
        assert(out@ =~= "Node "@ + kind_name(self.kind) + " "@ + self.name@ + " at "@
            + self.location.filename@ + position_suffix(self.location.line) + position_suffix(
            self.location.column,
        ) + "\n"@);
        out
    }

    /// The record of this node.
    pub fn to_record(&self) -> (r: Record)
        ensures
            r@ == record_of(*self),
    {
        let mut tag = String::from_str("rust ");
        tag.append(self.name.as_str());
        proof {
            reveal_strlit("rust ");
        }
        let r = Record {
            tag,
            name: self.name.clone(),
            location: FileReference::new(
                self.location.filename.clone(),
                self.location.line,
                self.location.column,
            ),
            messages: Vec::new(),
            just_up: copy_texts(&self.just),
            just_down: Vec::new(),
            just_global: Vec::new(),
            refs: copy_texts(&self.refs),
            language: String::from_str("Rust"),
            kind: String::from_str(self.kind.to_str()),
        };
        proof {
            reveal_strlit("Rust");
            assert(texts(r.messages@) =~= Seq::<Seq<char>>::empty());
            assert(texts(r.just_down@) =~= Seq::<Seq<char>>::empty());
            assert(texts(r.just_global@) =~= Seq::<Seq<char>>::empty());
        }
        r
    }

    /// The interchange records of this tree, in document order.
    pub fn to_lobster(&self) -> (r: Vec<Record>)
        ensures
            records_view(r@) == flatten(*self),
        decreases self, self.children@.len() + 1,
    {
        match self.kind {
            NodeKind::Function | NodeKind::Struct => {
                let mut out: Vec<Record> = Vec::new();
                out.push(self.to_record());
                assert(records_view(out@) =~= seq![record_of(*self)]);
                out
            },
            NodeKind::Source | NodeKind::Context => {
                let mut out: Vec<Record> = Vec::new();
                let n = self.children.len();
                let mut j: usize = 0;
                assert(records_view(out@) =~= Seq::<RecordSpec>::empty());
                while j < n
                    invariant
                        n == self.children@.len(),
                        j <= n,
                        flatten_children(*self, 0) == records_view(out@) + flatten_children(*self, j as int),
                    decreases n - j,
                {
                    let mut part = self.children[j].to_lobster();
                    let ghost before = records_view(out@);
                    out.append(&mut part);
                    assert(records_view(out@) =~= before + flatten(self.children[j as int]));
                    assert(before + flatten_children(*self, j as int) =~= records_view(out@)
                        + flatten_children(*self, j + 1));
                    j = j + 1;
                }
                assert(records_view(out@) + flatten_children(*self, j as int) =~= records_view(out@));
                out
            },
            _ => {
                let out: Vec<Record> = Vec::new();
                assert(records_view(out@) =~= Seq::<RecordSpec>::empty());
                out
            },
        }
    }
}

} // verus!
