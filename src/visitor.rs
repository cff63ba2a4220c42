//! The walk over one source file: it keeps a stack of open items, places
//! them by line and column, attaches comment annotations, and records the
//! module files to analyse next.
use vstd::prelude::*;
use vstd::string::*;
use crate::annotations::{justification, justification_of, opt_text, trace_ref_of, trace_reference};
use crate::context::{join_dotted, segments_of, split_on, split_text, Context};
use crate::cst::{
    all_children, all_with, as_positions, child_positions, children_of, extract_path_attribute,
    path_attribute, CstEvent, SyntaxTag,
};
use crate::location::{capped_sum, count_newlines, last_newline_byte, FileReference, WhitespaceData};
use crate::node::{
    impl_shape, is_default_location, is_fresh, name_of, name_text, texts, NodeKind,
    RustTraceableNode,
};
use crate::resolve::{resolution, resolve_module_declaration, DirEntry};

verus! {

/// Something the walk met that it could not fully handle; the walk goes on.
pub enum Warning {
    /// A function, struct, trait or inline module without a name, entered at
    /// the given position.
    UnnamedItem(usize),
    /// An impl block entered at the given position whose shape is neither
    /// `impl T` nor `impl Tr for T`.
    MalformedImpl(usize),
    /// A module declaration that leads to no file.
    UnresolvedModule(String),
    /// A `fn` or `struct` keyword, at the given line and column, outside the
    /// item it introduces.
    MisplacedKeyword(usize, usize),
}

/// A module file to analyse after the current one: its path relative to the
/// current file's directory, and the namespace its items live in.
pub struct ModuleJob {
    pub path: Vec<String>,
    pub context: Context,
}

/// What changes as the walk goes: the line accounting, and the stack of the
/// items open at the current event, the file's root at the bottom.
pub struct VisitorData {
    pub whitespace_data: WhitespaceData,
    pub node_stack: Vec<RustTraceableNode>,
}

impl VisitorData {
    /// The root of the file's tree: the bottom of the stack.
    pub fn get_root(&self) -> (r: Option<&RustTraceableNode>)
        ensures
            self.node_stack@.len() == 0 ==> r is None,
            self.node_stack@.len() > 0 ==> r == Some(&self.node_stack@[0]),
    {
        if self.node_stack.len() == 0 {
            None
        } else {
            Some(&self.node_stack[0])
        }
    }
}

/// The state of the walk over one file.
pub struct RustVisitor {
    /// The stem of the file's name.
    pub stem: String,
    /// The namespace the file's items live in.
    pub default_context: Context,
    pub vdata: VisitorData,
    pub module_jobs: Vec<ModuleJob>,
    pub warnings: Vec<Warning>,
}

/// The namespace that the scopes on a stack open, outermost first.
pub open spec fn enclosing(stack: Seq<RustTraceableNode>) -> Seq<Seq<char>>
    decreases stack.len(),
{
    if stack.len() == 0 {
        Seq::empty()
    } else {
        enclosing(stack.drop_last()) + scope_of(stack.last())
    }
}

/// The namespace that one node opens: that of a scope node that carries one.
pub open spec fn scope_of(n: RustTraceableNode) -> Seq<Seq<char>> {
    if n.kind == NodeKind::Context {
        match n.context_data {
            Some(cd) => cd.context@,
            None => Seq::empty(),
        }
    } else {
        Seq::empty()
    }
}

/// The namespace in which the visitor names a new item.
pub open spec fn name_prefix(v: RustVisitor) -> Seq<Seq<char>> {
    v.default_context@ + segments_of(v.stem@) + enclosing(v.vdata.node_stack@)
}

/// The stem and base namespace never change during a walk.
pub open spec fn same_file(a: RustVisitor, b: RustVisitor) -> bool {
    a.stem == b.stem && a.default_context == b.default_context
}

/// `b` is `a` with `n` pushed on the stack, all else kept.
pub open spec fn pushed(a: RustVisitor, b: RustVisitor) -> bool {
    &&& same_file(a, b)
    &&& b.vdata.node_stack@.len() == a.vdata.node_stack@.len() + 1
    &&& b.vdata.node_stack@.drop_last() == a.vdata.node_stack@
    &&& b.vdata.whitespace_data == a.vdata.whitespace_data
    &&& b.module_jobs == a.module_jobs
}

/// `b` is `a` with only the stack replaced.
pub open spec fn stack_only(a: RustVisitor, b: RustVisitor) -> bool {
    &&& same_file(a, b)
    &&& b.vdata.whitespace_data == a.vdata.whitespace_data
    &&& b.module_jobs == a.module_jobs
    &&& b.warnings == a.warnings
}

/// Two nodes that differ at most in their children.
pub open spec fn same_but_children(p: RustTraceableNode, q: RustTraceableNode) -> bool {
    &&& p.name == q.name
    &&& p.kind == q.kind
    &&& p.location == q.location
    &&& p.just == q.just
    &&& p.refs == q.refs
    &&& p.context_data == q.context_data
}

/// The stack `t` is `s` with its top popped and, if something remains,
/// added as the last child of the new top.
pub open spec fn folded(s: Seq<RustTraceableNode>, t: Seq<RustTraceableNode>) -> bool {
    if s.len() >= 2 {
        let p = s[s.len() - 2];
        &&& t.len() == s.len() - 1
        &&& t.drop_last() == s.subrange(0, s.len() - 2)
        &&& same_but_children(p, t.last())
        &&& t.last().children@ == p.children@.push(s.last())
    } else {
        t.len() == 0
    }
}

/// Whether the top of the stack is of kind `k`.
pub open spec fn top_is(v: RustVisitor, k: NodeKind) -> bool {
    v.vdata.node_stack@.len() > 0 && v.vdata.node_stack@.last().kind == k
}

/// The name of the file that new items are placed in: that of the root,
/// or the stem before there is one.
pub open spec fn file_name_of(a: RustVisitor) -> Seq<char> {
    if a.vdata.node_stack@.len() > 0 {
        a.vdata.node_stack@[0].name@
    } else {
        a.stem@
    }
}

/// Entering the source file pushes its root, named after the file's stem.
pub open spec fn enter_source_rel(a: RustVisitor, b: RustVisitor) -> bool {
    &&& pushed(a, b)
    &&& b.warnings == a.warnings
    &&& is_fresh(b.vdata.node_stack@.last(), a.stem@, NodeKind::Source)
    &&& is_default_location(b.vdata.node_stack@.last().location)
    &&& b.vdata.node_stack@.last().context_data is None
}

/// Entering a function or struct pushes its node, named `prefix.name` and
/// placed at the current line and the placeholder column `col`; an item
/// without a name is skipped with a warning.
pub open spec fn enter_item_rel(
    a: RustVisitor,
    b: RustVisitor,
    ev: Seq<CstEvent>,
    i: int,
    kind: NodeKind,
    col: usize,
) -> bool {
    match name_text(ev, i) {
        Some(nm) => {
            let n = b.vdata.node_stack@.last();
            &&& pushed(a, b)
            &&& b.warnings == a.warnings
            &&& is_fresh(n, join_dotted(name_prefix(a)) + "."@ + nm, kind)
            &&& n.location.filename@ == file_name_of(a)
            &&& n.location.line == Some(a.vdata.whitespace_data.current_line)
            &&& n.location.column == Some(col)
            &&& n.context_data is None
        },
        None => {
            &&& same_file(a, b)
            &&& b.vdata.whitespace_data == a.vdata.whitespace_data
            &&& b.module_jobs == a.module_jobs
            &&& b.vdata.node_stack == a.vdata.node_stack
            &&& b.warnings@ == a.warnings@.push(Warning::UnnamedItem(i as usize))
        },
    }
}

/// Entering a trait pushes its node, so that what it holds is dropped with
/// it; a trait without a name is pushed unnamed, with a warning.
pub open spec fn enter_trait_rel(a: RustVisitor, b: RustVisitor, ev: Seq<CstEvent>, i: int) -> bool {
    &&& pushed(a, b)
    &&& if name_text(ev, i) is Some {
        b.warnings == a.warnings
    } else {
        b.warnings@ == a.warnings@.push(Warning::UnnamedItem(i as usize))
    }
    &&& is_fresh(b.vdata.node_stack@.last(), match name_text(ev, i) {
        Some(t) => t,
        None => Seq::empty(),
    }, NodeKind::Trait)
}

/// Entering an impl block pushes a scope named `Impl` for its target type;
/// a malformed impl pushes a scope that opens no namespace, with a warning.
pub open spec fn enter_impl_rel(a: RustVisitor, b: RustVisitor, ev: Seq<CstEvent>, i: int) -> bool {
    let n = b.vdata.node_stack@.last();
    &&& pushed(a, b)
    &&& is_fresh(n, "Impl"@, NodeKind::Context)
    &&& match impl_shape(ev, i) {
        Some(shape) => {
            &&& b.warnings == a.warnings
            &&& n.context_data matches Some(cd)
            &&& cd.context@ == segments_of(shape.0)
            &&& opt_text(cd.trait_imp) == shape.1
        },
        None => {
            &&& n.context_data is None
            &&& b.warnings@ == a.warnings@.push(Warning::MalformedImpl(i as usize))
        },
    }
}

/// The first path that one of the attributes at positions `attrs` gives.
pub open spec fn first_path_attribute(ev: Seq<CstEvent>, attrs: Seq<int>) -> Option<Seq<char>>
    decreases attrs.len(),
{
    if attrs.len() == 0 {
        None
    } else {
        match path_attribute(ev, attrs[0]) {
            Some(p) => Some(p),
            None => first_path_attribute(ev, attrs.drop_first()),
        }
    }
}

/// Where the module declaration entered at position `i` leads: the path its
/// path attribute gives, in the file's own namespace; else the file that
/// resolution finds, in the namespace it adds.
pub open spec fn module_target(
    ev: Seq<CstEvent>,
    i: int,
    listing: Seq<DirEntry>,
    stem: Seq<char>,
    base: Seq<Seq<char>>,
) -> Option<(Seq<Seq<char>>, Seq<Seq<char>>)> {
    let attrs = all_with(ev, children_of(ev, i), SyntaxTag::Attr, true);
    match first_path_attribute(ev, attrs) {
        Some(p) => Some((split_on(p, '/'), base)),
        None => match name_text(ev, i) {
            None => None,
            Some(nm) => match resolution(listing, stem, nm) {
                Some(r) => Some((r.0, base + r.1)),
                None => None,
            },
        },
    }
}

/// A module whose last child is `;` is a declaration; one whose last child
/// is an item list is defined inline.
pub open spec fn ends_with(ev: Seq<CstEvent>, i: int, e: spec_fn(CstEvent) -> bool) -> bool {
    let ks = children_of(ev, i);
    ks.len() > 0 && e(ev[ks.last()])
}

pub open spec fn is_semicolon(e: CstEvent) -> bool {
    e matches CstEvent::Token(SyntaxTag::Semicolon, _, _)
}

pub open spec fn is_item_list(e: CstEvent) -> bool {
    e == CstEvent::Enter(SyntaxTag::ItemList)
}

/// Entering a module: a declaration records the file to analyse next (or a
/// warning where none is found); an inline definition pushes a scope named
/// after the module (an unnamed one, with a warning, where it has no name).
pub open spec fn enter_module_rel(
    a: RustVisitor,
    b: RustVisitor,
    ev: Seq<CstEvent>,
    i: int,
    listing: Seq<DirEntry>,
) -> bool {
    if ends_with(ev, i, |e| is_semicolon(e)) {
        &&& same_file(a, b)
        &&& b.vdata.node_stack == a.vdata.node_stack
        &&& b.vdata.whitespace_data == a.vdata.whitespace_data
        &&& match module_target(ev, i, listing, a.stem@, a.default_context@) {
            Some(t) => {
                &&& b.warnings == a.warnings
                &&& b.module_jobs@.len() == a.module_jobs@.len() + 1
                &&& b.module_jobs@.drop_last() == a.module_jobs@
                &&& texts(b.module_jobs@.last().path@) == t.0
                &&& b.module_jobs@.last().context@ == t.1
            },
            None => {
                &&& b.module_jobs == a.module_jobs
                &&& b.warnings@.len() == a.warnings@.len() + 1
                &&& b.warnings@.drop_last() == a.warnings@
                &&& b.warnings@.last() matches Warning::UnresolvedModule(nm)
                &&& nm@ == match name_text(ev, i) {
                    Some(t) => t,
                    None => Seq::empty(),
                }
            },
        }
    } else if ends_with(ev, i, |e| is_item_list(e)) {
        let n = b.vdata.node_stack@.last();
        &&& pushed(a, b)
        &&& match name_text(ev, i) {
            Some(nm) => {
                &&& b.warnings == a.warnings
                &&& is_fresh(n, nm, NodeKind::Context)
                &&& n.context_data matches Some(cd)
                &&& cd.context@ == segments_of(nm)
                &&& cd.trait_imp is None
            },
            None => {
                &&& is_fresh(n, Seq::empty(), NodeKind::Context)
                &&& n.context_data is None
                &&& b.warnings@ == a.warnings@.push(Warning::UnnamedItem(i as usize))
            },
        }
    } else {
        b == a
    }
}

/// Leaving an item of kind `k` folds the top into its parent, if the top is
/// of that kind.
pub open spec fn exit_rel(a: RustVisitor, b: RustVisitor, k: NodeKind) -> bool {
    &&& stack_only(a, b)
    &&& if top_is(a, k) {
        folded(a.vdata.node_stack@, b.vdata.node_stack@)
    } else {
        b.vdata.node_stack == a.vdata.node_stack
    }
}

/// Leaving a trait drops its node, with all it holds.
pub open spec fn exit_trait_rel(a: RustVisitor, b: RustVisitor) -> bool {
    &&& stack_only(a, b)
    &&& if top_is(a, NodeKind::Trait) {
        b.vdata.node_stack@ == a.vdata.node_stack@.drop_last()
    } else {
        b.vdata.node_stack == a.vdata.node_stack
    }
}

/// Leaving a module folds its scope into the parent where the module was
/// defined inline, that is where the event before is the end of an item list.
pub open spec fn exit_module_rel(a: RustVisitor, b: RustVisitor, ev: Seq<CstEvent>, i: int) -> bool {
    if i > 0 && ev[i - 1] == CstEvent::Exit(SyntaxTag::ItemList) {
        exit_rel(a, b, NodeKind::Context)
    } else {
        b == a
    }
}

/// A list with `o` added at its end where there is one.
pub open spec fn push_some(v: Seq<Seq<char>>, o: Option<Seq<char>>) -> Seq<Seq<char>> {
    match o {
        Some(x) => v.push(x),
        None => v,
    }
}

/// A comment adds its requirement reference and its justification to the
/// item on top of the stack.
pub open spec fn comment_rel(a: RustVisitor, b: RustVisitor, text: Seq<char>) -> bool {
    &&& stack_only(a, b)
    &&& if a.vdata.node_stack@.len() == 0 {
        b.vdata.node_stack == a.vdata.node_stack
    } else {
        let t = a.vdata.node_stack@.last();
        let u = b.vdata.node_stack@.last();
        &&& b.vdata.node_stack@.len() == a.vdata.node_stack@.len()
        &&& b.vdata.node_stack@.drop_last() == a.vdata.node_stack@.drop_last()
        &&& u.name == t.name && u.kind == t.kind && u.location == t.location
        &&& u.children == t.children && u.context_data == t.context_data
        &&& texts(u.refs@) == push_some(texts(t.refs@), trace_ref_of(text))
        &&& texts(u.just@) == push_some(texts(t.just@), justification_of(text))
    }
}

/// The line and column of the byte at `offset` by the visitor's accounting.
pub open spec fn position_at(a: RustVisitor, offset: usize) -> (usize, usize) {
    (
        a.vdata.whitespace_data.current_line,
        if offset >= a.vdata.whitespace_data.last_linebrk {
            (offset - a.vdata.whitespace_data.last_linebrk) as usize
        } else {
            0
        },
    )
}

/// A `fn` or `struct` keyword places the item of kind `k` on top of the
/// stack exactly; anywhere else it gives a warning.
pub open spec fn keyword_rel(a: RustVisitor, b: RustVisitor, k: NodeKind, offset: usize) -> bool {
    let (line, col) = position_at(a, offset);
    &&& same_file(a, b)
    &&& b.vdata.whitespace_data == a.vdata.whitespace_data
    &&& b.module_jobs == a.module_jobs
    &&& if top_is(a, k) {
        let t = a.vdata.node_stack@.last();
        let u = b.vdata.node_stack@.last();
        &&& b.warnings == a.warnings
        &&& b.vdata.node_stack@.len() == a.vdata.node_stack@.len()
        &&& b.vdata.node_stack@.drop_last() == a.vdata.node_stack@.drop_last()
        &&& u.name == t.name && u.kind == t.kind && u.children == t.children
        &&& u.just == t.just && u.refs == t.refs && u.context_data == t.context_data
        &&& u.location.filename == t.location.filename
        &&& u.location.line == Some(line)
        &&& u.location.column == Some(col)
    } else {
        &&& b.vdata.node_stack == a.vdata.node_stack
        &&& b.warnings@ == a.warnings@.push(Warning::MisplacedKeyword(line, col))
    }
}

/// A whitespace token advances the line accounting: a line for each line
/// break, and the byte offset of its last line break becomes the line start.
pub open spec fn whitespace_rel(a: RustVisitor, b: RustVisitor, text: Seq<char>, start: usize) -> bool {
    &&& same_file(a, b)
    &&& b.vdata.node_stack == a.vdata.node_stack
    &&& b.module_jobs == a.module_jobs
    &&& b.warnings == a.warnings
    &&& b.vdata.whitespace_data.current_line == capped_sum(
        a.vdata.whitespace_data.current_line as int,
        count_newlines(text) as int,
    )
    &&& b.vdata.whitespace_data.last_linebrk == match last_newline_byte(vstd::utf8::encode_utf8(text)) {
        Some(p) => capped_sum(start as int, p),
        None => a.vdata.whitespace_data.last_linebrk as int,
    }
}

/// What the event at position `i` does to the visitor.
pub open spec fn step(a: RustVisitor, b: RustVisitor, ev: Seq<CstEvent>, i: int, listing: Seq<DirEntry>) -> bool {
    match ev[i] {
        CstEvent::Enter(t) => match t {
            SyntaxTag::SourceFile => enter_source_rel(a, b),
            SyntaxTag::Fn => enter_item_rel(a, b, ev, i, NodeKind::Function, 0),
            SyntaxTag::Struct => enter_item_rel(a, b, ev, i, NodeKind::Struct, 1),
            SyntaxTag::Impl => enter_impl_rel(a, b, ev, i),
            SyntaxTag::Module => enter_module_rel(a, b, ev, i, listing),
            SyntaxTag::Trait => enter_trait_rel(a, b, ev, i),
            _ => b == a,
        },
        CstEvent::Exit(t) => match t {
            SyntaxTag::Fn => exit_rel(a, b, NodeKind::Function),
            SyntaxTag::Struct => exit_rel(a, b, NodeKind::Struct),
            SyntaxTag::Impl => exit_rel(a, b, NodeKind::Context),
            SyntaxTag::Module => exit_module_rel(a, b, ev, i),
            SyntaxTag::Trait => exit_trait_rel(a, b),
            _ => b == a,
        },
        CstEvent::Token(t, text, start) => match t {
            SyntaxTag::Whitespace => whitespace_rel(a, b, text@, start),
            SyntaxTag::Comment => comment_rel(a, b, text@),
            SyntaxTag::FnKw => keyword_rel(a, b, NodeKind::Function, start),
            SyntaxTag::StructKw => keyword_rel(a, b, NodeKind::Struct, start),
            _ => b == a,
        },
    }
}

/// A visitor before its walk over a file with stem `stem` whose items live
/// in namespace `context`.
pub open spec fn is_initial(v: RustVisitor, stem: String, context: Context) -> bool {
    &&& v.stem == stem
    &&& v.default_context == context
    &&& v.vdata.whitespace_data.current_line == 1
    &&& v.vdata.whitespace_data.last_linebrk == 0
    &&& v.vdata.node_stack@.len() == 0
    &&& v.module_jobs@.len() == 0
    &&& v.warnings@.len() == 0
}

/// `trace` is a run of the walk over the events before position `k`.
pub open spec fn is_run(trace: Seq<RustVisitor>, ev: Seq<CstEvent>, k: int, listing: Seq<DirEntry>) -> bool {
    &&& trace.len() == k + 1
    &&& forall|j: int| 0 <= j < k ==> #[trigger] step(trace[j], trace[j + 1], ev, j, listing)
}


/// The first path that one of the attributes at positions `attrs` gives.
pub fn first_path_attr(ev: &Vec<CstEvent>, attrs: &Vec<usize>) -> (r: Option<String>)
    requires
        forall|j: int| 0 <= j < attrs@.len() ==> #[trigger] attrs@[j] < ev@.len(),
    ensures
        opt_text(r) == first_path_attribute(ev@, as_positions(attrs@)),
{
    let n = attrs.len();
    let mut j: usize = 0;
    assert(as_positions(attrs@).subrange(0, n as int) =~= as_positions(attrs@));
    while j < n
        invariant
            n == attrs@.len(),
            j <= n,
            forall|q: int| 0 <= q < attrs@.len() ==> #[trigger] attrs@[q] < ev@.len(),
            first_path_attribute(ev@, as_positions(attrs@)) == first_path_attribute(
                ev@,
                as_positions(attrs@).subrange(j as int, n as int),
            ),
        decreases n - j,
    {
        let ghost rest = as_positions(attrs@).subrange(j as int, n as int);
        assert(rest[0] == attrs@[j as int] as int);
        let found = extract_path_attribute(ev, attrs[j]);
        if found.is_some() {
            return found;
        }
        assert(rest.drop_first() =~= as_positions(attrs@).subrange(j + 1, n as int));
        j = j + 1;
    }
    None
}

impl RustVisitor {
    /// A visitor for a file with stem `stem` whose items live in namespace
    /// `context`, before the walk.
    pub fn new(stem: String, context: Context) -> (r: RustVisitor)
        ensures
            is_initial(r, stem, context),
    {
        RustVisitor {
            stem,
            default_context: context,
            vdata: VisitorData { whitespace_data: WhitespaceData::new(), node_stack: Vec::new() },
            module_jobs: Vec::new(),
            warnings: Vec::new(),
        }
    }

    /// The namespace that the scopes on the stack open.
    pub fn get_enclosing_context(&self) -> (r: Context)
        ensures
            r@ == enclosing(self.vdata.node_stack@),
    {
        let mut acc = Context::Empty;
        let mut k: usize = 0;
        let n = self.vdata.node_stack.len();
        assert(self.vdata.node_stack@.subrange(0, 0) =~= Seq::<RustTraceableNode>::empty());
        while k < n
            invariant
                n == self.vdata.node_stack@.len(),
                k <= n,
                acc@ == enclosing(self.vdata.node_stack@.subrange(0, k as int)),
            decreases n - k,
        {
            let node = &self.vdata.node_stack[k];
            assert(self.vdata.node_stack@.subrange(0, k + 1).drop_last() =~= self.vdata.node_stack@.subrange(
                0,
                k as int,
            ));
            if node.kind == NodeKind::Context {
                match &node.context_data {
                    Some(cd) => {
                        acc = acc.combine(&cd.context);
                    },
                    None => {
                        assert(acc@ + Seq::<Seq<char>>::empty() =~= acc@);
                    },
                }
            } else {
                assert(acc@ + Seq::<Seq<char>>::empty() =~= acc@);
            }
            k = k + 1;
        }
        assert(self.vdata.node_stack@.subrange(0, n as int) =~= self.vdata.node_stack@);
        acc
    }

    /// The stem of the file's name.
    pub fn get_filename(&self) -> (r: String)
        ensures
            r@ == self.stem@,
    {
        self.stem.clone()
    }

    /// The dotted prefix of the names of new items.
    fn prefix(&self) -> (r: String)
        ensures
            r@ == join_dotted(name_prefix(*self)),
    {
        let file = Context::from_str(self.stem.as_str());
        let ctx = self.default_context.combine(&file).combine(&self.get_enclosing_context());
        ctx.to_str()
    }

    /// The root of the file's tree, taken off the stack together with all
    /// it holds; nothing where the walk produced none.
    pub fn get_traceable_nodes(&mut self) -> (r: Vec<RustTraceableNode>)
        ensures
            old(self).vdata.node_stack@.len() == 0 ==> r@.len() == 0,
            old(self).vdata.node_stack@.len() > 0 ==> r@ == seq![old(self).vdata.node_stack@[0]],
            final(self).vdata.node_stack@ == if old(self).vdata.node_stack@.len() == 0 {
                old(self).vdata.node_stack@
            } else {
                old(self).vdata.node_stack@.drop_first()
            },
            final(self).module_jobs == old(self).module_jobs,
            final(self).warnings == old(self).warnings,
    {
        let mut out: Vec<RustTraceableNode> = Vec::new();
        if self.vdata.node_stack.len() > 0 {
            let root = self.vdata.node_stack.remove(0);
            out.push(root);
            assert(out@ =~= seq![old(self).vdata.node_stack@[0]]);
        }
        out
    }

    fn enter_source(&mut self)
        ensures
            enter_source_rel(*old(self), *final(self)),
    {
        let root = RustTraceableNode::new(
            self.get_filename(),
            FileReference::new_default(),
            NodeKind::Source,
        );
        self.vdata.node_stack.push(root);
        assert(self.vdata.node_stack@.drop_last() =~= old(self).vdata.node_stack@);
    }

    fn enter_item(&mut self, ev: &Vec<CstEvent>, i: usize, kind: NodeKind, col: usize)
        requires
            i < ev@.len(),
            ev@[i as int] == CstEvent::Enter(if kind == NodeKind::Function {
                SyntaxTag::Fn
            } else {
                SyntaxTag::Struct
            }),
            kind == NodeKind::Function || kind == NodeKind::Struct,
        ensures
            enter_item_rel(*old(self), *final(self), ev@, i as int, kind, col),
    {
        let line = self.vdata.whitespace_data.current_line;
        let file = match self.vdata.get_root() {
            Some(root) => root.name.clone(),
            None => self.get_filename(),
        };
        let location = FileReference::new(file, Some(line), Some(col));
        let prefix = self.prefix();
        match RustTraceableNode::from_node_with_location(ev, i, location, prefix.as_str()) {
            Some(node) => {
                self.vdata.node_stack.push(node);
                assert(self.vdata.node_stack@.drop_last() =~= old(self).vdata.node_stack@);
            },
            None => {
                self.warnings.push(Warning::UnnamedItem(i));
            },
        }
    }

    /// Entering a function: its node goes on the stack.
    pub fn enter_fn(&mut self, ev: &Vec<CstEvent>, i: usize)
        requires
            i < ev@.len(),
            ev@[i as int] == CstEvent::Enter(SyntaxTag::Fn),
        ensures
            enter_item_rel(*old(self), *final(self), ev@, i as int, NodeKind::Function, 0),
    {
        self.enter_item(ev, i, NodeKind::Function, 0)
    }

    /// Entering a struct: its node goes on the stack.
    pub fn enter_struct(&mut self, ev: &Vec<CstEvent>, i: usize)
        requires
            i < ev@.len(),
            ev@[i as int] == CstEvent::Enter(SyntaxTag::Struct),
        ensures
            enter_item_rel(*old(self), *final(self), ev@, i as int, NodeKind::Struct, 1),
    {
        self.enter_item(ev, i, NodeKind::Struct, 1)
    }

    fn enter_trait(&mut self, ev: &Vec<CstEvent>, i: usize)
        requires
            i < ev@.len(),
            ev@[i as int] == CstEvent::Enter(SyntaxTag::Trait),
        ensures
            enter_trait_rel(*old(self), *final(self), ev@, i as int),
    {
        let node = match RustTraceableNode::from_node(ev, i, "") {
            Some(node) => node,
            None => {
                self.warnings.push(Warning::UnnamedItem(i));
                RustTraceableNode::new(String::new(), FileReference::new_default(), NodeKind::Trait)
            },
        };
        self.vdata.node_stack.push(node);
        assert(self.vdata.node_stack@.drop_last() =~= old(self).vdata.node_stack@);
    }

    fn enter_impl(&mut self, ev: &Vec<CstEvent>, i: usize)
        requires
            i < ev@.len(),
            ev@[i as int] == CstEvent::Enter(SyntaxTag::Impl),
        ensures
            enter_impl_rel(*old(self), *final(self), ev@, i as int),
    {
        match RustTraceableNode::from_node(ev, i, "") {
            Some(node) => {
                self.vdata.node_stack.push(node);
                assert(self.vdata.node_stack@.drop_last() =~= old(self).vdata.node_stack@);
            },
            None => {
                self.warnings.push(Warning::MalformedImpl(i));
                let node = RustTraceableNode::new(
                    String::from_str("Impl"),
                    FileReference::new_default(),
                    NodeKind::Context,
                );
                self.vdata.node_stack.push(node);
                assert(self.vdata.node_stack@.drop_last() =~= old(self).vdata.node_stack@);
            },
        }
    }

    fn declare_module(&mut self, ev: &Vec<CstEvent>, i: usize, kids: &Vec<usize>, listing: &Vec<DirEntry>)
        requires
            i < ev@.len(),
            as_positions(kids@) == children_of(ev@, i as int),
            forall|j: int| 0 <= j < kids@.len() ==> #[trigger] kids@[j] < ev@.len(),
        ensures
            same_file(*old(self), *final(self)),
            final(self).vdata.node_stack == old(self).vdata.node_stack,
            final(self).vdata.whitespace_data == old(self).vdata.whitespace_data,
            match module_target(ev@, i as int, listing@, old(self).stem@, old(self).default_context@) {
                Some(t) => {
                    &&& final(self).warnings == old(self).warnings
                    &&& final(self).module_jobs@.len() == old(self).module_jobs@.len() + 1
                    &&& final(self).module_jobs@.drop_last() == old(self).module_jobs@
                    &&& texts(final(self).module_jobs@.last().path@) == t.0
                    &&& final(self).module_jobs@.last().context@ == t.1
                },
                None => {
                    &&& final(self).module_jobs == old(self).module_jobs
                    &&& final(self).warnings@.len() == old(self).warnings@.len() + 1
                    &&& final(self).warnings@.drop_last() == old(self).warnings@
                    &&& final(self).warnings@.last() matches Warning::UnresolvedModule(nm)
                    &&& nm@ == match name_text(ev@, i as int) {
                        Some(t) => t,
                        None => Seq::empty(),
                    }
                },
            },
    {
        let attrs = all_children(ev, kids, SyntaxTag::Attr, true);
        if let Some(p) = first_path_attr(ev, &attrs) {
            let path = split_text(p.as_str(), '/');
            let context = self.default_context.copied();
            self.module_jobs.push(ModuleJob { path, context });
            return;
        }
        match name_of(ev, i) {
            Some(name) => match resolve_module_declaration(self.stem.as_str(), name.as_str(), listing) {
                Some(res) => {
                    let context = self.default_context.combine(&res.context);
                    self.module_jobs.push(ModuleJob { path: res.path, context });
                },
                None => {
                    self.warnings.push(Warning::UnresolvedModule(name));
                },
            },
            None => {
                self.warnings.push(Warning::UnresolvedModule(String::new()));
            },
        }
    }

    /// Entering a module: a declaration records the module's file, an
    /// inline definition opens a scope.
    pub fn enter_module(&mut self, ev: &Vec<CstEvent>, i: usize, listing: &Vec<DirEntry>)
        requires
            i < ev@.len(),
            ev@[i as int] == CstEvent::Enter(SyntaxTag::Module),
        ensures
            enter_module_rel(*old(self), *final(self), ev@, i as int, listing@),
    {
        let kids = child_positions(ev, i);
        let ghost ks = children_of(ev@, i as int);
        if kids.len() == 0 {
            assert(ks.len() == 0);
            return;
        }
        let last = kids[kids.len() - 1];
        assert(ks.last() == last as int);
        match &ev[last] {
            CstEvent::Token(SyntaxTag::Semicolon, _, _) => {
                self.declare_module(ev, i, &kids, listing);
            },
            CstEvent::Enter(SyntaxTag::ItemList) => {
                match RustTraceableNode::from_node(ev, i, "") {
                    Some(node) => {
                        self.vdata.node_stack.push(node);
                        assert(self.vdata.node_stack@.drop_last() =~= old(self).vdata.node_stack@);
                    },
                    None => {
                        self.warnings.push(Warning::UnnamedItem(i));
                        let node = RustTraceableNode::new(
                            String::new(),
                            FileReference::new_default(),
                            NodeKind::Context,
                        );
                        self.vdata.node_stack.push(node);
                        assert(self.vdata.node_stack@.drop_last() =~= old(self).vdata.node_stack@);
                    },
                }
            },
            _ => {},
        }
    }

    /// Pops the top and adds it to the new top's children.
    fn fold_top(&mut self)
        requires
            old(self).vdata.node_stack@.len() > 0,
        ensures
            stack_only(*old(self), *final(self)),
            folded(old(self).vdata.node_stack@, final(self).vdata.node_stack@),
    {
        let closed = self.vdata.node_stack.pop().unwrap();
        if self.vdata.node_stack.len() > 0 {
            let mut parent = self.vdata.node_stack.pop().unwrap();
            parent.append_child(closed);
            self.vdata.node_stack.push(parent);
            assert(self.vdata.node_stack@.drop_last() =~= old(self).vdata.node_stack@.subrange(
                0,
                old(self).vdata.node_stack@.len() - 2,
            ));
        }
    }

    fn exit_kind(&mut self, kind: NodeKind)
        ensures
            exit_rel(*old(self), *final(self), kind),
    {
        if self.vdata.node_stack.len() > 0 && self.vdata.node_stack[self.vdata.node_stack.len() - 1].kind == kind {
            self.fold_top();
        }
    }

    /// Leaving a function: its node joins its parent.
    pub fn exit_fn(&mut self)
        ensures
            exit_rel(*old(self), *final(self), NodeKind::Function),
    {
        self.exit_kind(NodeKind::Function)
    }

    /// Leaving a struct: its node joins its parent.
    pub fn exit_struct(&mut self)
        ensures
            exit_rel(*old(self), *final(self), NodeKind::Struct),
    {
        self.exit_kind(NodeKind::Struct)
    }

    /// Leaving an impl block: its scope joins its parent.
    pub fn exit_impl(&mut self)
        ensures
            exit_rel(*old(self), *final(self), NodeKind::Context),
    {
        self.exit_kind(NodeKind::Context)
    }

    /// Leaving a module: an inline module's scope joins its parent.
    pub fn exit_module(&mut self, ev: &Vec<CstEvent>, i: usize)
        requires
            i < ev@.len(),
        ensures
            exit_module_rel(*old(self), *final(self), ev@, i as int),
    {
        if i > 0 {
            if let CstEvent::Exit(SyntaxTag::ItemList) = &ev[i - 1] {
                self.exit_kind(NodeKind::Context);
            }
        }
    }

    /// Leaving a trait: its node is dropped, with all it holds.
    pub fn exit_trait(&mut self)
        ensures
            exit_trait_rel(*old(self), *final(self)),
    {
        if self.vdata.node_stack.len() > 0 && self.vdata.node_stack[self.vdata.node_stack.len() - 1].kind
            == NodeKind::Trait {
            let _ = self.vdata.node_stack.pop();
        }
    }

    /// A `fn` or `struct` keyword at byte `offset`: places the item of kind
    /// `kind` on top of the stack.
    fn visit_keyword(&mut self, kind: NodeKind, offset: usize)
        ensures
            keyword_rel(*old(self), *final(self), kind, offset),
    {
        let (line, column) = self.vdata.whitespace_data.calculate_token_location(offset);
        if self.vdata.node_stack.len() > 0 && self.vdata.node_stack[self.vdata.node_stack.len() - 1].kind == kind {
            let mut top = self.vdata.node_stack.pop().unwrap();
            top.location.set_position(Some(line), Some(column));
            self.vdata.node_stack.push(top);
            assert(self.vdata.node_stack@.drop_last() =~= old(self).vdata.node_stack@.drop_last());
        } else {
            self.warnings.push(Warning::MisplacedKeyword(line, column));
        }
    }

    /// The `fn` keyword at byte `offset` places the function it introduces.
    pub fn visit_fn_keyword(&mut self, offset: usize)
        ensures
            keyword_rel(*old(self), *final(self), NodeKind::Function, offset),
    {
        self.visit_keyword(NodeKind::Function, offset)
    }

    /// The `struct` keyword at byte `offset` places the struct it introduces.
    pub fn visit_struct_keyword(&mut self, offset: usize)
        ensures
            keyword_rel(*old(self), *final(self), NodeKind::Struct, offset),
    {
        self.visit_keyword(NodeKind::Struct, offset)
    }

    /// A whitespace token with text `text` at byte `start`.
    pub fn visit_whitespace(&mut self, text: &str, start: usize)
        ensures
            whitespace_rel(*old(self), *final(self), text@, start),
    {
        self.vdata.whitespace_data.visit_whitespace(text, start);
    }

    /// A comment with text `text`: its annotations go to the item on top of
    /// the stack.
    pub fn visit_comment(&mut self, text: &str)
        ensures
            comment_rel(*old(self), *final(self), text@),
    {
        if self.vdata.node_stack.len() == 0 {
            return;
        }
        let mut top = self.vdata.node_stack.pop().unwrap();
        let ghost t = top;
        if let Some(r) = trace_reference(text) {
            top.refs.push(r);
        }
        if let Some(j) = justification(text) {
            top.just.push(j);
        }
        assert(texts(top.refs@) =~= push_some(texts(t.refs@), trace_ref_of(text@)));
        assert(texts(top.just@) =~= push_some(texts(t.just@), justification_of(text@)));
        self.vdata.node_stack.push(top);
        assert(self.vdata.node_stack@.drop_last() =~= old(self).vdata.node_stack@.drop_last());
    }

    /// Entering the node at position `i`: the callback of its kind.
    pub fn node_enter(&mut self, ev: &Vec<CstEvent>, i: usize, listing: &Vec<DirEntry>)
        requires
            i < ev@.len(),
            ev@[i as int] is Enter,
        ensures
            step(*old(self), *final(self), ev@, i as int, listing@),
    {
        if let CstEvent::Enter(tag) = &ev[i] {
            match tag {
                SyntaxTag::SourceFile => self.enter_source(),
                SyntaxTag::Fn => self.enter_fn(ev, i),
                SyntaxTag::Struct => self.enter_struct(ev, i),
                SyntaxTag::Impl => self.enter_impl(ev, i),
                SyntaxTag::Module => self.enter_module(ev, i, listing),
                SyntaxTag::Trait => self.enter_trait(ev, i),
                _ => {},
            }
        }
    }

    /// Leaving the node at position `i`: the callback of its kind.
    pub fn node_exit(&mut self, ev: &Vec<CstEvent>, i: usize, listing: &Vec<DirEntry>)
        requires
            i < ev@.len(),
            ev@[i as int] is Exit,
        ensures
            step(*old(self), *final(self), ev@, i as int, listing@),
    {
        if let CstEvent::Exit(tag) = &ev[i] {
            match tag {
                SyntaxTag::Fn => self.exit_fn(),
                SyntaxTag::Struct => self.exit_struct(),
                SyntaxTag::Impl => self.exit_impl(),
                SyntaxTag::Module => self.exit_module(ev, i),
                SyntaxTag::Trait => self.exit_trait(),
                _ => {},
            }
        }
    }

    /// The token at position `i`: the callback of its kind.
    pub fn token_visit(&mut self, ev: &Vec<CstEvent>, i: usize, listing: &Vec<DirEntry>)
        requires
            i < ev@.len(),
            ev@[i as int] is Token,
        ensures
            step(*old(self), *final(self), ev@, i as int, listing@),
    {
        if let CstEvent::Token(tag, text, start) = &ev[i] {
            match tag {
                SyntaxTag::Whitespace => self.visit_whitespace(text.as_str(), *start),
                SyntaxTag::Comment => self.visit_comment(text.as_str()),
                SyntaxTag::FnKw => self.visit_fn_keyword(*start),
                SyntaxTag::StructKw => self.visit_struct_keyword(*start),
                _ => {},
            }
        }
    }

    /// Walks the events of a file's tree in order, each through its
    /// callback; `listing` holds the entries under the file's directory.
    pub fn travel(&mut self, ev: &Vec<CstEvent>, listing: &Vec<DirEntry>)
        ensures
            exists|trace: Seq<RustVisitor>|
                {
                    &&& is_run(trace, ev@, ev@.len() as int, listing@)
                    &&& trace[0] == *old(self)
                    &&& trace.last() == *final(self)
                },
    {
        let n = ev.len();
        let mut k: usize = 0;
        let ghost mut trace: Seq<RustVisitor> = seq![*self];
        while k < n
            invariant
                n == ev@.len(),
                k <= n,
                is_run(trace, ev@, k as int, listing@),
                trace[0] == *old(self),
                trace.last() == *self,
            decreases n - k,
        {
            let ghost before = *self;
            match &ev[k] {
                CstEvent::Enter(_) => self.node_enter(ev, k, listing),
                CstEvent::Exit(_) => self.node_exit(ev, k, listing),
                CstEvent::Token(_, _, _) => self.token_visit(ev, k, listing),
            }
            proof {
                let t2 = trace.push(*self);
                assert forall|j: int| 0 <= j < k + 1 implies #[trigger] step(
                    t2[j],
                    t2[j + 1],
                    ev@,
                    j,
                    listing@,
                ) by {
                    if j < k {
                        assert(t2[j] == trace[j]);
                        assert(t2[j + 1] == trace[j + 1]);
                    } else {
                        assert(t2[j] == before);
                    }
                }
                trace = t2;
            }
            k = k + 1;
        }
    }
}

/// Analyses one file: the visitor after walking the events `ev` of the file
/// with stem `stem`, whose items live in namespace `context`.
pub fn analyze_events(stem: String, context: Context, ev: &Vec<CstEvent>, listing: &Vec<DirEntry>) -> (r:
    RustVisitor)
    ensures
        exists|trace: Seq<RustVisitor>|
            {
                &&& is_run(trace, ev@, ev@.len() as int, listing@)
                &&& is_initial(trace[0], stem, context)
                &&& trace.last() == r
            },
{
    let mut v = RustVisitor::new(stem, context);
    v.travel(ev, listing);
    v
}

} // verus!
