//! Properties of the analysis as a whole.
use vstd::prelude::*;
use crate::cst::{CstEvent, SyntaxTag};
use crate::node::{flatten, flatten_children, record_of, texts, NodeKind, RecordSpec, RustTraceableNode};
use crate::resolve::{listed, resolution, DirEntry};
use crate::session::{analysis_step, flatten_all, FileJob, Session};
use crate::visitor::{enclosing, folded, is_initial, is_run, scope_of, step, ModuleJob, RustVisitor};

verus! {

/// A record placed on a line, counting from 1.
pub open spec fn has_line(r: RecordSpec) -> bool {
    r.line matches Some(l) && l >= 1
}

/// Every record of the tree `n` is placed on a line.
pub open spec fn placed(n: RustTraceableNode) -> bool {
    forall|k: int| 0 <= k < flatten(n).len() ==> has_line(#[trigger] flatten(n)[k])
}

pub open spec fn all_placed(s: Seq<RustTraceableNode>) -> bool {
    forall|k: int| 0 <= k < s.len() ==> placed(#[trigger] s[k])
}

/// The visitor's line count is at least 1 and every tree on its stack is placed.
pub open spec fn sound(v: RustVisitor) -> bool {
    v.vdata.whitespace_data.current_line >= 1 && all_placed(v.vdata.node_stack@)
}

proof fn lemma_flatten_children_push(p: RustTraceableNode, q: RustTraceableNode, c: RustTraceableNode, j: int)
    requires
        q.children@ == p.children@.push(c),
        0 <= j <= p.children@.len(),
    ensures
        flatten_children(q, j) == flatten_children(p, j) + flatten(c),
    decreases p.children@.len() - j,
{
    if j == p.children@.len() {
        assert(q.children[j] == c);
        assert(flatten_children(q, j + 1) == Seq::<RecordSpec>::empty());
        assert(flatten_children(p, j) == Seq::<RecordSpec>::empty());
        assert(flatten_children(q, j) =~= flatten_children(p, j) + flatten(c));
    } else {
        lemma_flatten_children_push(p, q, c, j + 1);
        assert(q.children[j] == p.children[j]);
        assert(flatten_children(q, j) =~= flatten_children(p, j) + flatten(c));
    }
}

proof fn lemma_flatten_children_same(p: RustTraceableNode, q: RustTraceableNode, j: int)
    requires
        q.children == p.children,
    ensures
        flatten_children(q, j) == flatten_children(p, j),
    decreases p.children@.len() - j,
{
    if 0 <= j < p.children@.len() {
        lemma_flatten_children_same(p, q, j + 1);
    }
}

proof fn lemma_fresh_placed(n: RustTraceableNode)
    requires
        n.children@.len() == 0,
        (n.kind == NodeKind::Function || n.kind == NodeKind::Struct) ==> (n.location.line matches Some(
            l,
        ) && l >= 1),
    ensures
        placed(n),
{
    assert(flatten_children(n, 0) == Seq::<RecordSpec>::empty());
}

proof fn lemma_same_children_placed(t: RustTraceableNode, u: RustTraceableNode)
    requires
        placed(t),
        u.children == t.children,
        u.kind == t.kind,
        u.location.line == t.location.line || (u.location.line matches Some(l) && l >= 1),
    ensures
        placed(u),
{
    lemma_flatten_children_same(t, u, 0);
    if u.kind == NodeKind::Function || u.kind == NodeKind::Struct {
        assert(flatten(t)[0] == record_of(t));
        assert(flatten(u)[0] == record_of(u));
    }
}

proof fn lemma_fold_placed(s: Seq<RustTraceableNode>, t: Seq<RustTraceableNode>)
    requires
        all_placed(s),
        s.len() > 0,
        folded(s, t),
    ensures
        all_placed(t),
{
    if s.len() >= 2 {
        let p = s[s.len() - 2];
        let q = t.last();
        let c = s.last();
        assert(placed(p));
        assert(placed(c));
        assert forall|k: int| 0 <= k < t.len() implies placed(#[trigger] t[k]) by {
            if k < t.len() - 1 {
                assert(t[k] == t.drop_last()[k]);
                assert(t[k] == s[k]);
            } else {
                if q.kind == NodeKind::Source || q.kind == NodeKind::Context {
                    lemma_flatten_children_push(p, q, c, 0);
                    assert forall|m: int| 0 <= m < flatten(q).len() implies has_line(
                        #[trigger] flatten(q)[m],
                    ) by {
                        if m < flatten(p).len() {
                            assert(flatten(q)[m] == flatten(p)[m]);
                        } else {
                            assert(flatten(q)[m] == flatten(c)[m - flatten(p).len()]);
                        }
                    }
                } else if q.kind == NodeKind::Function || q.kind == NodeKind::Struct {
                    assert(flatten(p)[0] == record_of(p));
                }
            }
        }
    }
}

/// Each step of the walk keeps every item on a line, counting from 1.
pub proof fn lemma_step_keeps_lines(
    a: RustVisitor,
    b: RustVisitor,
    ev: Seq<CstEvent>,
    i: int,
    listing: Seq<DirEntry>,
)
    requires
        0 <= i < ev.len(),
        sound(a),
        step(a, b, ev, i, listing),
    ensures
        sound(b),
{
    let s = a.vdata.node_stack@;
    let t = b.vdata.node_stack@;
    if t.len() == s.len() + 1 && t.drop_last() == s {
        lemma_fresh_placed(t.last());
        assert forall|k: int| 0 <= k < t.len() implies placed(#[trigger] t[k]) by {
            if k < s.len() {
                assert(t[k] == t.drop_last()[k]);
            }
        }
    } else if b.vdata.node_stack == a.vdata.node_stack {
    } else if s.len() > 0 && t.len() == s.len() && t.drop_last() == s.drop_last() {
        assert(placed(s.last()));
        lemma_same_children_placed(s.last(), t.last());
        assert forall|k: int| 0 <= k < t.len() implies placed(#[trigger] t[k]) by {
            if k < t.len() - 1 {
                assert(t[k] == t.drop_last()[k]);
                assert(s[k] == s.drop_last()[k]);
            }
        }
    } else if s.len() > 0 && t == s.drop_last() {
        assert forall|k: int| 0 <= k < t.len() implies placed(#[trigger] t[k]) by {
            assert(t[k] == s[k]);
        }
    } else {
        lemma_fold_placed(s, t);
    }
}

/// A visitor before its walk is sound.
pub proof fn lemma_initial_sound(v: RustVisitor)
    requires
        is_initial(v, v.stem, v.default_context),
    ensures
        sound(v),
{
}

/// Along a whole walk over a file, every item stays placed on a line,
/// counting from 1.
pub proof fn lemma_run_keeps_lines(trace: Seq<RustVisitor>, ev: Seq<CstEvent>, listing: Seq<DirEntry>)
    requires
        is_run(trace, ev, ev.len() as int, listing),
        sound(trace[0]),
    ensures
        forall|k: int| 0 <= k < trace.len() ==> sound(#[trigger] trace[k]),
{
    assert forall|k: int| 0 <= k < trace.len() implies sound(#[trigger] trace[k]) by {
        lemma_run_prefix_sound(trace, ev, listing, k);
    }
}

proof fn lemma_run_prefix_sound(trace: Seq<RustVisitor>, ev: Seq<CstEvent>, listing: Seq<DirEntry>, k: int)
    requires
        is_run(trace, ev, ev.len() as int, listing),
        sound(trace[0]),
        0 <= k < trace.len(),
    ensures
        sound(trace[k]),
    decreases k,
{
    if k > 0 {
        lemma_run_prefix_sound(trace, ev, listing, k - 1);
        assert(step(trace[k - 1], trace[k - 1 + 1], ev, k - 1, listing));
        lemma_step_keeps_lines(trace[k - 1], trace[k], ev, k - 1, listing);
    }
}

/// Analysing one more file keeps every record of the results on a line,
/// counting from 1.
pub proof fn lemma_analysis_keeps_lines(
    a: Session,
    b: Session,
    text: Seq<char>,
    listing: Seq<DirEntry>,
    ev: Seq<CstEvent>,
    trace: Seq<RustVisitor>,
    new_jobs: Seq<FileJob>,
)
    requires
        all_placed(a.roots@),
        analysis_step(a, b, text, listing, ev, trace, new_jobs),
    ensures
        all_placed(b.roots@),
{
    lemma_initial_sound(trace[0]);
    lemma_run_keeps_lines(trace, ev, listing);
    let v = trace.last();
    assert(sound(trace[trace.len() - 1]));
    assert forall|k: int| 0 <= k < b.roots@.len() implies placed(#[trigger] b.roots@[k]) by {
        if k < a.roots@.len() {
            assert(b.roots@[k] == a.roots@[k]);
        } else {
            assert(b.roots@[k] == v.vdata.node_stack@[0]);
        }
    }
}

/// Every record of a list of placed trees has a line, counting from 1.
pub proof fn lemma_records_have_lines(roots: Seq<RustTraceableNode>)
    requires
        all_placed(roots),
    ensures
        forall|k: int| 0 <= k < flatten_all(roots).len() ==> has_line(#[trigger] flatten_all(roots)[k]),
    decreases roots.len(),
{
    if roots.len() > 0 {
        let init = roots.drop_last();
        assert forall|k: int| 0 <= k < init.len() implies placed(#[trigger] init[k]) by {
            assert(init[k] == roots[k]);
        }
        lemma_records_have_lines(init);
        let f = flatten_all(roots);
        let g = flatten_all(init);
        assert(placed(roots[roots.len() - 1]));
        assert forall|k: int| 0 <= k < f.len() implies has_line(#[trigger] f[k]) by {
            if k < g.len() {
                assert(f[k] == g[k]);
            } else {
                assert(f[k] == flatten(roots.last())[k - g.len()]);
            }
        }
    }
}

/// Two listings that hold the same entries, in whatever order.
pub open spec fn same_entries(l1: Seq<DirEntry>, l2: Seq<DirEntry>) -> bool {
    &&& forall|j: int|
        0 <= j < l1.len() ==> exists|k: int|
            0 <= k < l2.len() && crate::node::texts(#[trigger] l1[j].path@) == crate::node::texts(
                #[trigger] l2[k].path@,
            ) && l1[j].is_dir == l2[k].is_dir
    &&& forall|k: int|
        0 <= k < l2.len() ==> exists|j: int|
            0 <= j < l1.len() && crate::node::texts(#[trigger] l1[j].path@) == crate::node::texts(
                #[trigger] l2[k].path@,
            ) && l1[j].is_dir == l2[k].is_dir
}

proof fn lemma_listed_same(l1: Seq<DirEntry>, l2: Seq<DirEntry>, p: Seq<Seq<char>>, d: bool)
    requires
        same_entries(l1, l2),
    ensures
        listed(l1, p, d) == listed(l2, p, d),
{
    if listed(l1, p, d) {
        let j = choose|j: int|
            0 <= j < l1.len() && crate::node::texts(#[trigger] l1[j].path@) == p && (!d || l1[j].is_dir);
        let k = choose|k: int|
            0 <= k < l2.len() && crate::node::texts(l1[j].path@) == crate::node::texts(#[trigger] l2[k].path@)
                && l1[j].is_dir == l2[k].is_dir;
        assert(crate::node::texts(l2[k].path@) == p);
    }
    if listed(l2, p, d) {
        let k = choose|k: int|
            0 <= k < l2.len() && crate::node::texts(#[trigger] l2[k].path@) == p && (!d || l2[k].is_dir);
        let j = choose|j: int|
            0 <= j < l1.len() && crate::node::texts(#[trigger] l1[j].path@) == crate::node::texts(l2[k].path@)
                && l1[j].is_dir == l2[k].is_dir;
        assert(crate::node::texts(l1[j].path@) == p);
    }
}

/// Module resolution does not depend on the order in which a directory
/// lists its entries.
pub proof fn lemma_resolution_ignores_order(
    l1: Seq<DirEntry>,
    l2: Seq<DirEntry>,
    stem: Seq<char>,
    target: Seq<char>,
)
    requires
        same_entries(l1, l2),
    ensures
        resolution(l1, stem, target) == resolution(l2, stem, target),
{
    let t = crate::resolve::file_target(target);
    let e = Seq::<Seq<char>>::empty();
    let s = seq![stem];
    lemma_listed_same(l1, l2, e.push(t), false);
    lemma_listed_same(l1, l2, e.push(target), true);
    lemma_listed_same(l1, l2, e.push(target).push("mod.rs"@), false);
    lemma_listed_same(l1, l2, s, true);
    lemma_listed_same(l1, l2, s.push(t), false);
    lemma_listed_same(l1, l2, s.push(target), true);
    lemma_listed_same(l1, l2, s.push(target).push("mod.rs"@), false);
}

/// The walk over a file does not depend on the order in which its
/// directory lists its entries: a run with one listing is a run with the
/// other.
pub proof fn lemma_run_ignores_order(
    trace: Seq<RustVisitor>,
    ev: Seq<CstEvent>,
    l1: Seq<DirEntry>,
    l2: Seq<DirEntry>,
)
    requires
        same_entries(l1, l2),
        is_run(trace, ev, ev.len() as int, l1),
    ensures
        is_run(trace, ev, ev.len() as int, l2),
{
    assert forall|j: int| 0 <= j < ev.len() implies #[trigger] step(trace[j], trace[j + 1], ev, j, l2) by {
        assert(step(trace[j], trace[j + 1], ev, j, l1));
        match crate::node::name_text(ev, j) {
            Some(nm) => lemma_resolution_ignores_order(l1, l2, trace[j].stem@, nm),
            None => {},
        }
    }
}

/// The root of the file sits at the bottom of the stack.
pub open spec fn rooted(v: RustVisitor) -> bool {
    v.vdata.node_stack@.len() >= 1 && v.vdata.node_stack@[0].kind == NodeKind::Source
}

/// No step of the walk takes the root off the stack or changes its kind.
pub proof fn lemma_step_keeps_root(a: RustVisitor, b: RustVisitor, ev: Seq<CstEvent>, i: int, listing: Seq<DirEntry>)
    requires
        0 <= i < ev.len(),
        rooted(a),
        step(a, b, ev, i, listing),
    ensures
        rooted(b),
{
    let s = a.vdata.node_stack@;
    let t = b.vdata.node_stack@;
    if t.len() == s.len() + 1 && t.drop_last() == s {
        assert(t[0] == t.drop_last()[0]);
    } else if b.vdata.node_stack == a.vdata.node_stack {
    } else if t.len() == s.len() && t.drop_last() == s.drop_last() {
        if s.len() >= 2 {
            assert(t[0] == t.drop_last()[0]);
            assert(s[0] == s.drop_last()[0]);
        }
    } else if s.len() >= 2 && t == s.drop_last() {
        assert(t[0] == s[0]);
    } else {
        assert(folded(s, t));
        if s.len() > 2 {
            assert(t[0] == t.drop_last()[0]);
            assert(t.drop_last()[0] == s.subrange(0, s.len() - 2)[0]);
        }
    }
}

/// Once the walk over a file has entered its root, the stack is never empty
/// again and its bottom is the root: every later state of the walk is rooted.
pub proof fn lemma_run_keeps_root(trace: Seq<RustVisitor>, ev: Seq<CstEvent>, listing: Seq<DirEntry>)
    requires
        is_run(trace, ev, ev.len() as int, listing),
        is_initial(trace[0], trace[0].stem, trace[0].default_context),
        ev.len() >= 1,
        ev[0] == CstEvent::Enter(crate::cst::SyntaxTag::SourceFile),
    ensures
        forall|k: int| 1 <= k < trace.len() ==> rooted(#[trigger] trace[k]),
{
    assert(step(trace[0], trace[0int + 1], ev, 0, listing));
    assert forall|k: int| 1 <= k < trace.len() implies rooted(#[trigger] trace[k]) by {
        lemma_run_prefix_rooted(trace, ev, listing, k);
    }
}

proof fn lemma_run_prefix_rooted(trace: Seq<RustVisitor>, ev: Seq<CstEvent>, listing: Seq<DirEntry>, k: int)
    requires
        is_run(trace, ev, ev.len() as int, listing),
        rooted(trace[1]),
        1 <= k < trace.len(),
    ensures
        rooted(trace[k]),
    decreases k,
{
    if k > 1 {
        lemma_run_prefix_rooted(trace, ev, listing, k - 1);
        assert(step(trace[k - 1], trace[k - 1 + 1], ev, k - 1, listing));
        lemma_step_keeps_root(trace[k - 1], trace[k], ev, k - 1, listing);
    }
}

/// Analysing a file adds exactly one tree to the results: the file's root,
/// taken off the bottom of the stack once the walk is over.
pub proof fn lemma_analysis_adds_root(
    a: Session,
    b: Session,
    text: Seq<char>,
    listing: Seq<DirEntry>,
    ev: Seq<CstEvent>,
    trace: Seq<RustVisitor>,
    new_jobs: Seq<FileJob>,
)
    requires
        analysis_step(a, b, text, listing, ev, trace, new_jobs),
    ensures
        b.roots@.len() == a.roots@.len() + 1,
        b.roots@.last().kind == NodeKind::Source,
        b.roots@.drop_last() == a.roots@,
{
    lemma_run_keeps_root(trace, ev, listing);
    assert(rooted(trace[trace.len() - 1]));
    assert(b.roots@.drop_last() =~= a.roots@);
}

/// Two nodes that agree on everything the records and the rest of the walk
/// can see of them: their records so far, their own fields as plain values,
/// and the namespace they open.
pub open spec fn node_equiv(p: RustTraceableNode, q: RustTraceableNode) -> bool {
    &&& flatten(p) == flatten(q)
    &&& p.kind == q.kind
    &&& p.name@ == q.name@
    &&& scope_of(p) == scope_of(q)
    &&& (p.kind == NodeKind::Function || p.kind == NodeKind::Struct) ==> record_of(p) == record_of(q)
}

/// Two module jobs with the same path and namespace.
pub open spec fn job_equiv(a: ModuleJob, b: ModuleJob) -> bool {
    texts(a.path@) == texts(b.path@) && a.context@ == b.context@
}

/// Two visitors in the same state, seen as plain values.
pub open spec fn state_equiv(a: RustVisitor, b: RustVisitor) -> bool {
    &&& a.stem@ == b.stem@
    &&& a.default_context@ == b.default_context@
    &&& a.vdata.whitespace_data == b.vdata.whitespace_data
    &&& a.vdata.node_stack@.len() == b.vdata.node_stack@.len()
    &&& forall|k: int|
        0 <= k < a.vdata.node_stack@.len() ==> node_equiv(
            #[trigger] a.vdata.node_stack@[k],
            b.vdata.node_stack@[k],
        )
    &&& a.module_jobs@.len() == b.module_jobs@.len()
    &&& forall|k: int| 0 <= k < a.module_jobs@.len() ==> #[trigger] job_equiv(a.module_jobs@[k], b.module_jobs@[k])
}

proof fn lemma_enclosing_equiv(s: Seq<RustTraceableNode>, t: Seq<RustTraceableNode>)
    requires
        s.len() == t.len(),
        forall|k: int| 0 <= k < s.len() ==> node_equiv(#[trigger] s[k], t[k]),
    ensures
        enclosing(s) == enclosing(t),
    decreases s.len(),
{
    if s.len() > 0 {
        assert forall|k: int| 0 <= k < s.drop_last().len() implies node_equiv(
            #[trigger] s.drop_last()[k],
            t.drop_last()[k],
        ) by {
            assert(s.drop_last()[k] == s[k]);
            assert(t.drop_last()[k] == t[k]);
        }
        lemma_enclosing_equiv(s.drop_last(), t.drop_last());
        assert(node_equiv(s[s.len() - 1], t[t.len() - 1]));
    }
}

proof fn lemma_fresh_flatten(n: RustTraceableNode)
    requires
        n.children@.len() == 0,
    ensures
        flatten(n) == if n.kind == NodeKind::Function || n.kind == NodeKind::Struct {
            seq![record_of(n)]
        } else {
            Seq::empty()
        },
{
    assert(flatten_children(n, 0) == Seq::<RecordSpec>::empty());
}

/// The records of a node of a given kind and fields, where they do not
/// depend on its children.
proof fn lemma_item_flatten(n: RustTraceableNode)
    requires
        n.kind == NodeKind::Function || n.kind == NodeKind::Struct,
    ensures
        flatten(n) == seq![record_of(n)],
{
}

proof fn lemma_fold_equiv(s1: Seq<RustTraceableNode>, t1: Seq<RustTraceableNode>, s2: Seq<RustTraceableNode>, t2: Seq<RustTraceableNode>)
    requires
        s1.len() == s2.len(),
        s1.len() >= 2,
        forall|k: int| 0 <= k < s1.len() ==> node_equiv(#[trigger] s1[k], s2[k]),
        folded(s1, t1),
        folded(s2, t2),
    ensures
        t1.len() == t2.len(),
        forall|k: int| 0 <= k < t1.len() ==> node_equiv(#[trigger] t1[k], t2[k]),
{
    let n = s1.len();
    let p1 = s1[n - 2];
    let p2 = s2[n - 2];
    let q1 = t1.last();
    let q2 = t2.last();
    assert(node_equiv(p1, p2));
    assert(node_equiv(s1[n - 1], s2[n - 1]));
    assert(record_of(q1) == record_of(p1));
    assert(record_of(q2) == record_of(p2));
    if q1.kind == NodeKind::Source || q1.kind == NodeKind::Context {
        lemma_flatten_children_push(p1, q1, s1[n - 1], 0);
        lemma_flatten_children_push(p2, q2, s2[n - 1], 0);
    } else if q1.kind == NodeKind::Function || q1.kind == NodeKind::Struct {
        lemma_item_flatten(q1);
        lemma_item_flatten(q2);
    }
    assert(node_equiv(q1, q2));
    assert forall|k: int| 0 <= k < t1.len() implies node_equiv(#[trigger] t1[k], t2[k]) by {
        if k < t1.len() - 1 {
            assert(t1[k] == t1.drop_last()[k]);
            assert(t2[k] == t2.drop_last()[k]);
            assert(t1.drop_last()[k] == s1[k]);
            assert(t2.drop_last()[k] == s2[k]);
        }
    }
}

proof fn lemma_push_equiv(s1: Seq<RustTraceableNode>, t1: Seq<RustTraceableNode>, s2: Seq<RustTraceableNode>, t2: Seq<RustTraceableNode>)
    requires
        s1.len() == s2.len(),
        forall|k: int| 0 <= k < s1.len() ==> node_equiv(#[trigger] s1[k], s2[k]),
        t1.len() == s1.len() + 1,
        t2.len() == s2.len() + 1,
        t1.drop_last() == s1,
        t2.drop_last() == s2,
        node_equiv(t1.last(), t2.last()),
    ensures
        forall|k: int| 0 <= k < t1.len() ==> node_equiv(#[trigger] t1[k], t2[k]),
{
    assert forall|k: int| 0 <= k < t1.len() implies node_equiv(#[trigger] t1[k], t2[k]) by {
        if k < s1.len() {
            assert(t1[k] == t1.drop_last()[k]);
            assert(t2[k] == t2.drop_last()[k]);
        }
    }
}

proof fn lemma_top_equiv(s1: Seq<RustTraceableNode>, t1: Seq<RustTraceableNode>, s2: Seq<RustTraceableNode>, t2: Seq<RustTraceableNode>)
    requires
        s1.len() == s2.len(),
        s1.len() > 0,
        forall|k: int| 0 <= k < s1.len() ==> node_equiv(#[trigger] s1[k], s2[k]),
        t1.len() == s1.len(),
        t2.len() == s2.len(),
        t1.drop_last() == s1.drop_last(),
        t2.drop_last() == s2.drop_last(),
        node_equiv(t1.last(), t2.last()),
    ensures
        forall|k: int| 0 <= k < t1.len() ==> node_equiv(#[trigger] t1[k], t2[k]),
{
    assert forall|k: int| 0 <= k < t1.len() implies node_equiv(#[trigger] t1[k], t2[k]) by {
        if k < s1.len() - 1 {
            assert(t1[k] == t1.drop_last()[k]);
            assert(t2[k] == t2.drop_last()[k]);
            assert(s1[k] == s1.drop_last()[k]);
            assert(s2[k] == s2.drop_last()[k]);
        }
    }
}

/// A node changed only in its annotations or position keeps its records
/// in step with an equivalent node changed alike.
proof fn lemma_touch_equiv(t1: RustTraceableNode, u1: RustTraceableNode, t2: RustTraceableNode, u2: RustTraceableNode)
    requires
        node_equiv(t1, t2),
        u1.children == t1.children,
        u2.children == t2.children,
        u1.kind == t1.kind,
        u2.kind == t2.kind,
        u1.name == t1.name,
        u2.name == t2.name,
        u1.context_data == t1.context_data,
        u2.context_data == t2.context_data,
        (u1.kind == NodeKind::Function || u1.kind == NodeKind::Struct) ==> {
            &&& record_of(u1).file == record_of(u2).file
            &&& record_of(u1).line == record_of(u2).line
            &&& record_of(u1).column == record_of(u2).column
            &&& record_of(u1).just_up == record_of(u2).just_up
            &&& record_of(u1).refs == record_of(u2).refs
        },
    ensures
        node_equiv(u1, u2),
{
    lemma_flatten_children_same(t1, u1, 0);
    lemma_flatten_children_same(t2, u2, 0);
    if u1.kind == NodeKind::Function || u1.kind == NodeKind::Struct {
        lemma_item_flatten(u1);
        lemma_item_flatten(u2);
        assert(record_of(u1) == record_of(u2));
    }
}

proof fn lemma_fresh_equiv(n1: RustTraceableNode, n2: RustTraceableNode)
    requires
        n1.children@.len() == 0,
        n2.children@.len() == 0,
        n1.just@.len() == 0,
        n2.just@.len() == 0,
        n1.refs@.len() == 0,
        n2.refs@.len() == 0,
        n1.kind == n2.kind,
        n1.name@ == n2.name@,
        scope_of(n1) == scope_of(n2),
        (n1.kind == NodeKind::Function || n1.kind == NodeKind::Struct) ==> {
            &&& n1.location.filename@ == n2.location.filename@
            &&& n1.location.line == n2.location.line
            &&& n1.location.column == n2.location.column
        },
    ensures
        node_equiv(n1, n2),
{
    lemma_fresh_flatten(n1);
    lemma_fresh_flatten(n2);
    assert(texts(n1.just@) =~= texts(n2.just@));
    assert(texts(n1.refs@) =~= texts(n2.refs@));
    if n1.kind == NodeKind::Function || n1.kind == NodeKind::Struct {
        assert(record_of(n1) == record_of(n2));
    }
}

proof fn lemma_jobs_push_equiv(a1: RustVisitor, b1: RustVisitor, a2: RustVisitor, b2: RustVisitor)
    requires
        state_equiv(a1, a2),
        b1.module_jobs@.len() == a1.module_jobs@.len() + 1,
        b2.module_jobs@.len() == a2.module_jobs@.len() + 1,
        b1.module_jobs@.drop_last() == a1.module_jobs@,
        b2.module_jobs@.drop_last() == a2.module_jobs@,
        texts(b1.module_jobs@.last().path@) == texts(b2.module_jobs@.last().path@),
        b1.module_jobs@.last().context@ == b2.module_jobs@.last().context@,
    ensures
        forall|k: int| 0 <= k < b1.module_jobs@.len() ==> #[trigger] job_equiv(b1.module_jobs@[k], b2.module_jobs@[k]),
{
    assert forall|k: int| 0 <= k < b1.module_jobs@.len() implies #[trigger] job_equiv(
        b1.module_jobs@[k],
        b2.module_jobs@[k],
    ) by {
        if k < a1.module_jobs@.len() {
            assert(b1.module_jobs@[k] == b1.module_jobs@.drop_last()[k]);
            assert(b2.module_jobs@[k] == b2.module_jobs@.drop_last()[k]);
        } else {
            assert(b1.module_jobs@[k] == b1.module_jobs@.last());
            assert(b2.module_jobs@[k] == b2.module_jobs@.last());
        }
    }
}

proof fn lemma_state_equiv_intro(b1: RustVisitor, b2: RustVisitor)
    requires
        b1.stem@ == b2.stem@,
        b1.default_context@ == b2.default_context@,
        b1.vdata.whitespace_data == b2.vdata.whitespace_data,
        b1.vdata.node_stack@.len() == b2.vdata.node_stack@.len(),
        forall|k: int|
            0 <= k < b1.vdata.node_stack@.len() ==> node_equiv(
                #[trigger] b1.vdata.node_stack@[k],
                b2.vdata.node_stack@[k],
            ),
        b1.module_jobs@.len() == b2.module_jobs@.len(),
        forall|k: int| 0 <= k < b1.module_jobs@.len() ==> #[trigger] job_equiv(b1.module_jobs@[k], b2.module_jobs@[k]),
    ensures
        state_equiv(b1, b2),
{
}

/// Each step of the walk is determined by what it reads: two visitors in
/// the same state that take the same event reach the same state.
pub proof fn lemma_step_deterministic(
    a1: RustVisitor,
    b1: RustVisitor,
    a2: RustVisitor,
    b2: RustVisitor,
    ev: Seq<CstEvent>,
    i: int,
    listing: Seq<DirEntry>,
)
    requires
        0 <= i < ev.len(),
        state_equiv(a1, a2),
        step(a1, b1, ev, i, listing),
        step(a2, b2, ev, i, listing),
    ensures
        state_equiv(b1, b2),
{
    match ev[i] {
        CstEvent::Enter(_) => lemma_enter_deterministic(a1, b1, a2, b2, ev, i, listing),
        CstEvent::Exit(_) => lemma_exit_deterministic(a1, b1, a2, b2, ev, i, listing),
        CstEvent::Token(_, _, _) => lemma_token_deterministic(a1, b1, a2, b2, ev, i, listing),
    }
}

proof fn lemma_enter_deterministic(
    a1: RustVisitor,
    b1: RustVisitor,
    a2: RustVisitor,
    b2: RustVisitor,
    ev: Seq<CstEvent>,
    i: int,
    listing: Seq<DirEntry>,
)
    requires
        0 <= i < ev.len(),
        ev[i] is Enter,
        state_equiv(a1, a2),
        step(a1, b1, ev, i, listing),
        step(a2, b2, ev, i, listing),
    ensures
        state_equiv(b1, b2),
{
    let s1 = a1.vdata.node_stack@;
    let s2 = a2.vdata.node_stack@;
    let t1 = b1.vdata.node_stack@;
    let t2 = b2.vdata.node_stack@;
    lemma_enclosing_equiv(s1, s2);
    if s1.len() > 0 {
        assert(node_equiv(s1[0], s2[0]));
    }
    if t1.len() == s1.len() + 1 && t1.drop_last() == s1 && t2.len() == s2.len() + 1 && t2.drop_last() == s2 {
        lemma_fresh_equiv(t1.last(), t2.last());
        lemma_push_equiv(s1, t1, s2, t2);
    }
    if ev[i] == CstEvent::Enter(SyntaxTag::Module) && b1.module_jobs@.len() == a1.module_jobs@.len() + 1 {
        lemma_jobs_push_equiv(a1, b1, a2, b2);
    }
    lemma_state_equiv_intro(b1, b2);
}

proof fn lemma_exit_deterministic(
    a1: RustVisitor,
    b1: RustVisitor,
    a2: RustVisitor,
    b2: RustVisitor,
    ev: Seq<CstEvent>,
    i: int,
    listing: Seq<DirEntry>,
)
    requires
        0 <= i < ev.len(),
        ev[i] is Exit,
        state_equiv(a1, a2),
        step(a1, b1, ev, i, listing),
        step(a2, b2, ev, i, listing),
    ensures
        state_equiv(b1, b2),
{
    let s1 = a1.vdata.node_stack@;
    let s2 = a2.vdata.node_stack@;
    let t1 = b1.vdata.node_stack@;
    let t2 = b2.vdata.node_stack@;
    if s1.len() > 0 {
        assert(node_equiv(s1[s1.len() - 1], s2[s2.len() - 1]));
    }
    if s1.len() >= 2 && folded(s1, t1) && folded(s2, t2) {
        lemma_fold_equiv(s1, t1, s2, t2);
    } else if s1.len() >= 2 && t1 == s1.drop_last() && t2 == s2.drop_last() {
        assert forall|k: int| 0 <= k < t1.len() implies node_equiv(#[trigger] t1[k], t2[k]) by {
            assert(t1[k] == s1[k]);
            assert(t2[k] == s2[k]);
        }
    }
    lemma_state_equiv_intro(b1, b2);
}

proof fn lemma_token_deterministic(
    a1: RustVisitor,
    b1: RustVisitor,
    a2: RustVisitor,
    b2: RustVisitor,
    ev: Seq<CstEvent>,
    i: int,
    listing: Seq<DirEntry>,
)
    requires
        0 <= i < ev.len(),
        ev[i] is Token,
        state_equiv(a1, a2),
        step(a1, b1, ev, i, listing),
        step(a2, b2, ev, i, listing),
    ensures
        state_equiv(b1, b2),
{
    let s1 = a1.vdata.node_stack@;
    let s2 = a2.vdata.node_stack@;
    let t1 = b1.vdata.node_stack@;
    let t2 = b2.vdata.node_stack@;
    if s1.len() > 0 {
        assert(node_equiv(s1[s1.len() - 1], s2[s2.len() - 1]));
    }
    if s1.len() > 0 && t1.len() == s1.len() && t1.drop_last() == s1.drop_last() && t2.len() == s2.len()
        && t2.drop_last() == s2.drop_last() {
        lemma_touch_equiv(s1.last(), t1.last(), s2.last(), t2.last());
        lemma_top_equiv(s1, t1, s2, t2);
    }
    lemma_state_equiv_intro(b1, b2);
}

proof fn lemma_run_prefix_equiv(
    t1: Seq<RustVisitor>,
    t2: Seq<RustVisitor>,
    ev: Seq<CstEvent>,
    listing: Seq<DirEntry>,
    k: int,
)
    requires
        is_run(t1, ev, ev.len() as int, listing),
        is_run(t2, ev, ev.len() as int, listing),
        state_equiv(t1[0], t2[0]),
        0 <= k < t1.len(),
    ensures
        state_equiv(t1[k], t2[k]),
    decreases k,
{
    if k > 0 {
        lemma_run_prefix_equiv(t1, t2, ev, listing, k - 1);
        assert(step(t1[k - 1], t1[k - 1 + 1], ev, k - 1, listing));
        assert(step(t2[k - 1], t2[k - 1 + 1], ev, k - 1, listing));
        lemma_step_deterministic(t1[k - 1], t1[k], t2[k - 1], t2[k], ev, k - 1, listing);
    }
}

/// Walking the same file twice gives the same result: from visitors that
/// start alike (same stem and namespace), two walks over the same events and
/// the same listing end in the same state, so the file's root gives the
/// same records, in the same order, and the same module files follow.
pub proof fn lemma_walk_repeatable(
    t1: Seq<RustVisitor>,
    t2: Seq<RustVisitor>,
    ev: Seq<CstEvent>,
    listing: Seq<DirEntry>,
)
    requires
        is_run(t1, ev, ev.len() as int, listing),
        is_run(t2, ev, ev.len() as int, listing),
        is_initial(t1[0], t1[0].stem, t1[0].default_context),
        is_initial(t2[0], t2[0].stem, t2[0].default_context),
        t1[0].stem@ == t2[0].stem@,
        t1[0].default_context@ == t2[0].default_context@,
    ensures
        state_equiv(t1.last(), t2.last()),
        t1.last().vdata.node_stack@.len() > 0 ==> flatten(t1.last().vdata.node_stack@[0]) == flatten(
            t2.last().vdata.node_stack@[0],
        ),
        t1.last().module_jobs@.len() == t2.last().module_jobs@.len(),
        forall|k: int|
            0 <= k < t1.last().module_jobs@.len() ==> #[trigger] job_equiv(
                t1.last().module_jobs@[k],
                t2.last().module_jobs@[k],
            ),
{
    lemma_state_equiv_intro(t1[0], t2[0]);
    lemma_run_prefix_equiv(t1, t2, ev, listing, t1.len() - 1);
    let v1 = t1.last();
    let v2 = t2.last();
    if v1.vdata.node_stack@.len() > 0 {
        assert(node_equiv(v1.vdata.node_stack@[0], v2.vdata.node_stack@[0]));
    }
}

} // verus!
