//! A whole analysis: the root file, then each module file it leads to, in
//! declaration order, each file's modules right after it.
use vstd::prelude::*;
use vstd::string::*;
use crate::context::Context;
use crate::cst::{events_of_steps, parse_events, parser_walk, CstEvent, SyntaxTag};
use crate::node::{flatten, records_view, texts, Record, RecordSpec, RustTraceableNode};
use crate::resolve::DirEntry;
use crate::visitor::{is_initial, is_run, ModuleJob, RustVisitor, Warning};

verus! {

/// The position of the last `c` in `s`, if any.
pub open spec fn last_index_of(s: Seq<char>, c: char) -> Option<int>
    decreases s.len(),
{
    if s.len() == 0 {
        None
    } else if s.last() == c {
        Some(s.len() - 1)
    } else {
        last_index_of(s.drop_last(), c)
    }
}

/// The stem of a file name: the part before the last `.`, unless that `.`
/// begins the name or there is none.
pub open spec fn stem_of(name: Seq<char>) -> Seq<char> {
    match last_index_of(name, '.') {
        Some(p) => if p > 0 {
            name.subrange(0, p)
        } else {
            name
        },
        None => name,
    }
}

/// The stem of a file name.
pub fn file_stem(name: &str) -> (r: String)
    ensures
        r@ == stem_of(name@),
{
    let n = name.unicode_len();
    let mut k: usize = 0;
    let mut last: Option<usize> = None;
    while k < n
        invariant
            n == name@.len(),
            k <= n,
            crate::location::opt_pos_usize(last) == last_index_of(name@.subrange(0, k as int), '.'),
            last matches Some(p) ==> p < k,
        decreases n - k,
    {
        assert(name@.subrange(0, k + 1).drop_last() =~= name@.subrange(0, k as int));
        if name.get_char(k) == '.' {
            last = Some(k);
        }
        k = k + 1;
    }
    assert(name@.subrange(0, n as int) =~= name@);
    match last {
        Some(p) => if p > 0 {
            String::from_str(name.substring_char(0, p))
        } else {
            String::from_str(name)
        },
        None => String::from_str(name),
    }
}

/// A file to analyse: its path relative to the source directory, and the
/// namespace its items live in.
pub struct FileJob {
    pub path: Vec<String>,
    pub context: Context,
}

/// The file jobs for the module files a file at `path` leads to, last
/// first, so that the first is taken next.
pub open spec fn child_jobs_match(path: Seq<Seq<char>>, mods: Seq<ModuleJob>, jobs: Seq<FileJob>) -> bool {
    &&& jobs.len() == mods.len()
    &&& forall|j: int|
        0 <= j < mods.len() ==> {
            let m = #[trigger] mods[mods.len() - 1 - j];
            &&& texts(jobs[j].path@) == path.drop_last() + texts(m.path@)
            &&& jobs[j].context@ == m.context@
        }
}

/// An analysis in progress: the files still to analyse (the next one last)
/// and the trees of the files analysed so far, in order.
pub struct Session {
    pub pending: Vec<FileJob>,
    pub roots: Vec<RustTraceableNode>,
    pub warnings: Vec<Warning>,
}

/// The records of a list of trees, in order.
pub open spec fn flatten_all(roots: Seq<RustTraceableNode>) -> Seq<RecordSpec>
    decreases roots.len(),
{
    if roots.len() == 0 {
        Seq::empty()
    } else {
        flatten_all(roots.drop_last()) + flatten(roots.last())
    }
}

/// `b` is `a` after analysing its next file, with text `text` and entries
/// `listing`: the file's events are `ev`, the walk over them is `trace`, and
/// the files its modules lead to are `new_jobs`.
pub open spec fn analysis_step(
    a: Session,
    b: Session,
    text: Seq<char>,
    listing: Seq<DirEntry>,
    ev: Seq<CstEvent>,
    trace: Seq<RustVisitor>,
    new_jobs: Seq<FileJob>,
) -> bool {
    let job = a.pending@.last();
    let v = trace.last();
    &&& events_of_steps(parser_walk(text), ev)
    &&& ev.len() >= 2
    &&& ev[0] == CstEvent::Enter(SyntaxTag::SourceFile)
    &&& ev[ev.len() - 1] == CstEvent::Exit(SyntaxTag::SourceFile)
    &&& is_run(trace, ev, ev.len() as int, listing)
    &&& is_initial(trace[0], trace[0].stem, trace[0].default_context)
    &&& trace[0].stem@ == stem_of(job.path@.last()@)
    &&& trace[0].default_context@ == job.context@
    &&& b.roots@ == a.roots@ + (if v.vdata.node_stack@.len() > 0 {
        seq![v.vdata.node_stack@[0]]
    } else {
        Seq::empty()
    })
    &&& child_jobs_match(texts(job.path@), v.module_jobs@, new_jobs)
    &&& b.pending@ == a.pending@.drop_last() + new_jobs
    &&& b.warnings@ == a.warnings@ + v.warnings@
}

impl Session {
    /// An analysis that starts at the file `root_file` of the source directory.
    pub fn new(root_file: &str) -> (r: Session)
        ensures
            r.pending@.len() == 1,
            texts(r.pending@[0].path@) == seq![root_file@],
            r.pending@[0].context@ == Seq::<Seq<char>>::empty(),
            r.roots@.len() == 0,
            r.warnings@.len() == 0,
    {
        let mut path: Vec<String> = Vec::new();
        path.push(String::from_str(root_file));
        assert(texts(path@) =~= seq![root_file@]);
        let mut pending: Vec<FileJob> = Vec::new();
        pending.push(FileJob { path, context: Context::Empty });
        Session { pending, roots: Vec::new(), warnings: Vec::new() }
    }

    /// The file to analyse next, if any is left.
    pub fn next_job(&self) -> (r: Option<&FileJob>)
        ensures
            self.pending@.len() == 0 ==> r is None,
            self.pending@.len() > 0 ==> r == Some(&self.pending@.last()),
    {
        if self.pending.len() == 0 {
            None
        } else {
            Some(&self.pending[self.pending.len() - 1])
        }
    }

    /// Gives up the next file, which could not be read.
    pub fn skip(&mut self)
        requires
            old(self).pending@.len() > 0,
        ensures
            final(self).pending@ == old(self).pending@.drop_last(),
            final(self).roots == old(self).roots,
            final(self).warnings == old(self).warnings,
    {
        let _ = self.pending.pop();
    }

    /// Analyses the next file, whose text is `text` and whose directory holds
    /// the entries `listing`: its tree joins the results and the module files
    /// it declares come next, in declaration order.
    pub fn analyze(&mut self, text: &str, listing: &Vec<DirEntry>)
        requires
            old(self).pending@.len() > 0,
            old(self).pending@.last().path@.len() > 0,
            text@.len() <= crate::cst::MAX_SOURCE_CHARS,
        ensures
            exists|ev: Seq<CstEvent>, trace: Seq<RustVisitor>, new_jobs: Seq<FileJob>|
                #[trigger] analysis_step(*old(self), *final(self), text@, listing@, ev, trace, new_jobs),
    {
        let job = self.pending.pop().unwrap();
        assert(job == old(self).pending@.last());
        let last = job.path.len() - 1;
        let stem = file_stem(job.path[last].as_str());
        let ev = parse_events(text);
        let mut visitor = RustVisitor::new(stem, job.context.copied());
        let ghost v0 = visitor;
        visitor.travel(&ev, listing);
        let ghost v = visitor;
        let ghost trace = choose|t: Seq<RustVisitor>|
            {
                &&& is_run(t, ev@, ev@.len() as int, listing@)
                &&& t[0] == v0
                &&& t.last() == v
            };
        let mut found = visitor.get_traceable_nodes();
        let ghost found_view = found@;
        self.roots.append(&mut found);
        assert(self.roots@ =~= old(self).roots@ + found_view);
        let ghost base = self.pending@;
        let mut j: usize = visitor.module_jobs.len();
        let ghost mods = v.module_jobs@;
        assert(self.pending@.subrange(0, base.len() as int) =~= base);
        assert(mods.subrange(j as int, mods.len() as int) =~= Seq::<ModuleJob>::empty());
        while j > 0
            invariant
                j <= mods.len(),
                job.path@.len() > 0,
                visitor.module_jobs@ == mods,
                visitor.warnings == v.warnings,
                self.roots@ == old(self).roots@ + found_view,
                self.warnings == old(self).warnings,
                self.pending@.len() == base.len() + (mods.len() - j),
                self.pending@.subrange(0, base.len() as int) == base,
                child_jobs_match(
                    texts(job.path@),
                    mods.subrange(j as int, mods.len() as int),
                    self.pending@.subrange(base.len() as int, self.pending@.len() as int),
                ),
            decreases j,
        {
            j = j - 1;
            let m = &visitor.module_jobs[j];
            let mut path = crate::node::copy_texts(&job.path);
            let _ = path.pop();
            let ghost head = path@;
            assert(texts(head) =~= texts(job.path@).drop_last());
            let mut tail = crate::node::copy_texts(&m.path);
            path.append(&mut tail);
            assert(texts(path@) =~= texts(job.path@).drop_last() + texts(m.path@));
            let context = m.context.copied();
            let ghost pre = self.pending@;
            self.pending.push(FileJob { path, context });
            proof {
                let ms = mods.subrange(j as int, mods.len() as int);
                let old_ms = mods.subrange(j + 1, mods.len() as int);
                let jobs = self.pending@.subrange(base.len() as int, self.pending@.len() as int);
                let old_jobs = pre.subrange(base.len() as int, pre.len() as int);
                assert(self.pending@.subrange(0, base.len() as int) =~= base);
                assert forall|q: int| 0 <= q < ms.len() implies {
                    let mm = #[trigger] ms[ms.len() - 1 - q];
                    &&& texts(jobs[q].path@) == texts(job.path@).drop_last() + texts(mm.path@)
                    &&& jobs[q].context@ == mm.context@
                } by {
                    if q < ms.len() - 1 {
                        assert(jobs[q] == old_jobs[q]);
                        assert(ms[ms.len() - 1 - q] == old_ms[old_ms.len() - 1 - q]);
                    } else {
                        assert(ms[ms.len() - 1 - q] == mods[j as int]);
                    }
                }
            }
        }
        let ghost warned = visitor.warnings@;
        self.warnings.append(&mut visitor.warnings);
        proof {
            let new_jobs = self.pending@.subrange(base.len() as int, self.pending@.len() as int);
            assert(mods.subrange(0, mods.len() as int) =~= mods);
            assert(self.pending@ =~= old(self).pending@.drop_last() + new_jobs);
            assert(self.warnings@ =~= old(self).warnings@ + v.warnings@);
            assert(analysis_step(*old(self), *self, text@, listing@, ev@, trace, new_jobs));
        }
    }

    /// The records of all files analysed, in order.
    pub fn records(&self) -> (r: Vec<Record>)
        ensures
            records_view(r@) == flatten_all(self.roots@),
    {
        let mut out: Vec<Record> = Vec::new();
        let mut k: usize = 0;
        assert(records_view(out@) =~= flatten_all(self.roots@.subrange(0, 0)));
        while k < self.roots.len()
            invariant
                k <= self.roots@.len(),
                records_view(out@) == flatten_all(self.roots@.subrange(0, k as int)),
            decreases self.roots@.len() - k,
        {
            let mut part = self.roots[k].to_lobster();
            let ghost before = records_view(out@);
            out.append(&mut part);
            assert(self.roots@.subrange(0, k + 1).drop_last() =~= self.roots@.subrange(0, k as int));
            assert(records_view(out@) =~= before + flatten(self.roots@[k as int]));
            k = k + 1;
        }
        assert(self.roots@.subrange(0, k as int) =~= self.roots@);
        out
    }
}

} // verus!
