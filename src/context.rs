//! Namespace contexts: dotted paths that compose by concatenation.
use vstd::prelude::*;
use vstd::string::*;

verus! {

/// Splits `s` at every occurrence of `sep`; an empty input gives one empty part.
pub open spec fn split_on(s: Seq<char>, sep: char) -> Seq<Seq<char>>
    decreases s.len(),
{
    if s.len() == 0 {
        seq![Seq::<char>::empty()]
    } else {
        let parts = split_on(s.drop_last(), sep);
        if s.last() == sep {
            parts.push(Seq::<char>::empty())
        } else {
            parts.update(parts.len() - 1, parts.last().push(s.last()))
        }
    }
}

/// Joins the parts with `.` between each two of them.
pub open spec fn join_dotted(parts: Seq<Seq<char>>) -> Seq<char>
    decreases parts.len(),
{
    if parts.len() == 0 {
        Seq::<char>::empty()
    } else if parts.len() == 1 {
        parts[0]
    } else {
        join_dotted(parts.drop_last()) + seq!['.'] + parts.last()
    }
}

/// The parts of `source` between the occurrences of `sep`.
pub fn split_text(source: &str, sep: char) -> (r: Vec<String>)
    ensures
        r@.map_values(|s: String| s@) == split_on(source@, sep),
{
    let n = source.unicode_len();
    let mut parts: Vec<String> = Vec::new();
    let mut start: usize = 0;
    let mut k: usize = 0;
    assert(source@.subrange(0, 0) =~= Seq::<char>::empty());
    assert(parts@.map_values(|s: String| s@).push(source@.subrange(0, 0)) =~= seq![
        Seq::<char>::empty(),
    ]);
    while k < n
        invariant
            n == source@.len(),
            start <= k <= n,
            split_on(source@.subrange(0, k as int), sep) == parts@.map_values(|s: String| s@).push(
                source@.subrange(start as int, k as int),
            ),
        decreases n - k,
    {
        let c = source.get_char(k);
        proof {
            assert(source@.subrange(0, k + 1).drop_last() =~= source@.subrange(0, k as int));
            assert(source@.subrange(0, k + 1).last() == c);
        }
        if c == sep {
            let part = String::from_str(source.substring_char(start, k));
            parts.push(part);
            start = k + 1;
            proof {
                assert(source@.subrange(start as int, k + 1) =~= Seq::<char>::empty());
            }
        } else {
            assert(source@.subrange(start as int, k + 1) =~= source@.subrange(
                start as int,
                k as int,
            ).push(c));
        }
        k = k + 1;
    }
    let last = String::from_str(source.substring_char(start, n));
    parts.push(last);
    assert(source@.subrange(0, n as int) =~= source@);
    assert(parts@.map_values(|s: String| s@) =~= split_on(source@, sep));
    parts
}

/// A namespace: either empty or a list of path segments.
#[derive(Debug, Clone)]
pub enum Context {
    Empty,
    Stacked(Vec<String>),
}

impl View for Context {
    type V = Seq<Seq<char>>;

    /// The segments of the namespace, outermost first.
    open spec fn view(&self) -> Seq<Seq<char>> {
        match self {
            Context::Empty => Seq::empty(),
            Context::Stacked(v) => v@.map_values(|s: String| s@),
        }
    }
}

/// The segments that the dotted text `s` names.
pub open spec fn segments_of(s: Seq<char>) -> Seq<Seq<char>> {
    if s.len() == 0 {
        Seq::empty()
    } else {
        split_on(s, '.')
    }
}

impl Context {
    /// Reads a dotted path: the empty text is the empty namespace, any other
    /// text is split at each `.`.
    pub fn from_str(source: &str) -> (r: Context)
        ensures
            r@ == segments_of(source@),
            source@.len() == 0 <==> r is Empty,
    {
        if source.unicode_len() == 0 {
            return Context::Empty;
        }
        Context::Stacked(split_text(source, '.'))
    }

    /// A copy of the namespace.
    pub fn copied(&self) -> (r: Context)
        ensures
            r@ == self@,
    {
        match self {
            Context::Empty => Context::Empty,
            Context::Stacked(v) => {
                let mut out: Vec<String> = Vec::new();
                let mut k: usize = 0;
                while k < v.len()
                    invariant
                        k <= v@.len(),
                        out@.len() == k,
                        forall|j: int| 0 <= j < k ==> #[trigger] out@[j]@ == v@[j]@,
                    decreases v@.len() - k,
                {
                    out.push(v[k].clone());
                    k = k + 1;
                }
                let r = Context::Stacked(out);
                assert(r@ =~= self@);
                r
            },
        }
    }

    /// The dotted text of the namespace; empty for the empty namespace.
    pub fn to_str(&self) -> (r: String)
        ensures
            r@ == join_dotted(self@),
    {
        match self {
            Context::Empty => String::new(),
            Context::Stacked(stack) => {
                let n = stack.len();
                if n == 0 {
                    assert(self@ =~= Seq::<Seq<char>>::empty());
                    return String::new();
                }
                let mut out = stack[0].clone();
                let mut k: usize = 1;
                assert(self@.subrange(0, 1) =~= seq![self@[0]]);
                while k < n
                    invariant
                        1 <= k <= n,
                        n == stack@.len(),
                        self@ == stack@.map_values(|s: String| s@),
                        out@ == join_dotted(self@.subrange(0, k as int)),
                    decreases n - k,
                {
                    out.append(".");
                    out.append(stack[k].as_str());
                    proof {
                        reveal_strlit(".");
                        let p = self@.subrange(0, k + 1);
                        assert(p.drop_last() =~= self@.subrange(0, k as int));
                    }
                    k = k + 1;
                }
                assert(self@.subrange(0, n as int) =~= self@);
                out
            },
        }
    }

    /// The namespace `other` nested inside `self`: the segments of `self`
    /// followed by those of `other`.
    pub fn combine(&self, other: &Context) -> (r: Context)
        ensures
            r@ == self@ + other@,
            (self is Empty && other is Empty) <==> r is Empty,
    {
        match (self, other) {
            (Context::Empty, Context::Empty) => Context::Empty,
            (Context::Stacked(s), Context::Empty) => {
                let r = Context::Stacked(s.clone());
                assert(r@ =~= self@ + other@);
                r
            },
            (Context::Empty, Context::Stacked(s)) => {
                let r = Context::Stacked(s.clone());
                assert(r@ =~= self@ + other@);
                r
            },
            (Context::Stacked(s1), Context::Stacked(s2)) => {
                let mut stack = s1.clone();
                let mut tail = s2.clone();
                stack.append(&mut tail);
                let r = Context::Stacked(stack);
                assert(r@ =~= self@ + other@);
                r
            },
        }
    }
}

proof fn lemma_split_nonempty(s: Seq<char>, sep: char)
    ensures
        split_on(s, sep).len() >= 1,
    decreases s.len(),
{
    if s.len() > 0 {
        lemma_split_nonempty(s.drop_last(), sep);
    }
}

proof fn lemma_join_split(s: Seq<char>)
    ensures
        join_dotted(split_on(s, '.')) == s,
    decreases s.len(),
{
    if s.len() > 0 {
        let init = s.drop_last();
        let p = split_on(init, '.');
        lemma_join_split(init);
        lemma_split_nonempty(init, '.');
        let q = split_on(s, '.');
        if s.last() == '.' {
            assert(q == p.push(Seq::<char>::empty()));
            assert(q.drop_last() =~= p);
            assert(join_dotted(q) =~= s);
        } else {
            assert(q == p.update(p.len() - 1, p.last().push(s.last())));
            if p.len() == 1 {
                assert(join_dotted(q) =~= s);
            } else {
                assert(q.drop_last() =~= p.drop_last());
                assert(q.last() == p.last().push(s.last()));
                assert(join_dotted(p) == join_dotted(p.drop_last()) + seq!['.'] + p.last());
                assert(s =~= init.push(s.last()));
                assert(join_dotted(q) =~= s);
            }
        }
    }
}

/// Reading a dotted path and writing it back gives the same text:
/// `to_str(from_str(s)) == s`.
pub proof fn lemma_dotted_round_trip(s: Seq<char>)
    ensures
        join_dotted(segments_of(s)) == s,
{
    if s.len() > 0 {
        lemma_join_split(s);
    }
}

/// Composition of namespaces is associative: `combine(combine(a, b), c)`
/// and `combine(a, combine(b, c))` have the same segments, as each result
/// of `combine` holds the segments of its left operand followed by those of
/// its right one.
pub proof fn lemma_combine_associative(a: Context, b: Context, c: Context)
    ensures
        (a@ + b@) + c@ == a@ + (b@ + c@),
{
    assert((a@ + b@) + c@ =~= a@ + (b@ + c@));
}

/// The empty namespace is an identity of composition on both sides:
/// `combine(Empty, a)` and `combine(a, Empty)` have the segments of `a`.
pub proof fn lemma_combine_identity(a: Context)
    ensures
        Context::Empty@ + a@ == a@,
        a@ + Context::Empty@ == a@,
{
    assert(Context::Empty@ + a@ =~= a@);
    assert(a@ + Context::Empty@ =~= a@);
}

} // verus!
