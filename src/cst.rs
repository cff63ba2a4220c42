//! The concrete syntax tree of a source file, as the sequence of events of a
//! depth-first walk: entering a node, visiting a token, leaving a node.
use vstd::prelude::*;
use vstd::string::*;
use ra_ap_edition::Edition;
use ra_ap_syntax::{AstNode, NodeOrToken, SourceFile, WalkEvent};

verus! {

/// The kinds of syntax nodes and tokens that the analysis reads.
#[derive(Debug, Clone, Copy, PartialEq, Eq, Structural)]
pub enum SyntaxTag {
    SourceFile,
    Fn,
    Struct,
    Enum,
    Trait,
    Impl,
    Module,
    Name,
    PathType,
    Attr,
    Meta,
    Path,
    Literal,
    ItemList,
    ForKw,
    StringLit,
    Whitespace,
    Comment,
    FnKw,
    StructKw,
    Semicolon,
    Other,
}

/// The tag that the parser's kind name stands for.
pub open spec fn tag_of_name(n: Seq<char>) -> SyntaxTag {
    if n == "SOURCE_FILE"@ {
        SyntaxTag::SourceFile
    } else if n == "FN"@ {
        SyntaxTag::Fn
    } else if n == "STRUCT"@ {
        SyntaxTag::Struct
    } else if n == "ENUM"@ {
        SyntaxTag::Enum
    } else if n == "TRAIT"@ {
        SyntaxTag::Trait
    } else if n == "IMPL"@ {
        SyntaxTag::Impl
    } else if n == "MODULE"@ {
        SyntaxTag::Module
    } else if n == "NAME"@ {
        SyntaxTag::Name
    } else if n == "PATH_TYPE"@ {
        SyntaxTag::PathType
    } else if n == "ATTR"@ {
        SyntaxTag::Attr
    } else if n == "META"@ {
        SyntaxTag::Meta
    } else if n == "PATH"@ {
        SyntaxTag::Path
    } else if n == "LITERAL"@ {
        SyntaxTag::Literal
    } else if n == "ITEM_LIST"@ {
        SyntaxTag::ItemList
    } else if n == "FOR_KW"@ {
        SyntaxTag::ForKw
    } else if n == "STRING"@ {
        SyntaxTag::StringLit
    } else if n == "WHITESPACE"@ {
        SyntaxTag::Whitespace
    } else if n == "COMMENT"@ {
        SyntaxTag::Comment
    } else if n == "FN_KW"@ {
        SyntaxTag::FnKw
    } else if n == "STRUCT_KW"@ {
        SyntaxTag::StructKw
    } else if n == "SEMICOLON"@ {
        SyntaxTag::Semicolon
    } else {
        SyntaxTag::Other
    }
}

/// Whether two texts hold the same characters.
pub fn same_text(a: &str, b: &str) -> (r: bool)
    ensures
        r == (a@ == b@),
{
    let n = a.unicode_len();
    let m = b.unicode_len();
    if n != m {
        return false;
    }
    let mut k: usize = 0;
    while k < n
        invariant
            n == a@.len(),
            n == b@.len(),
            k <= n,
            a@.subrange(0, k as int) == b@.subrange(0, k as int),
        decreases n - k,
    {
        if a.get_char(k) != b.get_char(k) {
            return false;
        }
        assert(a@.subrange(0, k + 1) =~= a@.subrange(0, k as int).push(a@[k as int]));
        assert(b@.subrange(0, k + 1) =~= b@.subrange(0, k as int).push(b@[k as int]));
        k = k + 1;
    }
    assert(a@ =~= a@.subrange(0, n as int));
    assert(b@ =~= b@.subrange(0, n as int));
    true
}

impl SyntaxTag {
    /// The tag of the parser's kind `name`; `Other` for every kind the
    /// analysis does not read.
    pub fn from_name(name: &str) -> (r: SyntaxTag)
        ensures
            r == tag_of_name(name@),
    {
        proof {
            reveal_strlit("SOURCE_FILE");
            reveal_strlit("FN");
            reveal_strlit("STRUCT");
            reveal_strlit("ENUM");
            reveal_strlit("TRAIT");
            reveal_strlit("IMPL");
            reveal_strlit("MODULE");
            reveal_strlit("NAME");
            reveal_strlit("PATH_TYPE");
            reveal_strlit("ATTR");
            reveal_strlit("META");
            reveal_strlit("PATH");
            reveal_strlit("LITERAL");
            reveal_strlit("ITEM_LIST");
            reveal_strlit("FOR_KW");
            reveal_strlit("STRING");
            reveal_strlit("WHITESPACE");
            reveal_strlit("COMMENT");
            reveal_strlit("FN_KW");
            reveal_strlit("STRUCT_KW");
            reveal_strlit("SEMICOLON");
        }
        if same_text(name, "SOURCE_FILE") {
            SyntaxTag::SourceFile
        } else if same_text(name, "FN") {
            SyntaxTag::Fn
        } else if same_text(name, "STRUCT") {
            SyntaxTag::Struct
        } else if same_text(name, "ENUM") {
            SyntaxTag::Enum
        } else if same_text(name, "TRAIT") {
            SyntaxTag::Trait
        } else if same_text(name, "IMPL") {
            SyntaxTag::Impl
        } else if same_text(name, "MODULE") {
            SyntaxTag::Module
        } else if same_text(name, "NAME") {
            SyntaxTag::Name
        } else if same_text(name, "PATH_TYPE") {
            SyntaxTag::PathType
        } else if same_text(name, "ATTR") {
            SyntaxTag::Attr
        } else if same_text(name, "META") {
            SyntaxTag::Meta
        } else if same_text(name, "PATH") {
            SyntaxTag::Path
        } else if same_text(name, "LITERAL") {
            SyntaxTag::Literal
        } else if same_text(name, "ITEM_LIST") {
            SyntaxTag::ItemList
        } else if same_text(name, "FOR_KW") {
            SyntaxTag::ForKw
        } else if same_text(name, "STRING") {
            SyntaxTag::StringLit
        } else if same_text(name, "WHITESPACE") {
            SyntaxTag::Whitespace
        } else if same_text(name, "COMMENT") {
            SyntaxTag::Comment
        } else if same_text(name, "FN_KW") {
            SyntaxTag::FnKw
        } else if same_text(name, "STRUCT_KW") {
            SyntaxTag::StructKw
        } else if same_text(name, "SEMICOLON") {
            SyntaxTag::Semicolon
        } else {
            SyntaxTag::Other
        }
    }
}

/// One step of the parser's depth-first walk, with kinds by the parser's names.
pub enum RawEvent {
    Enter(String),
    Exit(String),
    Token(String, String, usize),
}

/// What a walk step holds, as plain values.
pub enum WalkStep {
    Enter(Seq<char>),
    Exit(Seq<char>),
    Token(Seq<char>, Seq<char>, nat),
}

impl View for RawEvent {
    type V = WalkStep;

    open spec fn view(&self) -> WalkStep {
        match self {
            RawEvent::Enter(k) => WalkStep::Enter(k@),
            RawEvent::Exit(k) => WalkStep::Exit(k@),
            RawEvent::Token(k, t, s) => WalkStep::Token(k@, t@, *s as nat),
        }
    }
}

/// The longest source text, in characters, that the parser takes: at four
/// bytes a character at most, its UTF-8 form stays under 2^32 bytes, the
/// reach of the parser's token offsets.
pub const MAX_SOURCE_CHARS: usize = 0x3fff_ffff;

/// The walk that the parser produces for a source text.
pub uninterp spec fn parser_walk(text: Seq<char>) -> Seq<WalkStep>;

/// Relies on ra_ap_syntax's `SourceFile::parse` (edition 2024) and on
/// rowan's `SyntaxNode::preorder_with_tokens`: the depth-first walk of the
/// tree parsed from `text` (each node entered and left, each token with its
/// text and the offset of its first byte). The parser keeps no state, so the
/// walk depends on the text alone. Kinds are written by the `Debug` that
/// `SyntaxKind` derives, which gives the variant's name.
///
/// The lexer keeps token offsets as `u32`, so `text` must stay within
/// `MAX_SOURCE_CHARS`. The walk starts by entering the root, a
/// `SOURCE_FILE` (the only kind that `SourceFile` casts from), and ends by
/// leaving it.
#[verifier::external_body]
fn parse_walk(text: &str) -> (r: Vec<RawEvent>)
    requires
        text@.len() <= MAX_SOURCE_CHARS,
    ensures
        r@.map_values(|e: RawEvent| e@) == parser_walk(text@),
        r@.len() >= 2,
        r@[0]@ == WalkStep::Enter("SOURCE_FILE"@),
        r@[r@.len() - 1]@ == WalkStep::Exit("SOURCE_FILE"@),
{
    let tree = SourceFile::parse(text, Edition::Edition2024).tree();
    let mut out = Vec::new();
    for ev in tree.syntax().preorder_with_tokens() {
        match ev {
            WalkEvent::Enter(NodeOrToken::Node(n)) => out.push(RawEvent::Enter(format!("{:?}", n.kind()))),
            WalkEvent::Leave(NodeOrToken::Node(n)) => out.push(RawEvent::Exit(format!("{:?}", n.kind()))),
            WalkEvent::Enter(NodeOrToken::Token(t)) => {
                let start = usize::from(t.text_range().start());
                out.push(RawEvent::Token(format!("{:?}", t.kind()), t.text().to_string(), start))
            },
            WalkEvent::Leave(_) => {},
        }
    }
    out
}

/// One event of the walk over a source file's syntax tree.
pub enum CstEvent {
    Enter(SyntaxTag),
    Exit(SyntaxTag),
    /// A token: its kind, its text and the offset of its first byte.
    Token(SyntaxTag, String, usize),
}

/// The event that a parser walk step stands for.
pub open spec fn event_of_step(s: WalkStep, e: CstEvent) -> bool {
    match s {
        WalkStep::Enter(k) => e == CstEvent::Enter(tag_of_name(k)),
        WalkStep::Exit(k) => e == CstEvent::Exit(tag_of_name(k)),
        WalkStep::Token(k, t, o) => match e {
            CstEvent::Token(tag, text, off) => tag == tag_of_name(k) && text@ == t && off as nat == o,
            _ => false,
        },
    }
}

/// `events` is the walk `steps` with each kind name read as a tag.
pub open spec fn events_of_steps(steps: Seq<WalkStep>, events: Seq<CstEvent>) -> bool {
    &&& steps.len() == events.len()
    &&& forall|j: int| 0 <= j < steps.len() ==> #[trigger] event_of_step(steps[j], events[j])
}

/// Reads the kind names of a parser walk as tags.
pub fn tag_walk(raw: Vec<RawEvent>) -> (r: Vec<CstEvent>)
    ensures
        events_of_steps(raw@.map_values(|e: RawEvent| e@), r@),
        r@.len() == raw@.len(),
        forall|j: int| 0 <= j < raw@.len() ==> #[trigger] event_of_step(raw@[j]@, r@[j]),
{
    let mut out: Vec<CstEvent> = Vec::new();
    let mut k: usize = 0;
    let n = raw.len();
    while k < n
        invariant
            n == raw@.len(),
            k <= n,
            out@.len() == k,
            forall|j: int| 0 <= j < k ==> #[trigger] event_of_step(raw@[j]@, out@[j]),
        decreases n - k,
    {
        let e = match &raw[k] {
            RawEvent::Enter(name) => CstEvent::Enter(SyntaxTag::from_name(name.as_str())),
            RawEvent::Exit(name) => CstEvent::Exit(SyntaxTag::from_name(name.as_str())),
            RawEvent::Token(name, text, off) => CstEvent::Token(
                SyntaxTag::from_name(name.as_str()),
                text.clone(),
                *off,
            ),
        };
        out.push(e);
        k = k + 1;
    }
    out
}

/// Parses a source text into the events of its syntax tree walk, which
/// starts by entering the source file's root and ends by leaving it.
pub fn parse_events(text: &str) -> (r: Vec<CstEvent>)
    requires
        text@.len() <= MAX_SOURCE_CHARS,
    ensures
        events_of_steps(parser_walk(text@), r@),
        r@.len() >= 2,
        r@[0] == CstEvent::Enter(SyntaxTag::SourceFile),
        r@[r@.len() - 1] == CstEvent::Exit(SyntaxTag::SourceFile),
{
    let raw = parse_walk(text);
    let ghost steps = raw@;
    let r = tag_walk(raw);
    proof {
        reveal_strlit("SOURCE_FILE");
        assert(event_of_step(steps[0]@, r@[0]));
        assert(event_of_step(steps[r@.len() - 1]@, r@[r@.len() - 1]));
    }
    r
}


/// The positions of the direct children of a node, scanning from position
/// `k`, which lies `d` levels below the node's own children.
pub open spec fn kids_from(ev: Seq<CstEvent>, k: int, d: nat) -> Seq<int>
    decreases ev.len() - k,
{
    if k < 0 || k >= ev.len() {
        Seq::empty()
    } else {
        match ev[k] {
            CstEvent::Enter(_) => (if d == 0 {
                seq![k]
            } else {
                Seq::empty()
            }) + kids_from(ev, k + 1, d + 1),
            CstEvent::Token(_, _, _) => (if d == 0 {
                seq![k]
            } else {
                Seq::empty()
            }) + kids_from(ev, k + 1, d),
            CstEvent::Exit(_) => if d == 0 {
                Seq::empty()
            } else {
                kids_from(ev, k + 1, (d - 1) as nat)
            },
        }
    }
}

/// The positions of the direct children (nodes and tokens) of the node
/// entered at position `i`, in document order.
pub open spec fn children_of(ev: Seq<CstEvent>, i: int) -> Seq<int> {
    kids_from(ev, i + 1, 0)
}

/// The text of the tokens from position `k` to the end of the node that
/// holds it, `d` levels up.
pub open spec fn text_from(ev: Seq<CstEvent>, k: int, d: nat) -> Seq<char>
    decreases ev.len() - k,
{
    if k < 0 || k >= ev.len() {
        Seq::empty()
    } else {
        match ev[k] {
            CstEvent::Enter(_) => text_from(ev, k + 1, d + 1),
            CstEvent::Token(_, t, _) => t@ + text_from(ev, k + 1, d),
            CstEvent::Exit(_) => if d == 0 {
                Seq::empty()
            } else {
                text_from(ev, k + 1, (d - 1) as nat)
            },
        }
    }
}

/// The text of the node entered at position `i`: its tokens' texts in order.
pub open spec fn node_text(ev: Seq<CstEvent>, i: int) -> Seq<char> {
    text_from(ev, i + 1, 0)
}

pub proof fn lemma_kids_in_range(ev: Seq<CstEvent>, k: int, d: nat)
    ensures
        forall|j: int|
            0 <= j < kids_from(ev, k, d).len() ==> k <= #[trigger] kids_from(ev, k, d)[j] < ev.len(),
    decreases ev.len() - k,
{
    if k >= 0 && k < ev.len() {
        let ks = kids_from(ev, k, d);
        match ev[k] {
            CstEvent::Enter(_) => {
                lemma_kids_in_range(ev, k + 1, d + 1);
                let rest = kids_from(ev, k + 1, d + 1);
                assert forall|j: int| 0 <= j < ks.len() implies k <= #[trigger] ks[j] < ev.len() by {
                    if d == 0 && j > 0 {
                        assert(ks[j] == rest[j - 1]);
                    }
                }
            },
            CstEvent::Token(_, _, _) => {
                lemma_kids_in_range(ev, k + 1, d);
                let rest = kids_from(ev, k + 1, d);
                assert forall|j: int| 0 <= j < ks.len() implies k <= #[trigger] ks[j] < ev.len() by {
                    if d == 0 && j > 0 {
                        assert(ks[j] == rest[j - 1]);
                    }
                }
            },
            CstEvent::Exit(_) => if d > 0 {
                lemma_kids_in_range(ev, k + 1, (d - 1) as nat);
                assert(ks == kids_from(ev, k + 1, (d - 1) as nat));
            } else {
                assert(ks.len() == 0);
            },
        }
    } else {
        assert(kids_from(ev, k, d).len() == 0);
    }
}

pub open spec fn as_positions(v: Seq<usize>) -> Seq<int> {
    v.map_values(|x: usize| x as int)
}

/// The positions of the direct children of the node entered at position `i`.
pub fn child_positions(ev: &Vec<CstEvent>, i: usize) -> (r: Vec<usize>)
    requires
        i < ev@.len(),
    ensures
        as_positions(r@) == children_of(ev@, i as int),
        forall|j: int| 0 <= j < r@.len() ==> i < #[trigger] r@[j] < ev@.len(),
{
    proof {
        lemma_kids_in_range(ev@, i + 1, 0);
    }
    let n = ev.len();
    let mut out: Vec<usize> = Vec::new();
    let mut k: usize = i + 1;
    let mut d: usize = 0;
    while k < n
        invariant
            n == ev@.len(),
            i < k <= n,
            d <= k,
            children_of(ev@, i as int) == as_positions(out@) + kids_from(ev@, k as int, d as nat),
            forall|j: int| 0 <= j < out@.len() ==> i < #[trigger] out@[j] < k,
        decreases n - k,
    {
        let ghost before = as_positions(out@);
        let ghost d0 = d as nat;
        match &ev[k] {
            CstEvent::Enter(_) => {
                if d == 0 {
                    out.push(k);
                }
                d = d + 1;
            },
            CstEvent::Token(_, _, _) => {
                if d == 0 {
                    out.push(k);
                }
            },
            CstEvent::Exit(_) => {
                if d == 0 {
                    assert(as_positions(out@) + kids_from(ev@, k as int, 0) =~= as_positions(out@));
                    return out;
                }
                d = d - 1;
            },
        }
        assert(before + kids_from(ev@, k as int, d0) =~= as_positions(out@) + kids_from(
            ev@,
            k + 1,
            d as nat,
        ));
        k = k + 1;
    }
    assert(as_positions(out@) + kids_from(ev@, k as int, d as nat) =~= as_positions(out@));
    out
}

/// The concatenated token text of the node entered at position `i`.
pub fn text_of_node(ev: &Vec<CstEvent>, i: usize) -> (r: String)
    requires
        i < ev@.len(),
    ensures
        r@ == node_text(ev@, i as int),
{
    let n = ev.len();
    let mut out = String::new();
    let mut k: usize = i + 1;
    let mut d: usize = 0;
    while k < n
        invariant
            n == ev@.len(),
            i < k <= n,
            d <= k,
            node_text(ev@, i as int) == out@ + text_from(ev@, k as int, d as nat),
        decreases n - k,
    {
        let ghost before = out@;
        let ghost d0 = d as nat;
        match &ev[k] {
            CstEvent::Enter(_) => {
                d = d + 1;
            },
            CstEvent::Token(_, t, _) => {
                out.append(t.as_str());
            },
            CstEvent::Exit(_) => {
                if d == 0 {
                    assert(out@ + text_from(ev@, k as int, 0) =~= out@);
                    return out;
                }
                d = d - 1;
            },
        }
        assert(before + text_from(ev@, k as int, d0) =~= out@ + text_from(ev@, k + 1, d as nat));
        k = k + 1;
    }
    assert(out@ + text_from(ev@, k as int, d as nat) =~= out@);
    out
}

/// Whether `e` enters a node of kind `t` (`node`), or is a token of kind `t`.
pub open spec fn is_element(e: CstEvent, t: SyntaxTag, node: bool) -> bool {
    if node {
        e == CstEvent::Enter(t)
    } else {
        match e {
            CstEvent::Token(g, _, _) => g == t,
            _ => false,
        }
    }
}

/// The first of the positions `ks` that holds an element of kind `t`.
pub open spec fn first_with(ev: Seq<CstEvent>, ks: Seq<int>, t: SyntaxTag, node: bool) -> Option<int>
    decreases ks.len(),
{
    if ks.len() == 0 {
        None
    } else if 0 <= ks[0] < ev.len() && is_element(ev[ks[0]], t, node) {
        Some(ks[0])
    } else {
        first_with(ev, ks.drop_first(), t, node)
    }
}

/// The positions among `ks` that hold an element of kind `t`, in order.
pub open spec fn all_with(ev: Seq<CstEvent>, ks: Seq<int>, t: SyntaxTag, node: bool) -> Seq<int>
    decreases ks.len(),
{
    if ks.len() == 0 {
        Seq::empty()
    } else {
        let p = all_with(ev, ks.drop_last(), t, node);
        if 0 <= ks.last() < ev.len() && is_element(ev[ks.last()], t, node) {
            p.push(ks.last())
        } else {
            p
        }
    }
}

pub open spec fn opt_pos(o: Option<usize>) -> Option<int> {
    match o {
        Some(p) => Some(p as int),
        None => None,
    }
}

/// Whether the element at position `p` is of kind `t`.
pub fn element_is(ev: &Vec<CstEvent>, p: usize, t: SyntaxTag, node: bool) -> (r: bool)
    requires
        p < ev@.len(),
    ensures
        r == is_element(ev@[p as int], t, node),
{
    match &ev[p] {
        CstEvent::Enter(g) => node && *g == t,
        CstEvent::Token(g, _, _) => !node && *g == t,
        CstEvent::Exit(_) => false,
    }
}

/// The first of the positions `ks` that holds an element of kind `t`.
pub fn first_child(ev: &Vec<CstEvent>, ks: &Vec<usize>, t: SyntaxTag, node: bool) -> (r: Option<usize>)
    requires
        forall|j: int| 0 <= j < ks@.len() ==> #[trigger] ks@[j] < ev@.len(),
    ensures
        opt_pos(r) == first_with(ev@, as_positions(ks@), t, node),
        r matches Some(p) ==> p < ev@.len(),
{
    let n = ks.len();
    let mut j: usize = 0;
    assert(as_positions(ks@).subrange(0, n as int) =~= as_positions(ks@));
    while j < n
        invariant
            n == ks@.len(),
            j <= n,
            forall|q: int| 0 <= q < ks@.len() ==> #[trigger] ks@[q] < ev@.len(),
            first_with(ev@, as_positions(ks@), t, node) == first_with(
                ev@,
                as_positions(ks@).subrange(j as int, n as int),
                t,
                node,
            ),
        decreases n - j,
    {
        let p = ks[j];
        let ghost rest = as_positions(ks@).subrange(j as int, n as int);
        assert(rest[0] == p as int);
        if element_is(ev, p, t, node) {
            return Some(p);
        }
        assert(rest.drop_first() =~= as_positions(ks@).subrange(j + 1, n as int));
        j = j + 1;
    }
    None
}

/// The positions among `ks` that hold an element of kind `t`.
pub fn all_children(ev: &Vec<CstEvent>, ks: &Vec<usize>, t: SyntaxTag, node: bool) -> (r: Vec<usize>)
    requires
        forall|j: int| 0 <= j < ks@.len() ==> #[trigger] ks@[j] < ev@.len(),
    ensures
        as_positions(r@) == all_with(ev@, as_positions(ks@), t, node),
        forall|j: int| 0 <= j < r@.len() ==> #[trigger] r@[j] < ev@.len(),
{
    let n = ks.len();
    let mut out: Vec<usize> = Vec::new();
    let mut j: usize = 0;
    assert(as_positions(ks@).subrange(0, 0) =~= Seq::<int>::empty());
    assert(as_positions(out@) =~= Seq::<int>::empty());
    while j < n
        invariant
            n == ks@.len(),
            j <= n,
            forall|q: int| 0 <= q < ks@.len() ==> #[trigger] ks@[q] < ev@.len(),
            forall|q: int| 0 <= q < out@.len() ==> #[trigger] out@[q] < ev@.len(),
            as_positions(out@) == all_with(ev@, as_positions(ks@).subrange(0, j as int), t, node),
        decreases n - j,
    {
        let p = ks[j];
        let ghost pre = as_positions(ks@).subrange(0, j + 1);
        assert(pre.drop_last() =~= as_positions(ks@).subrange(0, j as int));
        assert(pre.last() == p as int);
        if element_is(ev, p, t, node) {
            out.push(p);
            assert(as_positions(out@) =~= all_with(ev@, pre.drop_last(), t, node).push(p as int));
        }
        j = j + 1;
    }
    assert(as_positions(ks@).subrange(0, n as int) =~= as_positions(ks@));
    out
}

/// The text of the token at position `p`; empty for a node event.
pub open spec fn token_text(ev: Seq<CstEvent>, p: int) -> Seq<char> {
    match ev[p] {
        CstEvent::Token(_, t, _) => t@,
        _ => Seq::empty(),
    }
}

/// The path that the attribute entered at position `a` gives, where it is a
/// `#[path = "..."]` attribute: the text of its string literal without the
/// quotes.
pub open spec fn path_attribute(ev: Seq<CstEvent>, a: int) -> Option<Seq<char>> {
    match first_with(ev, children_of(ev, a), SyntaxTag::Meta, true) {
        None => None,
        Some(m) => if first_with(ev, children_of(ev, m), SyntaxTag::Path, true) is None {
            None
        } else {
            match first_with(ev, children_of(ev, m), SyntaxTag::Literal, true) {
                None => None,
                Some(l) => match first_with(ev, children_of(ev, l), SyntaxTag::StringLit, false) {
                    None => None,
                    Some(q) => {
                        let t = token_text(ev, q);
                        if t.len() >= 2 {
                            Some(t.subrange(1, t.len() - 1))
                        } else {
                            None
                        }
                    },
                },
            }
        },
    }
}

/// The path that the attribute entered at position `attr` names, if it is a
/// path attribute.
pub fn extract_path_attribute(ev: &Vec<CstEvent>, attr: usize) -> (r: Option<String>)
    requires
        attr < ev@.len(),
    ensures
        crate::annotations::opt_text(r) == path_attribute(ev@, attr as int),
{
    let kids = child_positions(ev, attr);
    let meta = match first_child(ev, &kids, SyntaxTag::Meta, true) {
        Some(m) => m,
        None => return None,
    };
    let meta_kids = child_positions(ev, meta);
    if first_child(ev, &meta_kids, SyntaxTag::Path, true).is_none() {
        return None;
    }
    let lit = match first_child(ev, &meta_kids, SyntaxTag::Literal, true) {
        Some(l) => l,
        None => return None,
    };
    let lit_kids = child_positions(ev, lit);
    let q = match first_child(ev, &lit_kids, SyntaxTag::StringLit, false) {
        Some(q) => q,
        None => return None,
    };
    match &ev[q] {
        CstEvent::Token(_, t, _) => {
            let n = t.unicode_len();
            if n >= 2 {
                Some(String::from_str(t.as_str().substring_char(1, n - 1)))
            } else {
                None
            }
        },
        _ => None,
    }
}

} // verus!
