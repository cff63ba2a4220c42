//! Positions in source files, and the line accounting that recovers them
//! from byte offsets.
use vstd::prelude::*;
use vstd::string::*;

verus! {

/// The character of a decimal digit.
pub open spec fn digit_char(d: nat) -> char {
    if d == 0 { '0' }
    else if d == 1 { '1' }
    else if d == 2 { '2' }
    else if d == 3 { '3' }
    else if d == 4 { '4' }
    else if d == 5 { '5' }
    else if d == 6 { '6' }
    else if d == 7 { '7' }
    else if d == 8 { '8' }
    else { '9' }
}

/// The decimal notation of `n`, without leading zeros.
pub open spec fn decimal(n: nat) -> Seq<char>
    decreases n,
{
    if n < 10 {
        seq![digit_char(n)]
    } else {
        decimal(n / 10) + seq![digit_char(n % 10)]
    }
}

fn digit_str(d: usize) -> (r: &'static str)
    requires
        d < 10,
    ensures
        r@ == seq![digit_char(d as nat)],
{
    proof {
        reveal_strlit("0");
        reveal_strlit("1");
        reveal_strlit("2");
        reveal_strlit("3");
        reveal_strlit("4");
        reveal_strlit("5");
        reveal_strlit("6");
        reveal_strlit("7");
        reveal_strlit("8");
        reveal_strlit("9");
    }
    let r = if d == 0 { "0" }
    else if d == 1 { "1" }
    else if d == 2 { "2" }
    else if d == 3 { "3" }
    else if d == 4 { "4" }
    else if d == 5 { "5" }
    else if d == 6 { "6" }
    else if d == 7 { "7" }
    else if d == 8 { "8" }
    else { "9" };
    assert(r@ =~= seq![digit_char(d as nat)]);
    r
}

/// The decimal notation of `n`.
pub fn decimal_string(n: usize) -> (r: String)
    ensures
        r@ == decimal(n as nat),
    decreases n,
{
    if n < 10 {
        String::from_str(digit_str(n))
    } else {
        let mut s = decimal_string(n / 10);
        s.append(digit_str(n % 10));
        s
    }
}

/// Where an item stands: a file, and optionally a line and a column.
#[derive(Debug, Clone)]
pub struct FileReference {
    pub filename: String,
    pub line: Option<usize>,
    pub column: Option<usize>,
}

/// `:` followed by the number, or nothing.
pub open spec fn position_suffix(p: Option<usize>) -> Seq<char> {
    match p {
        Some(v) => seq![':'] + decimal(v as nat),
        None => Seq::empty(),
    }
}

impl FileReference {
    /// A reference to `filename` at the given line and column.
    pub fn new(filename: String, line: Option<usize>, column: Option<usize>) -> (r: FileReference)
        ensures
            r.filename@ == filename@,
            r.line == line,
            r.column == column,
    {
        FileReference { filename, line, column }
    }

    /// The placeholder reference: `main.rs`, without a position.
    pub fn new_default() -> (r: FileReference)
        ensures
            r.filename@ == "main.rs"@,
            r.line is None,
            r.column is None,
    {
        FileReference { filename: String::from_str("main.rs"), line: None, column: None }
    }

    /// `file:line:column`, leaving out what is not known.
    pub fn to_string(&self) -> (r: String)
        ensures
            r@ == self.filename@ + position_suffix(self.line) + position_suffix(self.column),
    {
        let mut result = self.filename.clone();
        proof {
            reveal_strlit(":");
        }
        if let Some(line) = self.line {
            result.append(":");
            let d = decimal_string(line);
            result.append(d.as_str());
        }
        if let Some(col) = self.column {
            result.append(":");
            let d = decimal_string(col);
            result.append(d.as_str());
        }
        assert(result@ =~= self.filename@ + position_suffix(self.line) + position_suffix(self.column));
        result
    }

    /// Replaces the position, keeping the file.
    pub fn set_position(&mut self, line: Option<usize>, column: Option<usize>)
        ensures
            final(self).filename == old(self).filename,
            final(self).line == line,
            final(self).column == column,
    {
        self.line = line;
        self.column = column;
    }
}

/// The number of line breaks in `s`.
pub open spec fn count_newlines(s: Seq<char>) -> nat
    decreases s.len(),
{
    if s.len() == 0 {
        0
    } else {
        count_newlines(s.drop_last()) + if s.last() == '\n' { 1nat } else { 0nat }
    }
}

/// The byte offset of the last line break in the UTF-8 encoding `b` of a
/// text, if there is one. A byte `0x0A` occurs in UTF-8 only as the
/// encoding of `\n`.
pub open spec fn last_newline_byte(b: Seq<u8>) -> Option<int>
    decreases b.len(),
{
    if b.len() == 0 {
        None
    } else if b.last() == 10u8 {
        Some(b.len() - 1)
    } else {
        last_newline_byte(b.drop_last())
    }
}

/// `a + b`, or the largest `usize` where the sum would exceed it.
pub open spec fn capped_sum(a: int, b: int) -> int {
    if a + b > usize::MAX {
        usize::MAX as int
    } else {
        a + b
    }
}

/// The line accounting of a walk: the current line, and the offset of the
/// last line break seen.
pub struct WhitespaceData {
    pub current_line: usize,
    pub last_linebrk: usize,
}

impl WhitespaceData {
    /// The accounting at the start of a file: line 1, no line break yet.
    pub fn new() -> (r: WhitespaceData)
        ensures
            r.current_line == 1,
            r.last_linebrk == 0,
    {
        WhitespaceData { current_line: 1, last_linebrk: 0 }
    }

    /// Takes in a whitespace token with text `text` that begins at byte
    /// offset `start`: each line break advances the line, and the byte
    /// offset of the last one becomes the new line start.
    pub fn visit_whitespace(&mut self, text: &str, start: usize)
        ensures
            final(self).current_line == capped_sum(
                old(self).current_line as int,
                count_newlines(text@) as int,
            ),
            final(self).last_linebrk == match last_newline_byte(text.spec_bytes()) {
                Some(p) => capped_sum(start as int, p),
                None => old(self).last_linebrk as int,
            },
    {
        let n = text.unicode_len();
        let mut k: usize = 0;
        let mut breaks: usize = 0;
        while k < n
            invariant
                n == text@.len(),
                k <= n,
                breaks as nat == count_newlines(text@.subrange(0, k as int)),
                breaks <= k,
            decreases n - k,
        {
            let c = text.get_char(k);
            assert(text@.subrange(0, k + 1).drop_last() =~= text@.subrange(0, k as int));
            if c == '\n' {
                breaks = breaks + 1;
            }
            k = k + 1;
        }
        assert(text@.subrange(0, n as int) =~= text@);
        let bytes = text.as_bytes();
        let m = bytes.len();
        let mut j: usize = 0;
        let mut last: Option<usize> = None;
        while j < m
            invariant
                m == bytes@.len(),
                bytes@ == text.spec_bytes(),
                j <= m,
                opt_pos_usize(last) == last_newline_byte(bytes@.subrange(0, j as int)),
            decreases m - j,
        {
            assert(bytes@.subrange(0, j + 1).drop_last() =~= bytes@.subrange(0, j as int));
            if bytes[j] == 10u8 {
                last = Some(j);
            }
            j = j + 1;
        }
        assert(bytes@.subrange(0, m as int) =~= bytes@);
        self.current_line = self.current_line.saturating_add(breaks);
        if let Some(p) = last {
            self.last_linebrk = start.saturating_add(p);
        }
    }

    /// The line and column of the byte at `offset`; exact once every
    /// whitespace token before it has been taken in.
    pub fn calculate_token_location(&self, offset: usize) -> (r: (usize, usize))
        ensures
            r.0 == self.current_line,
            r.1 == if offset >= self.last_linebrk { offset - self.last_linebrk } else { 0 },
    {
        (self.current_line, offset.saturating_sub(self.last_linebrk))
    }
}

pub open spec fn opt_pos_usize(o: Option<usize>) -> Option<int> {
    match o {
        Some(p) => Some(p as int),
        None => None,
    }
}

} // verus!
