use vstd::prelude::*;

verus! {

/// The number of newline characters of `s` strictly before position `end`.
pub open spec fn count_nl(s: Seq<char>, end: int) -> nat
    decreases end,
{
    if end <= 0 || end > s.len() {
        0
    } else {
        count_nl(s, end - 1) + if s[end - 1] == '\n' {
            1nat
        } else {
            0nat
        }
    }
}

/// The position of the first newline at or after `from`, or the length of
/// `s` when no newline follows.
pub open spec fn line_end_from(s: Seq<char>, from: int) -> int
    decreases s.len() - from,
{
    if !(0 <= from < s.len()) {
        s.len() as int
    } else if s[from] == '\n' {
        from
    } else {
        line_end_from(s, from + 1)
    }
}

/// The position at which line `i` begins: 0 for the first line, otherwise
/// one past the `i`-th newline.
pub open spec fn line_start_of(s: Seq<char>, i: nat) -> int
    decreases i,
{
    if i == 0 {
        0
    } else {
        line_end_from(s, line_start_of(s, (i - 1) as nat)) + 1
    }
}

/// The contents of line `i`, without its terminating newline.
pub open spec fn line_of(s: Seq<char>, i: nat) -> Seq<char> {
    s.subrange(line_start_of(s, i), line_end_from(s, line_start_of(s, i)))
}

/// Counting newlines is monotone in the end position.
pub proof fn lemma_count_nl_le(s: Seq<char>, p: int, q: int)
    requires
        0 <= p <= q <= s.len(),
    ensures
        count_nl(s, p) <= count_nl(s, q),
    decreases q,
{
    if p < q {
        lemma_count_nl_le(s, p, q - 1);
    }
}

/// A range that contains no newline does not change the count.
pub proof fn lemma_count_nl_no_nl(s: Seq<char>, p: int, q: int)
    requires
        0 <= p <= q <= s.len(),
        forall|k: int| p <= k < q ==> s[k] != '\n',
    ensures
        count_nl(s, q) == count_nl(s, p),
    decreases q,
{
    if p < q {
        lemma_count_nl_no_nl(s, p, q - 1);
    }
}

/// Up to the end of a line there are as many newlines as at its start, and
/// the line end is bounded by the text.
pub proof fn lemma_line_end_from(s: Seq<char>, from: int)
    requires
        0 <= from <= s.len(),
    ensures
        from <= line_end_from(s, from) <= s.len(),
        count_nl(s, line_end_from(s, from)) == count_nl(s, from),
        forall|k: int| from <= k < line_end_from(s, from) ==> s[k] != '\n',
        line_end_from(s, from) < s.len() ==> s[line_end_from(s, from)] == '\n',
    decreases s.len() - from,
{
    if from < s.len() && s[from] != '\n' {
        lemma_line_end_from(s, from + 1);
    }
    lemma_count_nl_no_nl(s, from, line_end_from(s, from));
}

/// Line `i` starts after exactly `i` newlines, right at the text's start or
/// right past a newline, and within the text.
pub proof fn lemma_line_start_of(s: Seq<char>, i: nat)
    requires
        i <= count_nl(s, s.len() as int),
    ensures
        0 <= line_start_of(s, i) <= s.len(),
        count_nl(s, line_start_of(s, i)) == i,
        line_start_of(s, i) == 0 || s[line_start_of(s, i) - 1] == '\n',
    decreases i,
{
    if i > 0 {
        lemma_line_start_of(s, (i - 1) as nat);
        let prev = line_start_of(s, (i - 1) as nat);
        let e = line_end_from(s, prev);
        lemma_line_end_from(s, prev);
        if e >= s.len() {
            // No newline remains after `prev`, so the total count would
            // already be reached one line too early.
            lemma_count_nl_le(s, prev, s.len() as int);
            lemma_count_nl_no_nl(s, prev, s.len() as int);
            assert(false);
        }
        assert(count_nl(s, e + 1) == count_nl(s, e) + 1);
    }
}

/// A value holding the full input text; positions are character offsets.
pub struct Source {
    pub text: String,
}

impl Source {
    pub fn new(text: String) -> (r: Self)
        ensures
            r.text@ == text@,
    {
        Source { text }
    }

    /// The 0-based index of the line containing position `position`.
    pub fn line_index(&self, position: usize) -> (r: usize)
        requires
            position <= self.text@.len(),
        ensures
            r == count_nl(self.text@, position as int),
    {
        let s = self.text.as_str();
        let mut i: usize = 0;
        let mut cnt: usize = 0;
        while i < position
            invariant
                0 <= i <= position <= s@.len(),
                s@ == self.text@,
                cnt == count_nl(s@, i as int),
                cnt <= i,
            decreases position - i,
        {
            if s.get_char(i) == '\n' {
                cnt = cnt + 1;
            }
            i = i + 1;
        }
        cnt
    }

    /// The position of the first newline at or after `from`, or the text's
    /// length when none follows.
    fn find_newline_from(&self, from: usize) -> (r: usize)
        requires
            from <= self.text@.len(),
        ensures
            r == line_end_from(self.text@, from as int),
            from <= r <= self.text@.len(),
    {
        let s = self.text.as_str();
        let len = s.unicode_len();
        let mut i: usize = from;
        while i < len
            invariant
                from <= i <= len,
                s@ == self.text@,
                len == s@.len(),
                line_end_from(s@, from as int) == line_end_from(s@, i as int),
            decreases len - i,
        {
            if s.get_char(i) == '\n' {
                return i;
            }
            i = i + 1;
        }
        i
    }

    /// The position at which line `index` begins.
    pub fn line_start(&self, index: usize) -> (r: usize)
        requires
            index <= count_nl(self.text@, self.text@.len() as int),
        ensures
            r == line_start_of(self.text@, index as nat),
            r <= self.text@.len(),
        decreases index,
    {
        proof {
            lemma_line_start_of(self.text@, index as nat);
        }
        if index == 0 {
            0
        } else {
            let prev = self.line_start(index - 1);
            let n = self.text.as_str().unicode_len();
            let e = self.find_newline_from(prev);
            proof {
                lemma_line_start_of(self.text@, (index - 1) as nat);
                lemma_line_end_from(self.text@, prev as int);
                if e >= self.text@.len() {
                    lemma_count_nl_no_nl(self.text@, prev as int, self.text@.len() as int);
                    lemma_count_nl_le(self.text@, prev as int, self.text@.len() as int);
                    assert(false);
                }
            }
            e + 1
        }
    }

    /// The contents of line `index`, without the terminating newline.
    pub fn get_line(&self, index: usize) -> (r: &str)
        requires
            index <= count_nl(self.text@, self.text@.len() as int),
        ensures
            r@ == line_of(self.text@, index as nat),
    {
        let start = self.line_start(index);
        let end = self.find_newline_from(start);
        self.text.as_str().substring_char(start, end)
    }
}

/// The three position operations agree: a position lies between the start
/// and the end of the line that contains it.
pub proof fn lemma_source_position_agreement(s: Seq<char>, pos: int)
    requires
        0 <= pos <= s.len(),
    ensures
        line_start_of(s, count_nl(s, pos)) <= pos,
        pos <= line_start_of(s, count_nl(s, pos)) + line_of(s, count_nl(s, pos)).len(),
{
    let i = count_nl(s, pos);
    lemma_count_nl_le(s, pos, s.len() as int);
    lemma_line_start_of(s, i);
    let ls = line_start_of(s, i);
    let le = line_end_from(s, ls);
    lemma_line_end_from(s, ls);
    if pos < ls {
        // The line start sits right past a newline at `ls - 1 >= pos`,
        // which would put more than `i` newlines before `ls`.
        lemma_count_nl_le(s, pos, ls - 1);
        assert(count_nl(s, ls) == count_nl(s, ls - 1) + 1);
        assert(false);
    }
    if pos > le {
        // The line ends at a newline at `le < pos`, which would put more
        // than `i` newlines before `pos`.
        lemma_count_nl_le(s, le + 1, pos);
        assert(count_nl(s, le + 1) == count_nl(s, le) + 1);
        assert(false);
    }
}

} // verus!
