use vstd::prelude::*;

use crate::colors::{fg_red, fg_red_seq, fg_reset, fg_reset_seq};
use crate::diagnostics::{DiagModel, Diagnostic};
use crate::strings::push_char;
use crate::text::{
    count_nl, lemma_count_nl_le, lemma_source_position_agreement, line_of, line_start_of, Source,
};

verus! {

/// How many characters of context stand before and after the
/// highlighted span.
pub const PREFIX_LENGTH: usize = 8;

/// A run of spaces.
pub open spec fn spaces(n: nat) -> Seq<char>
    decreases n,
{
    if n == 0 {
        Seq::empty()
    } else {
        spaces((n - 1) as nat).push(' ')
    }
}

/// The length of a diagnostic's span.
pub open spec fn diag_span_len(d: DiagModel) -> int {
    if d.span.end >= d.span.start {
        d.span.end - d.span.start
    } else {
        0
    }
}

/// The rendering of one diagnostic against its source line: up to eight
/// characters of context, the span in red — stretched one character past
/// its end, as the layout wants it — the trailing context, and on the
/// next line an indented pointer with the message.
pub open spec fn render_diag(text: Seq<char>, d: DiagModel) -> Seq<char> {
    let li = count_nl(text, d.span.start);
    let ls = line_start_of(text, li);
    let line = line_of(text, li);
    let column = if d.span.start >= ls {
        d.span.start - ls
    } else {
        0
    };
    let prefix_start = if column >= PREFIX_LENGTH as int {
        column - PREFIX_LENGTH as int
    } else {
        0
    };
    let span_end = if column + diag_span_len(d) <= line.len() {
        column + diag_span_len(d)
    } else {
        line.len() as int
    };
    let suffix_start = span_end + 1;
    let suffix_end = if suffix_start + PREFIX_LENGTH as int <= line.len() {
        suffix_start + PREFIX_LENGTH as int
    } else {
        line.len() as int
    };
    let span_stop = if suffix_start <= line.len() {
        suffix_start
    } else {
        line.len() as int
    };
    let prefix_part = line.subrange(prefix_start, column);
    let span_part = line.subrange(column, span_stop);
    let suffix_part = if suffix_start <= suffix_end {
        line.subrange(suffix_start, suffix_end)
    } else {
        Seq::empty()
    };
    let indent = if column >= PREFIX_LENGTH as int {
        column
    } else {
        PREFIX_LENGTH as int
    };
    prefix_part + fg_red_seq() + span_part + fg_reset_seq() + suffix_part + fg_red_seq()
        + seq!['\n'] + spaces(indent as nat) + "\u{2514}\u{2500} "@ + d.message + fg_reset_seq()
}

fn push_spaces(s: &mut String, n: usize)
    ensures
        final(s)@ == old(s)@ + spaces(n as nat),
{
    let mut i: usize = 0;
    proof {
        assert(s@ =~= old(s)@ + spaces(0));
    }
    while i < n
        invariant
            0 <= i <= n,
            s@ == old(s)@ + spaces(i as nat),
        decreases n - i,
    {
        push_char(s, ' ');
        proof {
            assert(s@ =~= old(s)@ + spaces((i + 1) as nat));
        }
        i = i + 1;
    }
}

/// Renders collected diagnostics against their source.
pub struct Printer<'a> {
    pub text: &'a Source,
    pub diagnostics: &'a [Diagnostic],
}

impl<'a> Printer<'a> {
    pub fn new(text: &'a Source, diagnostics: &'a [Diagnostic]) -> (r: Self)
        ensures
            r.text == text,
            r.diagnostics == diagnostics,
    {
        Printer { text, diagnostics }
    }

    /// One diagnostic, rendered with its line, caret pointer and message.
    pub fn stringify_diagnostic(&self, diagnostic: &Diagnostic) -> (r: String)
        requires
            diagnostic.span@.start <= self.text.text@.len(),
        ensures
            r@ == render_diag(self.text.text@, diagnostic@),
    {
        let ghost text = self.text.text@;
        let index = self.text.line_index(diagnostic.span.start);
        proof {
            lemma_count_nl_le(text, diagnostic.span.start as int, text.len() as int);
        }
        let start = self.text.line_start(index);
        let line = self.text.get_line(index);
        let line_len = line.unicode_len();
        proof {
            lemma_source_position_agreement(text, diagnostic.span.start as int);
        }

        let column = if diagnostic.span.start >= start {
            diagnostic.span.start - start
        } else {
            0
        };
        let prefix_start = if column >= PREFIX_LENGTH {
            column - PREFIX_LENGTH
        } else {
            0
        };
        let span_length = if diagnostic.span.end >= diagnostic.span.start {
            diagnostic.span.end - diagnostic.span.start
        } else {
            0
        };
        let span_end = if span_length <= line_len && column <= line_len - span_length {
            column + span_length
        } else {
            line_len
        };
        let span_stop = if span_end < line_len {
            span_end + 1
        } else {
            line_len
        };
        let indent = if column >= PREFIX_LENGTH {
            column
        } else {
            PREFIX_LENGTH
        };

        let mut out = String::new();
        out.append(line.substring_char(prefix_start, column));
        out.append(fg_red());
        out.append(line.substring_char(column, span_stop));
        out.append(fg_reset());
        if span_end < line_len {
            let suffix_start = span_end + 1;
            let suffix_end = if PREFIX_LENGTH <= line_len - suffix_start {
                suffix_start + PREFIX_LENGTH
            } else {
                line_len
            };
            out.append(line.substring_char(suffix_start, suffix_end));
        }
        out.append(fg_red());
        push_char(&mut out, '\n');
        push_spaces(&mut out, indent);
        out.append("\u{2514}\u{2500} ");
        out.append(diagnostic.message.as_str());
        out.append(fg_reset());
        proof {
            assert(out@ =~= render_diag(text, diagnostic@));
        }
        out
    }
}

} // verus!
