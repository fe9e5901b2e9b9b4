pub mod printer;

use vstd::prelude::*;

use crate::ast::lexer::{KindModel, SpanModel, TextSpan, Token, TokenKind};

verus! {

#[derive(Debug, PartialEq, Eq, Clone, Copy, Structural)]
pub enum DiagnosticKind {
    Warning,
    Error,
}

#[derive(Debug)]
pub struct Diagnostic {
    pub message: String,
    pub span: TextSpan,
    pub kind: DiagnosticKind,
}

/// The mathematical image of a diagnostic.
pub struct DiagModel {
    pub message: Seq<char>,
    pub span: SpanModel,
    pub kind: DiagnosticKind,
}

impl View for Diagnostic {
    type V = DiagModel;

    open spec fn view(&self) -> DiagModel {
        DiagModel { message: self.message@, span: self.span@, kind: self.kind }
    }
}

impl Diagnostic {
    pub fn new(message: String, span: TextSpan, kind: DiagnosticKind) -> (r: Self)
        ensures
            r@ == (DiagModel { message: message@, span: span@, kind }),
    {
        Diagnostic { message, span, kind }
    }
}

// ---------------------------------------------------------------------------
// Messages
// ---------------------------------------------------------------------------

/// The display text of a token kind, as it appears in diagnostics.
pub open spec fn display_of(k: KindModel) -> Seq<char> {
    match k {
        KindModel::Number(_) => "Number"@,
        KindModel::Plus => "+"@,
        KindModel::Minus => "-"@,
        KindModel::Asterisk => "*"@,
        KindModel::Slash => "/"@,
        KindModel::LeftParen => "("@,
        KindModel::RightParen => ")"@,
        KindModel::Bad => "Bad"@,
        KindModel::Mod => "%"@,
        KindModel::Whitespace => "Whitespace"@,
        KindModel::Let => "Let"@,
        KindModel::Identifier(s) => s,
        KindModel::Equals => "="@,
        KindModel::Eof => "EOF"@,
    }
}

pub open spec fn expected_expression_msg(k: KindModel) -> Seq<char> {
    "Expected expression, found <"@ + display_of(k) + ">"@
}

pub open spec fn unexpected_token_msg(expected: KindModel, actual: KindModel) -> Seq<char> {
    "Expected <"@ + display_of(expected) + ">, found <"@ + display_of(actual) + ">"@
}

pub open spec fn ee_prefix() -> Seq<char> {
    "Expected expression"@
}

/// Whether a diagnostic reports that an expression was expected: its
/// message starts with the expected-expression prefix.
pub open spec fn is_expected_expression_diag(d: DiagModel) -> bool {
    d.message.len() >= ee_prefix().len() && d.message.subrange(0, ee_prefix().len() as int)
        == ee_prefix()
}

/// The number of expected-expression diagnostics in a sequence.
pub open spec fn count_ee(ds: Seq<DiagModel>) -> nat
    decreases ds.len(),
{
    if ds.len() == 0 {
        0
    } else {
        count_ee(ds.drop_last()) + if is_expected_expression_diag(ds.last()) {
            1nat
        } else {
            0nat
        }
    }
}

/// An expected-expression message starts with the expected-expression
/// prefix, whatever kind it names.
pub proof fn lemma_ee_msg_is_ee(k: KindModel)
    ensures
        forall|span: SpanModel, dk: DiagnosticKind|
            is_expected_expression_diag(
                DiagModel { message: expected_expression_msg(k), span: span, kind: dk },
            ),
{
    reveal_strlit("Expected expression");
    reveal_strlit("Expected expression, found <");
    let m = expected_expression_msg(k);
    assert(m.subrange(0, ee_prefix().len() as int) =~= ee_prefix());
}

/// An unexpected-token message does not start with the expected-expression
/// prefix: its tenth character is the opening bracket.
pub proof fn lemma_ut_msg_not_ee(expected: KindModel, actual: KindModel)
    ensures
        forall|span: SpanModel, dk: DiagnosticKind|
            !is_expected_expression_diag(
                DiagModel {
                    message: unexpected_token_msg(expected, actual),
                    span: span,
                    kind: dk,
                },
            ),
{
    reveal_strlit("Expected expression");
    reveal_strlit("Expected <");
    let m = unexpected_token_msg(expected, actual);
    assert(m[9] == '<');
    assert forall|span: SpanModel, dk: DiagnosticKind|
        !is_expected_expression_diag(
            DiagModel { message: m, span: span, kind: dk },
        ) by {
        let d = DiagModel { message: m, span: span, kind: dk };
        if is_expected_expression_diag(d) {
            assert(m.subrange(0, ee_prefix().len() as int)[9] == ee_prefix()[9]);
            assert(false);
        }
    }
}

/// Appending a diagnostic raises the expected-expression count by one
/// exactly when the new diagnostic is such a report.
pub proof fn lemma_count_ee_push(ds: Seq<DiagModel>, d: DiagModel)
    ensures
        is_expected_expression_diag(d) ==> count_ee(ds.push(d)) == count_ee(ds) + 1,
        !is_expected_expression_diag(d) ==> count_ee(ds.push(d)) == count_ee(ds),
{
    assert(ds.push(d).drop_last() =~= ds);
    assert(ds.push(d).last() == d);
}

/// The expected-expression count distributes over concatenation.
pub proof fn lemma_count_ee_add(a: Seq<DiagModel>, b: Seq<DiagModel>)
    ensures
        count_ee(a + b) == count_ee(a) + count_ee(b),
    decreases b.len(),
{
    if b.len() == 0 {
        assert(a + b =~= a);
    } else {
        lemma_count_ee_add(a, b.drop_last());
        assert((a + b).drop_last() =~= a + b.drop_last());
        assert((a + b).last() == b.last());
    }
}

// ---------------------------------------------------------------------------
// The bag
// ---------------------------------------------------------------------------

/// The display text of a token kind.
pub fn kind_display(kind: &TokenKind) -> (r: String)
    ensures
        r@ == display_of(kind@),
{
    match kind {
        TokenKind::Number(_) => "Number".to_owned(),
        TokenKind::Plus => "+".to_owned(),
        TokenKind::Minus => "-".to_owned(),
        TokenKind::Asterisk => "*".to_owned(),
        TokenKind::Slash => "/".to_owned(),
        TokenKind::LeftParen => "(".to_owned(),
        TokenKind::RightParen => ")".to_owned(),
        TokenKind::Bad => "Bad".to_owned(),
        TokenKind::Mod => "%".to_owned(),
        TokenKind::Whitespace => "Whitespace".to_owned(),
        TokenKind::Let => "Let".to_owned(),
        TokenKind::Identifier(s) => s.clone(),
        TokenKind::Equals => "=".to_owned(),
        TokenKind::Eof => "EOF".to_owned(),
    }
}

/// Collects diagnostics in the order they are reported.
#[derive(Default)]
pub struct Bag {
    pub diagnostics: Vec<Diagnostic>,
}

impl View for Bag {
    type V = Seq<DiagModel>;

    open spec fn view(&self) -> Seq<DiagModel> {
        Seq::new(self.diagnostics@.len(), |i: int| self.diagnostics@[i]@)
    }
}

impl Bag {
    pub fn new() -> (r: Self)
        ensures
            r@ =~= Seq::<DiagModel>::empty(),
    {
        let r = Bag { diagnostics: Vec::new() };
        proof {
            assert(r@ =~= Seq::<DiagModel>::empty());
        }
        r
    }

    pub fn report_error(&mut self, message: String, span: TextSpan)
        ensures
            final(self)@ == old(self)@.push(
                DiagModel { message: message@, span: span@, kind: DiagnosticKind::Error },
            ),
    {
        let ghost prev = self@;
        let ghost d = DiagModel {
            message: message@,
            span: span@,
            kind: DiagnosticKind::Error,
        };
        self.diagnostics.push(Diagnostic::new(message, span, DiagnosticKind::Error));
        proof {
            assert(self@ =~= prev.push(d));
        }
    }

    pub fn report_warning(&mut self, message: String, span: TextSpan)
        ensures
            final(self)@ == old(self)@.push(
                DiagModel { message: message@, span: span@, kind: DiagnosticKind::Warning },
            ),
    {
        let ghost prev = self@;
        let ghost d = DiagModel {
            message: message@,
            span: span@,
            kind: DiagnosticKind::Warning,
        };
        self.diagnostics.push(Diagnostic::new(message, span, DiagnosticKind::Warning));
        proof {
            assert(self@ =~= prev.push(d));
        }
    }

    pub fn report_unexpected_token(&mut self, expected: &TokenKind, actual: &Token)
        ensures
            final(self)@ == old(self)@.push(
                DiagModel {
                    message: unexpected_token_msg(expected@, actual.kind@),
                    span: actual.span@,
                    kind: DiagnosticKind::Error,
                },
            ),
    {
        let mut message = "Expected <".to_owned();
        message.append(kind_display(expected).as_str());
        message.append(">, found <");
        message.append(kind_display(&actual.kind).as_str());
        message.append(">");
        let span = TextSpan::new(
            actual.span.start,
            actual.span.end,
            actual.span.literal.clone(),
        );
        proof {
            assert(message@ =~= unexpected_token_msg(expected@, actual.kind@));
        }
        self.report_error(message, span);
    }

    pub fn report_expected_expression(&mut self, token: &Token)
        ensures
            final(self)@ == old(self)@.push(
                DiagModel {
                    message: expected_expression_msg(token.kind@),
                    span: token.span@,
                    kind: DiagnosticKind::Error,
                },
            ),
    {
        let mut message = "Expected expression, found <".to_owned();
        message.append(kind_display(&token.kind).as_str());
        message.append(">");
        let span = TextSpan::new(
            token.span.start,
            token.span.end,
            token.span.literal.clone(),
        );
        proof {
            assert(message@ =~= expected_expression_msg(token.kind@));
        }
        self.report_error(message, span);
    }
}

} // verus!
