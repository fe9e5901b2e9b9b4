use vstd::prelude::*;

use crate::ast::counter::Counter;
use crate::ast::lexer::{
    lex_all, tokenize, tokens_view, KindModel, SpanModel, TextSpan, Token, TokenKind, TokenModel,
};
use crate::ast::tree::{
    count_errors, count_errors_all, prec_of, prec_wf, prec_wf_all, Ast, BinaryOperator,
    BinaryOperatorKind, Expression, ExprModel, OpModel, Statement,
};
use crate::diagnostics::{
    count_ee, expected_expression_msg, lemma_count_ee_add, lemma_count_ee_push,
    lemma_ee_msg_is_ee, lemma_ut_msg_not_ee, unexpected_token_msg, Bag, DiagModel, DiagnosticKind,
};

verus! {

// ---------------------------------------------------------------------------
// The parsing function, mathematically
// ---------------------------------------------------------------------------

/// The operator named by a token kind, if any.
pub open spec fn classify_op(k: KindModel) -> Option<BinaryOperatorKind> {
    match k {
        KindModel::Plus => Some(BinaryOperatorKind::Add),
        KindModel::Minus => Some(BinaryOperatorKind::Subtract),
        KindModel::Asterisk => Some(BinaryOperatorKind::Multiply),
        KindModel::Slash => Some(BinaryOperatorKind::Divide),
        KindModel::Mod => Some(BinaryOperatorKind::Mod),
        _ => None,
    }
}

/// A well-formed token stream for the parser: at least the end-of-file
/// token, which is the last element and no other.
pub open spec fn toks_wf(toks: Seq<TokenModel>) -> bool {
    &&& toks.len() >= 1
    &&& toks.last().kind is Eof
    &&& forall|i: int| 0 <= i < toks.len() - 1 ==> !((#[trigger] toks[i]).kind is Eof)
}

/// The end-of-file sentinel.
pub open spec fn eof_model() -> TokenModel {
    TokenModel {
        kind: KindModel::Eof,
        span: SpanModel { literal: seq!['\u{0}'], start: 0, end: 0 },
    }
}

/// The token at a position, the sentinel when the position is out of range.
pub open spec fn tok_at(toks: Seq<TokenModel>, pos: int) -> TokenModel {
    if 0 <= pos < toks.len() {
        toks[pos]
    } else {
        eof_model()
    }
}

/// The cursor after consuming one token: it never moves past the final
/// end-of-file token.
pub open spec fn adv(toks: Seq<TokenModel>, pos: int) -> int {
    if pos < toks.len() - 1 {
        pos + 1
    } else {
        pos
    }
}

/// A returned cursor, brought back into range: at least `lo`, at most the
/// stream's length. On a well-formed run the cursor is there already.
pub open spec fn clamp_pos(toks: Seq<TokenModel>, lo: int, p: int) -> int {
    if p < lo {
        lo
    } else if p > toks.len() {
        toks.len() as int
    } else {
        p
    }
}

/// The diagnostic reported when an expression was expected.
pub open spec fn ee_diag(t: TokenModel) -> DiagModel {
    DiagModel {
        message: expected_expression_msg(t.kind),
        span: t.span,
        kind: DiagnosticKind::Error,
    }
}

/// The diagnostic reported when a specific token was expected.
pub open spec fn ut_diag(expected: KindModel, t: TokenModel) -> DiagModel {
    DiagModel {
        message: unexpected_token_msg(expected, t.kind),
        span: t.span,
        kind: DiagnosticKind::Error,
    }
}

/// Parsing a primary expression at `pos`: a number, a parenthesized
/// expression, or an error placeholder over the offending token, which is
/// consumed and reported. The result is the node, the new cursor and the
/// diagnostics that were reported.
pub open spec fn spec_parse_primary(toks: Seq<TokenModel>, pos: int) -> (
    ExprModel,
    int,
    Seq<DiagModel>,
)
    decreases toks.len() - pos, 0int,
{
    if !(0 <= pos < toks.len()) {
        (ExprModel::Error(eof_model().span), pos, Seq::empty())
    } else {
        let t = toks[pos];
        if pos >= toks.len() - 1 {
            // The final token: on a well-formed stream the end-of-file
            // sentinel, which never starts an expression. The cursor
            // stays on it.
            (ExprModel::Error(t.span), pos, seq![ee_diag(t)])
        } else {
            match t.kind {
                KindModel::Number(n) => (ExprModel::Number(n), pos + 1, Seq::empty()),
                KindModel::LeftParen => {
                    let (inner, pos_r, ds) = spec_parse_binary(toks, pos + 1, 0);
                    let pos_c = clamp_pos(toks, pos + 1, pos_r);
                    let t2 = tok_at(toks, pos_c);
                    let pos4 = adv(toks, pos_c);
                    let ds2 = if t2.kind is RightParen {
                        ds
                    } else {
                        ds.push(ut_diag(KindModel::RightParen, t2))
                    };
                    (ExprModel::Parenthesized(Box::new(inner)), pos4, ds2)
                },
                _ => (ExprModel::Error(t.span), pos + 1, seq![ee_diag(t)]),
            }
        }
    }
}

/// Parsing a binary expression at `pos` with a minimal precedence: a
/// primary expression, then the climbing loop.
pub open spec fn spec_parse_binary(toks: Seq<TokenModel>, pos: int, prec: int) -> (
    ExprModel,
    int,
    Seq<DiagModel>,
)
    decreases toks.len() - pos, 2int,
{
    if !(0 <= pos < toks.len()) {
        (ExprModel::Error(eof_model().span), pos, Seq::empty())
    } else {
        let (left, pos2, ds) = spec_parse_primary(toks, pos);
        let pos_c = clamp_pos(toks, pos, pos2);
        let (e, pos3, ds2) = spec_parse_bin_loop(toks, pos_c, prec, left);
        (e, pos3, ds + ds2)
    }
}

/// The climbing loop: while the cursor stands on an operator that binds
/// more strongly than `prec`, consume it, parse its right-hand side at the
/// operator's own precedence, and combine.
pub open spec fn spec_parse_bin_loop(
    toks: Seq<TokenModel>,
    pos: int,
    prec: int,
    left: ExprModel,
) -> (ExprModel, int, Seq<DiagModel>)
    decreases toks.len() - pos, 1int,
{
    if !(0 <= pos < toks.len() - 1) {
        (left, pos, Seq::empty())
    } else {
        match classify_op(toks[pos].kind) {
            None => (left, pos, Seq::empty()),
            Some(k) => {
                if prec_of(k) <= prec {
                    (left, pos, Seq::empty())
                } else {
                    let op = OpModel { kind: k, token: toks[pos] };
                    let (right, pos_r, ds2) = spec_parse_binary(toks, pos + 1, prec_of(k));
                    let pos_c = clamp_pos(toks, pos + 1, pos_r);
                    let (e, pos3, ds3) = spec_parse_bin_loop(
                        toks,
                        pos_c,
                        prec,
                        ExprModel::Binary(Box::new(left), Box::new(right), op),
                    );
                    (e, pos3, ds2 + ds3)
                }
            },
        }
    }
}

/// Parsing the whole program: one expression statement after the other,
/// until the cursor stands on the end-of-file token.
pub open spec fn spec_parse_program(toks: Seq<TokenModel>, pos: int) -> (
    Seq<ExprModel>,
    Seq<DiagModel>,
)
    decreases toks.len() - pos,
{
    if !(0 <= pos < toks.len()) {
        (Seq::empty(), Seq::empty())
    } else if tok_at(toks, pos).kind is Eof {
        (Seq::empty(), Seq::empty())
    } else {
        let (e, pos2, ds) = spec_parse_binary(toks, pos, 0);
        let pos_c = clamp_pos(toks, pos + 1, pos2);
        let (rest, ds2) = spec_parse_program(toks, pos_c);
        (seq![e] + rest, ds + ds2)
    }
}

// ---------------------------------------------------------------------------
// Filtering whitespace
// ---------------------------------------------------------------------------

/// The token stream with its whitespace tokens removed.
pub open spec fn filter_ws(toks: Seq<TokenModel>) -> Seq<TokenModel> {
    toks.filter(|t: TokenModel| !(t.kind is Whitespace))
}

proof fn lemma_filter_ws_no_eof(toks: Seq<TokenModel>)
    requires
        forall|i: int| 0 <= i < toks.len() ==> !((#[trigger] toks[i]).kind is Eof),
    ensures
        forall|i: int|
            0 <= i < filter_ws(toks).len() ==> !((#[trigger] filter_ws(toks)[i]).kind is Eof),
    decreases toks.len(),
{
    reveal(Seq::filter);
    if toks.len() > 0 {
        assert(forall|i: int|
            0 <= i < toks.drop_last().len() ==> !((#[trigger] toks.drop_last()[i]).kind is Eof));
        lemma_filter_ws_no_eof(toks.drop_last());
        let sub = filter_ws(toks.drop_last());
        assert forall|i: int| 0 <= i < filter_ws(toks).len() implies !((#[trigger] filter_ws(
            toks,
        )[i]).kind is Eof) by {
            if i < sub.len() {
                assert(filter_ws(toks)[i] == sub[i]);
            } else {
                assert(filter_ws(toks)[i] == toks.last());
            }
        }
    }
}

/// Filtering the lexer's output leaves a well-formed parser stream: the
/// end-of-file token is no whitespace, so it stays last and alone.
pub proof fn lemma_filter_ws_wf(s: Seq<char>)
    ensures
        toks_wf(filter_ws(lex_all(s, 0))),
{
    reveal(Seq::filter);
    let full = lex_all(s, 0);
    crate::ast::lexer::lemma_lex_all_shape(s, 0);
    let front = full.drop_last();
    assert(filter_ws(full) == filter_ws(front).push(full.last()));
    assert(forall|i: int| 0 <= i < front.len() ==> !((#[trigger] front[i]).kind is Eof));
    lemma_filter_ws_no_eof(front);
    let out = filter_ws(full);
    assert(out.last().kind is Eof);
    assert(forall|i: int| 0 <= i < out.len() - 1 ==> !((#[trigger] out[i]).kind is Eof));
}

// ---------------------------------------------------------------------------
// Owned copies of tokens
// ---------------------------------------------------------------------------

fn clone_kind(k: &TokenKind) -> (r: TokenKind)
    ensures
        r@ == k@,
{
    match k {
        TokenKind::Number(n) => TokenKind::Number(*n),
        TokenKind::Plus => TokenKind::Plus,
        TokenKind::Minus => TokenKind::Minus,
        TokenKind::Asterisk => TokenKind::Asterisk,
        TokenKind::Slash => TokenKind::Slash,
        TokenKind::LeftParen => TokenKind::LeftParen,
        TokenKind::RightParen => TokenKind::RightParen,
        TokenKind::Bad => TokenKind::Bad,
        TokenKind::Mod => TokenKind::Mod,
        TokenKind::Whitespace => TokenKind::Whitespace,
        TokenKind::Let => TokenKind::Let,
        TokenKind::Identifier(s) => TokenKind::Identifier(s.clone()),
        TokenKind::Equals => TokenKind::Equals,
        TokenKind::Eof => TokenKind::Eof,
    }
}

fn clone_span(s: &TextSpan) -> (r: TextSpan)
    ensures
        r@ == s@,
{
    TextSpan::new(s.start, s.end, s.literal.clone())
}

fn clone_token(t: &Token) -> (r: Token)
    ensures
        r@ == t@,
{
    Token::new(clone_kind(&t.kind), clone_span(&t.span))
}

/// Whether two token kinds are the same, identifiers by their text.
fn kind_matches(a: &TokenKind, b: &TokenKind) -> (r: bool)
    ensures
        r == (a@ == b@),
{
    match (a, b) {
        (TokenKind::Number(x), TokenKind::Number(y)) => *x == *y,
        (TokenKind::Plus, TokenKind::Plus) => true,
        (TokenKind::Minus, TokenKind::Minus) => true,
        (TokenKind::Asterisk, TokenKind::Asterisk) => true,
        (TokenKind::Slash, TokenKind::Slash) => true,
        (TokenKind::LeftParen, TokenKind::LeftParen) => true,
        (TokenKind::RightParen, TokenKind::RightParen) => true,
        (TokenKind::Bad, TokenKind::Bad) => true,
        (TokenKind::Mod, TokenKind::Mod) => true,
        (TokenKind::Whitespace, TokenKind::Whitespace) => true,
        (TokenKind::Let, TokenKind::Let) => true,
        (TokenKind::Identifier(x), TokenKind::Identifier(y)) => *x == *y,
        (TokenKind::Equals, TokenKind::Equals) => true,
        (TokenKind::Eof, TokenKind::Eof) => true,
        _ => false,
    }
}

// ---------------------------------------------------------------------------
// The parser
// ---------------------------------------------------------------------------

/// A recursive-descent parser over the whitespace-filtered token stream.
/// It owns the diagnostic bag while it runs.
pub struct Parser {
    pub tokens: Vec<Token>,
    pub current: Counter,
    pub bag: Bag,
}

impl Parser {
    pub closed spec fn toks(&self) -> Seq<TokenModel> {
        tokens_view(self.tokens@)
    }

    pub closed spec fn pos(&self) -> int {
        self.current.count as int
    }

    pub closed spec fn wf(&self) -> bool {
        &&& toks_wf(self.toks())
        &&& 0 <= self.pos() < self.toks().len()
        &&& self.toks().len() <= usize::MAX as int
    }

    /// Lexes the input, drops the whitespace tokens, and stands ready at
    /// the first token, reporting into the given bag.
    pub fn from_input(input: &str, bag: Bag) -> (r: Parser)
        ensures
            r.wf(),
            r.pos() == 0,
            r.toks() == filter_ws(lex_all(input@, 0)),
            r.bag@ == bag@,
    {
        let all = tokenize(input);
        let ghost v = tokens_view(all@);
        let mut tokens: Vec<Token> = Vec::new();
        let n = all.len();
        let mut i: usize = 0;
        proof {
            reveal(Seq::filter);
            assert(tokens_view(tokens@) =~= filter_ws(v.subrange(0, 0)));
        }
        while i < n
            invariant
                n == all@.len(),
                v == tokens_view(all@),
                0 <= i <= n,
                tokens_view(tokens@) == filter_ws(v.subrange(0, i as int)),
            decreases n - i,
        {
            let t = &all[i];
            let keep = match &t.kind {
                TokenKind::Whitespace => false,
                _ => true,
            };
            let ghost prev = tokens@;
            if keep {
                let c = clone_token(t);
                tokens.push(c);
            }
            proof {
                reveal(Seq::filter);
                let pre = v.subrange(0, i as int);
                let cur = v.subrange(0, i + 1);
                assert(cur.drop_last() =~= pre);
                assert(cur.last() == v[i as int]);
                if keep {
                    assert(tokens_view(tokens@) =~= filter_ws(pre).push(v[i as int]));
                } else {
                    assert(tokens_view(tokens@) =~= filter_ws(pre));
                }
            }
            i = i + 1;
        }
        proof {
            assert(v.subrange(0, v.len() as int) =~= v);
            lemma_filter_ws_wf(input@);
        }
        Parser { tokens, current: Counter::new(), bag }
    }

    /// The token a given distance from the cursor; out-of-range access is
    /// a programming error, ruled out here by precondition.
    fn peek(&self, offset: isize) -> (r: &Token)
        requires
            self.wf(),
            0 <= self.pos() + offset < self.toks().len(),
        ensures
            r@ == self.toks()[self.pos() + offset],
    {
        let idx: usize = if offset >= 0 {
            self.current.get() + (offset as usize)
        } else {
            let m: usize = ((-(offset + 1)) as usize) + 1;
            self.current.get() - m
        };
        &self.tokens[idx]
    }

    fn current(&self) -> (r: &Token)
        requires
            self.wf(),
        ensures
            r@ == tok_at(self.toks(), self.pos()),
    {
        self.peek(0)
    }

    /// Returns the token under the cursor and moves on; the cursor never
    /// leaves the final end-of-file token.
    fn consume(&mut self) -> (r: Token)
        requires
            old(self).wf(),
        ensures
            final(self).wf(),
            final(self).toks() == old(self).toks(),
            final(self).bag == old(self).bag,
            r@ == tok_at(old(self).toks(), old(self).pos()),
            final(self).pos() == adv(old(self).toks(), old(self).pos()),
    {
        let t = clone_token(self.peek(0));
        let n = self.tokens.len();
        if self.current.get() < n - 1 {
            self.current.increment();
        }
        t
    }

    /// Consumes one token and reports a diagnostic unless it has the
    /// expected kind.
    fn consume_and_check(&mut self, kind: &TokenKind) -> (r: Token)
        requires
            old(self).wf(),
        ensures
            final(self).wf(),
            final(self).toks() == old(self).toks(),
            r@ == tok_at(old(self).toks(), old(self).pos()),
            final(self).pos() == adv(old(self).toks(), old(self).pos()),
            final(self).bag@ == if tok_at(old(self).toks(), old(self).pos()).kind == kind@ {
                old(self).bag@
            } else {
                old(self).bag@.push(ut_diag(kind@, tok_at(old(self).toks(), old(self).pos())))
            },
    {
        let token = self.consume();
        if !kind_matches(&token.kind, kind) {
            self.bag.report_unexpected_token(kind, &token);
        }
        token
    }

    /// The operator under the cursor, if the cursor stands on one; the
    /// cursor does not move.
    fn parse_binary_operator(&mut self) -> (r: Option<BinaryOperator>)
        requires
            old(self).wf(),
        ensures
            *final(self) == *old(self),
            match classify_op(tok_at(old(self).toks(), old(self).pos()).kind) {
                Some(k) => r matches Some(op) && op.kind == k && op.token@ == tok_at(
                    old(self).toks(),
                    old(self).pos(),
                ),
                None => r is None,
            },
    {
        let op_kind: Option<BinaryOperatorKind> = {
            let token = self.current();
            match &token.kind {
                TokenKind::Plus => Some(BinaryOperatorKind::Add),
                TokenKind::Minus => Some(BinaryOperatorKind::Subtract),
                TokenKind::Asterisk => Some(BinaryOperatorKind::Multiply),
                TokenKind::Slash => Some(BinaryOperatorKind::Divide),
                TokenKind::Mod => Some(BinaryOperatorKind::Mod),
                _ => None,
            }
        };
        match op_kind {
            Some(k) => {
                let t = clone_token(self.current());
                Some(BinaryOperator::new(k, t))
            },
            None => None,
        }
    }

    /// Parses one primary expression: a number, a parenthesized
    /// expression, or — after a report — an error placeholder carrying the
    /// span of the offending token, which has already been consumed.
    fn parse_primary_expression(&mut self) -> (r: Expression)
        requires
            old(self).wf(),
        ensures
            final(self).wf(),
            final(self).toks() == old(self).toks(),
            r@ == spec_parse_primary(old(self).toks(), old(self).pos()).0,
            final(self).pos() == spec_parse_primary(old(self).toks(), old(self).pos()).1,
            final(self).bag@ == old(self).bag@ + spec_parse_primary(
                old(self).toks(),
                old(self).pos(),
            ).2,
            !(r@ is Binary),
            prec_wf(r@),
            count_ee(final(self).bag@) == count_ee(old(self).bag@) + count_errors(r@),
            old(self).pos() <= final(self).pos() <= old(self).toks().len() - 1,
            old(self).pos() < old(self).toks().len() - 1 ==> final(self).pos() > old(self).pos(),
        decreases self.toks().len() - self.pos(), 0int,
    {
        let ghost toks0 = self.toks();
        let ghost p0 = self.pos();
        let ghost bag0 = self.bag@;
        let token = self.consume();
        match &token.kind {
            TokenKind::Number(n) => {
                let e = Expression::number(*n);
                proof {
                    assert(p0 < toks0.len() - 1);
                    assert(self.bag@ =~= bag0 + spec_parse_primary(toks0, p0).2);
                }
                e
            },
            TokenKind::LeftParen => {
                proof {
                    assert(p0 < toks0.len() - 1);
                }
                let expr = self.parse_expression();
                let ghost inner_m = expr@;
                let ghost bag_mid = self.bag@;
                let _closing = self.consume_and_check(&TokenKind::RightParen);
                let e = Expression::parenthesized(expr.kind);
                proof {
                    let (inner_s, pr_s, ds_s) = spec_parse_binary(toks0, p0 + 1, 0);
                    assert(clamp_pos(toks0, p0 + 1, pr_s) == pr_s);
                    let t2 = tok_at(toks0, pr_s);
                    if t2.kind is RightParen {
                        assert(self.bag@ =~= bag0 + ds_s);
                    } else {
                        assert(self.bag@ =~= bag0 + ds_s.push(ut_diag(KindModel::RightParen, t2)));
                        lemma_ut_msg_not_ee(KindModel::RightParen, t2.kind);
                        lemma_count_ee_push(bag_mid, ut_diag(KindModel::RightParen, t2));
                    }
                }
                e
            },
            _ => {
                self.bag.report_expected_expression(&token);
                let e = Expression::error(clone_span(&token.span));
                proof {
                    lemma_ee_msg_is_ee(token@.kind);
                    lemma_count_ee_push(bag0, ee_diag(token@));
                    assert(self.bag@ =~= bag0 + seq![ee_diag(token@)]);
                }
                e
            },
        }
    }

    /// Parses one expression.
    fn parse_expression(&mut self) -> (r: Expression)
        requires
            old(self).wf(),
        ensures
            final(self).wf(),
            final(self).toks() == old(self).toks(),
            r@ == spec_parse_binary(old(self).toks(), old(self).pos(), 0).0,
            final(self).pos() == spec_parse_binary(old(self).toks(), old(self).pos(), 0).1,
            final(self).bag@ == old(self).bag@ + spec_parse_binary(
                old(self).toks(),
                old(self).pos(),
                0,
            ).2,
            prec_wf(r@),
            count_ee(final(self).bag@) == count_ee(old(self).bag@) + count_errors(r@),
            old(self).pos() <= final(self).pos() <= old(self).toks().len() - 1,
            old(self).pos() < old(self).toks().len() - 1 ==> final(self).pos() > old(self).pos(),
        decreases self.toks().len() - self.pos(), 3int,
    {
        self.parse_binary_expression(0)
    }

    /// Parses a binary expression by precedence climbing: an operator that
    /// binds no more strongly than `precedence` is left for the caller.
    fn parse_binary_expression(&mut self, precedence: u8) -> (r: Expression)
        requires
            old(self).wf(),
        ensures
            final(self).wf(),
            final(self).toks() == old(self).toks(),
            r@ == spec_parse_binary(old(self).toks(), old(self).pos(), precedence as int).0,
            final(self).pos() == spec_parse_binary(
                old(self).toks(),
                old(self).pos(),
                precedence as int,
            ).1,
            final(self).bag@ == old(self).bag@ + spec_parse_binary(
                old(self).toks(),
                old(self).pos(),
                precedence as int,
            ).2,
            prec_wf(r@),
            r@ matches ExprModel::Binary(_, _, op) ==> prec_of(op.kind) > precedence as int,
            classify_op(tok_at(final(self).toks(), final(self).pos()).kind) matches Some(k)
                ==> prec_of(k) <= precedence as int,
            count_ee(final(self).bag@) == count_ee(old(self).bag@) + count_errors(r@),
            old(self).pos() <= final(self).pos() <= old(self).toks().len() - 1,
            old(self).pos() < old(self).toks().len() - 1 ==> final(self).pos() > old(self).pos(),
        decreases self.toks().len() - self.pos(), 2int,
    {
        let ghost toks0 = self.toks();
        let ghost p0 = self.pos();
        let ghost bag0 = self.bag@;
        let left = self.parse_primary_expression();
        proof {
            assert(clamp_pos(toks0, p0, self.pos()) == self.pos());
        }
        let ghost mid = self.pos();
        let ghost bag_mid = self.bag@;
        let r = self.parse_binary_loop(precedence, left);
        proof {
            let (left_s, pos2, ds) = spec_parse_primary(toks0, p0);
            let (e, pos3, ds2) = spec_parse_bin_loop(toks0, mid, precedence as int, left_s);
            assert(self.bag@ =~= bag0 + (ds + ds2));
            lemma_count_ee_add(bag0, ds);
            lemma_count_ee_add(bag_mid, ds2);
            lemma_count_ee_add(bag0, ds + ds2);
            lemma_count_ee_add(ds, ds2);
        }
        r
    }

    /// The climbing loop around `left`: while the cursor stands on an
    /// operator that binds more strongly than `precedence`, consume it,
    /// parse its right-hand side, and combine.
    fn parse_binary_loop(&mut self, precedence: u8, left: Expression) -> (r: Expression)
        requires
            old(self).wf(),
            prec_wf(left@),
            left@ matches ExprModel::Binary(_, _, lop) ==> prec_of(lop.kind) > precedence as int,
            left@ matches ExprModel::Binary(_, _, lop) ==> (classify_op(
                tok_at(old(self).toks(), old(self).pos()).kind,
            ) matches Some(k2) ==> prec_of(k2) <= prec_of(lop.kind)),
        ensures
            final(self).wf(),
            final(self).toks() == old(self).toks(),
            r@ == spec_parse_bin_loop(
                old(self).toks(),
                old(self).pos(),
                precedence as int,
                left@,
            ).0,
            final(self).pos() == spec_parse_bin_loop(
                old(self).toks(),
                old(self).pos(),
                precedence as int,
                left@,
            ).1,
            final(self).bag@ == old(self).bag@ + spec_parse_bin_loop(
                old(self).toks(),
                old(self).pos(),
                precedence as int,
                left@,
            ).2,
            prec_wf(r@),
            r@ matches ExprModel::Binary(_, _, op) ==> prec_of(op.kind) > precedence as int,
            classify_op(tok_at(final(self).toks(), final(self).pos()).kind) matches Some(k)
                ==> prec_of(k) <= precedence as int,
            count_ee(final(self).bag@) + count_errors(left@) == count_ee(old(self).bag@)
                + count_errors(r@),
            old(self).pos() <= final(self).pos() <= old(self).toks().len() - 1,
        decreases self.toks().len() - self.pos(), 1int,
    {
        let ghost toks0 = self.toks();
        let ghost p0 = self.pos();
        let ghost bag0 = self.bag@;
        let op_opt = self.parse_binary_operator();
        let operator = match op_opt {
            None => {
                proof {
                    assert(self.bag@ =~= bag0 + Seq::<DiagModel>::empty());
                }
                return left;
            },
            Some(operator) => operator,
        };
        let op_precedence = operator.precedence();
        if op_precedence <= precedence {
            proof {
                assert(self.bag@ =~= bag0 + Seq::<DiagModel>::empty());
            }
            return left;
        }
        proof {
            assert(!(tok_at(toks0, p0).kind is Eof));
            assert(p0 < toks0.len() - 1);
        }
        self.consume();
        let right = self.parse_binary_expression(op_precedence);
        let ghost opm = OpModel { kind: operator.kind, token: tok_at(toks0, p0) };
        let ghost bag_mid = self.bag@;
        proof {
            let (right_s, pr_s, ds2) = spec_parse_binary(toks0, p0 + 1, op_precedence as int);
            assert(clamp_pos(toks0, p0 + 1, pr_s) == pr_s);
        }
        let combined = Expression::binary(left, right, operator);
        let r = self.parse_binary_loop(precedence, combined);
        proof {
            let (right_s, pr_s, ds2) = spec_parse_binary(toks0, p0 + 1, op_precedence as int);
            let (e_s, pos3, ds3) = spec_parse_bin_loop(
                toks0,
                pr_s,
                precedence as int,
                ExprModel::Binary(Box::new(left@), Box::new(right_s), opm),
            );
            assert(self.bag@ =~= bag0 + (ds2 + ds3));
            lemma_count_ee_add(bag0, ds2);
            lemma_count_ee_add(bag_mid, ds3);
            lemma_count_ee_add(bag0, ds2 + ds3);
            lemma_count_ee_add(ds2, ds3);
        }
        r
    }

    fn parse_statement(&mut self) -> (r: Statement)
        requires
            old(self).wf(),
        ensures
            final(self).wf(),
            final(self).toks() == old(self).toks(),
            r@ == spec_parse_binary(old(self).toks(), old(self).pos(), 0).0,
            final(self).pos() == spec_parse_binary(old(self).toks(), old(self).pos(), 0).1,
            final(self).bag@ == old(self).bag@ + spec_parse_binary(
                old(self).toks(),
                old(self).pos(),
                0,
            ).2,
            prec_wf(r@),
            count_ee(final(self).bag@) == count_ee(old(self).bag@) + count_errors(r@),
            old(self).pos() <= final(self).pos() <= old(self).toks().len() - 1,
            old(self).pos() < old(self).toks().len() - 1 ==> final(self).pos() > old(self).pos(),
    {
        let expr = self.parse_expression();
        Statement::expression(expr)
    }

    /// The next statement, or nothing once the cursor stands on the
    /// end-of-file token. A statement always consumes at least one token,
    /// so the stream of statements is finite.
    pub fn next_statement(&mut self) -> (r: Option<Statement>)
        requires
            old(self).wf(),
        ensures
            final(self).wf(),
            final(self).toks() == old(self).toks(),
            tok_at(old(self).toks(), old(self).pos()).kind is Eof ==> r is None && *final(self)
                == *old(self),
            !(tok_at(old(self).toks(), old(self).pos()).kind is Eof) ==> {
                &&& r matches Some(st) && st@ == spec_parse_binary(
                    old(self).toks(),
                    old(self).pos(),
                    0,
                ).0
                &&& final(self).pos() == spec_parse_binary(old(self).toks(), old(self).pos(), 0).1
                &&& final(self).bag@ == old(self).bag@ + spec_parse_binary(
                    old(self).toks(),
                    old(self).pos(),
                    0,
                ).2
                &&& final(self).pos() > old(self).pos()
                &&& prec_wf(spec_parse_binary(old(self).toks(), old(self).pos(), 0).0)
                &&& count_ee(final(self).bag@) == count_ee(old(self).bag@) + count_errors(
                    spec_parse_binary(old(self).toks(), old(self).pos(), 0).0,
                )
            },
    {
        let at_eof = {
            let c = self.current();
            match &c.kind {
                TokenKind::Eof => true,
                _ => false,
            }
        };
        if at_eof {
            return None;
        }
        proof {
            assert(old(self).pos() < old(self).toks().len() - 1);
        }
        Some(self.parse_statement())
    }

    /// Parses statements up to the end-of-file token into a tree. The
    /// diagnostics stand in the bag afterwards, in the order they arose;
    /// the tree holds exactly one error placeholder for each
    /// expected-expression report among them.
    pub fn parse_ast(&mut self) -> (r: Ast)
        requires
            old(self).wf(),
        ensures
            final(self).wf(),
            final(self).toks() == old(self).toks(),
            r@ == spec_parse_program(old(self).toks(), old(self).pos()).0,
            final(self).bag@ == old(self).bag@ + spec_parse_program(
                old(self).toks(),
                old(self).pos(),
            ).1,
            prec_wf_all(r@),
            count_ee(final(self).bag@) == count_ee(old(self).bag@) + count_errors_all(r@),
            tok_at(final(self).toks(), final(self).pos()).kind is Eof,
    {
        let ghost toks0 = self.toks();
        let ghost p0 = self.pos();
        let ghost bag0 = self.bag@;
        let ghost target = spec_parse_program(toks0, p0);
        let mut ast = Ast::new();
        let ghost mut delta: Seq<DiagModel> = Seq::empty();
        proof {
            assert(bag0 + delta =~= bag0);
            assert(ast@ + target.0 =~= target.0);
            assert(delta + target.1 =~= target.1);
        }
        loop
            invariant
                self.wf(),
                self.toks() == toks0,
                self.bag@ == bag0 + delta,
                count_ee(self.bag@) == count_ee(bag0) + count_errors_all(ast@),
                prec_wf_all(ast@),
                target.0 == ast@ + spec_parse_program(toks0, self.pos()).0,
                target.1 == delta + spec_parse_program(toks0, self.pos()).1,
            ensures
                self.wf(),
                self.toks() == toks0,
                self.bag@ == bag0 + delta,
                count_ee(self.bag@) == count_ee(bag0) + count_errors_all(ast@),
                prec_wf_all(ast@),
                target.0 == ast@,
                target.1 == delta,
                tok_at(toks0, self.pos()).kind is Eof,
            decreases toks0.len() - self.pos(),
        {
            let ghost pos_pre = self.pos();
            let ghost ast_pre = ast@;
            let ghost delta_pre = delta;
            match self.next_statement() {
                None => {
                    proof {
                        assert(target.0 =~= ast@);
                        assert(target.1 =~= delta);
                    }
                    break;
                },
                Some(statement) => {
                    let ghost st_m = statement@;
                    proof {
                        let (e, p2, ds) = spec_parse_binary(toks0, pos_pre, 0);
                        assert(clamp_pos(toks0, pos_pre + 1, p2) == p2);
                        delta = delta_pre + ds;
                        assert(self.bag@ =~= bag0 + delta);
                        lemma_count_ee_add(bag0, delta_pre);
                        lemma_count_ee_add(bag0 + delta_pre, ds);
                        lemma_count_ee_add(bag0, delta);
                        lemma_count_ee_add(delta_pre, ds);
                    }
                    ast.add_statement(statement);
                    proof {
                        let (e, p2, ds) = spec_parse_binary(toks0, pos_pre, 0);
                        let rest = spec_parse_program(toks0, self.pos());
                        assert(ast@.drop_last() =~= ast_pre);
                        assert(count_errors_all(ast@) == count_errors_all(ast_pre)
                            + count_errors(st_m));
                        assert forall|i: int| 0 <= i < ast@.len() implies prec_wf(
                            #[trigger] ast@[i],
                        ) by {
                            if i < ast_pre.len() {
                                assert(ast@[i] == ast_pre[i]);
                            }
                        }
                        assert(spec_parse_program(toks0, pos_pre).0 =~= seq![e] + rest.0);
                        assert(spec_parse_program(toks0, pos_pre).1 =~= ds + rest.1);
                        assert(target.0 =~= ast@ + rest.0);
                        assert(target.1 =~= delta + rest.1);
                    }
                },
            }
        }
        ast
    }
}

} // verus!
