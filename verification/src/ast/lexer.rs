use vstd::prelude::*;

verus! {

// ---------------------------------------------------------------------------
// Token data
// ---------------------------------------------------------------------------

#[derive(Debug, PartialEq, Eq, Clone)]
pub enum TokenKind {
    Number(i64),
    Plus,
    Minus,
    Asterisk,
    Slash,
    LeftParen,
    RightParen,
    Bad,
    Mod,
    Whitespace,
    Let,
    Identifier(String),
    Equals,
    Eof,
}

#[derive(Debug, PartialEq, Eq, Clone)]
pub struct TextSpan {
    pub literal: String,
    pub start: usize,
    pub end: usize,
}

#[derive(Debug, PartialEq, Eq, Clone)]
pub struct Token {
    pub kind: TokenKind,
    pub span: TextSpan,
}

/// The mathematical image of a token kind: identifiers carry their
/// character sequence.
pub enum KindModel {
    Number(i64),
    Plus,
    Minus,
    Asterisk,
    Slash,
    LeftParen,
    RightParen,
    Bad,
    Mod,
    Whitespace,
    Let,
    Identifier(Seq<char>),
    Equals,
    Eof,
}

/// The mathematical image of a text span.
pub struct SpanModel {
    pub literal: Seq<char>,
    pub start: int,
    pub end: int,
}

/// The mathematical image of a token.
pub struct TokenModel {
    pub kind: KindModel,
    pub span: SpanModel,
}

impl View for TokenKind {
    type V = KindModel;

    open spec fn view(&self) -> KindModel {
        match self {
            TokenKind::Number(n) => KindModel::Number(*n),
            TokenKind::Plus => KindModel::Plus,
            TokenKind::Minus => KindModel::Minus,
            TokenKind::Asterisk => KindModel::Asterisk,
            TokenKind::Slash => KindModel::Slash,
            TokenKind::LeftParen => KindModel::LeftParen,
            TokenKind::RightParen => KindModel::RightParen,
            TokenKind::Bad => KindModel::Bad,
            TokenKind::Mod => KindModel::Mod,
            TokenKind::Whitespace => KindModel::Whitespace,
            TokenKind::Let => KindModel::Let,
            TokenKind::Identifier(s) => KindModel::Identifier(s@),
            TokenKind::Equals => KindModel::Equals,
            TokenKind::Eof => KindModel::Eof,
        }
    }
}

impl View for TextSpan {
    type V = SpanModel;

    open spec fn view(&self) -> SpanModel {
        SpanModel { literal: self.literal@, start: self.start as int, end: self.end as int }
    }
}

impl View for Token {
    type V = TokenModel;

    open spec fn view(&self) -> TokenModel {
        TokenModel { kind: self.kind@, span: self.span@ }
    }
}

impl TextSpan {
    pub fn new(start: usize, end: usize, literal: String) -> (r: Self)
        ensures
            r.start == start,
            r.end == end,
            r.literal == literal,
    {
        TextSpan { literal, start, end }
    }

    pub fn length(&self) -> (r: usize)
        requires
            self.start <= self.end,
        ensures
            r == self.end - self.start,
    {
        self.end - self.start
    }
}

impl Token {
    pub fn new(kind: TokenKind, span: TextSpan) -> (r: Self)
        ensures
            r.kind == kind,
            r.span == span,
    {
        Token { kind, span }
    }
}

// ---------------------------------------------------------------------------
// Character classes
// ---------------------------------------------------------------------------

/// Whether a character has the Unicode White_Space property.
pub uninterp spec fn is_unicode_whitespace(c: char) -> bool;

/// Whether a character has the Unicode Alphabetic property.
pub uninterp spec fn is_unicode_alphabetic(c: char) -> bool;

/// Relies on char::is_whitespace: the result depends on the character
/// alone (the Unicode White_Space property).
#[verifier::external_body]
fn char_is_whitespace(c: char) -> (r: bool)
    ensures
        r == is_unicode_whitespace(c),
{
    c.is_whitespace()
}

/// Relies on char::is_alphabetic: the result depends on the character
/// alone (the Unicode Alphabetic property).
#[verifier::external_body]
fn char_is_alphabetic(c: char) -> (r: bool)
    ensures
        r == is_unicode_alphabetic(c),
{
    c.is_alphabetic()
}

pub open spec fn is_digit_char(c: char) -> bool {
    48 <= c as u32 <= 57
}

pub open spec fn digit_val(c: char) -> nat {
    (c as u32 - 48) as nat
}

// ---------------------------------------------------------------------------
// The lexing function, mathematically
// ---------------------------------------------------------------------------

/// The end of the maximal run of ASCII digits starting at `p`.
pub open spec fn scan_digits(s: Seq<char>, p: int) -> int
    decreases s.len() - p,
{
    if !(0 <= p < s.len()) {
        s.len() as int
    } else if !is_digit_char(s[p]) {
        p
    } else {
        scan_digits(s, p + 1)
    }
}

/// The end of the maximal run of alphabetic characters starting at `p`.
pub open spec fn scan_alpha(s: Seq<char>, p: int) -> int
    decreases s.len() - p,
{
    if !(0 <= p < s.len()) {
        s.len() as int
    } else if !is_unicode_alphabetic(s[p]) {
        p
    } else {
        scan_alpha(s, p + 1)
    }
}

/// The value of the digit run `s[from..to]`, read in decimal.
pub open spec fn digits_val(s: Seq<char>, from: int, to: int) -> nat
    decreases to - from,
{
    if to <= from {
        0
    } else {
        digits_val(s, from, to - 1) * 10 + digit_val(s[to - 1])
    }
}

/// The token kind of a single punctuation character.
pub open spec fn punct_kind(c: char) -> KindModel {
    match c {
        '+' => KindModel::Plus,
        '-' => KindModel::Minus,
        '*' => KindModel::Asterisk,
        '/' => KindModel::Slash,
        '(' => KindModel::LeftParen,
        ')' => KindModel::RightParen,
        '%' => KindModel::Mod,
        '=' => KindModel::Equals,
        _ => KindModel::Bad,
    }
}

pub open spec fn let_chars() -> Seq<char> {
    seq!['l', 'e', 't']
}

/// The kind of the token starting at position `p`. A digit run whose value
/// exceeds i64::MAX yields a Bad token covering the run.
pub open spec fn lex_kind(s: Seq<char>, p: int) -> KindModel
    recommends
        0 <= p < s.len(),
{
    let c = s[p];
    if is_digit_char(c) {
        let v = digits_val(s, p, scan_digits(s, p));
        if v <= i64::MAX as nat {
            KindModel::Number(v as i64)
        } else {
            KindModel::Bad
        }
    } else if is_unicode_whitespace(c) {
        KindModel::Whitespace
    } else if is_unicode_alphabetic(c) {
        let run = s.subrange(p, scan_alpha(s, p));
        if run == let_chars() {
            KindModel::Let
        } else {
            KindModel::Identifier(run)
        }
    } else {
        punct_kind(c)
    }
}

/// The position right after the token starting at position `p`.
pub open spec fn lex_next(s: Seq<char>, p: int) -> int {
    if p >= s.len() {
        p + 1
    } else if is_digit_char(s[p]) {
        scan_digits(s, p)
    } else if is_unicode_whitespace(s[p]) {
        p + 1
    } else if is_unicode_alphabetic(s[p]) {
        scan_alpha(s, p)
    } else {
        p + 1
    }
}

/// The token starting at position `p`; at or past the end of the text, the
/// end-of-file sentinel with span `[0, 0)` and a NUL literal.
pub open spec fn lex_tok(s: Seq<char>, p: int) -> TokenModel {
    if p >= s.len() {
        TokenModel {
            kind: KindModel::Eof,
            span: SpanModel { literal: seq!['\u{0}'], start: 0, end: 0 },
        }
    } else {
        TokenModel {
            kind: lex_kind(s, p),
            span: SpanModel {
                literal: s.subrange(p, lex_next(s, p)),
                start: p,
                end: lex_next(s, p),
            },
        }
    }
}

pub proof fn lemma_scan_digits(s: Seq<char>, p: int)
    requires
        0 <= p <= s.len(),
    ensures
        p <= scan_digits(s, p) <= s.len(),
        forall|k: int| p <= k < scan_digits(s, p) ==> is_digit_char(s[k]),
        scan_digits(s, p) < s.len() ==> !is_digit_char(s[scan_digits(s, p)]),
    decreases s.len() - p,
{
    if p < s.len() && is_digit_char(s[p]) {
        lemma_scan_digits(s, p + 1);
    }
}

pub proof fn lemma_scan_alpha(s: Seq<char>, p: int)
    requires
        0 <= p <= s.len(),
    ensures
        p <= scan_alpha(s, p) <= s.len(),
        forall|k: int| p <= k < scan_alpha(s, p) ==> is_unicode_alphabetic(s[k]),
        scan_alpha(s, p) < s.len() ==> !is_unicode_alphabetic(s[scan_alpha(s, p)]),
    decreases s.len() - p,
{
    if p < s.len() && is_unicode_alphabetic(s[p]) {
        lemma_scan_alpha(s, p + 1);
    }
}

/// Each token consumes at least one character and stops at the text's end.
pub proof fn lemma_lex_next(s: Seq<char>, p: int)
    requires
        0 <= p <= s.len(),
    ensures
        p < s.len() ==> p + 1 <= lex_next(s, p) <= s.len(),
        p == s.len() ==> lex_next(s, p) == p + 1,
{
    if p < s.len() {
        lemma_scan_digits(s, p);
        lemma_scan_alpha(s, p);
    }
}

/// The whole token sequence from position `p` on: the tokens of the text,
/// then exactly one end-of-file sentinel.
pub open spec fn lex_all(s: Seq<char>, p: int) -> Seq<TokenModel>
    decreases s.len() - p + 1,
        via lex_all_dec
{
    if p >= s.len() {
        seq![lex_tok(s, p)]
    } else {
        seq![lex_tok(s, p)] + lex_all(s, lex_next(s, p))
    }
}

#[via_fn]
proof fn lex_all_dec(s: Seq<char>, p: int) {
    if p < s.len() {
        if 0 <= p {
            lemma_lex_next(s, p);
        }
    }
}

// ---------------------------------------------------------------------------
// The lexer
// ---------------------------------------------------------------------------

pub struct Lexer<'a> {
    input: &'a str,
    length: usize,
    current_pos: usize,
    emitted_eof: bool,
}

impl<'a> Lexer<'a> {
    pub closed spec fn spec_input(&self) -> Seq<char> {
        self.input@
    }

    pub closed spec fn pos(&self) -> int {
        self.current_pos as int + if self.emitted_eof {
            1int
        } else {
            0int
        }
    }

    pub closed spec fn wf(&self) -> bool {
        &&& self.length == self.input@.len()
        &&& self.current_pos <= self.length
        &&& (self.emitted_eof ==> self.current_pos == self.length)
    }

    pub fn new(input: &'a str) -> (r: Self)
        ensures
            r.wf(),
            r.spec_input() == input@,
            r.pos() == 0,
    {
        let length = input.unicode_len();
        Lexer { input, length, current_pos: 0, emitted_eof: false }
    }

    fn current_char(&self) -> (r: Option<char>)
        requires
            self.wf(),
        ensures
            self.pos() < self.spec_input().len() ==> r == Some(
                self.spec_input()[self.pos()],
            ),
            self.pos() >= self.spec_input().len() ==> r is None,
    {
        if self.current_pos < self.length {
            Some(self.input.get_char(self.current_pos))
        } else {
            None
        }
    }

    fn consume(&mut self) -> (r: Option<char>)
        requires
            old(self).wf(),
        ensures
            final(self).wf(),
            final(self).spec_input() == old(self).spec_input(),
            old(self).pos() < old(self).spec_input().len() ==> {
                &&& r == Some(old(self).spec_input()[old(self).pos()])
                &&& final(self).pos() == old(self).pos() + 1
            },
            old(self).pos() >= old(self).spec_input().len() ==> {
                &&& r is None
                &&& final(self).pos() == old(self).pos()
            },
    {
        if self.current_pos >= self.length {
            return None;
        }
        let c = self.input.get_char(self.current_pos);
        self.current_pos = self.current_pos + 1;
        Some(c)
    }

    /// Consumes the maximal digit run; the value accumulates with checked
    /// arithmetic and a run past i64::MAX comes back as None.
    fn consume_number(&mut self) -> (r: Option<i64>)
        requires
            old(self).wf(),
            old(self).pos() < old(self).spec_input().len(),
            is_digit_char(old(self).spec_input()[old(self).pos()]),
        ensures
            final(self).wf(),
            final(self).spec_input() == old(self).spec_input(),
            final(self).pos() == scan_digits(old(self).spec_input(), old(self).pos()),
            ({
                let v = digits_val(
                    old(self).spec_input(),
                    old(self).pos(),
                    final(self).pos(),
                );
                if v <= i64::MAX as nat {
                    r == Some(v as i64)
                } else {
                    r is None
                }
            }),
    {
        let ghost s = self.spec_input();
        let ghost start = self.pos();
        proof {
            lemma_scan_digits(s, start);
        }
        let mut acc: Option<i64> = Some(0);
        loop
            invariant
                self.wf(),
                self.spec_input() == s,
                start <= self.pos() <= s.len(),
                scan_digits(s, start) == scan_digits(s, self.pos()),
                forall|k: int| start <= k < self.pos() ==> is_digit_char(s[k]),
                match acc {
                    Some(v) => v == digits_val(s, start, self.pos()) && v >= 0,
                    None => digits_val(s, start, self.pos()) > i64::MAX as nat,
                },
            ensures
                self.wf(),
                self.spec_input() == s,
                self.pos() == scan_digits(s, start),
                match acc {
                    Some(v) => v == digits_val(s, start, self.pos()) && v >= 0,
                    None => digits_val(s, start, self.pos()) > i64::MAX as nat,
                },
            decreases s.len() - self.pos(),
        {
            let c = match self.current_char() {
                Some(c) => c,
                None => {
                    break;
                },
            };
            let cu = c as u32;
            if !(48 <= cu && cu <= 57) {
                break;
            }
            let ghost before = self.pos();
            proof {
                assert(c == s[before]);
                assert(is_digit_char(s[before]));
            }
            self.consume();
            let d = (cu - 48) as u64;
            proof {
                assert(scan_digits(s, before) == scan_digits(s, before + 1));
                assert(d as int == digit_val(s[before]) as int);
                assert(digits_val(s, start, before + 1) == digits_val(s, start, before) * 10
                    + digit_val(s[before]));
            }
            acc = match acc {
                Some(v) => {
                    match v.checked_mul(10) {
                        Some(m) => m.checked_add(d as i64),
                        None => None,
                    }
                },
                None => None,
            };
            proof {
                let v0 = digits_val(s, start, before);
                if v0 > i64::MAX as nat {
                    assert(digits_val(s, start, before + 1) >= v0 * 10) by (nonlinear_arith)
                        requires
                            digits_val(s, start, before + 1) == v0 * 10 + digit_val(s[before]),
                            v0 >= 0,
                    ;
                    assert(v0 * 10 >= v0) by (nonlinear_arith)
                        requires
                            v0 >= 0,
                    ;
                }
            }
        }
        acc
    }

    /// Consumes one punctuation character, or one unrecognized character as
    /// a Bad token.
    fn consume_punctuation(&mut self) -> (r: TokenKind)
        requires
            old(self).wf(),
            old(self).pos() < old(self).spec_input().len(),
        ensures
            final(self).wf(),
            final(self).spec_input() == old(self).spec_input(),
            final(self).pos() == old(self).pos() + 1,
            r@ == punct_kind(old(self).spec_input()[old(self).pos()]),
    {
        let c = match self.consume() {
            Some(c) => c,
            None => {
                proof {
                    assert(false);
                }
                return TokenKind::Bad;
            },
        };
        match c {
            '+' => TokenKind::Plus,
            '-' => TokenKind::Minus,
            '*' => TokenKind::Asterisk,
            '/' => TokenKind::Slash,
            '(' => TokenKind::LeftParen,
            ')' => TokenKind::RightParen,
            '%' => TokenKind::Mod,
            '=' => TokenKind::Equals,
            _ => TokenKind::Bad,
        }
    }

    /// Consumes the maximal alphabetic run and returns it.
    fn consume_identifier(&mut self) -> (r: String)
        requires
            old(self).wf(),
            old(self).pos() < old(self).spec_input().len(),
            is_unicode_alphabetic(old(self).spec_input()[old(self).pos()]),
        ensures
            final(self).wf(),
            final(self).spec_input() == old(self).spec_input(),
            final(self).pos() == scan_alpha(old(self).spec_input(), old(self).pos()),
            r@ == old(self).spec_input().subrange(old(self).pos(), final(self).pos()),
    {
        let ghost s = self.spec_input();
        let start = self.current_pos;
        proof {
            lemma_scan_alpha(s, start as int);
        }
        loop
            invariant
                self.wf(),
                self.spec_input() == s,
                start <= self.pos() <= s.len(),
                scan_alpha(s, start as int) == scan_alpha(s, self.pos()),
            ensures
                self.wf(),
                self.spec_input() == s,
                self.pos() == scan_alpha(s, start as int),
            decreases s.len() - self.pos(),
        {
            let c = match self.current_char() {
                Some(c) => c,
                None => {
                    break;
                },
            };
            if !char_is_alphabetic(c) {
                break;
            }
            self.consume();
        }
        let lexeme = self.input.substring_char(start, self.current_pos);
        lexeme.to_owned()
    }

    /// Produces the next token, or signals that the end-of-file sentinel
    /// has already been emitted.
    pub fn next_token(&mut self) -> (r: Option<Token>)
        requires
            old(self).wf(),
        ensures
            final(self).wf(),
            final(self).spec_input() == old(self).spec_input(),
            old(self).pos() > old(self).spec_input().len() ==> {
                &&& r is None
                &&& final(self).pos() == old(self).pos()
            },
            old(self).pos() <= old(self).spec_input().len() ==> {
                &&& final(self).pos() == lex_next(old(self).spec_input(), old(self).pos())
                &&& r matches Some(t) && t@ == lex_tok(
                    old(self).spec_input(),
                    old(self).pos(),
                )
            },
    {
        let ghost s = self.spec_input();
        let ghost p = self.pos();
        if self.emitted_eof {
            return None;
        }
        if self.current_pos == self.length {
            self.emitted_eof = true;
            let literal = "\u{0}".to_owned();
            proof {
                reveal_strlit("\u{0}");
                assert(literal@ =~= seq!['\u{0}']);
            }
            return Some(Token::new(TokenKind::Eof, TextSpan::new(0, 0, literal)));
        }
        let start = self.current_pos;
        let c = self.input.get_char(start);
        let cu = c as u32;
        proof {
            assert(c == s[p]);
        }
        let kind: TokenKind = if 48 <= cu && cu <= 57 {
            match self.consume_number() {
                Some(n) => TokenKind::Number(n),
                None => TokenKind::Bad,
            }
        } else if char_is_whitespace(c) {
            self.consume();
            TokenKind::Whitespace
        } else if char_is_alphabetic(c) {
            let identifier = self.consume_identifier();
            if is_let_lexeme(&identifier) {
                TokenKind::Let
            } else {
                TokenKind::Identifier(identifier)
            }
        } else {
            self.consume_punctuation()
        };
        let end = self.current_pos;
        proof {
            lemma_lex_next(s, p);
            assert(end == lex_next(s, p));
        }
        let literal = self.input.substring_char(start, end).to_owned();
        let span = TextSpan::new(start, end, literal);
        Some(Token::new(kind, span))
    }
}

/// Whether a lexeme is exactly the keyword `let`.
fn is_let_lexeme(s: &str) -> (r: bool)
    ensures
        r == (s@ == let_chars()),
{
    if s.unicode_len() == 3 {
        let r = s.get_char(0) == 'l' && s.get_char(1) == 'e' && s.get_char(2) == 't';
        proof {
            if r {
                assert(s@ =~= let_chars());
            }
        }
        r
    } else {
        false
    }
}

/// The views of a sequence of tokens.
pub open spec fn tokens_view(ts: Seq<Token>) -> Seq<TokenModel> {
    Seq::new(ts.len(), |i: int| ts[i]@)
}

/// Runs the lexer over the whole input: all tokens, whitespace included,
/// ending with the end-of-file sentinel.
pub fn tokenize(input: &str) -> (r: Vec<Token>)
    ensures
        tokens_view(r@) == lex_all(input@, 0),
{
    let ghost s = input@;
    let mut lx = Lexer::new(input);
    let mut out: Vec<Token> = Vec::new();
    proof {
        assert(tokens_view(out@) =~= Seq::<TokenModel>::empty());
    }
    loop
        invariant
            lx.wf(),
            lx.spec_input() == s,
            0 <= lx.pos() <= s.len() + 1,
            lx.pos() <= s.len() ==> lex_all(s, 0) == tokens_view(out@) + lex_all(s, lx.pos()),
            lx.pos() == s.len() + 1 ==> lex_all(s, 0) == tokens_view(out@),
        ensures
            lex_all(s, 0) == tokens_view(out@),
        decreases s.len() + 2 - lx.pos(),
    {
        let ghost p = lx.pos();
        match lx.next_token() {
            None => {
                break;
            },
            Some(t) => {
                proof {
                    lemma_lex_next(s, p);
                }
                let ghost prev = out@;
                out.push(t);
                proof {
                    assert(tokens_view(out@) =~= tokens_view(prev) + seq![t@]);
                    if p < s.len() {
                        assert(lex_all(s, p) == seq![lex_tok(s, p)] + lex_all(s, lex_next(s, p)));
                        assert(tokens_view(out@) + lex_all(s, lx.pos()) =~= tokens_view(prev)
                            + lex_all(s, p));
                    } else {
                        assert(lex_all(s, p) =~= seq![lex_tok(s, p)]);
                        assert(tokens_view(out@) =~= tokens_view(prev) + lex_all(s, p));
                    }
                }
            },
        }
    }
    out
}

// ---------------------------------------------------------------------------
// Laws of the token sequence
// ---------------------------------------------------------------------------

/// Shape of the token sequence from `p` on: it ends in the end-of-file
/// sentinel and in it alone; every other token covers a non-empty range of
/// the text, carries that range as its literal, the ranges are adjacent,
/// begin at `p` and reach the text's end.
pub proof fn lemma_lex_all_shape(s: Seq<char>, p: int)
    requires
        0 <= p <= s.len(),
    ensures
        lex_all(s, p).len() >= 1,
        lex_all(s, p).last().kind is Eof,
        forall|i: int|
            0 <= i < lex_all(s, p).len() - 1 ==> !((#[trigger] lex_all(s, p)[i]).kind is Eof),
        forall|i: int|
            0 <= i < lex_all(s, p).len() - 1 ==> {
                let t = #[trigger] lex_all(s, p)[i];
                &&& p <= t.span.start < t.span.end <= s.len()
                &&& t.span.literal == s.subrange(t.span.start, t.span.end)
            },
        lex_all(s, p).len() >= 2 ==> lex_all(s, p)[0].span.start == p,
        lex_all(s, p).len() >= 2 ==> lex_all(s, p)[lex_all(s, p).len() - 2].span.end == s.len(),
        forall|i: int|
            0 <= i < lex_all(s, p).len() - 2 ==> (#[trigger] lex_all(s, p)[i]).span.end == lex_all(
                s,
                p,
            )[i + 1].span.start,
    decreases s.len() - p,
{
    if p == s.len() {
    } else {
        lemma_lex_next(s, p);
        let q = lex_next(s, p);
        lemma_lex_all_shape(s, q);
        let toks = lex_all(s, p);
        let rest = lex_all(s, q);
        assert(toks == seq![lex_tok(s, p)] + rest);
        assert forall|i: int| 0 <= i < toks.len() - 1 implies {
            let t = #[trigger] toks[i];
            &&& p <= t.span.start < t.span.end <= s.len()
            &&& t.span.literal == s.subrange(t.span.start, t.span.end)
        } by {
            if i == 0 {
                assert(toks[0] == lex_tok(s, p));
            } else {
                assert(toks[i] == rest[i - 1]);
            }
        }
        assert forall|i: int| 0 <= i < toks.len() - 2 implies (#[trigger] toks[i]).span.end
            == toks[i + 1].span.start by {
            if i == 0 {
                if rest.len() >= 2 {
                    assert(toks[1] == rest[0]);
                } else {
                    assert(false);
                }
            } else {
                assert(toks[i] == rest[i - 1]);
                assert(toks[i + 1] == rest[i]);
            }
        }
        if toks.len() >= 2 {
            if rest.len() >= 2 {
                assert(toks[toks.len() - 2] == rest[rest.len() - 2]);
            } else {
                assert(toks[toks.len() - 2] == lex_tok(s, p));
                assert(q == s.len());
            }
        }
    }
}

/// The literals of a token sequence, concatenated in order.
pub open spec fn cat_literals(toks: Seq<TokenModel>) -> Seq<char>
    decreases toks.len(),
{
    if toks.len() == 0 {
        Seq::empty()
    } else {
        toks[0].span.literal + cat_literals(toks.drop_first())
    }
}

proof fn lemma_cat_literals_step(toks: Seq<TokenModel>)
    requires
        toks.len() >= 1,
    ensures
        cat_literals(toks) == toks[0].span.literal + cat_literals(toks.drop_first()),
{
}

/// Law: concatenating the literals of all tokens before the end-of-file
/// sentinel, in emission order and whitespace included, reproduces the
/// part of the text they were read from.
pub proof fn lemma_lexer_round_trip_from(s: Seq<char>, p: int)
    requires
        0 <= p <= s.len(),
    ensures
        cat_literals(lex_all(s, p).drop_last()) == s.subrange(p, s.len() as int),
    decreases s.len() - p,
{
    if p == s.len() {
        assert(lex_all(s, p).drop_last() =~= Seq::<TokenModel>::empty());
        assert(cat_literals(lex_all(s, p).drop_last()) =~= s.subrange(p, s.len() as int));
    } else {
        lemma_lex_next(s, p);
        let q = lex_next(s, p);
        lemma_lexer_round_trip_from(s, q);
        let toks = lex_all(s, p);
        let rest = lex_all(s, q);
        assert(toks == seq![lex_tok(s, p)] + rest);
        lemma_lex_all_shape(s, q);
        assert(toks.drop_last() =~= seq![lex_tok(s, p)] + rest.drop_last());
        lemma_cat_literals_step(seq![lex_tok(s, p)] + rest.drop_last());
        assert((seq![lex_tok(s, p)] + rest.drop_last()).drop_first() =~= rest.drop_last());
        assert(cat_literals(toks.drop_last()) == s.subrange(p, q) + s.subrange(
            q,
            s.len() as int,
        ));
        assert(s.subrange(p, q) + s.subrange(q, s.len() as int) =~= s.subrange(
            p,
            s.len() as int,
        ));
    }
}

/// Law: the token literals of a whole text, concatenated in emission order
/// up to the end-of-file sentinel, reproduce the text.
pub proof fn lemma_lexer_round_trip(s: Seq<char>)
    ensures
        cat_literals(lex_all(s, 0).drop_last()) == s,
{
    lemma_lexer_round_trip_from(s, 0);
    assert(s.subrange(0, s.len() as int) =~= s);
}

/// Law: the emitted sequence contains exactly one end-of-file token, and
/// it is the last element.
pub proof fn lemma_lexer_termination(s: Seq<char>)
    ensures
        lex_all(s, 0).len() >= 1,
        lex_all(s, 0).last().kind is Eof,
        forall|i: int|
            0 <= i < lex_all(s, 0).len() - 1 ==> !((#[trigger] lex_all(s, 0)[i]).kind is Eof),
{
    lemma_lex_all_shape(s, 0);
}

/// Law: of two consecutive tokens before the end-of-file sentinel, the
/// first ends no later than the second starts. (The sentinel itself
/// carries the synthetic span `[0, 0)` and stands outside this order.)
pub proof fn lemma_span_monotonic(s: Seq<char>, i: int)
    requires
        0 <= i < lex_all(s, 0).len() - 2,
    ensures
        lex_all(s, 0)[i].span.end <= lex_all(s, 0)[i + 1].span.start,
{
    lemma_lex_all_shape(s, 0);
}

} // verus!
