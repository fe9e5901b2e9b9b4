use vstd::prelude::*;

use crate::ast::lexer::{SpanModel, TextSpan, Token, TokenModel};
use crate::colors::{fg_cyan, fg_cyan_seq, fg_reset, fg_reset_seq, fg_white, fg_white_seq};
use crate::strings::{i64_dec_str, i64_to_string, push_char};

verus! {

// ---------------------------------------------------------------------------
// Statements and expressions
// ---------------------------------------------------------------------------

#[derive(Debug)]
pub enum StatementKind {
    Expression(Expression),
}

#[derive(Debug)]
pub struct Statement {
    pub kind: StatementKind,
}

#[derive(Debug, PartialEq, Eq)]
pub enum ExpressionKind {
    Number(NumberExpression),
    Binary(BinaryExpression),
    Parenthesized(ParenthesizedExpression),
    Error(TextSpan),
}

#[derive(Debug, PartialEq, Eq)]
pub struct NumberExpression {
    pub number: i64,
}

#[derive(Debug, PartialEq, Eq)]
pub struct ParenthesizedExpression {
    pub expression: Box<Expression>,
}

#[derive(Debug, PartialEq, Eq)]
pub struct BinaryExpression {
    pub left: Box<Expression>,
    pub right: Box<Expression>,
    pub operator: BinaryOperator,
}

#[derive(Debug, PartialEq, Eq, Clone, Copy, Structural)]
pub enum BinaryOperatorKind {
    Add,
    Subtract,
    Multiply,
    Divide,
    Mod,
}

#[derive(Debug, PartialEq, Eq, Clone)]
pub struct BinaryOperator {
    pub kind: BinaryOperatorKind,
    pub token: Token,
}

#[derive(Debug, PartialEq, Eq)]
pub struct Expression {
    pub kind: ExpressionKind,
}

#[derive(Default, Debug)]
pub struct Ast {
    pub statements: Vec<Statement>,
}

// ---------------------------------------------------------------------------
// The mathematical image of the syntax tree
// ---------------------------------------------------------------------------

/// The mathematical image of a binary operator.
pub struct OpModel {
    pub kind: BinaryOperatorKind,
    pub token: TokenModel,
}

/// The mathematical image of an expression.
pub enum ExprModel {
    Number(i64),
    Binary(Box<ExprModel>, Box<ExprModel>, OpModel),
    Parenthesized(Box<ExprModel>),
    Error(SpanModel),
}

pub open spec fn expr_view(e: Expression) -> ExprModel
    decreases e,
{
    match e.kind {
        ExpressionKind::Number(n) => ExprModel::Number(n.number),
        ExpressionKind::Binary(b) => ExprModel::Binary(
            Box::new(expr_view(*b.left)),
            Box::new(expr_view(*b.right)),
            OpModel { kind: b.operator.kind, token: b.operator.token@ },
        ),
        ExpressionKind::Parenthesized(p) => ExprModel::Parenthesized(
            Box::new(expr_view(*p.expression)),
        ),
        ExpressionKind::Error(span) => ExprModel::Error(span@),
    }
}

impl View for Expression {
    type V = ExprModel;

    open spec fn view(&self) -> ExprModel {
        expr_view(*self)
    }
}

impl View for Statement {
    type V = ExprModel;

    open spec fn view(&self) -> ExprModel {
        match self.kind {
            StatementKind::Expression(e) => expr_view(e),
        }
    }
}

impl View for Ast {
    type V = Seq<ExprModel>;

    open spec fn view(&self) -> Seq<ExprModel> {
        Seq::new(self.statements@.len(), |i: int| self.statements@[i]@)
    }
}

/// The precedence of an operator: addition, subtraction and remainder bind
/// weakest; multiplication and division bind strongest.
pub open spec fn prec_of(k: BinaryOperatorKind) -> int {
    match k {
        BinaryOperatorKind::Add => 1,
        BinaryOperatorKind::Subtract => 1,
        BinaryOperatorKind::Mod => 1,
        BinaryOperatorKind::Multiply => 2,
        BinaryOperatorKind::Divide => 2,
    }
}

/// The number of error placeholder nodes in an expression.
pub open spec fn count_errors(e: ExprModel) -> nat
    decreases e,
{
    match e {
        ExprModel::Number(_) => 0,
        ExprModel::Binary(l, r, _) => count_errors(*l) + count_errors(*r),
        ExprModel::Parenthesized(inner) => count_errors(*inner),
        ExprModel::Error(_) => 1,
    }
}

/// The number of error placeholder nodes over a whole statement sequence.
pub open spec fn count_errors_all(stmts: Seq<ExprModel>) -> nat
    decreases stmts.len(),
{
    if stmts.len() == 0 {
        0
    } else {
        count_errors_all(stmts.drop_last()) + count_errors(stmts.last())
    }
}

/// Whether every binary node binds at least as strongly as the node above
/// it: the shape precedence climbing guarantees.
pub open spec fn prec_wf(e: ExprModel) -> bool
    decreases e,
{
    match e {
        ExprModel::Number(_) => true,
        ExprModel::Error(_) => true,
        ExprModel::Parenthesized(inner) => prec_wf(*inner),
        ExprModel::Binary(l, r, op) => {
            &&& prec_wf(*l)
            &&& prec_wf(*r)
            &&& (*l matches ExprModel::Binary(_, _, lop) ==> prec_of(lop.kind) >= prec_of(op.kind))
            &&& (*r matches ExprModel::Binary(_, _, rop) ==> prec_of(rop.kind) >= prec_of(op.kind))
        },
    }
}

pub open spec fn prec_wf_all(stmts: Seq<ExprModel>) -> bool {
    forall|i: int| 0 <= i < stmts.len() ==> prec_wf(#[trigger] stmts[i])
}

/// The value of an expression under checked 64-bit arithmetic: division
/// truncates toward zero, the remainder takes the dividend's sign, and an
/// error node, an overflow or a zero divisor yields no value.
pub open spec fn eval_expr_model(e: ExprModel) -> Option<i64>
    decreases e,
{
    match e {
        ExprModel::Number(n) => Some(n),
        ExprModel::Error(_) => None,
        ExprModel::Parenthesized(inner) => eval_expr_model(*inner),
        ExprModel::Binary(l, r, op) => {
            match (eval_expr_model(*l), eval_expr_model(*r)) {
                (Some(a), Some(b)) => match op.kind {
                    BinaryOperatorKind::Add => a.checked_add(b),
                    BinaryOperatorKind::Subtract => a.checked_sub(b),
                    BinaryOperatorKind::Multiply => a.checked_mul(b),
                    BinaryOperatorKind::Divide => a.checked_div(b),
                    BinaryOperatorKind::Mod => a.checked_rem(b),
                },
                _ => None,
            }
        },
    }
}

// ---------------------------------------------------------------------------
// Construction
// ---------------------------------------------------------------------------

impl Ast {
    pub fn new() -> (r: Self)
        ensures
            r@ =~= Seq::<ExprModel>::empty(),
    {
        let r = Ast { statements: Vec::new() };
        proof {
            assert(r@ =~= Seq::<ExprModel>::empty());
        }
        r
    }

    pub fn add_statement(&mut self, statement: Statement)
        ensures
            final(self)@ == old(self)@.push(statement@),
    {
        self.statements.push(statement);
        proof {
            assert(self@ =~= old(self)@.push(statement@));
        }
    }

    /// Walks every statement with the given visitor, in order.
    pub fn visit<V: Visitor>(&self, visitor: &mut V) {
        let n = self.statements.len();
        let mut i: usize = 0;
        while i < n
            invariant
                0 <= i <= n,
                n == self.statements@.len(),
            decreases n - i,
        {
            visitor.visit_statement(&self.statements[i]);
            i = i + 1;
        }
    }
}

impl Statement {
    pub fn new(kind: StatementKind) -> (r: Self)
        ensures
            r.kind == kind,
    {
        Statement { kind }
    }

    pub fn expression(expression: Expression) -> (r: Self)
        ensures
            r@ == expression@,
    {
        Self::new(StatementKind::Expression(expression))
    }
}

impl BinaryOperator {
    pub fn new(kind: BinaryOperatorKind, token: Token) -> (r: Self)
        ensures
            r.kind == kind,
            r.token == token,
    {
        BinaryOperator { kind, token }
    }

    pub fn precedence(&self) -> (r: u8)
        ensures
            r as int == prec_of(self.kind),
    {
        match self.kind {
            BinaryOperatorKind::Add | BinaryOperatorKind::Subtract
                | BinaryOperatorKind::Mod => 1,
            BinaryOperatorKind::Multiply | BinaryOperatorKind::Divide => 2,
        }
    }
}

impl Expression {
    pub fn new(kind: ExpressionKind) -> (r: Self)
        ensures
            r.kind == kind,
    {
        Expression { kind }
    }

    pub fn number(number: i64) -> (r: Self)
        ensures
            r@ == ExprModel::Number(number),
    {
        Self::new(ExpressionKind::Number(NumberExpression { number }))
    }

    pub fn error(span: TextSpan) -> (r: Self)
        ensures
            r@ == ExprModel::Error(span@),
    {
        Self::new(ExpressionKind::Error(span))
    }

    pub fn binary(left: Self, right: Self, operator: BinaryOperator) -> (r: Self)
        ensures
            r@ == ExprModel::Binary(
                Box::new(left@),
                Box::new(right@),
                OpModel { kind: operator.kind, token: operator.token@ },
            ),
    {
        Self::new(
            ExpressionKind::Binary(
                BinaryExpression { left: Box::new(left), right: Box::new(right), operator },
            ),
        )
    }

    pub fn parenthesized(kind: ExpressionKind) -> (r: Self)
        ensures
            r@ == ExprModel::Parenthesized(Box::new(expr_view(Expression { kind }))),
    {
        Self::new(
            ExpressionKind::Parenthesized(
                ParenthesizedExpression { expression: Box::new(Self::new(kind)) },
            ),
        )
    }
}

// ---------------------------------------------------------------------------
// The visitor contract
// ---------------------------------------------------------------------------

/// One method per node kind; the dispatching methods default to a
/// depth-first, left-before-right walk.
pub trait Visitor {
    fn visit_statement(&mut self, statement: &Statement) {
        match &statement.kind {
            StatementKind::Expression(expr) => self.visit_expression(expr),
        }
    }

    fn visit_expression(&mut self, expression: &Expression) {
        match &expression.kind {
            ExpressionKind::Number(number) => self.visit_number(number),
            ExpressionKind::Binary(binary) => self.visit_binary_expression(binary),
            ExpressionKind::Parenthesized(parenthesized) => self.visit_parenthesized_expression(
                parenthesized,
            ),
            ExpressionKind::Error(span) => self.visit_error(span),
        }
    }

    fn visit_number(&mut self, number: &NumberExpression);

    fn visit_binary_expression(&mut self, expr: &BinaryExpression);

    fn visit_parenthesized_expression(&mut self, expr: &ParenthesizedExpression);

    fn visit_error(&mut self, span: &TextSpan);
}

// ---------------------------------------------------------------------------
// The pretty printer
// ---------------------------------------------------------------------------

/// The rendering of an expression: numbers in cyan, operators, parentheses
/// and error literals in white, one space around each operator.
pub open spec fn render_expr(e: ExprModel) -> Seq<char>
    decreases e,
{
    match e {
        ExprModel::Number(n) => fg_cyan_seq() + i64_dec_str(n),
        ExprModel::Error(span) => fg_white_seq() + span.literal,
        ExprModel::Binary(l, r, op) => render_expr(*l) + seq![' '] + fg_white_seq()
            + op.token.span.literal + seq![' '] + render_expr(*r),
        ExprModel::Parenthesized(inner) => fg_white_seq() + seq!['('] + render_expr(*inner)
            + fg_white_seq() + seq![')'],
    }
}

/// The rendering of one statement: its expression, then a color reset.
pub open spec fn render_stmt(e: ExprModel) -> Seq<char> {
    render_expr(e) + fg_reset_seq()
}

/// Renders statements one after the other.
pub struct Printer {
    pub result: String,
}

impl Printer {
    pub fn new() -> (r: Self)
        ensures
            r.result@ =~= Seq::<char>::empty(),
    {
        Printer { result: String::new() }
    }

    pub fn add_whitespace(&mut self)
        ensures
            final(self).result@ == old(self).result@.push(' '),
    {
        push_char(&mut self.result, ' ');
    }

    pub fn add_newline(&mut self)
        ensures
            final(self).result@ == old(self).result@.push('\n'),
    {
        push_char(&mut self.result, '\n');
    }

    pub fn visit_statement(&mut self, statement: &Statement)
        ensures
            final(self).result@ == old(self).result@ + render_stmt(statement@),
    {
        match &statement.kind {
            StatementKind::Expression(expr) => {
                self.visit_expression(expr);
            },
        }
        self.result.append(fg_reset());
    }

    pub fn visit_expression(&mut self, expression: &Expression)
        ensures
            final(self).result@ == old(self).result@ + render_expr(expression@),
        decreases *expression,
    {
        match &expression.kind {
            ExpressionKind::Number(number) => {
                self.visit_number(number);
            },
            ExpressionKind::Binary(binary) => {
                self.visit_binary_expression(binary);
            },
            ExpressionKind::Parenthesized(parenthesized) => {
                self.visit_parenthesized_expression(parenthesized);
            },
            ExpressionKind::Error(span) => {
                self.visit_error(span);
            },
        }
    }

    pub fn visit_number(&mut self, number: &NumberExpression)
        ensures
            final(self).result@ == old(self).result@ + fg_cyan_seq() + i64_dec_str(number.number),
    {
        self.result.append(fg_cyan());
        let digits = i64_to_string(number.number);
        self.result.append(digits.as_str());
    }

    pub fn visit_error(&mut self, span: &TextSpan)
        ensures
            final(self).result@ == old(self).result@ + fg_white_seq() + span.literal@,
    {
        self.result.append(fg_white());
        self.result.append(span.literal.as_str());
    }

    pub fn visit_binary_expression(&mut self, expr: &BinaryExpression)
        ensures
            final(self).result@ == old(self).result@ + render_expr(
                ExprModel::Binary(
                    Box::new((*expr.left)@),
                    Box::new((*expr.right)@),
                    OpModel { kind: expr.operator.kind, token: expr.operator.token@ },
                ),
            ),
        decreases *expr,
    {
        self.visit_expression(&expr.left);
        self.add_whitespace();
        self.result.append(fg_white());
        self.result.append(expr.operator.token.span.literal.as_str());
        self.add_whitespace();
        self.visit_expression(&expr.right);
    }

    pub fn visit_parenthesized_expression(&mut self, expr: &ParenthesizedExpression)
        ensures
            final(self).result@ == old(self).result@ + render_expr(
                ExprModel::Parenthesized(Box::new((*expr.expression)@)),
            ),
        decreases *expr,
    {
        self.result.append(fg_white());
        push_char(&mut self.result, '(');
        self.visit_expression(&expr.expression);
        self.result.append(fg_white());
        push_char(&mut self.result, ')');
    }
}

impl Visitor for Printer {
    fn visit_statement(&mut self, statement: &Statement) {
        Printer::visit_statement(self, statement);
    }

    fn visit_expression(&mut self, expression: &Expression) {
        Printer::visit_expression(self, expression);
    }

    fn visit_number(&mut self, number: &NumberExpression) {
        Printer::visit_number(self, number);
    }

    fn visit_binary_expression(&mut self, expr: &BinaryExpression) {
        Printer::visit_binary_expression(self, expr);
    }

    fn visit_parenthesized_expression(&mut self, expr: &ParenthesizedExpression) {
        Printer::visit_parenthesized_expression(self, expr);
    }

    fn visit_error(&mut self, span: &TextSpan) {
        Printer::visit_error(self, span);
    }
}

} // verus!
