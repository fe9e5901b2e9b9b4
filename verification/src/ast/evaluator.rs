use vstd::prelude::*;

use crate::ast::lexer::TextSpan;
use crate::ast::tree::{eval_expr_model, Ast, BinaryExpression, BinaryOperatorKind, Expression,
    ExpressionKind, ExprModel, NumberExpression, ParenthesizedExpression, Statement,
    StatementKind, Visitor};

verus! {

/// The value of one expression: none on an error placeholder, a zero
/// divisor, or an operation that leaves the 64-bit range.
pub fn eval_expr(expression: &Expression) -> (r: Option<i64>)
    ensures
        r == eval_expr_model(expression@),
    decreases *expression,
{
    match &expression.kind {
        ExpressionKind::Number(n) => Some(n.number),
        ExpressionKind::Error(_) => None,
        ExpressionKind::Parenthesized(p) => eval_expr(&p.expression),
        ExpressionKind::Binary(b) => {
            let left = eval_expr(&b.left);
            let right = eval_expr(&b.right);
            match (left, right) {
                (Some(a), Some(c)) => match b.operator.kind {
                    BinaryOperatorKind::Add => a.checked_add(c),
                    BinaryOperatorKind::Subtract => a.checked_sub(c),
                    BinaryOperatorKind::Multiply => a.checked_mul(c),
                    BinaryOperatorKind::Divide => a.checked_div(c),
                    BinaryOperatorKind::Mod => a.checked_rem(c),
                },
                _ => None,
            }
        },
    }
}

/// The per-statement results of a program: one value for each statement
/// whose expression evaluates, in statement order.
pub open spec fn eval_program(stmts: Seq<ExprModel>) -> Seq<i64>
    decreases stmts.len(),
{
    if stmts.len() == 0 {
        Seq::empty()
    } else {
        let rest = eval_program(stmts.drop_last());
        match eval_expr_model(stmts.last()) {
            Some(v) => rest.push(v),
            None => rest,
        }
    }
}

/// Walks the statements of a tree and collects each statement's value.
/// A statement that does not evaluate — an error placeholder in it, a
/// zero divisor or an overflow — is skipped and leaves both the last
/// value and the collected values unchanged.
#[derive(Default)]
pub struct Evaluator {
    pub last_value: Option<i64>,
    pub values: Vec<i64>,
}

impl Evaluator {
    pub fn new() -> (r: Self)
        ensures
            r.last_value is None,
            r.values@ =~= Seq::<i64>::empty(),
    {
        Evaluator { last_value: None, values: Vec::new() }
    }

    /// Evaluates one statement; on success the value becomes the last
    /// value and joins the collected values.
    pub fn visit_statement(&mut self, statement: &Statement)
        ensures
            match eval_expr_model(statement@) {
                Some(v) => final(self).last_value == Some(v) && final(self).values@ == old(
                    self,
                ).values@.push(v),
                None => *final(self) == *old(self),
            },
    {
        let value = match &statement.kind {
            StatementKind::Expression(e) => eval_expr(e),
        };
        if let Some(v) = value {
            self.last_value = Some(v);
            self.values.push(v);
        }
    }

    /// Evaluates every statement of the tree in order.
    pub fn evaluate(&mut self, ast: &Ast)
        ensures
            final(self).values@ == old(self).values@ + eval_program(ast@),
    {
        let n = ast.statements.len();
        let mut i: usize = 0;
        proof {
            assert(self.values@ =~= old(self).values@ + eval_program(ast@.subrange(0, 0)));
        }
        while i < n
            invariant
                n == ast.statements@.len(),
                0 <= i <= n,
                ast@.len() == n,
                self.values@ == old(self).values@ + eval_program(ast@.subrange(0, i as int)),
            decreases n - i,
        {
            self.visit_statement(&ast.statements[i]);
            proof {
                let cur = ast@.subrange(0, i + 1);
                assert(cur.drop_last() =~= ast@.subrange(0, i as int));
                assert(cur.last() == ast@[i as int]);
                assert(ast@[i as int] == ast.statements@[i as int]@);
                match eval_expr_model(ast@[i as int]) {
                    Some(v) => {
                        assert(self.values@ =~= old(self).values@ + eval_program(cur));
                    },
                    None => {
                        assert(self.values@ =~= old(self).values@ + eval_program(cur));
                    },
                }
            }
            i = i + 1;
        }
        proof {
            assert(ast@.subrange(0, ast@.len() as int) =~= ast@);
        }
    }
}

impl Visitor for Evaluator {
    fn visit_statement(&mut self, statement: &Statement) {
        Evaluator::visit_statement(self, statement);
    }

    fn visit_expression(&mut self, expression: &Expression) {
        if let Some(v) = eval_expr(expression) {
            self.last_value = Some(v);
        }
    }

    fn visit_number(&mut self, number: &NumberExpression) {
        self.last_value = Some(number.number);
    }

    fn visit_binary_expression(&mut self, expr: &BinaryExpression) {
        let left = eval_expr(&expr.left);
        let right = eval_expr(&expr.right);
        if let (Some(a), Some(c)) = (left, right) {
            let value = match expr.operator.kind {
                BinaryOperatorKind::Add => a.checked_add(c),
                BinaryOperatorKind::Subtract => a.checked_sub(c),
                BinaryOperatorKind::Multiply => a.checked_mul(c),
                BinaryOperatorKind::Divide => a.checked_div(c),
                BinaryOperatorKind::Mod => a.checked_rem(c),
            };
            if let Some(v) = value {
                self.last_value = Some(v);
            }
        }
    }

    fn visit_parenthesized_expression(&mut self, expr: &ParenthesizedExpression) {
        if let Some(v) = eval_expr(&expr.expression) {
            self.last_value = Some(v);
        }
    }

    fn visit_error(&mut self, _span: &TextSpan) {
    }
}

} // verus!
