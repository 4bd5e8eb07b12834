//! A parenthesized rendering of expression trees, for inspecting what the
//! parser built: each operator application becomes `(op operand...)`, and a
//! literal or variable prints as its source text.
use vstd::prelude::*;

use crate::ast::Expr;
use crate::ast::ExprModel;
use crate::ast::wf_expr;
use crate::tokens::Span;

verus! {

/// An opening parenthesis, a space, a closing parenthesis.
pub const OPEN: u8 = 40;

pub const SPACE: u8 = 32;

pub const CLOSE: u8 = 41;

/// `(name part part ...)`: the rendering of one operator application.
pub open spec fn paren_spec(name: Seq<u8>, parts: Seq<Seq<u8>>) -> Seq<u8>
    decreases parts.len(),
{
    if parts.len() == 0 {
        seq![OPEN] + name + seq![CLOSE]
    } else {
        paren_spec(name, parts.drop_last()).drop_last() + seq![SPACE] + parts.last() + seq![CLOSE]
    }
}

/// The bytes of the word `group`, which labels a grouping node.
pub open spec fn group_name() -> Seq<u8> {
    seq![103u8, 114u8, 111u8, 117u8, 112u8]
}

/// The rendering of an expression: literals and variables print as their
/// source text, group and operator nodes print parenthesized.
pub open spec fn print_spec(e: ExprModel, src: Seq<u8>) -> Seq<u8>
    decreases e,
{
    match e {
        ExprModel::Literal { span, .. } => span.text(src),
        ExprModel::Variable { name } => name.span.text(src),
        ExprModel::Grouping { expression } => paren_spec(
            group_name(),
            seq![print_spec(*expression, src)],
        ),
        ExprModel::Unary { operator, right } => paren_spec(
            operator.span.text(src),
            seq![print_spec(*right, src)],
        ),
        ExprModel::Binary { left, operator, right } => paren_spec(
            operator.span.text(src),
            seq![print_spec(*left, src), print_spec(*right, src)],
        ),
    }
}

/// Renders expression trees against the source they were parsed from.
pub struct AstPrinter<'a> {
    pub source: &'a Vec<u8>,
}

impl<'a> AstPrinter<'a> {
    /// Renders one expression.
    pub fn print(&self, expr: &Expr) -> (r: Vec<u8>)
        requires
            wf_expr(expr@, self.source@.len()),
        ensures
            r@ == print_spec(expr@, self.source@),
        decreases expr,
    {
        match expr {
            Expr::Literal(l) => self.slice(l.span),
            Expr::Variable(v) => self.slice(v.name.span),
            Expr::Grouping(g) => {
                let mut name: Vec<u8> = Vec::new();
                // "group"
                name.push(103);
                name.push(114);
                name.push(111);
                name.push(117);
                name.push(112);
                proof {
                    assert(name@ =~= group_name());
                }
                let inner = self.print(&g.expression);
                self.parenthesize_one(&name, &inner)
            },
            Expr::Unary(u) => {
                let name = self.slice(u.operator.span);
                let inner = self.print(&u.right);
                self.parenthesize_one(&name, &inner)
            },
            Expr::Binary(b) => {
                let name = self.slice(b.operator.span);
                let left = self.print(&b.left);
                let right = self.print(&b.right);
                self.parenthesize_two(&name, &left, &right)
            },
        }
    }

    /// The source bytes a span selects.
    fn slice(&self, span: Span) -> (r: Vec<u8>)
        requires
            span.wf(self.source@.len()),
        ensures
            r@ == span.text(self.source@),
    {
        crate::tokens::copy_range(self.source, span.start, span.end)
    }

    /// `(name part)`.
    fn parenthesize_one(&self, name: &Vec<u8>, part: &Vec<u8>) -> (r: Vec<u8>)
        ensures
            r@ == paren_spec(name@, seq![part@]),
    {
        let mut out: Vec<u8> = Vec::new();
        out.push(OPEN);
        append_bytes(&mut out, name);
        out.push(SPACE);
        append_bytes(&mut out, part);
        out.push(CLOSE);
        proof {
            let parts = seq![part@];
            assert(parts.drop_last() =~= Seq::<Seq<u8>>::empty());
            assert(paren_spec(name@, Seq::<Seq<u8>>::empty()) == seq![OPEN] + name@ + seq![CLOSE]);
            assert(out@ =~= paren_spec(name@, parts));
        }
        out
    }

    /// `(name part part)`.
    fn parenthesize_two(&self, name: &Vec<u8>, first: &Vec<u8>, second: &Vec<u8>) -> (r: Vec<u8>)
        ensures
            r@ == paren_spec(name@, seq![first@, second@]),
    {
        let mut out: Vec<u8> = Vec::new();
        out.push(OPEN);
        append_bytes(&mut out, name);
        out.push(SPACE);
        append_bytes(&mut out, first);
        out.push(SPACE);
        append_bytes(&mut out, second);
        out.push(CLOSE);
        proof {
            let parts = seq![first@, second@];
            assert(parts.drop_last() =~= seq![first@]);
            assert(seq![first@].drop_last() =~= Seq::<Seq<u8>>::empty());
            assert(paren_spec(name@, Seq::<Seq<u8>>::empty()) == seq![OPEN] + name@ + seq![CLOSE]);
            assert(paren_spec(name@, seq![first@]).drop_last() =~= (seq![OPEN] + name@
                + seq![CLOSE]).drop_last() + seq![SPACE] + first@);
            assert(out@ =~= paren_spec(name@, parts));
        }
        out
    }
}

/// Appends `part` to `out`.
fn append_bytes(out: &mut Vec<u8>, part: &Vec<u8>)
    ensures
        final(out)@ == old(out)@ + part@,
{
    let mut i: usize = 0;
    proof {
        assert(out@ =~= old(out)@ + part@.take(0));
    }
    while i < part.len()
        invariant
            i <= part@.len(),
            out@ == old(out)@ + part@.take(i as int),
        decreases part@.len() - i,
    {
        out.push(part[i]);
        i = i + 1;
        proof {
            assert(out@ =~= old(out)@ + part@.take(i as int));
        }
    }
    proof {
        assert(part@.take(part@.len() as int) =~= part@);
    }
}

} // verus!
