//! Logical expressions and inference rules for the verifiable reasoning engine:
//! propositional and first-order expressions, their parser, printer and
//! evaluator, inference rules and proof steps.
use vstd::prelude::*;
pub use vstd::hash_map::StringHashMap;
pub use vstd::hash_set::StringHashSet;
use vstd::string::StringExecFns;
use crate::text::{
    chars_of, chars_eq, is_prefix, is_ws, string_of, trim, trim_chars, trim_end, trim_start,
};

verus! {

broadcast use vstd::string::group_string_axioms;

/// A logical expression.
#[derive(Debug, PartialEq, Eq, Hash)]
pub enum LogicalExpression {
    /// Propositional variable
    Variable(String),
    /// Logical AND
    And(Box<LogicalExpression>, Box<LogicalExpression>),
    /// Logical OR
    Or(Box<LogicalExpression>, Box<LogicalExpression>),
    /// Logical IMPLIES
    Implies(Box<LogicalExpression>, Box<LogicalExpression>),
    /// Logical NOT
    Not(Box<LogicalExpression>),
    /// Logical EQUIVALENT
    Equivalent(Box<LogicalExpression>, Box<LogicalExpression>),
    /// Universal quantification
    ForAll(String, Box<LogicalExpression>),
    /// Existential quantification
    Exists(String, Box<LogicalExpression>),
    /// Constant
    Constant(bool),
}

/// The mathematical form of a logical expression: names are character sequences.
pub enum LExpr {
    Var(Seq<char>),
    And(Box<LExpr>, Box<LExpr>),
    Or(Box<LExpr>, Box<LExpr>),
    Implies(Box<LExpr>, Box<LExpr>),
    Not(Box<LExpr>),
    Equiv(Box<LExpr>, Box<LExpr>),
    ForAll(Seq<char>, Box<LExpr>),
    Exists(Seq<char>, Box<LExpr>),
    Const(bool),
}

impl View for LogicalExpression {
    type V = LExpr;

    open spec fn view(&self) -> LExpr
        decreases self,
    {
        match self {
            LogicalExpression::Variable(v) => LExpr::Var(v@),
            LogicalExpression::And(l, r) => LExpr::And(Box::new((**l)@), Box::new((**r)@)),
            LogicalExpression::Or(l, r) => LExpr::Or(Box::new((**l)@), Box::new((**r)@)),
            LogicalExpression::Implies(l, r) => LExpr::Implies(Box::new((**l)@), Box::new((**r)@)),
            LogicalExpression::Not(e) => LExpr::Not(Box::new((**e)@)),
            LogicalExpression::Equivalent(l, r) => LExpr::Equiv(Box::new((**l)@), Box::new((**r)@)),
            LogicalExpression::ForAll(v, e) => LExpr::ForAll(v@, Box::new((**e)@)),
            LogicalExpression::Exists(v, e) => LExpr::Exists(v@, Box::new((**e)@)),
            LogicalExpression::Constant(b) => LExpr::Const(*b),
        }
    }
}

impl Clone for LogicalExpression {
    fn clone(&self) -> (r: Self)
        ensures
            r@ == self@,
    {
        self.duplicate()
    }
}

/// Errors raised by expression evaluation.
#[derive(Debug)]
pub enum LogicError {
    /// A variable has no value in the evaluation context.
    UnknownVariable(String),
    /// The text is not an expression: a quantifier whose first `(` is its
    /// last character has no body.
    Malformed(String),
}

/// The textual form of an expression, fully parenthesised.
pub open spec fn show(e: LExpr) -> Seq<char>
    decreases e,
{
    match e {
        LExpr::Var(v) => v,
        LExpr::Const(b) => if b {
            "TRUE"@
        } else {
            "FALSE"@
        },
        LExpr::Not(x) => "NOT ("@ + show(*x) + ")"@,
        LExpr::And(l, r) => "("@ + show(*l) + " AND "@ + show(*r) + ")"@,
        LExpr::Or(l, r) => "("@ + show(*l) + " OR "@ + show(*r) + ")"@,
        LExpr::Implies(l, r) => "("@ + show(*l) + " IMPLIES "@ + show(*r) + ")"@,
        LExpr::Equiv(l, r) => "("@ + show(*l) + " EQUIV "@ + show(*r) + ")"@,
        LExpr::ForAll(v, x) => "FORALL "@ + v + " ("@ + show(*x) + ")"@,
        LExpr::Exists(v, x) => "EXISTS "@ + v + " ("@ + show(*x) + ")"@,
    }
}

/// The value of an expression under an assignment of truth values to names;
/// `None` when a variable that is evaluated has no value. `AND` and `OR`
/// evaluate their right operand only when the left one does not decide.
/// Quantified expressions evaluate to true.
pub open spec fn eval(e: LExpr, ctx: Map<Seq<char>, bool>) -> Option<bool>
    decreases e,
{
    match e {
        LExpr::Var(v) => if ctx.contains_key(v) {
            Some(ctx[v])
        } else {
            None
        },
        LExpr::Const(b) => Some(b),
        LExpr::Not(x) => match eval(*x, ctx) {
            Some(b) => Some(!b),
            None => None,
        },
        LExpr::And(l, r) => match eval(*l, ctx) {
            Some(true) => eval(*r, ctx),
            Some(false) => Some(false),
            None => None,
        },
        LExpr::Or(l, r) => match eval(*l, ctx) {
            Some(true) => Some(true),
            Some(false) => eval(*r, ctx),
            None => None,
        },
        LExpr::Implies(l, r) => match (eval(*l, ctx), eval(*r, ctx)) {
            (Some(a), Some(b)) => Some(!a || b),
            _ => None,
        },
        LExpr::Equiv(l, r) => match (eval(*l, ctx), eval(*r, ctx)) {
            (Some(a), Some(b)) => Some(a == b),
            _ => None,
        },
        LExpr::ForAll(_, _) => Some(true),
        LExpr::Exists(_, _) => Some(true),
    }
}

/// The connectives mean what their truth tables say: a variable has the
/// value the context gives it, a constant its own value; whenever the
/// operands have values `a` and `b`, `NOT` gives `!a`, `AND` gives `a && b`,
/// `OR` gives `a || b`, `IMPLIES` gives `!a || b`, and `EQUIV` gives whether
/// `a` and `b` are equal, so an expression is always equivalent to itself.
pub proof fn connectives_follow_truth_tables(
    l: LExpr,
    r: LExpr,
    ctx: Map<Seq<char>, bool>,
    v: Seq<char>,
    c: bool,
    a: bool,
    b: bool,
)
    ensures
        ctx.contains_key(v) ==> eval(LExpr::Var(v), ctx) == Some(ctx[v]),
        !ctx.contains_key(v) ==> eval(LExpr::Var(v), ctx) is None,
        eval(LExpr::Const(c), ctx) == Some(c),
        eval(l, ctx) == Some(a) ==> eval(LExpr::Not(Box::new(l)), ctx) == Some(!a),
        eval(l, ctx) == Some(a) && eval(r, ctx) == Some(b) ==> eval(
            LExpr::And(Box::new(l), Box::new(r)),
            ctx,
        ) == Some(a && b),
        eval(l, ctx) == Some(a) && eval(r, ctx) == Some(b) ==> eval(
            LExpr::Or(Box::new(l), Box::new(r)),
            ctx,
        ) == Some(a || b),
        eval(l, ctx) == Some(a) && eval(r, ctx) == Some(b) ==> eval(
            LExpr::Implies(Box::new(l), Box::new(r)),
            ctx,
        ) == Some(!a || b),
        eval(l, ctx) == Some(a) && eval(r, ctx) == Some(b) ==> eval(
            LExpr::Equiv(Box::new(l), Box::new(r)),
            ctx,
        ) == Some(a == b),
        eval(l, ctx) == Some(a) ==> eval(LExpr::Equiv(Box::new(l), Box::new(l)), ctx) == Some(true),
        eval(l, ctx) == Some(a) && eval(r, ctx) == Some(b) && a != b ==> eval(
            LExpr::Equiv(Box::new(l), Box::new(r)),
            ctx,
        ) == Some(false),
{
}

/// The first variable, in evaluation order, that evaluation reaches without a value.
pub open spec fn first_unknown(e: LExpr, ctx: Map<Seq<char>, bool>) -> Seq<char>
    decreases e,
{
    match e {
        LExpr::Var(v) => v,
        LExpr::Not(x) => first_unknown(*x, ctx),
        LExpr::And(l, r) => if eval(*l, ctx) is None {
            first_unknown(*l, ctx)
        } else {
            first_unknown(*r, ctx)
        },
        LExpr::Or(l, r) => if eval(*l, ctx) is None {
            first_unknown(*l, ctx)
        } else {
            first_unknown(*r, ctx)
        },
        LExpr::Implies(l, r) => if eval(*l, ctx) is None {
            first_unknown(*l, ctx)
        } else {
            first_unknown(*r, ctx)
        },
        LExpr::Equiv(l, r) => if eval(*l, ctx) is None {
            first_unknown(*l, ctx)
        } else {
            first_unknown(*r, ctx)
        },
        _ => Seq::empty(),
    }
}

/// The names of the variables that occur in an expression (quantifier-bound
/// names themselves are not included).
pub open spec fn vars(e: LExpr) -> Set<Seq<char>>
    decreases e,
{
    match e {
        LExpr::Var(v) => set![v],
        LExpr::Not(x) => vars(*x),
        LExpr::And(l, r) => vars(*l).union(vars(*r)),
        LExpr::Or(l, r) => vars(*l).union(vars(*r)),
        LExpr::Implies(l, r) => vars(*l).union(vars(*r)),
        LExpr::Equiv(l, r) => vars(*l).union(vars(*r)),
        LExpr::ForAll(_, x) => vars(*x),
        LExpr::Exists(_, x) => vars(*x),
        LExpr::Const(_) => Set::empty(),
    }
}

/// Appends a string slice to an output string.
fn push_str(out: &mut String, s: &str)
    ensures
        final(out)@ == old(out)@ + s@,
{
    out.append(s);
}

impl LogicalExpression {
    /// Structural equality of two expressions.
    pub fn same(&self, other: &LogicalExpression) -> (r: bool)
        ensures
            r == (self@ == other@),
        decreases self,
    {
        match (self, other) {
            (LogicalExpression::Variable(a), LogicalExpression::Variable(b)) => {
                let av = chars_of(a.as_str());
                let bv = chars_of(b.as_str());
                chars_eq(av.as_slice(), bv.as_slice())
            },
            (LogicalExpression::Constant(a), LogicalExpression::Constant(b)) => *a == *b,
            (LogicalExpression::Not(a), LogicalExpression::Not(b)) => a.same(b),
            (LogicalExpression::And(a1, a2), LogicalExpression::And(b1, b2)) => a1.same(b1) && a2.same(
                b2,
            ),
            (LogicalExpression::Or(a1, a2), LogicalExpression::Or(b1, b2)) => a1.same(b1) && a2.same(
                b2,
            ),
            (LogicalExpression::Implies(a1, a2), LogicalExpression::Implies(b1, b2)) => a1.same(b1)
                && a2.same(b2),
            (LogicalExpression::Equivalent(a1, a2), LogicalExpression::Equivalent(b1, b2)) => a1.same(
                b1,
            ) && a2.same(b2),
            (LogicalExpression::ForAll(v, a), LogicalExpression::ForAll(w, b)) => {
                let vv = chars_of(v.as_str());
                let wv = chars_of(w.as_str());
                chars_eq(vv.as_slice(), wv.as_slice()) && a.same(b)
            },
            (LogicalExpression::Exists(v, a), LogicalExpression::Exists(w, b)) => {
                let vv = chars_of(v.as_str());
                let wv = chars_of(w.as_str());
                chars_eq(vv.as_slice(), wv.as_slice()) && a.same(b)
            },
            _ => false,
        }
    }

    /// A copy of this expression.
    pub fn duplicate(&self) -> (r: LogicalExpression)
        ensures
            r@ == self@,
        decreases self,
    {
        match self {
            LogicalExpression::Variable(v) => LogicalExpression::Variable(v.clone()),
            LogicalExpression::Constant(b) => LogicalExpression::Constant(*b),
            LogicalExpression::Not(e) => LogicalExpression::Not(Box::new(e.duplicate())),
            LogicalExpression::And(l, r) => LogicalExpression::And(
                Box::new(l.duplicate()),
                Box::new(r.duplicate()),
            ),
            LogicalExpression::Or(l, r) => LogicalExpression::Or(
                Box::new(l.duplicate()),
                Box::new(r.duplicate()),
            ),
            LogicalExpression::Implies(l, r) => LogicalExpression::Implies(
                Box::new(l.duplicate()),
                Box::new(r.duplicate()),
            ),
            LogicalExpression::Equivalent(l, r) => LogicalExpression::Equivalent(
                Box::new(l.duplicate()),
                Box::new(r.duplicate()),
            ),
            LogicalExpression::ForAll(v, e) => LogicalExpression::ForAll(
                v.clone(),
                Box::new(e.duplicate()),
            ),
            LogicalExpression::Exists(v, e) => LogicalExpression::Exists(
                v.clone(),
                Box::new(e.duplicate()),
            ),
        }
    }

    /// Evaluate this expression given variable assignments.
    pub fn evaluate(&self, context: &StringHashMap<bool>) -> (r: Result<bool, LogicError>)
        ensures
            match eval(self@, context@) {
                Some(b) => r == Ok::<bool, LogicError>(b),
                None => r matches Err(LogicError::UnknownVariable(name)) && name@ == first_unknown(
                    self@,
                    context@,
                ),
            },
        decreases self,
    {
        match self {
            LogicalExpression::Variable(name) => match context.get(name.as_str()) {
                Some(v) => Ok(*v),
                None => Err(LogicError::UnknownVariable(name.clone())),
            },
            LogicalExpression::Constant(v) => Ok(*v),
            LogicalExpression::Not(e) => {
                let v = e.evaluate(context)?;
                Ok(!v)
            },
            LogicalExpression::And(l, r) => {
                let a = l.evaluate(context)?;
                if !a {
                    return Ok(false);
                }
                r.evaluate(context)
            },
            LogicalExpression::Or(l, r) => {
                let a = l.evaluate(context)?;
                if a {
                    return Ok(true);
                }
                r.evaluate(context)
            },
            LogicalExpression::Implies(l, r) => {
                let left = l.evaluate(context)?;
                let right = r.evaluate(context)?;
                Ok(!left || right)
            },
            LogicalExpression::Equivalent(l, r) => {
                let left = l.evaluate(context)?;
                let right = r.evaluate(context)?;
                Ok(left == right)
            },
            LogicalExpression::ForAll(_, _) => Ok(true),
            LogicalExpression::Exists(_, _) => Ok(true),
        }
    }

    /// Convert to string representation.
    pub fn to_string(&self) -> (s: String)
        ensures
            s@ == show(self@),
        decreases self,
    {
        let mut out = String::new();
        self.write_to(&mut out);
        out
    }

    fn write_to(&self, out: &mut String)
        ensures
            final(out)@ == old(out)@ + show(self@),
        decreases self,
    {
        match self {
            LogicalExpression::Variable(v) => push_str(out, v.as_str()),
            LogicalExpression::Constant(true) => push_str(out, "TRUE"),
            LogicalExpression::Constant(false) => push_str(out, "FALSE"),
            LogicalExpression::Not(e) => {
                push_str(out, "NOT (");
                e.write_to(out);
                push_str(out, ")");
            },
            LogicalExpression::And(l, r) => {
                push_str(out, "(");
                l.write_to(out);
                push_str(out, " AND ");
                r.write_to(out);
                push_str(out, ")");
            },
            LogicalExpression::Or(l, r) => {
                push_str(out, "(");
                l.write_to(out);
                push_str(out, " OR ");
                r.write_to(out);
                push_str(out, ")");
            },
            LogicalExpression::Implies(l, r) => {
                push_str(out, "(");
                l.write_to(out);
                push_str(out, " IMPLIES ");
                r.write_to(out);
                push_str(out, ")");
            },
            LogicalExpression::Equivalent(l, r) => {
                push_str(out, "(");
                l.write_to(out);
                push_str(out, " EQUIV ");
                r.write_to(out);
                push_str(out, ")");
            },
            LogicalExpression::ForAll(v, e) => {
                push_str(out, "FORALL ");
                push_str(out, v.as_str());
                push_str(out, " (");
                e.write_to(out);
                push_str(out, ")");
            },
            LogicalExpression::Exists(v, e) => {
                push_str(out, "EXISTS ");
                push_str(out, v.as_str());
                push_str(out, " (");
                e.write_to(out);
                push_str(out, ")");
            },
        }
    }

    /// Get all variables in this expression.
    pub fn get_variables(&self) -> (vars_out: StringHashSet)
        ensures
            vars_out@ == vars(self@),
    {
        let mut v = StringHashSet::new();
        self.collect_variables(&mut v);
        assert(v@ =~= vars(self@));
        v
    }

    fn collect_variables(&self, acc: &mut StringHashSet)
        ensures
            final(acc)@ == old(acc)@.union(vars(self@)),
        decreases self,
    {
        match self {
            LogicalExpression::Variable(v) => {
                acc.insert(v.clone());
                assert(final(acc)@ =~= old(acc)@.union(vars(self@)));
            },
            LogicalExpression::Not(e) => e.collect_variables(acc),
            LogicalExpression::And(l, r) => {
                l.collect_variables(acc);
                r.collect_variables(acc);
                assert(final(acc)@ =~= old(acc)@.union(vars(self@)));
            },
            LogicalExpression::Or(l, r) => {
                l.collect_variables(acc);
                r.collect_variables(acc);
                assert(final(acc)@ =~= old(acc)@.union(vars(self@)));
            },
            LogicalExpression::Implies(l, r) => {
                l.collect_variables(acc);
                r.collect_variables(acc);
                assert(final(acc)@ =~= old(acc)@.union(vars(self@)));
            },
            LogicalExpression::Equivalent(l, r) => {
                l.collect_variables(acc);
                r.collect_variables(acc);
                assert(final(acc)@ =~= old(acc)@.union(vars(self@)));
            },
            LogicalExpression::ForAll(_, e) => e.collect_variables(acc),
            LogicalExpression::Exists(_, e) => e.collect_variables(acc),
            LogicalExpression::Constant(_) => {
                assert(final(acc)@ =~= old(acc)@.union(vars(self@)));
            },
        }
    }
}


/// Position of the first occurrence of `op` at parenthesis depth zero, scanning
/// from position `i` with the depth so far `depth`. A parenthesis is never the
/// start of an occurrence.
pub open spec fn op_index_from(s: Seq<char>, op: Seq<char>, i: int, depth: int) -> Option<int>
    decreases s.len() - i,
{
    if i < 0 || i >= s.len() {
        None
    } else if s[i] == '(' {
        op_index_from(s, op, i + 1, depth + 1)
    } else if s[i] == ')' {
        op_index_from(s, op, i + 1, depth - 1)
    } else if depth == 0 && i + op.len() <= s.len() && s.subrange(i, i + op.len()) == op {
        Some(i)
    } else {
        op_index_from(s, op, i + 1, depth)
    }
}

/// Position of the first top-level occurrence of the operator `op` in `s`.
pub open spec fn op_index(s: Seq<char>, op: Seq<char>) -> Option<int> {
    op_index_from(s, op, 0, 0)
}

proof fn lemma_op_index_from_bounds(s: Seq<char>, op: Seq<char>, i: int, depth: int)
    requires
        0 <= i,
    ensures
        op_index_from(s, op, i, depth) matches Some(p) ==> i <= p && p + op.len() <= s.len(),
    decreases s.len() - i,
{
    if i < s.len() {
        if s[i] == '(' {
            lemma_op_index_from_bounds(s, op, i + 1, depth + 1);
        } else if s[i] == ')' {
            lemma_op_index_from_bounds(s, op, i + 1, depth - 1);
        } else if depth == 0 && i + op.len() <= s.len() && s.subrange(i, i + op.len()) == op {
        } else {
            lemma_op_index_from_bounds(s, op, i + 1, depth);
        }
    }
}

pub proof fn lemma_trim_len(s: Seq<char>)
    ensures
        trim(s).len() <= s.len(),
{
    lemma_trim_start_len(s);
    lemma_trim_end_len(trim_start(s));
}

pub proof fn lemma_trim_start_len(s: Seq<char>)
    ensures
        trim_start(s).len() <= s.len(),
    decreases s.len(),
{
    if s.len() > 0 && is_ws(s[0]) {
        lemma_trim_start_len(s.drop_first());
    }
}

pub proof fn lemma_trim_end_len(s: Seq<char>)
    ensures
        trim_end(s).len() <= s.len(),
    decreases s.len(),
{
    if s.len() > 0 && is_ws(s.last()) {
        lemma_trim_end_len(s.drop_last());
    }
}

/// Combines two parsed operands with the binary connective numbered `k`
/// (0: AND, 1: OR, 2: IMPLIES, 3: EQUIV).
pub open spec fn binary(k: int, l: Option<LExpr>, r: Option<LExpr>) -> Option<LExpr> {
    match (l, r) {
        (Some(a), Some(b)) => Some(
            if k == 0 {
                LExpr::And(Box::new(a), Box::new(b))
            } else if k == 1 {
                LExpr::Or(Box::new(a), Box::new(b))
            } else if k == 2 {
                LExpr::Implies(Box::new(a), Box::new(b))
            } else {
                LExpr::Equiv(Box::new(a), Box::new(b))
            },
        ),
        _ => None,
    }
}

/// The spelling of the binary connective numbered `k`, with its surrounding spaces.
pub open spec fn op_text(k: int) -> Seq<char> {
    if k == 0 {
        seq![' ', 'A', 'N', 'D', ' ']
    } else if k == 1 {
        seq![' ', 'O', 'R', ' ']
    } else if k == 2 {
        seq![' ', 'I', 'M', 'P', 'L', 'I', 'E', 'S', ' ']
    } else {
        seq![' ', 'E', 'Q', 'U', 'I', 'V', ' ']
    }
}

/// The expression that the text `s` denotes, by the grammar the parser reads:
/// after trimming, an outer pair of parentheses is dropped; a `NOT ` (or `not `)
/// prefix negates the rest; otherwise the first top-level ` AND `, then ` OR `,
/// ` IMPLIES `, ` EQUIV ` splits the text; `TRUE`/`true`/`T` and
/// `FALSE`/`false`/`F` are constants; `FORALL v (body)` and `EXISTS v (body)`
/// bind a name (up to the first `(`, trimmed) over the text between that `(`
/// and the last character; anything else is a variable named by the trimmed
/// text. `None` marks the quantifier texts whose first `(` is the last
/// character, on which no body can be cut out.
pub open spec fn parse_spec(s: Seq<char>) -> Option<LExpr>
    decreases s.len(), 6int,
{
    let t = trim(s);
    proof {
        lemma_trim_len(s);
    }
    if t.len() > 0 && t[0] == '(' && t.last() == ')' && t.len() >= 2 {
        parse_spec(t.subrange(1, t.len() - 1))
    } else if t.len() >= 4 && (is_prefix("NOT "@, t) || is_prefix("not "@, t)) {
        match parse_spec(t.skip(4)) {
            Some(x) => Some(LExpr::Not(Box::new(x))),
            None => None,
        }
    } else {
        parse_binary(t, 0)
    }
}

/// Parse of a trimmed text that is neither parenthesised nor negated, trying the
/// binary connectives numbered `k` to 3 in turn, then the atoms.
pub open spec fn parse_binary(t: Seq<char>, k: int) -> Option<LExpr>
    decreases t.len(), 5 - k,
{
    if k < 0 || k > 3 {
        None
    } else {
        match op_index(t, op_text(k)) {
            Some(p) => if 0 <= p && p + op_text(k).len() <= t.len() {
                binary(k, parse_spec(t.take(p)), parse_spec(t.skip(p + op_text(k).len())))
            } else {
                None
            },
            None => if k == 3 {
                parse_atom(t)
            } else {
                parse_binary(t, k + 1)
            },
        }
    }
}

/// Parse of a trimmed text without a top-level connective.
pub open spec fn parse_atom(t: Seq<char>) -> Option<LExpr>
    decreases t.len(), 1int,
{
    if t == "TRUE"@ || t == "true"@ || t == "T"@ {
        Some(LExpr::Const(true))
    } else if t == "FALSE"@ || t == "false"@ || t == "F"@ {
        Some(LExpr::Const(false))
    } else if is_prefix("FORALL "@, t) && crate::text::first_occurrence(t, "("@) is Some {
        parse_quantifier(t, true)
    } else if is_prefix("EXISTS "@, t) && crate::text::first_occurrence(t, "("@) is Some {
        parse_quantifier(t, false)
    } else {
        Some(LExpr::Var(t))
    }
}

/// Parse of `FORALL v (body)` (when `forall`) or `EXISTS v (body)`.
pub open spec fn parse_quantifier(t: Seq<char>, forall: bool) -> Option<LExpr>
    decreases t.len(), 0int,
{
    match crate::text::first_occurrence(t, "("@) {
        Some(p) => if 7 <= p && p + 1 <= t.len() - 1 {
            let name = trim(t.subrange(7, p));
            match parse_spec(t.subrange(p + 1, t.len() - 1)) {
                Some(body) => if forall {
                    Some(LExpr::ForAll(name, Box::new(body)))
                } else {
                    Some(LExpr::Exists(name, Box::new(body)))
                },
                None => None,
            }
        } else {
            None
        },
        None => None,
    }
}

/// The characters `v[a..b]`.
pub(crate) fn sub_vec(v: &Vec<char>, a: usize, b: usize) -> (r: Vec<char>)
    requires
        a <= b <= v@.len(),
    ensures
        r@ == v@.subrange(a as int, b as int),
{
    let mut r: Vec<char> = Vec::new();
    let mut i = a;
    while i < b
        invariant
            a <= i <= b <= v@.len(),
            r@ == v@.subrange(a as int, i as int),
        decreases b - i,
    {
        r.push(v[i]);
        i += 1;
        assert(r@ == v@.subrange(a as int, i as int));
    }
    r
}

/// The spelling of the binary connective numbered `k`.
fn op_chars(k: usize) -> (r: Vec<char>)
    requires
        k <= 3,
    ensures
        r@ == op_text(k as int),
{
    if k == 0 {
        vec![' ', 'A', 'N', 'D', ' ']
    } else if k == 1 {
        vec![' ', 'O', 'R', ' ']
    } else if k == 2 {
        vec![' ', 'I', 'M', 'P', 'L', 'I', 'E', 'S', ' ']
    } else {
        vec![' ', 'E', 'Q', 'U', 'I', 'V', ' ']
    }
}

/// Find a binary operator at parenthesis depth zero.
fn find_binary_op(s: &[char], op: &[char]) -> (r: Option<usize>)
    ensures
        match r {
            Some(p) => op_index(s@, op@) == Some(p as int),
            None => op_index(s@, op@) is None,
        },
{
    let mut depth: i128 = 0;
    let mut i: usize = 0;
    while i < s.len()
        invariant
            i <= s@.len(),
            -(i as int) <= depth <= i as int,
            op_index(s@, op@) == op_index_from(s@, op@, i as int, depth as int),
        decreases s.len() - i,
    {
        let c = s[i];
        if c == '(' {
            depth = depth + 1;
        } else if c == ')' {
            depth = depth - 1;
        } else if depth == 0 && op.len() <= s.len() - i && crate::text::occurs_at_exec(s, op, i) {
            return Some(i);
        }
        i += 1;
    }
    None
}

/// Parse the text `v`.
fn parse_chars(v: &Vec<char>) -> (r: Option<LogicalExpression>)
    ensures
        match parse_spec(v@) {
            Some(e) => r matches Some(x) && x@ == e,
            None => r is None,
        },
    decreases v@.len(), 6int,
{
    let t = trim_chars(v.as_slice());
    proof {
        lemma_trim_len(v@);
    }
    let n = t.len();
    if n >= 2 && t[0] == '(' && t[n - 1] == ')' {
        let inner = sub_vec(&t, 1, n - 1);
        return parse_chars(&inner);
    }
    let not_upper = chars_of("NOT ");
    let not_lower = chars_of("not ");
    if n >= 4 && (crate::text::starts_with_chars(t.as_slice(), not_upper.as_slice())
        || crate::text::starts_with_chars(t.as_slice(), not_lower.as_slice())) {
        let rest = sub_vec(&t, 4, n);
        assert(rest@ == t@.skip(4));
        return match parse_chars(&rest) {
            Some(x) => Some(LogicalExpression::Not(Box::new(x))),
            None => None,
        };
    }
    proof {
        if t@.len() > 0 && t@[0] == '(' && t@.last() == ')' {
            assert(t@.len() >= 2);
        }
    }
    parse_binary_chars(&t, 0)
}

/// Parse a trimmed text, trying the binary connectives from number `k` on.
fn parse_binary_chars(t: &Vec<char>, k: usize) -> (r: Option<LogicalExpression>)
    requires
        k <= 3,
    ensures
        match parse_binary(t@, k as int) {
            Some(e) => r matches Some(x) && x@ == e,
            None => r is None,
        },
    decreases t@.len(), 5 - k,
{
    let op = op_chars(k);
    match find_binary_op(t.as_slice(), op.as_slice()) {
        Some(p) => {
            proof {
                lemma_op_index_from_bounds(t@, op@, 0, 0);
                assert(op_index(t@, op@) == Some(p as int));
                assert(p + op@.len() <= t@.len());
            }
            let left = sub_vec(t, 0, p);
            assert(p + op.len() <= t.len());
            let right = sub_vec(t, p + op.len(), t.len());
            assert(left@ == t@.take(p as int));
            assert(right@ == t@.skip(p + op@.len()));
            let l = parse_chars(&left);
            let r = parse_chars(&right);
            match (l, r) {
                (Some(a), Some(b)) => {
                    let (ba, bb) = (Box::new(a), Box::new(b));
                    if k == 0 {
                        Some(LogicalExpression::And(ba, bb))
                    } else if k == 1 {
                        Some(LogicalExpression::Or(ba, bb))
                    } else if k == 2 {
                        Some(LogicalExpression::Implies(ba, bb))
                    } else {
                        Some(LogicalExpression::Equivalent(ba, bb))
                    }
                },
                _ => None,
            }
        },
        None => {
            if k == 3 {
                parse_atom_chars(t)
            } else {
                parse_binary_chars(t, k + 1)
            }
        },
    }
}

/// Whether `t` spells one of the three words.
fn is_one_of(t: &Vec<char>, a: &str, b: &str, c: &str) -> (r: bool)
    ensures
        r == (t@ == a@ || t@ == b@ || t@ == c@),
{
    let av = chars_of(a);
    let bv = chars_of(b);
    let cv = chars_of(c);
    chars_eq(t.as_slice(), av.as_slice()) || chars_eq(t.as_slice(), bv.as_slice()) || chars_eq(
        t.as_slice(),
        cv.as_slice(),
    )
}

/// Parse a trimmed text without a top-level connective.
fn parse_atom_chars(t: &Vec<char>) -> (r: Option<LogicalExpression>)
    ensures
        match parse_atom(t@) {
            Some(e) => r matches Some(x) && x@ == e,
            None => r is None,
        },
    decreases t@.len(), 1int,
{
    if is_one_of(t, "TRUE", "true", "T") {
        return Some(LogicalExpression::Constant(true));
    }
    if is_one_of(t, "FALSE", "false", "F") {
        return Some(LogicalExpression::Constant(false));
    }
    let paren = chars_of("(");
    proof {
        crate::text::lemma_first_occurrence_from(t@, paren@, 0);
    }
    let has_paren = crate::text::find_from(t.as_slice(), paren.as_slice(), 0).is_some();
    let forall_kw = chars_of("FORALL ");
    if crate::text::starts_with_chars(t.as_slice(), forall_kw.as_slice()) && has_paren {
        return parse_quantifier_chars(t, true);
    }
    let exists_kw = chars_of("EXISTS ");
    if crate::text::starts_with_chars(t.as_slice(), exists_kw.as_slice()) && has_paren {
        return parse_quantifier_chars(t, false);
    }
    Some(LogicalExpression::Variable(string_of(t.as_slice())))
}

/// Parse `FORALL v (body)` or `EXISTS v (body)`.
fn parse_quantifier_chars(t: &Vec<char>, forall: bool) -> (r: Option<LogicalExpression>)
    ensures
        match parse_quantifier(t@, forall) {
            Some(e) => r matches Some(x) && x@ == e,
            None => r is None,
        },
    decreases t@.len(), 0int,
{
    let paren = chars_of("(");
    proof {
        crate::text::lemma_first_occurrence_from(t@, paren@, 0);
    }
    match crate::text::find_from(t.as_slice(), paren.as_slice(), 0) {
        Some(p) => {
            if 7 <= p && t.len() >= 2 && p < t.len() - 1 {
                let name_chars = sub_vec(t, 7, p);
                let name = string_of(trim_chars(name_chars.as_slice()).as_slice());
                let inner = sub_vec(t, p + 1, t.len() - 1);
                match parse_chars(&inner) {
                    Some(body) => if forall {
                        Some(LogicalExpression::ForAll(name, Box::new(body)))
                    } else {
                        Some(LogicalExpression::Exists(name, Box::new(body)))
                    },
                    None => None,
                }
            } else {
                None
            }
        },
        None => None,
    }
}

impl LogicalExpression {
    /// Parse from string representation. A quantifier text whose first `(`
    /// is its last character has no body to cut out, anywhere in the text,
    /// and is reported as malformed, with the text.
    pub fn parse(s: &str) -> (r: Result<LogicalExpression, LogicError>)
        ensures
            match parse_spec(s@) {
                Some(e) => r matches Ok(x) && x@ == e,
                None => r matches Err(LogicError::Malformed(t)) && t@ == s@,
            },
    {
        let v = chars_of(s);
        match parse_chars(&v) {
            Some(e) => Ok(e),
            None => Err(LogicError::Malformed(string_of(v.as_slice()))),
        }
    }
}

/// The decimal digit for `d < 10`.
pub open spec fn digit_char(d: nat) -> char {
    if d == 0 {
        '0'
    } else if d == 1 {
        '1'
    } else if d == 2 {
        '2'
    } else if d == 3 {
        '3'
    } else if d == 4 {
        '4'
    } else if d == 5 {
        '5'
    } else if d == 6 {
        '6'
    } else if d == 7 {
        '7'
    } else if d == 8 {
        '8'
    } else {
        '9'
    }
}

/// The decimal spelling of `n`, as `usize`'s `Display` writes it.
pub open spec fn decimal(n: nat) -> Seq<char>
    decreases n,
{
    if n < 10 {
        seq![digit_char(n)]
    } else {
        decimal(n / 10).push(digit_char(n % 10))
    }
}

pub(crate) fn digit_of(d: usize) -> (c: char)
    requires
        d < 10,
    ensures
        c == digit_char(d as nat),
{
    if d == 0 {
        '0'
    } else if d == 1 {
        '1'
    } else if d == 2 {
        '2'
    } else if d == 3 {
        '3'
    } else if d == 4 {
        '4'
    } else if d == 5 {
        '5'
    } else if d == 6 {
        '6'
    } else if d == 7 {
        '7'
    } else if d == 8 {
        '8'
    } else {
        '9'
    }
}

/// Appends the decimal spelling of `n`.
pub fn push_decimal(out: &mut String, n: usize)
    ensures
        final(out)@ == old(out)@ + decimal(n as nat),
    decreases n,
{
    if n >= 10 {
        push_decimal(out, n / 10);
    }
    crate::text::push_char(out, digit_of(n % 10));
    assert(final(out)@ =~= old(out)@ + decimal(n as nat));
}

/// Type of inference rule.
#[derive(Clone, Debug, PartialEq, Eq, Structural)]
pub enum RuleType {
    /// Modus Ponens: A, A implies B, therefore B
    ModusPonens,
    /// Modus Tollens: not B, A implies B, therefore not A
    ModusTollens,
    /// Hypothetical Syllogism: A implies B, B implies C, therefore A implies C
    HypotheticalSyllogism,
    /// Disjunctive Syllogism: A or B, not A, therefore B
    DisjunctiveSyllogism,
    /// Constructive Dilemma: A implies B, C implies D, A or C, therefore B or D
    ConstructiveDilemma,
    /// Universal Instantiation
    UniversalInstantiation,
    /// Universal Generalization
    UniversalGeneralization,
    /// Custom rule
    Custom,
}

/// A logical rule/inference rule.
#[derive(Clone, Debug)]
pub struct InferenceRule {
    /// Rule name
    pub name: String,
    /// Rule description
    pub description: String,
    /// Antecedents (premises)
    pub antecedents: Vec<LogicalExpression>,
    /// Consequent (conclusion)
    pub consequent: LogicalExpression,
    /// Rule type
    pub rule_type: RuleType,
}

/// The views of a list of expressions.
pub open spec fn views(es: Seq<LogicalExpression>) -> Seq<LExpr> {
    es.map_values(|e: LogicalExpression| e@)
}

/// The variable named `A`.
pub open spec fn var_a() -> LExpr {
    LExpr::Var("A"@)
}

/// The variable named `B`.
pub open spec fn var_b() -> LExpr {
    LExpr::Var("B"@)
}

/// The premises of modus ponens: `A` and `A IMPLIES B`.
pub open spec fn modus_ponens_premises() -> Seq<LExpr> {
    seq![var_a(), LExpr::Implies(Box::new(var_a()), Box::new(var_b()))]
}

/// The premises of modus tollens: `NOT B` and `A IMPLIES B`.
pub open spec fn modus_tollens_premises() -> Seq<LExpr> {
    seq![
        LExpr::Not(Box::new(var_b())),
        LExpr::Implies(Box::new(var_a()), Box::new(var_b())),
    ]
}

/// Whether the premise `ant` is established by `facts`: some fact is the
/// premise itself or its negation.
pub open spec fn premise_established(ant: LExpr, facts: Seq<LExpr>) -> bool {
    exists|j: int| 0 <= j < facts.len() && (facts[j] == ant || facts[j] == LExpr::Not(Box::new(ant)))
}

impl InferenceRule {
    /// Create Modus Ponens rule.
    pub fn modus_ponens() -> (r: Self)
        ensures
            r.name@ == "Modus Ponens"@,
            r.description@ == "From A and A→B, infer B"@,
            views(r.antecedents@) == modus_ponens_premises(),
            r.consequent@ == var_b(),
            r.rule_type == RuleType::ModusPonens,
    {
        let a = LogicalExpression::Variable("A".to_owned());
        let b = LogicalExpression::Variable("B".to_owned());
        let implies = LogicalExpression::Implies(Box::new(a.duplicate()), Box::new(b.duplicate()));
        let mut antecedents: Vec<LogicalExpression> = Vec::new();
        antecedents.push(a);
        antecedents.push(implies);
        assert(views(antecedents@) =~= modus_ponens_premises());
        InferenceRule {
            name: "Modus Ponens".to_owned(),
            description: "From A and A→B, infer B".to_owned(),
            antecedents,
            consequent: b,
            rule_type: RuleType::ModusPonens,
        }
    }

    /// Create Modus Tollens rule.
    pub fn modus_tollens() -> (r: Self)
        ensures
            r.name@ == "Modus Tollens"@,
            r.description@ == "From ¬B and A→B, infer ¬A"@,
            views(r.antecedents@) == modus_tollens_premises(),
            r.consequent@ == LExpr::Not(Box::new(var_a())),
            r.rule_type == RuleType::ModusTollens,
    {
        let a = LogicalExpression::Variable("A".to_owned());
        let b = LogicalExpression::Variable("B".to_owned());
        let not_a = LogicalExpression::Not(Box::new(a.duplicate()));
        let not_b = LogicalExpression::Not(Box::new(b.duplicate()));
        let implies = LogicalExpression::Implies(Box::new(a), Box::new(b));
        let mut antecedents: Vec<LogicalExpression> = Vec::new();
        antecedents.push(not_b);
        antecedents.push(implies);
        assert(views(antecedents@) =~= modus_tollens_premises());
        InferenceRule {
            name: "Modus Tollens".to_owned(),
            description: "From ¬B and A→B, infer ¬A".to_owned(),
            antecedents,
            consequent: not_a,
            rule_type: RuleType::ModusTollens,
        }
    }

    /// Create a custom rule.
    pub fn custom(
        name: &str,
        antecedents: Vec<LogicalExpression>,
        consequent: LogicalExpression,
    ) -> (r: Self)
        ensures
            r.name@ == name@,
            r.description@ == "Custom rule: "@ + decimal(antecedents@.len()) + " antecedents"@,
            r.antecedents@ == antecedents@,
            r.consequent == consequent,
            r.rule_type == RuleType::Custom,
    {
        let mut description = String::new();
        push_str(&mut description, "Custom rule: ");
        push_decimal(&mut description, antecedents.len());
        push_str(&mut description, " antecedents");
        InferenceRule {
            name: name.to_owned(),
            description,
            antecedents,
            consequent,
            rule_type: RuleType::Custom,
        }
    }

    /// Check if this rule matches the given facts: every antecedent is a fact,
    /// or the negation of one is.
    pub fn matches(&self, facts: &Vec<LogicalExpression>) -> (r: bool)
        ensures
            r == forall|i: int|
                0 <= i < self.antecedents@.len() ==> premise_established(
                    #[trigger] self.antecedents@[i]@,
                    views(facts@),
                ),
    {
        let mut i: usize = 0;
        while i < self.antecedents.len()
            invariant
                i <= self.antecedents@.len(),
                forall|k: int|
                    0 <= k < i ==> premise_established(
                        #[trigger] self.antecedents@[k]@,
                        views(facts@),
                    ),
            decreases self.antecedents.len() - i,
        {
            if !self.unifies(&self.antecedents[i], facts) {
                return false;
            }
            i += 1;
        }
        true
    }

    /// Whether some fact is `ant` or its negation.
    fn unifies(&self, ant: &LogicalExpression, facts: &Vec<LogicalExpression>) -> (r: bool)
        ensures
            r == premise_established(ant@, views(facts@)),
    {
        let mut j: usize = 0;
        while j < facts.len()
            invariant
                j <= facts@.len(),
                forall|k: int|
                    0 <= k < j ==> !(#[trigger] facts@[k]@ == ant@ || facts@[k]@ == LExpr::Not(
                        Box::new(ant@),
                    )),
            decreases facts.len() - j,
        {
            let fact = &facts[j];
            if fact.same(ant) {
                assert(views(facts@)[j as int] == fact@);
                return true;
            }
            match fact {
                LogicalExpression::Not(f) => {
                    if f.same(ant) {
                        assert(views(facts@)[j as int] == fact@);
                        return true;
                    }
                },
                _ => {},
            }
            j += 1;
        }
        proof {
            assert forall|k: int| 0 <= k < views(facts@).len() implies !(views(facts@)[k] == ant@
                || views(facts@)[k] == LExpr::Not(Box::new(ant@))) by {
                assert(views(facts@)[k] == facts@[k]@);
            }
        }
        false
    }
}

/// Milliseconds since the Unix epoch, from the system clock (0 if the clock
/// reads before the epoch). Calls `SystemTime::now` and `duration_since`;
/// the result depends on the clock, so nothing is stated of it.
#[verifier::external_body]
fn now_millis() -> u64 {
    std::time::SystemTime::now().duration_since(std::time::UNIX_EPOCH).map(|d| d.as_millis() as u64).unwrap_or(0)
}

/// A proof step in a reasoning chain.
#[derive(Clone, Debug)]
pub struct ProofStep {
    /// Step number
    pub step_number: usize,
    /// Expression derived at this step
    pub expression: LogicalExpression,
    /// Rule used to derive this step
    pub rule_name: String,
    /// Antecedents used for this step (indices of previous steps)
    pub antecedents: Vec<usize>,
    /// Justification text
    pub justification: String,
    /// Timestamp (milliseconds since the Unix epoch)
    pub timestamp: u64,
}

impl ProofStep {
    /// Create a new proof step, stamped with the current time.
    pub fn new(
        step_number: usize,
        expression: LogicalExpression,
        rule: &InferenceRule,
        antecedents: Vec<usize>,
    ) -> (r: Self)
        ensures
            r.step_number == step_number,
            r.expression == expression,
            r.rule_name@ == rule.name@,
            r.antecedents@ == antecedents@,
            r.justification@ == rule.description@,
    {
        ProofStep {
            step_number,
            expression,
            rule_name: rule.name.clone(),
            antecedents,
            justification: rule.description.clone(),
            timestamp: now_millis(),
        }
    }
}

/// Whether a chain of proof steps is well-founded: it is not empty and every
/// step cites only antecedents numbered below its own number.
pub open spec fn steps_well_founded(steps: Seq<ProofStep>) -> bool {
    steps.len() > 0 && forall|i: int, k: int|
        0 <= i < steps.len() && 0 <= k < steps[i].antecedents@.len() ==> #[trigger] steps[i].antecedents@[k]
            < steps[i].step_number
}

/// A proof verifies step by step: no empty proof verifies; appending a step
/// whose antecedents all come before it keeps a verified proof verified, and
/// makes a one-step proof of it alone verify; and a step that cites itself
/// or a later step makes any proof that holds it fail.
pub proof fn proofs_grow_by_well_founded_steps(steps: Seq<ProofStep>, step: ProofStep, k: int)
    ensures
        !steps_well_founded(Seq::<ProofStep>::empty()),
        (steps.len() == 0 || steps_well_founded(steps)) && (forall|j: int|
            0 <= j < step.antecedents@.len() ==> #[trigger] step.antecedents@[j] < step.step_number)
            ==> steps_well_founded(steps.push(step)),
        0 <= k < step.antecedents@.len() && step.antecedents@[k] >= step.step_number ==> !steps_well_founded(
            steps.push(step),
        ),
{
    let t = steps.push(step);
    assert(t[t.len() - 1] == step);
    if 0 <= k < step.antecedents@.len() && step.antecedents@[k] >= step.step_number {
        assert(t[steps.len() as int].antecedents@[k] >= t[steps.len() as int].step_number);
    }
    assert forall|i: int| 0 <= i < steps.len() implies t[i] == steps[i] by {}
}

/// Verify the steps of a proof chain: they must not be empty, and each step's
/// antecedents must come before it.
pub fn verify_proof_steps(steps: &[ProofStep]) -> (r: bool)
    ensures
        r == steps_well_founded(steps@),
{
    if steps.len() == 0 {
        return false;
    }
    let mut i: usize = 0;
    while i < steps.len()
        invariant
            i <= steps@.len(),
            forall|a: int, k: int|
                0 <= a < i && 0 <= k < steps@[a].antecedents@.len() ==> #[trigger] steps@[a].antecedents@[k]
                    < steps@[a].step_number,
        decreases steps.len() - i,
    {
        let step = &steps[i];
        let mut k: usize = 0;
        while k < step.antecedents.len()
            invariant
                i < steps@.len(),
                step == steps@[i as int],
                k <= step.antecedents@.len(),
                forall|a: int, kk: int|
                    0 <= a < i && 0 <= kk < steps@[a].antecedents@.len() ==> #[trigger] steps@[a].antecedents@[kk]
                        < steps@[a].step_number,
                forall|kk: int| 0 <= kk < k ==> #[trigger] step.antecedents@[kk] < step.step_number,
            decreases step.antecedents.len() - k,
        {
            if step.antecedents[k] >= step.step_number {
                return false;
            }
            k += 1;
        }
        i += 1;
    }
    true
}

/// Evaluation succeeds whenever every variable of the expression has a value.
pub proof fn evaluation_defined_when_variables_assigned(e: LExpr, ctx: Map<Seq<char>, bool>)
    requires
        vars(e).subset_of(ctx.dom()),
    ensures
        eval(e, ctx) is Some,
    decreases e,
{
    match e {
        LExpr::Var(v) => {
            assert(vars(e).contains(v));
        },
        LExpr::Not(x) => evaluation_defined_when_variables_assigned(*x, ctx),
        LExpr::And(l, r) => {
            evaluation_defined_when_variables_assigned(*l, ctx);
            evaluation_defined_when_variables_assigned(*r, ctx);
        },
        LExpr::Or(l, r) => {
            evaluation_defined_when_variables_assigned(*l, ctx);
            evaluation_defined_when_variables_assigned(*r, ctx);
        },
        LExpr::Implies(l, r) => {
            evaluation_defined_when_variables_assigned(*l, ctx);
            evaluation_defined_when_variables_assigned(*r, ctx);
        },
        LExpr::Equiv(l, r) => {
            evaluation_defined_when_variables_assigned(*l, ctx);
            evaluation_defined_when_variables_assigned(*r, ctx);
        },
        _ => {},
    }
}

/// Whether two assignments agree on the names in `names`: each name is
/// assigned in both or in neither, with the same value.
pub open spec fn agree_on(names: Set<Seq<char>>, c1: Map<Seq<char>, bool>, c2: Map<Seq<char>, bool>) -> bool {
    forall|v: Seq<char>|
        #[trigger] names.contains(v) ==> (c1.contains_key(v) == c2.contains_key(v) && (
        c1.contains_key(v) ==> c1[v] == c2[v]))
}

proof fn lemma_agree_subset(
    a: Set<Seq<char>>,
    b: Set<Seq<char>>,
    c1: Map<Seq<char>, bool>,
    c2: Map<Seq<char>, bool>,
)
    requires
        agree_on(b, c1, c2),
        a.subset_of(b),
    ensures
        agree_on(a, c1, c2),
{
    assert forall|v: Seq<char>| #[trigger] a.contains(v) implies (c1.contains_key(v) == c2.contains_key(v)
        && (c1.contains_key(v) ==> c1[v] == c2[v])) by {
        assert(b.contains(v));
    }
}

/// The value of an expression depends only on the values of its variables.
pub proof fn evaluation_depends_only_on_variables(
    e: LExpr,
    c1: Map<Seq<char>, bool>,
    c2: Map<Seq<char>, bool>,
)
    requires
        agree_on(vars(e), c1, c2),
    ensures
        eval(e, c1) == eval(e, c2),
    decreases e,
{
    match e {
        LExpr::Var(v) => {
            assert(vars(e).contains(v));
        },
        LExpr::Not(x) => evaluation_depends_only_on_variables(*x, c1, c2),
        LExpr::And(l, r) => {
            lemma_agree_subset(vars(*l), vars(e), c1, c2);
            lemma_agree_subset(vars(*r), vars(e), c1, c2);
            evaluation_depends_only_on_variables(*l, c1, c2);
            evaluation_depends_only_on_variables(*r, c1, c2);
        },
        LExpr::Or(l, r) => {
            lemma_agree_subset(vars(*l), vars(e), c1, c2);
            lemma_agree_subset(vars(*r), vars(e), c1, c2);
            evaluation_depends_only_on_variables(*l, c1, c2);
            evaluation_depends_only_on_variables(*r, c1, c2);
        },
        LExpr::Implies(l, r) => {
            lemma_agree_subset(vars(*l), vars(e), c1, c2);
            lemma_agree_subset(vars(*r), vars(e), c1, c2);
            evaluation_depends_only_on_variables(*l, c1, c2);
            evaluation_depends_only_on_variables(*r, c1, c2);
        },
        LExpr::Equiv(l, r) => {
            lemma_agree_subset(vars(*l), vars(e), c1, c2);
            lemma_agree_subset(vars(*r), vars(e), c1, c2);
            evaluation_depends_only_on_variables(*l, c1, c2);
            evaluation_depends_only_on_variables(*r, c1, c2);
        },
        LExpr::ForAll(_, x) => {},
        LExpr::Exists(_, x) => {},
        LExpr::Const(_) => {},
    }
}

/// Modus ponens is sound: under every assignment that makes its premises
/// true, its conclusion is true.
pub proof fn modus_ponens_is_sound(ctx: Map<Seq<char>, bool>)
    ensures
        eval(modus_ponens_premises()[0], ctx) == Some(true) && eval(modus_ponens_premises()[1], ctx)
            == Some(true) ==> eval(var_b(), ctx) == Some(true),
{
}

/// Modus tollens is sound: under every assignment that makes its premises
/// true, its conclusion is true.
pub proof fn modus_tollens_is_sound(ctx: Map<Seq<char>, bool>)
    ensures
        eval(modus_tollens_premises()[0], ctx) == Some(true) && eval(modus_tollens_premises()[1], ctx)
            == Some(true) ==> eval(LExpr::Not(Box::new(var_a())), ctx) == Some(true),
{
}

/// A variable name that reads back as itself: not empty, without whitespace
/// or parentheses, and not a constant's spelling or `NOT`.
pub open spec fn simple_name(v: Seq<char>) -> bool {
    &&& v.len() > 0
    &&& forall|i: int| 0 <= i < v.len() ==> !is_ws(#[trigger] v[i]) && v[i] != '(' && v[i] != ')'
    &&& v != "TRUE"@ && v != "true"@ && v != "T"@
    &&& v != "FALSE"@ && v != "false"@ && v != "F"@
    &&& v != "NOT"@ && v != "not"@
}

/// A variable with a simple name, or a constant.
pub open spec fn atomic(e: LExpr) -> bool {
    match e {
        LExpr::Var(v) => simple_name(v),
        LExpr::Const(_) => true,
        _ => false,
    }
}

proof fn lemma_trim_id(s: Seq<char>)
    requires
        s.len() > 0,
        !is_ws(s[0]),
        !is_ws(s.last()),
    ensures
        trim(s) == s,
{
    assert(trim_start(s) == s);
    assert(trim_end(s) == s);
}

/// Without parentheses from `i` on, the operator search at depth 0 finds
/// the first occurrence from `i`.
proof fn lemma_op_index_flat(s: Seq<char>, op: Seq<char>, i: int)
    requires
        0 <= i <= s.len(),
        forall|q: int| i <= q < s.len() ==> s[q] != '(' && s[q] != ')',
    ensures
        match op_index_from(s, op, i, 0) {
            Some(p) => i <= p && p + op.len() <= s.len() && s.subrange(p, p + op.len()) == op && forall|q: int|
                i <= q < p ==> !(q + op.len() <= s.len() && #[trigger] s.subrange(q, q + op.len()) == op),
            None => forall|q: int| i <= q < s.len() ==> !(q + op.len() <= s.len() && #[trigger] s.subrange(q, q + op.len()) == op),
        },
    decreases s.len() - i,
{
    if i < s.len() {
        lemma_op_index_flat(s, op, i + 1);
    }
}

/// A text without whitespace or parentheses has no operator in it.
proof fn lemma_no_operator(t: Seq<char>, k: int)
    requires
        0 <= k <= 3,
        forall|i: int| 0 <= i < t.len() ==> !is_ws(#[trigger] t[i]) && t[i] != '(' && t[i] != ')',
    ensures
        op_index(t, op_text(k)) is None,
{
    lemma_op_index_flat(t, op_text(k), 0);
    assert(is_ws(' '));
    match op_index(t, op_text(k)) {
        Some(p) => {
            assert(t.subrange(p, p + op_text(k).len())[0] == t[p]);
        },
        None => {},
    }
}

/// A text without whitespace or parentheses reads as an atom.
proof fn lemma_plain_text(t: Seq<char>)
    requires
        t.len() > 0,
        forall|i: int| 0 <= i < t.len() ==> !is_ws(#[trigger] t[i]) && t[i] != '(' && t[i] != ')',
    ensures
        parse_spec(t) == parse_atom(t),
        !is_prefix("FORALL "@, t),
        !is_prefix("EXISTS "@, t),
{
    lemma_trim_id(t);
    assert(trim(t) == t);
    assert(t[0] != '(');
    reveal_strlit("NOT ");
    reveal_strlit("not ");
    reveal_strlit("FORALL ");
    reveal_strlit("EXISTS ");
    assert(is_ws(' '));
    if t.len() >= 4 {
        assert(t.subrange(0, 4)[3] == t[3]);
        assert(!is_prefix("NOT "@, t));
        assert(!is_prefix("not "@, t));
    }
    lemma_no_operator(t, 0);
    lemma_no_operator(t, 1);
    lemma_no_operator(t, 2);
    lemma_no_operator(t, 3);
    if t.len() >= 7 {
        assert(t.subrange(0, 7)[6] == t[6]);
    }
    assert(!is_prefix("FORALL "@, t));
    assert(!is_prefix("EXISTS "@, t));
    assert(parse_binary(t, 3) == parse_atom(t));
    assert(parse_binary(t, 2) == parse_binary(t, 3));
    assert(parse_binary(t, 1) == parse_binary(t, 2));
    assert(parse_binary(t, 0) == parse_binary(t, 1));
}

/// An atom's text reads back as the atom.
proof fn lemma_atom_reads_back(e: LExpr)
    requires
        atomic(e),
    ensures
        parse_spec(show(e)) == Some(e),
{
    reveal_strlit("TRUE");
    reveal_strlit("FALSE");
    reveal_strlit("true");
    reveal_strlit("false");
    reveal_strlit("T");
    reveal_strlit("F");
    match e {
        LExpr::Var(v) => {
            lemma_plain_text(v);
        },
        LExpr::Const(b) => {
            let t = show(e);
            assert forall|i: int| 0 <= i < t.len() implies !is_ws(#[trigger] t[i]) && t[i] != '(' && t[i] != ')' by {
                if b {
                    assert(t == seq!['T', 'R', 'U', 'E']);
                } else {
                    assert(t == seq!['F', 'A', 'L', 'S', 'E']);
                }
            }
            lemma_plain_text(t);
        },
        _ => {},
    }
}

/// Not empty, without whitespace or parentheses.
pub open spec fn plain(t: Seq<char>) -> bool {
    t.len() > 0 && forall|i: int| 0 <= i < t.len() ==> !is_ws(#[trigger] t[i]) && t[i] != '(' && t[i] != ')'
}

proof fn lemma_atom_plain(e: LExpr)
    requires
        atomic(e),
    ensures
        plain(show(e)),
        show(e) != "NOT"@,
        show(e) != "not"@,
{
    reveal_strlit("TRUE");
    reveal_strlit("FALSE");
    reveal_strlit("NOT");
    reveal_strlit("not");
    match e {
        LExpr::Const(b) => {
            let t = show(e);
            if b {
                assert(t == seq!['T', 'R', 'U', 'E']);
            } else {
                assert(t == seq!['F', 'A', 'L', 'S', 'E']);
            }
            assert forall|i: int| 0 <= i < t.len() implies !is_ws(#[trigger] t[i]) && t[i] != '(' && t[i] != ')' by {
                if b {
                    assert(t == seq!['T', 'R', 'U', 'E']);
                } else {
                    assert(t == seq!['F', 'A', 'L', 'S', 'E']);
                }
            }
            assert(t.len() != 3);
        },
        _ => {},
    }
}

/// The only spaces of an operator's text are its first and last characters.
proof fn lemma_op_text_shape(k: int)
    requires
        0 <= k <= 3,
    ensures
        op_text(k).len() == if k == 0 {
            5int
        } else if k == 1 {
            4int
        } else if k == 2 {
            9int
        } else {
            7int
        },
        op_text(k)[0] == ' ',
        op_text(k).last() == ' ',
        op_text(k)[1] == 'A' || op_text(k)[1] == 'O' || op_text(k)[1] == 'I' || op_text(k)[1] == 'E',
        forall|i: int| 0 < i < op_text(k).len() - 1 ==> !is_ws(#[trigger] op_text(k)[i]) && op_text(k)[i] != '(' && op_text(k)[i] != ')',
{
}

/// Text that starts with a plain word other than `NOT`/`not`, then a space,
/// is not negated.
proof fn lemma_not_negated(a: Seq<char>, rest: Seq<char>)
    requires
        plain(a),
        a != "NOT"@,
        a != "not"@,
        rest.len() > 0,
        rest[0] == ' ',
    ensures
        !is_prefix("NOT "@, a + rest),
        !is_prefix("not "@, a + rest),
{
    reveal_strlit("NOT ");
    reveal_strlit("not ");
    reveal_strlit("NOT");
    reveal_strlit("not");
    assert(is_ws(' '));
    let t = a + rest;
    assert("NOT "@ == seq!['N', 'O', 'T', ' ']);
    assert("not "@ == seq!['n', 'o', 't', ' ']);
    if t.len() >= 4 {
        let head = t.subrange(0, 4);
        if a.len() >= 4 {
            assert(head[3] == a[3]);
        } else if a.len() == 3 {
            assert(head[0] == a[0] && head[1] == a[1] && head[2] == a[2]);
            if head == "NOT "@ {
                assert(a =~= "NOT"@);
            }
            if head == "not "@ {
                assert(a =~= "not"@);
            }
        } else {
            let m = a.len() as int;
            assert(head[m] == rest[0]);
        }
    }
}

/// Text of the form `(x)` reads as `x` does.
proof fn lemma_parenthesised(x: Seq<char>)
    ensures
        parse_spec("("@ + x + ")"@) == parse_spec(x),
{
    reveal_strlit("(");
    reveal_strlit(")");
    let s = "("@ + x + ")"@;
    assert(s[0] == '(' && s.last() == ')');
    lemma_trim_id(s);
    assert(s.subrange(1, s.len() - 1) =~= x);
}

/// Whether an expression is a binary connective.
pub open spec fn is_connective(e: LExpr) -> bool {
    e is And || e is Or || e is Implies || e is Equiv
}

/// The connective number and operands of a binary connective.
pub open spec fn connective_parts(e: LExpr) -> (int, LExpr, LExpr) {
    match e {
        LExpr::And(l, r) => (0, *l, *r),
        LExpr::Or(l, r) => (1, *l, *r),
        LExpr::Implies(l, r) => (2, *l, *r),
        LExpr::Equiv(l, r) => (3, *l, *r),
        _ => (0, e, e),
    }
}

/// Expressions without quantifiers whose variables are plain words.
pub open spec fn plain_shaped(e: LExpr) -> bool
    decreases e,
{
    match e {
        LExpr::Var(v) => plain(v),
        LExpr::Const(_) => true,
        LExpr::Not(x) => plain_shaped(*x),
        LExpr::And(l, r) | LExpr::Or(l, r) | LExpr::Implies(l, r) | LExpr::Equiv(l, r) => plain_shaped(*l) && plain_shaped(
            *r,
        ),
        _ => false,
    }
}

/// Expressions whose text reads back as themselves: variables with simple
/// names and constants, negations of such expressions, and connectives
/// whose left operand is no negation, and which do not have a connective on
/// the left and a connective or negation on the right.
pub open spec fn readable(e: LExpr) -> bool
    decreases e,
{
    match e {
        LExpr::Var(_) | LExpr::Const(_) => atomic(e),
        LExpr::Not(x) => readable(*x),
        LExpr::And(l, r) | LExpr::Or(l, r) | LExpr::Implies(l, r) | LExpr::Equiv(l, r) => {
            &&& readable(*l)
            &&& readable(*r)
            &&& !(*l is Not)
            &&& !(is_connective(*l) && (is_connective(*r) || *r is Not))
        },
        _ => false,
    }
}

proof fn lemma_readable_shaped(e: LExpr)
    requires
        readable(e),
    ensures
        plain_shaped(e),
    decreases e,
{
    match e {
        LExpr::Not(x) => lemma_readable_shaped(*x),
        LExpr::And(l, r) | LExpr::Or(l, r) | LExpr::Implies(l, r) | LExpr::Equiv(l, r) => {
            lemma_readable_shaped(*l);
            lemma_readable_shaped(*r);
        },
        LExpr::Var(v) => {},
        _ => {},
    }
}

/// The first and last characters of an expression's text.
proof fn lemma_show_ends(e: LExpr)
    requires
        plain_shaped(e),
    ensures
        show(e).len() > 0,
        is_connective(e) ==> show(e)[0] == '(' && show(e).last() == ')',
        e is Not ==> show(e)[0] == 'N' && show(e).last() == ')',
        (e is Var || e is Const) ==> plain(show(e)),
        !is_ws(show(e)[0]),
        !is_ws(show(e).last()),
{
    reveal_strlit("(");
    reveal_strlit(")");
    reveal_strlit("NOT (");
    reveal_strlit("TRUE");
    reveal_strlit("FALSE");
    assert(!is_ws('(') && !is_ws(')') && !is_ws('N'));
    match e {
        LExpr::Const(b) => {
            if b {
                assert(show(e) == seq!['T', 'R', 'U', 'E']);
            } else {
                assert(show(e) == seq!['F', 'A', 'L', 'S', 'E']);
            }
            assert forall|i: int| 0 <= i < show(e).len() implies !is_ws(#[trigger] show(e)[i]) && show(e)[i] != '(' && show(e)[i] != ')' by {
                if b {
                    assert(show(e) == seq!['T', 'R', 'U', 'E']);
                } else {
                    assert(show(e) == seq!['F', 'A', 'L', 'S', 'E']);
                }
            }
        },
        _ => {},
    }
}

/// Scanning plain characters at one depth, with no match of `op` where the
/// depth is zero, moves on without finding anything.
proof fn lemma_skip(s: Seq<char>, op: Seq<char>, q: int, end: int, d: int)
    requires
        0 <= q <= end <= s.len(),
        forall|t: int| q <= t < end ==> #[trigger] s[t] != '(' && s[t] != ')',
        d == 0 ==> forall|t: int| q <= t < end ==> !(t + op.len() <= s.len() && #[trigger] s.subrange(t, t + op.len()) == op),
    ensures
        op_index_from(s, op, q, d) == op_index_from(s, op, end, d),
    decreases end - q,
{
    if q < end {
        lemma_skip(s, op, q + 1, end, d);
    }
}

/// Whether `op` can be searched for across expression texts: it starts with
/// a space followed by no parenthesis.
pub open spec fn searchable(op: Seq<char>) -> bool {
    op.len() >= 2 && op[0] == ' ' && op[1] != '('
}

/// Scanning across an expression's text from depth `d` finds no operator
/// and comes back to depth `d`.
proof fn lemma_scan(e: LExpr, s: Seq<char>, op: Seq<char>, o: int, d: int)
    requires
        plain_shaped(e),
        searchable(op),
        0 <= o,
        o + show(e).len() <= s.len(),
        s.subrange(o, o + show(e).len()) == show(e),
        d >= 0,
    ensures
        op_index_from(s, op, o, d) == op_index_from(s, op, o + show(e).len(), d),
    decreases e, 1int,
{
    match e {
        LExpr::Var(_) | LExpr::Const(_) => lemma_scan_atom(e, s, op, o, d),
        LExpr::Not(x) => lemma_scan_not(e, s, op, o, d),
        _ => lemma_scan_connective(e, s, op, o, d),
    }
}

proof fn lemma_scan_atom(e: LExpr, s: Seq<char>, op: Seq<char>, o: int, d: int)
    requires
        e is Var || e is Const,
        plain_shaped(e),
        searchable(op),
        0 <= o,
        o + show(e).len() <= s.len(),
        s.subrange(o, o + show(e).len()) == show(e),
        d >= 0,
    ensures
        op_index_from(s, op, o, d) == op_index_from(s, op, o + show(e).len(), d),
{
    assert(is_ws(' '));
    let w = show(e);
    let n = w.len() as int;
    lemma_show_ends(e);
    assert forall|t: int| o <= t < o + n implies #[trigger] s[t] == w[t - o] by {
        assert(s.subrange(o, o + n)[t - o] == s[t]);
    }
    assert forall|t: int| o <= t < o + n implies !(t + op.len() <= s.len() && #[trigger] s.subrange(t, t + op.len()) == op) by {
        if t + op.len() <= s.len() {
            assert(s.subrange(t, t + op.len())[0] == s[t]);
            assert(s[t] == w[t - o]);
        }
    }
    assert forall|t: int| o <= t < o + n implies #[trigger] s[t] != '(' && s[t] != ')' by {
        assert(s[t] == w[t - o]);
    }
    lemma_skip(s, op, o, o + n, d);
}

#[verifier::spinoff_prover]
#[verifier::rlimit(40)]
proof fn lemma_scan_not(e: LExpr, s: Seq<char>, op: Seq<char>, o: int, d: int)
    requires
        e is Not,
        plain_shaped(e),
        searchable(op),
        0 <= o,
        o + show(e).len() <= s.len(),
        s.subrange(o, o + show(e).len()) == show(e),
        d >= 0,
    ensures
        op_index_from(s, op, o, d) == op_index_from(s, op, o + show(e).len(), d),
    decreases e, 0int,
{
    reveal_strlit(")");
    reveal_strlit("NOT (");
    let x = match e {
        LExpr::Not(x) => *x,
        _ => e,
    };
    let w = show(e);
    let n = w.len() as int;
    let xs = show(x);
    assert(w =~= "NOT ("@ + xs + ")"@);
    assert forall|t: int| o <= t < o + n implies #[trigger] s[t] == w[t - o] by {
        assert(s.subrange(o, o + n)[t - o] == s[t]);
    }
    assert(s[o] == 'N' && s[o + 1] == 'O' && s[o + 2] == 'T' && s[o + 3] == ' ' && s[o + 4] == '(');
    assert forall|t: int| o <= t < o + 4 implies !(t + op.len() <= s.len() && #[trigger] s.subrange(t, t + op.len()) == op) by {
        if t + op.len() <= s.len() {
            assert(s.subrange(t, t + op.len())[0] == s[t]);
            assert(s.subrange(t, t + op.len())[1] == s[t + 1]);
        }
    }
    assert forall|t: int| o <= t < o + 4 implies #[trigger] s[t] != '(' && s[t] != ')' by {}
    lemma_skip(s, op, o, o + 4, d);
    assert(s.subrange(o + 5, o + 5 + xs.len()) =~= xs) by {
        assert forall|t: int| 0 <= t < xs.len() implies s.subrange(o + 5, o + 5 + xs.len())[t] == xs[t] by {
            assert(s[o + 5 + t] == w[5 + t]);
        }
    }
    lemma_scan(x, s, op, o + 5, d + 1);
    assert(s[o + 5 + xs.len()] == w[5 + xs.len() as int]);
    assert(s[o + 5 + xs.len()] == ')');
}

proof fn lemma_sub_of_sub(s: Seq<char>, o: int, w: Seq<char>, a: int, len: int)
    requires
        0 <= o,
        o + w.len() <= s.len(),
        s.subrange(o, o + w.len()) == w,
        0 <= a,
        0 <= len,
        a + len <= w.len(),
    ensures
        s.subrange(o + a, o + a + len) == w.subrange(a, a + len),
{
    assert(s.subrange(o + a, o + a + len) =~= s.subrange(o, o + w.len()).subrange(a, a + len));
}

proof fn lemma_scan_connective(e: LExpr, s: Seq<char>, op: Seq<char>, o: int, d: int)
    requires
        is_connective(e),
        plain_shaped(e),
        searchable(op),
        0 <= o,
        o + show(e).len() <= s.len(),
        s.subrange(o, o + show(e).len()) == show(e),
        d >= 0,
    ensures
        op_index_from(s, op, o, d) == op_index_from(s, op, o + show(e).len(), d),
    decreases e, 0int,
{
    reveal_strlit("(");
    reveal_strlit(")");
    let (k, l, r) = connective_parts(e);
    let w = show(e);
    let ls = show(l);
    let rs = show(r);
    let opk = op_text(k);
    lemma_op_text_shape(k);
    lemma_connective_text(e);
    assert(plain_shaped(l) && plain_shaped(r));
    let n = w.len() as int;
    let ln = ls.len() as int;
    let a = o + 1 + ln;
    let b = a + opk.len();
    assert(w.subrange(0, 1) =~= seq!['(']);
    assert(w.subrange(1, 1 + ln) =~= ls);
    assert(w.subrange(1 + ln, 1 + ln + opk.len()) =~= opk);
    assert(w.subrange(b - o, b - o + rs.len()) =~= rs);
    assert(w.subrange(n - 1, n) =~= seq![')']);
    lemma_sub_of_sub(s, o, w, 0, 1);
    lemma_sub_of_sub(s, o, w, 1, ls.len() as int);
    lemma_sub_of_sub(s, o, w, 1 + ln, opk.len() as int);
    lemma_sub_of_sub(s, o, w, b - o, rs.len() as int);
    lemma_sub_of_sub(s, o, w, n - 1, 1);
    assert(s[o] == s.subrange(o, o + 1)[0]);
    assert(s[b + rs.len()] == s.subrange(o + n - 1, o + n)[0]);
    lemma_scan(l, s, op, o + 1, d + 1);
    assert forall|t: int| a <= t < b implies #[trigger] s[t] != '(' && s[t] != ')' by {
        assert(s[t] == s.subrange(a, b)[t - a]);
    }
    lemma_skip(s, op, a, b, d + 1);
    lemma_scan(r, s, op, b, d + 1);
}

/// The text of a connective: its operands and operator in parentheses.
proof fn lemma_connective_text(e: LExpr)
    requires
        is_connective(e),
    ensures
        show(e) == "("@ + show(connective_parts(e).1) + op_text(connective_parts(e).0) + show(connective_parts(e).2) + ")"@,
        show(e)[0] == '(',
        show(e).last() == ')',
        show(e).len() == show(connective_parts(e).1).len() + op_text(connective_parts(e).0).len() + show(
            connective_parts(e).2,
        ).len() + 2,
{
    reveal_strlit("(");
    reveal_strlit(")");
    reveal_strlit(" AND ");
    reveal_strlit(" OR ");
    reveal_strlit(" IMPLIES ");
    reveal_strlit(" EQUIV ");
    assert(" AND "@ =~= op_text(0));
    assert(" OR "@ =~= op_text(1));
    assert(" IMPLIES "@ =~= op_text(2));
    assert(" EQUIV "@ =~= op_text(3));
}

/// In the inner text `l op r` of a readable connective, the first operator
/// `op_text(j)` at depth zero is the connective's own, right after `l`.
proof fn lemma_inner_operator(e: LExpr, j: int)
    requires
        is_connective(e),
        readable(e),
        0 <= j <= 3,
    ensures
        ({
            let (k, l, r) = connective_parts(e);
            let inner = show(l) + op_text(k) + show(r);
            op_index(inner, op_text(j)) == if j == k {
                Some(show(l).len() as int)
            } else {
                None::<int>
            }
        }),
{
    reveal_strlit("NOT (");
    let (k, l, r) = connective_parts(e);
    let ls = show(l);
    let rs = show(r);
    let opk = op_text(k);
    let opj = op_text(j);
    let inner = ls + opk + rs;
    lemma_op_text_shape(k);
    lemma_op_text_shape(j);
    lemma_readable_shaped(e);
    assert(plain_shaped(l) && plain_shaped(r));
    lemma_show_ends(l);
    lemma_show_ends(r);
    assert(is_ws(' '));
    let m = ls.len() as int;
    let n = opk.len() as int;
    assert(searchable(opj));
    assert(inner.subrange(0, m) =~= ls);
    lemma_scan(l, inner, opj, 0, 0);
    assert(inner.subrange(m, m + n) =~= opk);
    assert forall|t: int| m <= t < m + n implies #[trigger] inner[t] == opk[t - m] by {}
    if j == k {
        assert(op_index_from(inner, opj, m, 0) == Some(m));
    } else {
        // No match where the connective's operator starts.
        if m + opj.len() <= inner.len() && inner.subrange(m, m + opj.len()) == opj {
            if opj.len() < n {
                assert(inner.subrange(m, m + opj.len())[opj.len() - 1] == inner[m + opj.len() - 1]);
            } else if opj.len() > n {
                assert(inner.subrange(m, m + opj.len())[n - 1] == inner[m + n - 1]);
            }
        }
        assert(op_index_from(inner, opj, m, 0) == op_index_from(inner, opj, m + 1, 0));
        // Nor anywhere else in the operator: letters, then its last space,
        // which is followed by the right operand.
        let p = m + n - 1;
        assert(inner[p + 1] == rs[0]);
        if p + opj.len() <= inner.len() && inner.subrange(p, p + opj.len()) == opj {
            assert(inner.subrange(p, p + opj.len())[1] == inner[p + 1]);
            if r is Var || r is Const {
                assert(inner.subrange(p, p + opj.len())[opj.len() - 1] == inner[p + opj.len() - 1]);
                assert(inner[p + opj.len() - 1] == rs[opj.len() - 2]);
            }
        }
        assert forall|t: int| m + 1 <= t < m + n implies !(t + opj.len() <= inner.len() && #[trigger] inner.subrange(t, t + opj.len()) == opj) by {
            if t + opj.len() <= inner.len() && inner.subrange(t, t + opj.len()) == opj {
                assert(inner.subrange(t, t + opj.len())[0] == inner[t]);
                if t < p {
                    assert(inner[t] == opk[t - m]);
                }
            }
        }
        assert forall|t: int| m + 1 <= t < m + n implies #[trigger] inner[t] != '(' && inner[t] != ')' by {}
        lemma_skip(inner, opj, m + 1, m + n, 0);
        assert(inner.subrange(m + n, m + n + rs.len()) =~= rs);
        lemma_scan(r, inner, opj, m + n, 0);
    }
}

/// The text of a readable connective reads back as it, given that its
/// operands do.
proof fn lemma_readable_connective(e: LExpr)
    requires
        is_connective(e),
        readable(e),
        parse_spec(show(connective_parts(e).1)) == Some(connective_parts(e).1),
        parse_spec(show(connective_parts(e).2)) == Some(connective_parts(e).2),
    ensures
        parse_spec(show(e)) == Some(e),
{
    reveal_strlit("NOT ");
    reveal_strlit("not ");
    reveal_strlit("(");
    reveal_strlit(")");
    let (k, l, r) = connective_parts(e);
    let ls = show(l);
    let rs = show(r);
    let opk = op_text(k);
    let inner = ls + opk + rs;
    lemma_op_text_shape(k);
    lemma_readable_shaped(e);
    assert(readable(l) && readable(r) && !(l is Not) && !(is_connective(l) && (is_connective(r) || r is Not))) by {
        match e {
            LExpr::And(a, b) | LExpr::Or(a, b) | LExpr::Implies(a, b) | LExpr::Equiv(a, b) => {},
            _ => {},
        }
    }
    assert(plain_shaped(l) && plain_shaped(r));
    lemma_show_ends(l);
    lemma_show_ends(r);
    lemma_connective_text(e);
    let w = show(e);
    lemma_trim_id(w);
    assert(w.subrange(1, w.len() - 1) =~= inner);
    assert(parse_spec(w) == parse_spec(inner));
    assert(inner[0] == ls[0]);
    assert(inner.last() == rs.last());
    lemma_trim_id(inner);
    let m = ls.len() as int;
    let n = opk.len() as int;
    // Not parenthesised as a whole, and not negated.
    if is_connective(l) {
        assert(r is Var || r is Const);
        assert(rs.last() != ')');
        assert(!is_prefix("NOT "@, inner) && !is_prefix("not "@, inner)) by {
            if inner.len() >= 4 {
                assert(inner.subrange(0, 4)[0] == inner[0]);
            }
        }
    } else {
        assert(l is Var || l is Const);
        assert(ls[0] != '(');
        lemma_atom_plain(l);
        assert(inner =~= ls + (opk + rs));
        lemma_not_negated(ls, opk + rs);
    }
    lemma_inner_operator(e, 0);
    lemma_inner_operator(e, 1);
    lemma_inner_operator(e, 2);
    lemma_inner_operator(e, 3);
    if k >= 1 {
        assert(parse_binary(inner, 0) == parse_binary(inner, 1));
    }
    if k >= 2 {
        assert(parse_binary(inner, 1) == parse_binary(inner, 2));
    }
    if k >= 3 {
        assert(parse_binary(inner, 2) == parse_binary(inner, 3));
    }
    assert(inner.take(m) =~= ls);
    assert(inner.skip(m + n) =~= rs);
    assert(parse_binary(inner, k) == binary(k, Some(l), Some(r)));
    assert(parse_spec(inner) == parse_binary(inner, 0));
}

/// The text of an expression reads back as the expression for variables
/// with simple names, constants, negations, and connectives whose left
/// operand is no negation and which do not have a connective on the left
/// together with a connective or a negation on the right. (Outside these,
/// the text need not read back: `(NOT (a) AND b)` reads as the negation of
/// `(a) AND b`, and `((a AND b) OR (c AND d))` loses its outer parentheses
/// twice.)
pub proof fn readable_expressions_read_back(e: LExpr)
    requires
        readable(e),
    ensures
        parse_spec(show(e)) == Some(e),
    decreases e,
{
    reveal_strlit("NOT (");
    reveal_strlit("NOT ");
    reveal_strlit("(");
    reveal_strlit(")");
    match e {
        LExpr::Var(_) | LExpr::Const(_) => lemma_atom_reads_back(e),
        LExpr::Not(x) => {
            readable_expressions_read_back(*x);
            let s = show(e);
            assert(s =~= "NOT ("@ + show(*x) + ")"@);
            assert(s[0] == 'N' && s.last() == ')');
            assert(!is_ws('N') && !is_ws(')'));
            lemma_trim_id(s);
            assert(s.subrange(0, 4) =~= "NOT "@);
            assert(s.skip(4) =~= "("@ + show(*x) + ")"@);
            lemma_parenthesised(show(*x));
        },
        LExpr::And(l, r) | LExpr::Or(l, r) | LExpr::Implies(l, r) | LExpr::Equiv(l, r) => {
            readable_expressions_read_back(*l);
            readable_expressions_read_back(*r);
            lemma_readable_connective(e);
        },
        _ => {},
    }
}

} // verus!
