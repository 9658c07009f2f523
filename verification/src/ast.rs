//! The syntax tree and its mathematical model.

use vstd::prelude::*;

verus! {

/// A name.
#[derive(PartialEq, Clone, Debug)]
pub struct Ident(pub String);

/// A unary operator.
#[derive(PartialEq, Eq, Structural, Clone, Copy, Debug)]
pub enum Prefix {
    Plus,
    Minus,
    Not,
}

/// A binary operator.
#[derive(PartialEq, Eq, Structural, Clone, Copy, Debug)]
pub enum Infix {
    Plus,
    Minus,
    Divide,
    Multiply,
    Equal,
    NotEqual,
    GreaterThanEqual,
    GreaterThan,
    LessThanEqual,
    LessThan,
}

/// An expression.
#[derive(PartialEq, Debug)]
pub enum Expr {
    Ident(Ident),
    Literal(Literal),
    Prefix(Prefix, Box<Expr>),
    Infix(Infix, Box<Expr>, Box<Expr>),
    Index(Box<Expr>, Box<Expr>),
    If { cond: Box<Expr>, consequence: BlockStmt, alternative: Option<BlockStmt> },
    While { cond: Box<Expr>, consequence: BlockStmt },
    Func { params: Vec<Ident>, body: BlockStmt },
    Call { func: Box<Expr>, args: Vec<Expr> },
}

/// A literal. The pairs of a hash literal keep their order in the source.
#[derive(PartialEq, Debug)]
pub enum Literal {
    Int(i64),
    String(String),
    Bool(bool),
    Array(Vec<Expr>),
    Hash(Vec<(Expr, Expr)>),
}

/// A statement. `Blank` records an empty line of the source.
#[derive(PartialEq, Debug)]
pub enum Stmt {
    Blank,
    Break,
    Continue,
    Let(Ident, Expr),
    Return(Expr),
    Expr(Expr),
}

pub type BlockStmt = Vec<Stmt>;

pub type Program = BlockStmt;

/// How tightly an operator binds, from loosest to tightest.
#[derive(PartialEq, Eq, PartialOrd, Ord, Clone, Copy, Debug)]
pub enum Precedence {
    Lowest,
    Equals,
    LessGreater,
    Sum,
    Product,
    Prefix,
    Index,
    Call,
}

impl Precedence {
    /// The place of a precedence in the order, from 0 for the loosest.
    pub open spec fn spec_level(self) -> nat {
        match self {
            Precedence::Lowest => 0,
            Precedence::Equals => 1,
            Precedence::LessGreater => 2,
            Precedence::Sum => 3,
            Precedence::Product => 4,
            Precedence::Prefix => 5,
            Precedence::Index => 6,
            Precedence::Call => 7,
        }
    }

    /// The place of a precedence in the order, from 0 for the loosest.
    pub fn level(self) -> (r: u8)
        ensures
            r == self.spec_level(),
    {
        match self {
            Precedence::Lowest => 0,
            Precedence::Equals => 1,
            Precedence::LessGreater => 2,
            Precedence::Sum => 3,
            Precedence::Product => 4,
            Precedence::Prefix => 5,
            Precedence::Index => 6,
            Precedence::Call => 7,
        }
    }
}

/// The model of an [`Expr`].
pub enum ExprV {
    Ident(Seq<char>),
    Literal(LiteralV),
    Prefix(Prefix, Box<ExprV>),
    Infix(Infix, Box<ExprV>, Box<ExprV>),
    Index(Box<ExprV>, Box<ExprV>),
    If { cond: Box<ExprV>, consequence: Seq<StmtV>, alternative: Option<Seq<StmtV>> },
    While { cond: Box<ExprV>, consequence: Seq<StmtV> },
    Func { params: Seq<Seq<char>>, body: Seq<StmtV> },
    Call { func: Box<ExprV>, args: Seq<ExprV> },
}

/// The model of a [`Literal`].
pub enum LiteralV {
    Int(i64),
    String(Seq<char>),
    Bool(bool),
    Array(Seq<ExprV>),
    Hash(Seq<(ExprV, ExprV)>),
}

/// The model of a [`Stmt`].
pub enum StmtV {
    Blank,
    Break,
    Continue,
    Let(Seq<char>, ExprV),
    Return(ExprV),
    Expr(ExprV),
}

pub open spec fn expr_view(e: Expr) -> ExprV
    decreases e,
{
    match e {
        Expr::Ident(name) => ExprV::Ident(name.0@),
        Expr::Literal(lit) => ExprV::Literal(literal_view(lit)),
        Expr::Prefix(op, right) => ExprV::Prefix(op, Box::new(expr_view(*right))),
        Expr::Infix(op, left, right) => ExprV::Infix(
            op,
            Box::new(expr_view(*left)),
            Box::new(expr_view(*right)),
        ),
        Expr::Index(left, index) => ExprV::Index(
            Box::new(expr_view(*left)),
            Box::new(expr_view(*index)),
        ),
        Expr::If { cond, consequence, alternative } => ExprV::If {
            cond: Box::new(expr_view(*cond)),
            consequence: stmts_view(consequence@),
            alternative: match alternative {
                Some(block) => Some(stmts_view(block@)),
                None => None,
            },
        },
        Expr::While { cond, consequence } => ExprV::While {
            cond: Box::new(expr_view(*cond)),
            consequence: stmts_view(consequence@),
        },
        Expr::Func { params, body } => ExprV::Func {
            params: idents_view(params@),
            body: stmts_view(body@),
        },
        Expr::Call { func, args } => ExprV::Call {
            func: Box::new(expr_view(*func)),
            args: exprs_view(args@),
        },
    }
}

pub open spec fn literal_view(lit: Literal) -> LiteralV
    decreases lit,
{
    match lit {
        Literal::Int(n) => LiteralV::Int(n),
        Literal::String(s) => LiteralV::String(s@),
        Literal::Bool(b) => LiteralV::Bool(b),
        Literal::Array(items) => LiteralV::Array(exprs_view(items@)),
        Literal::Hash(pairs) => LiteralV::Hash(pairs_view(pairs@)),
    }
}

pub open spec fn stmt_view(s: Stmt) -> StmtV
    decreases s,
{
    match s {
        Stmt::Blank => StmtV::Blank,
        Stmt::Break => StmtV::Break,
        Stmt::Continue => StmtV::Continue,
        Stmt::Let(name, value) => StmtV::Let(name.0@, expr_view(value)),
        Stmt::Return(value) => StmtV::Return(expr_view(value)),
        Stmt::Expr(value) => StmtV::Expr(expr_view(value)),
    }
}

pub open spec fn idents_view(names: Seq<Ident>) -> Seq<Seq<char>> {
    Seq::new(names.len(), |i: int| names[i].0@)
}

pub open spec fn exprs_view(items: Seq<Expr>) -> Seq<ExprV>
    decreases items,
{
    Seq::new(
        items.len(),
        |i: int|
            if 0 <= i < items.len() {
                expr_view(items[i])
            } else {
                arbitrary()
            },
    )
}

pub open spec fn pairs_view(pairs: Seq<(Expr, Expr)>) -> Seq<(ExprV, ExprV)>
    decreases pairs,
{
    Seq::new(
        pairs.len(),
        |i: int|
            if 0 <= i < pairs.len() {
                (expr_view(pairs[i].0), expr_view(pairs[i].1))
            } else {
                arbitrary()
            },
    )
}

pub open spec fn stmts_view(stmts: Seq<Stmt>) -> Seq<StmtV>
    decreases stmts,
{
    Seq::new(
        stmts.len(),
        |i: int|
            if 0 <= i < stmts.len() {
                stmt_view(stmts[i])
            } else {
                arbitrary()
            },
    )
}

impl View for Ident {
    type V = Seq<char>;

    open spec fn view(&self) -> Seq<char> {
        self.0@
    }
}

impl View for Expr {
    type V = ExprV;

    open spec fn view(&self) -> ExprV {
        expr_view(*self)
    }
}

impl View for Literal {
    type V = LiteralV;

    open spec fn view(&self) -> LiteralV {
        literal_view(*self)
    }
}

impl View for Stmt {
    type V = StmtV;

    open spec fn view(&self) -> StmtV {
        stmt_view(*self)
    }
}

/// Appending an expression appends its model.
pub proof fn lemma_exprs_view_push(items: Seq<Expr>, e: Expr)
    ensures
        exprs_view(items.push(e)) == exprs_view(items).push(e@),
{
    assert(exprs_view(items.push(e)) =~= exprs_view(items).push(e@));
}

/// Appending a statement appends its model.
pub proof fn lemma_stmts_view_push(stmts: Seq<Stmt>, s: Stmt)
    ensures
        stmts_view(stmts.push(s)) == stmts_view(stmts).push(s@),
{
    assert(stmts_view(stmts.push(s)) =~= stmts_view(stmts).push(s@));
}

/// Appending a pair appends the pair of its models.
pub proof fn lemma_pairs_view_push(pairs: Seq<(Expr, Expr)>, k: Expr, v: Expr)
    ensures
        pairs_view(pairs.push((k, v))) == pairs_view(pairs).push((k@, v@)),
{
    assert(pairs_view(pairs.push((k, v))) =~= pairs_view(pairs).push((k@, v@)));
}

/// Appending a name appends its model.
pub proof fn lemma_idents_view_push(names: Seq<Ident>, name: Ident)
    ensures
        idents_view(names.push(name)) == idents_view(names).push(name@),
{
    assert(idents_view(names.push(name)) =~= idents_view(names).push(name@));
}

impl Ident {
    /// A copy of this name.
    pub fn duplicate(&self) -> (r: Ident)
        ensures
            r@ == self@,
    {
        Ident(self.0.clone())
    }

    /// Whether two names are the same.
    pub fn same(&self, other: &Ident) -> (r: bool)
        ensures
            r == (self@ == other@),
    {
        self.0 == other.0
    }
}

/// A copy of a list of names.
pub fn duplicate_idents(names: &Vec<Ident>) -> (r: Vec<Ident>)
    ensures
        idents_view(r@) == idents_view(names@),
{
    let mut r: Vec<Ident> = Vec::new();
    let mut i: usize = 0;
    while i < names.len()
        invariant
            i <= names.len(),
            r.len() == i,
            forall|j: int| 0 <= j < i ==> r@[j]@ == names@[j]@,
        decreases names.len() - i,
    {
        r.push(names[i].duplicate());
        i += 1;
    }
    assert(idents_view(r@) =~= idents_view(names@));
    r
}

/// Whether two lists of names are the same.
pub fn same_idents(a: &Vec<Ident>, b: &Vec<Ident>) -> (r: bool)
    ensures
        r == (idents_view(a@) == idents_view(b@)),
{
    if a.len() != b.len() {
        assert(idents_view(a@).len() != idents_view(b@).len());
        return false;
    }
    let mut i: usize = 0;
    while i < a.len()
        invariant
            i <= a.len(),
            a.len() == b.len(),
            forall|j: int| 0 <= j < i ==> a@[j]@ == b@[j]@,
        decreases a.len() - i,
    {
        if !a[i].same(&b[i]) {
            assert(idents_view(a@)[i as int] != idents_view(b@)[i as int]);
            return false;
        }
        i += 1;
    }
    assert(idents_view(a@) =~= idents_view(b@));
    true
}

impl Expr {
    /// A copy of this expression.
    pub fn duplicate(&self) -> (r: Expr)
        ensures
            r@ == self@,
        decreases self,
    {
        match self {
            Expr::Ident(name) => Expr::Ident(name.duplicate()),
            Expr::Literal(lit) => Expr::Literal(lit.duplicate()),
            Expr::Prefix(op, right) => Expr::Prefix(*op, Box::new(right.duplicate())),
            Expr::Infix(op, left, right) => Expr::Infix(
                *op,
                Box::new(left.duplicate()),
                Box::new(right.duplicate()),
            ),
            Expr::Index(left, index) => Expr::Index(
                Box::new(left.duplicate()),
                Box::new(index.duplicate()),
            ),
            Expr::If { cond, consequence, alternative } => Expr::If {
                cond: Box::new(cond.duplicate()),
                consequence: duplicate_stmts(consequence),
                alternative: match alternative {
                    Some(block) => Some(duplicate_stmts(block)),
                    None => None,
                },
            },
            Expr::While { cond, consequence } => Expr::While {
                cond: Box::new(cond.duplicate()),
                consequence: duplicate_stmts(consequence),
            },
            Expr::Func { params, body } => Expr::Func {
                params: duplicate_idents(params),
                body: duplicate_stmts(body),
            },
            Expr::Call { func, args } => Expr::Call {
                func: Box::new(func.duplicate()),
                args: duplicate_exprs(args),
            },
        }
    }
}

impl Literal {
    /// A copy of this literal.
    pub fn duplicate(&self) -> (r: Literal)
        ensures
            r@ == self@,
        decreases self,
    {
        match self {
            Literal::Int(n) => Literal::Int(*n),
            Literal::String(s) => Literal::String(s.clone()),
            Literal::Bool(b) => Literal::Bool(*b),
            Literal::Array(items) => Literal::Array(duplicate_exprs(items)),
            Literal::Hash(pairs) => Literal::Hash(duplicate_pairs(pairs)),
        }
    }
}

impl Stmt {
    /// A copy of this statement.
    pub fn duplicate(&self) -> (r: Stmt)
        ensures
            r@ == self@,
        decreases self,
    {
        match self {
            Stmt::Blank => Stmt::Blank,
            Stmt::Break => Stmt::Break,
            Stmt::Continue => Stmt::Continue,
            Stmt::Let(name, value) => Stmt::Let(name.duplicate(), value.duplicate()),
            Stmt::Return(value) => Stmt::Return(value.duplicate()),
            Stmt::Expr(value) => Stmt::Expr(value.duplicate()),
        }
    }
}

/// A copy of a list of expressions.
pub fn duplicate_exprs(items: &Vec<Expr>) -> (r: Vec<Expr>)
    ensures
        exprs_view(r@) == exprs_view(items@),
    decreases items,
{
    let mut r: Vec<Expr> = Vec::new();
    let mut i: usize = 0;
    while i < items.len()
        invariant
            i <= items.len(),
            r.len() == i,
            forall|j: int| 0 <= j < i ==> r@[j]@ == items@[j]@,
        decreases items.len() - i,
    {
        r.push(items[i].duplicate());
        i += 1;
    }
    assert(exprs_view(r@) =~= exprs_view(items@));
    r
}

/// A copy of the pairs of a hash literal.
pub fn duplicate_pairs(pairs: &Vec<(Expr, Expr)>) -> (r: Vec<(Expr, Expr)>)
    ensures
        pairs_view(r@) == pairs_view(pairs@),
    decreases pairs,
{
    let mut r: Vec<(Expr, Expr)> = Vec::new();
    let mut i: usize = 0;
    while i < pairs.len()
        invariant
            i <= pairs.len(),
            r.len() == i,
            forall|j: int| 0 <= j < i ==> r@[j].0@ == pairs@[j].0@ && r@[j].1@ == pairs@[j].1@,
        decreases pairs.len() - i,
    {
        let key = pairs[i].0.duplicate();
        let value = pairs[i].1.duplicate();
        r.push((key, value));
        i += 1;
    }
    assert(pairs_view(r@) =~= pairs_view(pairs@));
    r
}

/// A copy of a list of statements.
pub fn duplicate_stmts(stmts: &Vec<Stmt>) -> (r: Vec<Stmt>)
    ensures
        stmts_view(r@) == stmts_view(stmts@),
    decreases stmts,
{
    let mut r: Vec<Stmt> = Vec::new();
    let mut i: usize = 0;
    while i < stmts.len()
        invariant
            i <= stmts.len(),
            r.len() == i,
            forall|j: int| 0 <= j < i ==> r@[j]@ == stmts@[j]@,
        decreases stmts.len() - i,
    {
        r.push(stmts[i].duplicate());
        i += 1;
    }
    assert(stmts_view(r@) =~= stmts_view(stmts@));
    r
}

impl Expr {
    /// Whether two expressions are the same tree.
    pub fn same(&self, other: &Expr) -> (r: bool)
        ensures
            r == (self@ == other@),
        decreases self,
    {
        match (self, other) {
            (Expr::Ident(a), Expr::Ident(b)) => a.same(b),
            (Expr::Literal(a), Expr::Literal(b)) => a.same(b),
            (Expr::Prefix(op_a, a), Expr::Prefix(op_b, b)) => *op_a == *op_b && a.same(b),
            (Expr::Infix(op_a, la, ra), Expr::Infix(op_b, lb, rb)) => *op_a == *op_b && la.same(lb)
                && ra.same(rb),
            (Expr::Index(la, ia), Expr::Index(lb, ib)) => la.same(lb) && ia.same(ib),
            (
                Expr::If { cond: ca, consequence: ta, alternative: ea },
                Expr::If { cond: cb, consequence: tb, alternative: eb },
            ) => ca.same(cb) && same_stmts(ta, tb) && match (ea, eb) {
                (Some(x), Some(y)) => same_stmts(x, y),
                (None, None) => true,
                _ => false,
            },
            (
                Expr::While { cond: ca, consequence: ba },
                Expr::While { cond: cb, consequence: bb },
            ) => ca.same(cb) && same_stmts(ba, bb),
            (Expr::Func { params: pa, body: ba }, Expr::Func { params: pb, body: bb }) => same_idents(
                pa,
                pb,
            ) && same_stmts(ba, bb),
            (Expr::Call { func: fa, args: aa }, Expr::Call { func: fb, args: ab }) => fa.same(fb)
                && same_exprs(aa, ab),
            _ => false,
        }
    }
}

impl Literal {
    /// Whether two literals are the same.
    pub fn same(&self, other: &Literal) -> (r: bool)
        ensures
            r == (self@ == other@),
        decreases self,
    {
        match (self, other) {
            (Literal::Int(a), Literal::Int(b)) => *a == *b,
            (Literal::String(a), Literal::String(b)) => *a == *b,
            (Literal::Bool(a), Literal::Bool(b)) => *a == *b,
            (Literal::Array(a), Literal::Array(b)) => same_exprs(a, b),
            (Literal::Hash(a), Literal::Hash(b)) => same_pairs(a, b),
            _ => false,
        }
    }
}

impl Stmt {
    /// Whether two statements are the same.
    pub fn same(&self, other: &Stmt) -> (r: bool)
        ensures
            r == (self@ == other@),
        decreases self,
    {
        match (self, other) {
            (Stmt::Blank, Stmt::Blank) => true,
            (Stmt::Break, Stmt::Break) => true,
            (Stmt::Continue, Stmt::Continue) => true,
            (Stmt::Let(na, a), Stmt::Let(nb, b)) => na.same(nb) && a.same(b),
            (Stmt::Return(a), Stmt::Return(b)) => a.same(b),
            (Stmt::Expr(a), Stmt::Expr(b)) => a.same(b),
            _ => false,
        }
    }
}

/// Whether two lists of expressions are the same.
pub fn same_exprs(a: &Vec<Expr>, b: &Vec<Expr>) -> (r: bool)
    ensures
        r == (exprs_view(a@) == exprs_view(b@)),
    decreases a,
{
    if a.len() != b.len() {
        assert(exprs_view(a@).len() != exprs_view(b@).len());
        return false;
    }
    let mut i: usize = 0;
    while i < a.len()
        invariant
            i <= a.len(),
            a.len() == b.len(),
            forall|j: int| 0 <= j < i ==> a@[j]@ == b@[j]@,
        decreases a.len() - i,
    {
        if !a[i].same(&b[i]) {
            assert(exprs_view(a@)[i as int] != exprs_view(b@)[i as int]);
            return false;
        }
        i += 1;
    }
    assert(exprs_view(a@) =~= exprs_view(b@));
    true
}

/// Whether the pairs of two hash literals are the same, in the same order.
pub fn same_pairs(a: &Vec<(Expr, Expr)>, b: &Vec<(Expr, Expr)>) -> (r: bool)
    ensures
        r == (pairs_view(a@) == pairs_view(b@)),
    decreases a,
{
    if a.len() != b.len() {
        assert(pairs_view(a@).len() != pairs_view(b@).len());
        return false;
    }
    let mut i: usize = 0;
    while i < a.len()
        invariant
            i <= a.len(),
            a.len() == b.len(),
            forall|j: int| 0 <= j < i ==> a@[j].0@ == b@[j].0@ && a@[j].1@ == b@[j].1@,
        decreases a.len() - i,
    {
        if !a[i].0.same(&b[i].0) || !a[i].1.same(&b[i].1) {
            assert(pairs_view(a@)[i as int] != pairs_view(b@)[i as int]);
            return false;
        }
        i += 1;
    }
    assert(pairs_view(a@) =~= pairs_view(b@));
    true
}

/// Whether two lists of statements are the same.
pub fn same_stmts(a: &Vec<Stmt>, b: &Vec<Stmt>) -> (r: bool)
    ensures
        r == (stmts_view(a@) == stmts_view(b@)),
    decreases a,
{
    if a.len() != b.len() {
        assert(stmts_view(a@).len() != stmts_view(b@).len());
        return false;
    }
    let mut i: usize = 0;
    while i < a.len()
        invariant
            i <= a.len(),
            a.len() == b.len(),
            forall|j: int| 0 <= j < i ==> a@[j]@ == b@[j]@,
        decreases a.len() - i,
    {
        if !a[i].same(&b[i]) {
            assert(stmts_view(a@)[i as int] != stmts_view(b@)[i as int]);
            return false;
        }
        i += 1;
    }
    assert(stmts_view(a@) =~= stmts_view(b@));
    true
}

impl Clone for Expr {
    fn clone(&self) -> (r: Self)
        ensures
            r@ == self@,
    {
        self.duplicate()
    }
}

impl Clone for Literal {
    fn clone(&self) -> (r: Self)
        ensures
            r@ == self@,
    {
        self.duplicate()
    }
}

impl Clone for Stmt {
    fn clone(&self) -> (r: Self)
        ensures
            r@ == self@,
    {
        self.duplicate()
    }
}

} // verus!
