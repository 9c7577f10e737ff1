use vstd::prelude::*;

use crate::token::{Kind, Token, TokenType, TokenView};

verus! {

pub struct Identifier {
    pub name: String,
    pub line: usize,
}

pub struct BinOp {
    pub op: TokenType,
    pub lhs: Box<Expr>,
    pub rhs: Box<Expr>,
}

pub struct ExprCall {
    pub name: Identifier,
    pub arg: Expr,
}

pub enum Expr {
    ExprInt(String),
    ExprId(Identifier),
    ExprCall(Box<ExprCall>),
    ExprBinOp(BinOp),
}

pub struct StmtIf {
    pub expr: Expr,
    pub stmts: Vec<Stmt>,
}

pub struct StmtDecl {
    pub var: Identifier,
    pub expr: Expr,
}

pub struct StmtRet {
    pub expr: Expr,
}

pub struct StmtExit {
    pub expr: Expr,
}

pub struct StmtAssign {
    pub var: Identifier,
    pub expr: Expr,
    pub assign: TokenType,
}

pub struct StmtFunc {
    pub ident: Identifier,
    pub arg: Identifier,
    pub stmts: Vec<Stmt>,
}

pub struct StmtFor {
    pub init: StmtDecl,
    pub cond: Expr,
    pub iter: StmtAssign,
    pub stmts: Vec<Stmt>,
}

pub struct StmtAsm {
    pub code: String,
}

pub enum Stmt {
    StmtRet(StmtRet),
    StmtExit(StmtExit),
    StmtDecl(StmtDecl),
    StmtIf(StmtIf),
    StmtAssign(StmtAssign),
    StmtFunc(StmtFunc),
    StmtFor(StmtFor),
    StmtAsm(StmtAsm),
    StmtBlank,
}

pub struct Prog {
    pub stmts: Vec<Stmt>,
}

// ---------------------------------------------------------------------------
// The syntax tree as a value.
// ---------------------------------------------------------------------------

/// A name and the line of its token.
pub struct Name {
    pub name: Seq<char>,
    pub line: nat,
}

pub enum Ex {
    Int(Seq<char>),
    Id(Name),
    Call(Name, Box<Ex>),
    Bin(Kind, Box<Ex>, Box<Ex>),
}

pub struct DeclV {
    pub var: Name,
    pub expr: Ex,
}

pub struct AssignV {
    pub var: Name,
    pub assign: Kind,
    pub expr: Ex,
}

pub enum St {
    Ret(Ex),
    Exit(Ex),
    Decl(DeclV),
    If(Ex, Seq<St>),
    Assign(AssignV),
    Func(Name, Name, Seq<St>),
    For(DeclV, Ex, AssignV, Seq<St>),
    Code(Seq<char>),
    Blank,
}

impl View for Identifier {
    type V = Name;

    open spec fn view(&self) -> Name {
        Name { name: self.name@, line: self.line as nat }
    }
}

/// The value of an expression.
pub open spec fn expr_view(e: Expr) -> Ex
    decreases e,
{
    match e {
        Expr::ExprInt(s) => Ex::Int(s@),
        Expr::ExprId(i) => Ex::Id(i@),
        Expr::ExprCall(c) => Ex::Call(c.name@, Box::new(expr_view(c.arg))),
        Expr::ExprBinOp(b) => Ex::Bin(b.op.kind_spec(), Box::new(expr_view(*b.lhs)), Box::new(expr_view(*b.rhs))),
    }
}

impl View for Expr {
    type V = Ex;

    open spec fn view(&self) -> Ex {
        expr_view(*self)
    }
}

impl View for Stmt {
    type V = St;

    open spec fn view(&self) -> St {
        stmt_view(*self)
    }
}

impl View for StmtDecl {
    type V = DeclV;

    open spec fn view(&self) -> DeclV {
        DeclV { var: self.var@, expr: self.expr@ }
    }
}

impl View for StmtAssign {
    type V = AssignV;

    open spec fn view(&self) -> AssignV {
        AssignV { var: self.var@, assign: self.assign.kind_spec(), expr: self.expr@ }
    }
}

/// The values of a sequence of statements.
pub open spec fn stmts_view(v: Seq<Stmt>) -> Seq<St>
    decreases v,
{
    if v.len() == 0 {
        Seq::empty()
    } else {
        stmts_view(v.drop_last()).push(stmt_view(v.last()))
    }
}

pub open spec fn stmt_view(s: Stmt) -> St
    decreases s,
{
    match s {
        Stmt::StmtRet(r) => St::Ret(r.expr@),
        Stmt::StmtExit(r) => St::Exit(r.expr@),
        Stmt::StmtDecl(d) => St::Decl(d@),
        Stmt::StmtIf(i) => St::If(i.expr@, stmts_view(i.stmts@)),
        Stmt::StmtAssign(a) => St::Assign(a@),
        Stmt::StmtFunc(f) => St::Func(f.ident@, f.arg@, stmts_view(f.stmts@)),
        Stmt::StmtFor(f) => St::For(f.init@, f.cond@, f.iter@, stmts_view(f.stmts@)),
        Stmt::StmtAsm(a) => St::Code(a.code@),
        Stmt::StmtBlank => St::Blank,
    }
}

// ---------------------------------------------------------------------------
// The grammar, as spec functions over the token values.
// ---------------------------------------------------------------------------

#[derive(Clone, Copy, Debug, PartialEq, Eq, Structural)]
pub enum ParseErrorKind {
    /// A token that the grammar does not allow where it stands.
    Unexpected,
    /// A parenthesised expression not closed by `)`.
    MissingRPar,
}

/// A parse error and the token it was found at.
pub struct ParseError {
    pub kind: ParseErrorKind,
    pub token: Token,
}

pub struct PFail {
    pub kind: ParseErrorKind,
    pub token: TokenView,
}

impl View for ParseError {
    type V = PFail;

    open spec fn view(&self) -> PFail {
        PFail { kind: self.kind, token: self.token@ }
    }
}

/// The token at `p`, or an end-of-input token past the end.
pub open spec fn at(ts: Seq<TokenView>, p: int) -> TokenView {
    if 0 <= p < ts.len() {
        ts[p]
    } else {
        TokenView { kind: Kind::Eof, text: Seq::empty(), line: 0 }
    }
}

pub open spec fn unexpected(t: TokenView) -> PFail {
    PFail { kind: ParseErrorKind::Unexpected, token: t }
}

/// Whether `q` lies after `p` and within the tokens.
pub open spec fn advanced(ts: Seq<TokenView>, p: int, q: int) -> bool {
    p < q < ts.len()
}

/// The binding power of a binary operator; higher binds tighter.
pub open spec fn prec(k: Kind) -> Option<nat> {
    if k == Kind::Ex || k == Kind::At { Some(4) }
    else if k == Kind::Star || k == Kind::Slash || k == Kind::Per { Some(3) }
    else if k == Kind::Plus || k == Kind::Dash { Some(2) }
    else if k == Kind::DEq { Some(1) }
    else if k == Kind::DAmp || k == Kind::DPipe { Some(0) }
    else { None }
}

/// Consumes one token of kind `k`.
pub open spec fn expect(ts: Seq<TokenView>, p: int, k: Kind) -> Result<int, PFail> {
    if at(ts, p).kind == k { Ok(p + 1) } else { Err(unexpected(at(ts, p))) }
}

/// An identifier.
pub open spec fn ident(ts: Seq<TokenView>, p: int) -> Result<(Name, int), PFail> {
    if at(ts, p).kind == Kind::Var {
        Ok((Name { name: at(ts, p).text, line: at(ts, p).line }, p + 1))
    } else {
        Err(unexpected(at(ts, p)))
    }
}

/// A call `name ( expr )`.
pub open spec fn call(ts: Seq<TokenView>, p: int) -> Result<(Ex, int), PFail>
    decreases ts.len() - p, 0nat,
{
    match ident(ts, p) {
        Ok((name, i1)) => match expect(ts, i1, Kind::LPar) {
            Ok(i2) => if advanced(ts, p, i2) {
                match expr_prec(ts, i2, 0) {
                    Ok((arg, q)) => match expect(ts, q, Kind::RPar) {
                        Ok(r) => Ok((Ex::Call(name, Box::new(arg)), r)),
                        Err(e) => Err(e),
                    },
                    Err(e) => Err(e),
                }
            } else {
                Err(unexpected(at(ts, i2)))
            },
            Err(e) => Err(e),
        },
        Err(e) => Err(e),
    }
}

/// An atom: an integer, a call `name ( expr )`, a name, or `( expr )`.
pub open spec fn atom(ts: Seq<TokenView>, p: int) -> Result<(Ex, int), PFail>
    decreases ts.len() - p, 1nat,
{
    let t = at(ts, p);
    if t.kind == Kind::Int {
        Ok((Ex::Int(t.text), p + 1))
    } else if t.kind == Kind::Var {
        let name = Name { name: t.text, line: t.line };
        if at(ts, p + 1).kind == Kind::LPar {
            call(ts, p)
        } else {
            Ok((Ex::Id(name), p + 1))
        }
    } else if t.kind == Kind::LPar {
        if p + 1 < ts.len() {
            match expr_prec(ts, p + 1, 0) {
                Ok((e, q)) => if at(ts, q).kind == Kind::RPar {
                    Ok((e, q + 1))
                } else {
                    Err(PFail { kind: ParseErrorKind::MissingRPar, token: at(ts, q) })
                },
                Err(e) => Err(e),
            }
        } else {
            Err(unexpected(at(ts, p + 1)))
        }
    } else {
        Err(unexpected(t))
    }
}

/// An expression whose operators all bind at least as tightly as `min`.
pub open spec fn expr_prec(ts: Seq<TokenView>, p: int, min: nat) -> Result<(Ex, int), PFail>
    decreases ts.len() - p, 3nat,
{
    match atom(ts, p) {
        Ok((lhs, q)) => if advanced(ts, p, q) { climb(ts, q, lhs, min) } else { Ok((lhs, q)) },
        Err(e) => Err(e),
    }
}

/// Folds operators of binding power at least `min` into `lhs`, from the left.
pub open spec fn climb(ts: Seq<TokenView>, p: int, lhs: Ex, min: nat) -> Result<(Ex, int), PFail>
    decreases ts.len() - p, 2nat,
{
    let k = at(ts, p).kind;
    if prec(k) is Some && prec(k)->0 >= min && p + 1 < ts.len() {
        match expr_prec(ts, p + 1, prec(k)->0 + 1) {
            Ok((rhs, q)) => {
                let folded = Ex::Bin(k, Box::new(lhs), Box::new(rhs));
                if advanced(ts, p, q) { climb(ts, q, folded, min) } else { Ok((folded, q)) }
            },
            Err(e) => Err(e),
        }
    } else {
        Ok((lhs, p))
    }
}

/// A full expression.
pub open spec fn expr(ts: Seq<TokenView>, p: int) -> Result<(Ex, int), PFail> {
    expr_prec(ts, p, 0)
}

/// `decl name = expr ;`
pub open spec fn decl(ts: Seq<TokenView>, p: int) -> Result<(DeclV, int), PFail>
    decreases ts.len() - p, 4nat,
{
    match expect(ts, p, Kind::Decl) {
        Ok(i1) => match ident(ts, i1) {
            Ok((var, i2)) => match expect(ts, i2, Kind::Eq) {
                Ok(i3) => if i3 < ts.len() {
                    match expr_prec(ts, i3, 0) {
                        Ok((e, i4)) => match expect(ts, i4, Kind::Semi) {
                            Ok(i5) => Ok((DeclV { var, expr: e }, i5)),
                            Err(x) => Err(x),
                        },
                        Err(x) => Err(x),
                    }
                } else {
                    Err(unexpected(at(ts, i3)))
                },
                Err(x) => Err(x),
            },
            Err(x) => Err(x),
        },
        Err(x) => Err(x),
    }
}

/// `name = expr ;`
pub open spec fn assign(ts: Seq<TokenView>, p: int) -> Result<(AssignV, int), PFail>
    decreases ts.len() - p, 4nat,
{
    match ident(ts, p) {
        Ok((var, i2)) => match expect(ts, i2, Kind::Eq) {
            Ok(i3) => if i3 < ts.len() {
                match expr_prec(ts, i3, 0) {
                    Ok((e, i4)) => match expect(ts, i4, Kind::Semi) {
                        Ok(i5) => Ok((AssignV { var, assign: Kind::Eq, expr: e }, i5)),
                        Err(x) => Err(x),
                    },
                    Err(x) => Err(x),
                }
            } else {
                Err(unexpected(at(ts, i3)))
            },
            Err(x) => Err(x),
        },
        Err(x) => Err(x),
    }
}

/// `{ statements }` after the header ending at `p`: the statements and the
/// position after the closing `}`.
pub open spec fn braced(ts: Seq<TokenView>, p: int) -> Result<(Seq<St>, int), PFail>
    decreases ts.len() - p, 7nat,
{
    match expect(ts, p, Kind::LBr) {
        Ok(i1) => if i1 < ts.len() {
            match block(ts, i1, Kind::RBr) {
                Ok((body, i2)) => match expect(ts, i2, Kind::RBr) {
                    Ok(i3) => Ok((body, i3)),
                    Err(x) => Err(x),
                },
                Err(x) => Err(x),
            }
        } else {
            Err(unexpected(at(ts, i1)))
        },
        Err(x) => Err(x),
    }
}

/// One statement, chosen by its first token.
pub open spec fn stmt(ts: Seq<TokenView>, p: int) -> Result<(St, int), PFail>
    decreases ts.len() - p, 5nat,
{
    let t = at(ts, p);
    if (t.kind == Kind::Ret || t.kind == Kind::Exit) && p + 1 < ts.len() {
        match expr_prec(ts, p + 1, 0) {
            Ok((e, q)) => match expect(ts, q, Kind::Semi) {
                Ok(r) => Ok((if t.kind == Kind::Ret { St::Ret(e) } else { St::Exit(e) }, r)),
                Err(x) => Err(x),
            },
            Err(x) => Err(x),
        }
    } else if t.kind == Kind::Decl {
        match decl(ts, p) {
            Ok((d, q)) => Ok((St::Decl(d), q)),
            Err(x) => Err(x),
        }
    } else if t.kind == Kind::If && p + 1 < ts.len() {
        match expr_prec(ts, p + 1, 0) {
            Ok((e, q)) => if advanced(ts, p, q) {
                match braced(ts, q) {
                    Ok((body, r)) => Ok((St::If(e, body), r)),
                    Err(x) => Err(x),
                }
            } else {
                Err(unexpected(at(ts, q)))
            },
            Err(x) => Err(x),
        }
    } else if t.kind == Kind::Var {
        match assign(ts, p) {
            Ok((a, q)) => Ok((St::Assign(a), q)),
            Err(x) => Err(x),
        }
    } else if t.kind == Kind::Func {
        match ident(ts, p + 1) {
            Ok((name, i2)) => match expect(ts, i2, Kind::LPar) {
                Ok(i3) => match ident(ts, i3) {
                    Ok((arg, i4)) => match expect(ts, i4, Kind::RPar) {
                        Ok(i5) => if i5 < ts.len() {
                            match braced(ts, i5) {
                                Ok((body, r)) => Ok((St::Func(name, arg, body), r)),
                                Err(x) => Err(x),
                            }
                        } else {
                            Err(unexpected(at(ts, i5)))
                        },
                        Err(x) => Err(x),
                    },
                    Err(x) => Err(x),
                },
                Err(x) => Err(x),
            },
            Err(x) => Err(x),
        }
    } else if t.kind == Kind::For && p + 1 < ts.len() {
        match decl(ts, p + 1) {
            Ok((init, i2)) => if advanced(ts, p, i2) {
                match expr_prec(ts, i2, 0) {
                    Ok((cond, i3)) => match expect(ts, i3, Kind::Semi) {
                        Ok(i4) => if advanced(ts, p, i4) {
                            match assign(ts, i4) {
                                Ok((iter, i5)) => if advanced(ts, p, i5) {
                                    match braced(ts, i5) {
                                        Ok((body, r)) => Ok((St::For(init, cond, iter, body), r)),
                                        Err(x) => Err(x),
                                    }
                                } else {
                                    Err(unexpected(at(ts, i5)))
                                },
                                Err(x) => Err(x),
                            }
                        } else {
                            Err(unexpected(at(ts, i4)))
                        },
                        Err(x) => Err(x),
                    },
                    Err(x) => Err(x),
                }
            } else {
                Err(unexpected(at(ts, i2)))
            },
            Err(x) => Err(x),
        }
    } else if t.kind == Kind::Asm {
        Ok((St::Code(t.text), p + 1))
    } else if t.kind == Kind::Semi {
        Ok((St::Blank, p + 1))
    } else {
        Err(unexpected(t))
    }
}

/// Statements up to, and not including, the first token of kind `term`.
pub open spec fn block(ts: Seq<TokenView>, p: int, term: Kind) -> Result<(Seq<St>, int), PFail>
    decreases ts.len() - p, 6nat,
{
    if at(ts, p).kind == term {
        Ok((Seq::empty(), p))
    } else {
        match stmt(ts, p) {
            Ok((s, q)) => if advanced(ts, p, q) {
                match block(ts, q, term) {
                    Ok((rest, r)) => Ok((seq![s] + rest, r)),
                    Err(x) => Err(x),
                }
            } else {
                Ok((seq![s], q))
            },
            Err(x) => Err(x),
        }
    }
}

/// `r` with the statements `front` placed before its own.
pub open spec fn prepend(front: Seq<St>, r: Result<(Seq<St>, int), PFail>) -> Result<(Seq<St>, int), PFail> {
    match r {
        Ok((rest, q)) => Ok((front + rest, q)),
        Err(e) => Err(e),
    }
}

pub proof fn lemma_stmts_view_push(v: Seq<Stmt>, s: Stmt)
    ensures
        stmts_view(v.push(s)) == stmts_view(v).push(stmt_view(s)),
{
    assert(v.push(s).drop_last() =~= v);
}

/// The program: statements up to the end of input.
pub open spec fn program(ts: Seq<TokenView>) -> Result<Seq<St>, PFail> {
    match block(ts, 0, Kind::Eof) {
        Ok((body, _)) => Ok(body),
        Err(x) => Err(x),
    }
}

/// The operator token of kind `k`.
fn operator(k: Kind) -> (r: TokenType)
    requires
        prec(k) is Some,
    ensures
        r.kind_spec() == k,
{
    match k {
        Kind::Ex => TokenType::Ex,
        Kind::At => TokenType::At,
        Kind::Star => TokenType::Star,
        Kind::Slash => TokenType::Slash,
        Kind::Per => TokenType::Per,
        Kind::Plus => TokenType::Plus,
        Kind::Dash => TokenType::Dash,
        Kind::DEq => TokenType::DEq,
        Kind::DAmp => TokenType::DAmp,
        _ => TokenType::DPipe,
    }
}

/// The binding power of a binary operator, if `k` is one.
fn precedence(k: Kind) -> (r: Option<u8>)
    ensures
        r is Some <==> prec(k) is Some,
        r matches Some(q) ==> q as nat == prec(k)->0 && q <= 4,
{
    match k {
        Kind::Ex | Kind::At => Some(4),
        Kind::Star | Kind::Slash | Kind::Per => Some(3),
        Kind::Plus | Kind::Dash => Some(2),
        Kind::DEq => Some(1),
        Kind::DAmp | Kind::DPipe => Some(0),
        _ => None,
    }
}

/// Builds a syntax tree from a token sequence closed by the end-of-input token.
pub struct Parser {
    tokens: Vec<Token>,
    pos: usize,
    pub parse_tree: Prog,
}

impl Parser {
    /// The tokens, as values.
    pub closed spec fn toks(&self) -> Seq<TokenView> {
        self.tokens@.map_values(|t: Token| t@)
    }

    /// How many tokens have been consumed.
    pub closed spec fn cursor(&self) -> int {
        self.pos as int
    }

    /// The program parsed so far, as a value.
    pub closed spec fn tree(&self) -> Seq<St> {
        stmts_view(self.parse_tree.stmts@)
    }

    pub closed spec fn wf(&self) -> bool {
        &&& self.pos < self.tokens@.len()
        &&& self.toks().last().kind == Kind::Eof
    }

    /// A parser over `tokens`, which end with the end-of-input token.
    pub fn new(tokens: Vec<Token>) -> (r: Parser)
        requires
            tokens@.len() > 0,
            tokens@.last()@.kind == Kind::Eof,
        ensures
            r.wf(),
            r.toks() == tokens@.map_values(|t: Token| t@),
            r.cursor() == 0,
            r.tree() == Seq::<St>::empty(),
    {
        let r = Parser { tokens, pos: 0, parse_tree: Prog { stmts: Vec::new() } };
        assert(r.toks().last() == r.tokens@.last()@);
        r
    }

    /// The program parsed.
    pub fn into_tree(self) -> (r: Prog)
        ensures
            stmts_view(r.stmts@) == self.tree(),
    {
        self.parse_tree
    }

    fn peek(&self) -> (r: &Token)
        requires
            self.wf(),
        ensures
            r@ == at(self.toks(), self.cursor()),
    {
        &self.tokens[self.pos]
    }

    /// Moves past the current token, which is not the end of input.
    fn consume(&mut self)
        requires
            old(self).wf(),
            at(old(self).toks(), old(self).cursor()).kind != Kind::Eof,
        ensures
            final(self).wf(),
            final(self).toks() == old(self).toks(),
            final(self).cursor() == old(self).cursor() + 1,
    {
        assert(self.toks().len() == self.tokens@.len());
        assert(self.pos + 1 < self.tokens.len());
        self.pos = self.pos + 1;
    }

    /// An error of kind `kind` at `token`.
    fn error(kind: ParseErrorKind, token: &Token) -> (r: ParseError)
        ensures
            r@ == (PFail { kind, token: token@ }),
    {
        ParseError { kind, token: Token { t_type: token.t_type.copy(), line: token.line } }
    }

    /// Consumes a token of kind `k`, or fails at the token found instead.
    fn expect(&mut self, k: Kind) -> (r: Result<(), ParseError>)
        requires
            old(self).wf(),
            k != Kind::Eof,
        ensures
            final(self).wf(),
            final(self).toks() == old(self).toks(),
            match expect(old(self).toks(), old(self).cursor(), k) {
                Ok(q) => r is Ok && final(self).cursor() == q,
                Err(e) => r matches Err(x) && x@ == e,
            },
    {
        let t = self.peek();
        if t.t_type.kind() == k {
            self.consume();
            Ok(())
        } else {
            Err(Parser::error(ParseErrorKind::Unexpected, t))
        }
    }

    fn parse_ident_name(&mut self) -> (r: Result<Identifier, ParseError>)
        requires
            old(self).wf(),
        ensures
            final(self).wf(),
            final(self).toks() == old(self).toks(),
            match ident(old(self).toks(), old(self).cursor()) {
                Ok((v, q)) => r matches Ok(x) && x@ == v && final(self).cursor() == q,
                Err(e) => r matches Err(x) && x@ == e,
            },
    {
        let t = self.peek();
        match &t.t_type {
            TokenType::Var(name) => {
                let id = Identifier { name: name.clone(), line: t.line };
                self.consume();
                Ok(id)
            },
            _ => Err(Parser::error(ParseErrorKind::Unexpected, t)),
        }
    }

    fn parse_call(&mut self) -> (r: Result<ExprCall, ParseError>)
        requires
            old(self).wf(),
        ensures
            final(self).wf(),
            final(self).toks() == old(self).toks(),
            match call(old(self).toks(), old(self).cursor()) {
                Ok((v, q)) => r matches Ok(x) && (Ex::Call(x.name@, Box::new(x.arg@)) == v) && final(self).cursor() == q && q > old(self).cursor(),
                Err(e) => r matches Err(x) && x@ == e,
            },
        decreases old(self).toks().len() - old(self).cursor(), 0nat,
    {
        let name = match self.parse_ident_name() {
            Ok(n) => n,
            Err(e) => return Err(e),
        };
        match self.expect(Kind::LPar) {
            Ok(()) => {},
            Err(e) => return Err(e),
        }
        let arg = match self.parse_expr() {
            Ok(a) => a,
            Err(e) => return Err(e),
        };
        match self.expect(Kind::RPar) {
            Ok(()) => {},
            Err(e) => return Err(e),
        }
        Ok(ExprCall { name, arg })
    }

    fn parse_atom(&mut self) -> (r: Result<Expr, ParseError>)
        requires
            old(self).wf(),
        ensures
            final(self).wf(),
            final(self).toks() == old(self).toks(),
            match atom(old(self).toks(), old(self).cursor()) {
                Ok((v, q)) => r matches Ok(x) && x@ == v && final(self).cursor() == q && q > old(self).cursor(),
                Err(e) => r matches Err(x) && x@ == e,
            },
        decreases old(self).toks().len() - old(self).cursor(), 1nat,
    {
        assert(self.toks().len() == self.tokens@.len());
        let t = self.peek();
        let k = t.t_type.kind();
        if k == Kind::Int {
            let text = match t.t_type.payload() {
                Some(v) => v.clone(),
                None => String::new(),
            };
            self.consume();
            Ok(Expr::ExprInt(text))
        } else if k == Kind::Var {
            if self.pos < self.tokens.len() - 1 && self.tokens[self.pos + 1].t_type.kind() == Kind::LPar {
                return match self.parse_call() {
                    Ok(c) => Ok(Expr::ExprCall(Box::new(c))),
                    Err(e) => Err(e),
                };
            }
            match self.parse_ident_name() {
                Ok(id) => Ok(Expr::ExprId(id)),
                Err(e) => Err(e),
            }
        } else if k == Kind::LPar {
            self.consume();
            let e = match self.parse_expr() {
                Ok(e) => e,
                Err(x) => return Err(x),
            };
            let t = self.peek();
            if t.t_type.kind() == Kind::RPar {
                self.consume();
                Ok(e)
            } else {
                Err(Parser::error(ParseErrorKind::MissingRPar, t))
            }
        } else {
            Err(Parser::error(ParseErrorKind::Unexpected, t))
        }
    }

    fn parse_expr_prec(&mut self, min_prec: u8) -> (r: Result<Expr, ParseError>)
        requires
            old(self).wf(),
            min_prec <= 5,
        ensures
            final(self).wf(),
            final(self).toks() == old(self).toks(),
            match expr_prec(old(self).toks(), old(self).cursor(), min_prec as nat) {
                Ok((v, q)) => r matches Ok(x) && x@ == v && final(self).cursor() == q && q > old(self).cursor(),
                Err(e) => r matches Err(x) && x@ == e,
            },
        decreases old(self).toks().len() - old(self).cursor(), 3nat,
    {
        let ghost start = self.pos as int;
        let mut lhs = match self.parse_atom() {
            Ok(e) => e,
            Err(x) => return Err(x),
        };
        loop
            invariant
                self.wf(),
                self.toks() == old(self).toks(),
                min_prec <= 5,
                start == old(self).cursor(),
                self.cursor() > start,
                expr_prec(self.toks(), start, min_prec as nat) == climb(self.toks(), self.cursor(), lhs@, min_prec as nat),
            ensures
                climb(self.toks(), self.cursor(), lhs@, min_prec as nat) == Ok::<(Ex, int), PFail>((lhs@, self.cursor())),
            decreases self.toks().len() - self.cursor(),
        {
            let k = self.peek().t_type.kind();
            let prec = match precedence(k) {
                Some(p) => p,
                None => break,
            };
            if prec < min_prec {
                break;
            }
            let ghost here = self.pos as int;
            let ghost left = lhs@;
            self.consume();
            let rhs = match self.parse_expr_prec(prec + 1) {
                Ok(e) => e,
                Err(x) => return Err(x),
            };
            lhs = Expr::ExprBinOp(BinOp { op: operator(k), lhs: Box::new(lhs), rhs: Box::new(rhs) });
            assert(lhs@ == Ex::Bin(k, Box::new(left), Box::new(rhs@)));
        }
        Ok(lhs)
    }

    fn parse_expr(&mut self) -> (r: Result<Expr, ParseError>)
        requires
            old(self).wf(),
        ensures
            final(self).wf(),
            final(self).toks() == old(self).toks(),
            match expr(old(self).toks(), old(self).cursor()) {
                Ok((v, q)) => r matches Ok(x) && x@ == v && final(self).cursor() == q && q > old(self).cursor(),
                Err(e) => r matches Err(x) && x@ == e,
            },
        decreases old(self).toks().len() - old(self).cursor(), 4nat,
    {
        self.parse_expr_prec(0)
    }

    fn parse_decl(&mut self) -> (r: Result<StmtDecl, ParseError>)
        requires
            old(self).wf(),
        ensures
            final(self).wf(),
            final(self).toks() == old(self).toks(),
            match decl(old(self).toks(), old(self).cursor()) {
                Ok((v, q)) => r matches Ok(x) && x@ == v && final(self).cursor() == q && q > old(self).cursor(),
                Err(e) => r matches Err(x) && x@ == e,
            },
        decreases old(self).toks().len() - old(self).cursor(), 4nat,
    {
        match self.expect(Kind::Decl) {
            Ok(()) => {},
            Err(e) => return Err(e),
        }
        let var = match self.parse_ident_name() {
            Ok(v) => v,
            Err(e) => return Err(e),
        };
        match self.expect(Kind::Eq) {
            Ok(()) => {},
            Err(e) => return Err(e),
        }
        let expr = match self.parse_expr() {
            Ok(v) => v,
            Err(e) => return Err(e),
        };
        match self.expect(Kind::Semi) {
            Ok(()) => {},
            Err(e) => return Err(e),
        }
        Ok(StmtDecl { var, expr })
    }

    fn parse_assign(&mut self) -> (r: Result<StmtAssign, ParseError>)
        requires
            old(self).wf(),
        ensures
            final(self).wf(),
            final(self).toks() == old(self).toks(),
            match assign(old(self).toks(), old(self).cursor()) {
                Ok((v, q)) => r matches Ok(x) && x@ == v && final(self).cursor() == q && q > old(self).cursor(),
                Err(e) => r matches Err(x) && x@ == e,
            },
        decreases old(self).toks().len() - old(self).cursor(), 4nat,
    {
        let var = match self.parse_ident_name() {
            Ok(v) => v,
            Err(e) => return Err(e),
        };
        match self.expect(Kind::Eq) {
            Ok(()) => {},
            Err(e) => return Err(e),
        }
        let expr = match self.parse_expr() {
            Ok(v) => v,
            Err(e) => return Err(e),
        };
        match self.expect(Kind::Semi) {
            Ok(()) => {},
            Err(e) => return Err(e),
        }
        Ok(StmtAssign { var, expr, assign: TokenType::Eq })
    }

    /// `{ statements }`.
    fn parse_braced(&mut self) -> (r: Result<Vec<Stmt>, ParseError>)
        requires
            old(self).wf(),
        ensures
            final(self).wf(),
            final(self).toks() == old(self).toks(),
            match braced(old(self).toks(), old(self).cursor()) {
                Ok((v, q)) => r matches Ok(x) && stmts_view(x@) == v && final(self).cursor() == q && q > old(self).cursor(),
                Err(e) => r matches Err(x) && x@ == e,
            },
        decreases old(self).toks().len() - old(self).cursor(), 7nat,
    {
        match self.expect(Kind::LBr) {
            Ok(()) => {},
            Err(e) => return Err(e),
        }
        let stmts = match self.parse_mult(Kind::RBr) {
            Ok(v) => v,
            Err(e) => return Err(e),
        };
        match self.expect(Kind::RBr) {
            Ok(()) => {},
            Err(e) => return Err(e),
        }
        Ok(stmts)
    }

    fn parse_ret(&mut self) -> (r: Result<StmtRet, ParseError>)
        requires
            old(self).wf(),
            at(old(self).toks(), old(self).cursor()).kind == Kind::Ret,
        ensures
            final(self).wf(),
            final(self).toks() == old(self).toks(),
            match stmt(old(self).toks(), old(self).cursor()) {
                Ok((v, q)) => r matches Ok(x) && St::Ret(x.expr@) == v && final(self).cursor() == q && q > old(self).cursor(),
                Err(e) => r matches Err(x) && x@ == e,
            },
        decreases old(self).toks().len() - old(self).cursor(), 4nat,
    {
        self.consume();
        let expr = match self.parse_expr() {
            Ok(v) => v,
            Err(e) => return Err(e),
        };
        match self.expect(Kind::Semi) {
            Ok(()) => {},
            Err(e) => return Err(e),
        }
        Ok(StmtRet { expr })
    }

    fn parse_exit(&mut self) -> (r: Result<StmtExit, ParseError>)
        requires
            old(self).wf(),
            at(old(self).toks(), old(self).cursor()).kind == Kind::Exit,
        ensures
            final(self).wf(),
            final(self).toks() == old(self).toks(),
            match stmt(old(self).toks(), old(self).cursor()) {
                Ok((v, q)) => r matches Ok(x) && St::Exit(x.expr@) == v && final(self).cursor() == q && q > old(self).cursor(),
                Err(e) => r matches Err(x) && x@ == e,
            },
        decreases old(self).toks().len() - old(self).cursor(), 4nat,
    {
        self.consume();
        let expr = match self.parse_expr() {
            Ok(v) => v,
            Err(e) => return Err(e),
        };
        match self.expect(Kind::Semi) {
            Ok(()) => {},
            Err(e) => return Err(e),
        }
        Ok(StmtExit { expr })
    }

    fn parse_if(&mut self) -> (r: Result<StmtIf, ParseError>)
        requires
            old(self).wf(),
            at(old(self).toks(), old(self).cursor()).kind == Kind::If,
        ensures
            final(self).wf(),
            final(self).toks() == old(self).toks(),
            match stmt(old(self).toks(), old(self).cursor()) {
                Ok((v, q)) => r matches Ok(x) && St::If(x.expr@, stmts_view(x.stmts@)) == v && final(self).cursor() == q && q > old(self).cursor(),
                Err(e) => r matches Err(x) && x@ == e,
            },
        decreases old(self).toks().len() - old(self).cursor(), 4nat,
    {
        self.consume();
        let expr = match self.parse_expr() {
            Ok(v) => v,
            Err(e) => return Err(e),
        };
        let stmts = match self.parse_braced() {
            Ok(v) => v,
            Err(e) => return Err(e),
        };
        Ok(StmtIf { expr, stmts })
    }

    fn parse_func(&mut self) -> (r: Result<StmtFunc, ParseError>)
        requires
            old(self).wf(),
            at(old(self).toks(), old(self).cursor()).kind == Kind::Func,
        ensures
            final(self).wf(),
            final(self).toks() == old(self).toks(),
            match stmt(old(self).toks(), old(self).cursor()) {
                Ok((v, q)) => r matches Ok(x) && St::Func(x.ident@, x.arg@, stmts_view(x.stmts@)) == v && final(self).cursor() == q && q > old(self).cursor(),
                Err(e) => r matches Err(x) && x@ == e,
            },
        decreases old(self).toks().len() - old(self).cursor(), 4nat,
    {
        self.consume();
        let ident = match self.parse_ident_name() {
            Ok(v) => v,
            Err(e) => return Err(e),
        };
        match self.expect(Kind::LPar) {
            Ok(()) => {},
            Err(e) => return Err(e),
        }
        let arg = match self.parse_ident_name() {
            Ok(v) => v,
            Err(e) => return Err(e),
        };
        match self.expect(Kind::RPar) {
            Ok(()) => {},
            Err(e) => return Err(e),
        }
        let stmts = match self.parse_braced() {
            Ok(v) => v,
            Err(e) => return Err(e),
        };
        Ok(StmtFunc { ident, arg, stmts })
    }

    fn parse_for(&mut self) -> (r: Result<StmtFor, ParseError>)
        requires
            old(self).wf(),
            at(old(self).toks(), old(self).cursor()).kind == Kind::For,
        ensures
            final(self).wf(),
            final(self).toks() == old(self).toks(),
            match stmt(old(self).toks(), old(self).cursor()) {
                Ok((v, q)) => r matches Ok(x) && St::For(x.init@, x.cond@, x.iter@, stmts_view(x.stmts@)) == v && final(self).cursor() == q && q > old(self).cursor(),
                Err(e) => r matches Err(x) && x@ == e,
            },
        decreases old(self).toks().len() - old(self).cursor(), 4nat,
    {
        self.consume();
        let init = match self.parse_decl() {
            Ok(v) => v,
            Err(e) => return Err(e),
        };
        let cond = match self.parse_expr() {
            Ok(v) => v,
            Err(e) => return Err(e),
        };
        match self.expect(Kind::Semi) {
            Ok(()) => {},
            Err(e) => return Err(e),
        }
        let iter = match self.parse_assign() {
            Ok(v) => v,
            Err(e) => return Err(e),
        };
        let stmts = match self.parse_braced() {
            Ok(v) => v,
            Err(e) => return Err(e),
        };
        Ok(StmtFor { init, cond, iter, stmts })
    }

    fn parse_asm(&mut self) -> (r: Result<StmtAsm, ParseError>)
        requires
            old(self).wf(),
            at(old(self).toks(), old(self).cursor()).kind == Kind::Asm,
        ensures
            final(self).wf(),
            final(self).toks() == old(self).toks(),
            match stmt(old(self).toks(), old(self).cursor()) {
                Ok((v, q)) => r matches Ok(x) && St::Code(x.code@) == v && final(self).cursor() == q && q > old(self).cursor(),
                Err(e) => r matches Err(x) && x@ == e,
            },
    {
        let t = self.peek();
        match &t.t_type {
            TokenType::Asm(code) => {
                let code = code.clone();
                self.consume();
                Ok(StmtAsm { code })
            },
            _ => Err(Parser::error(ParseErrorKind::Unexpected, t)),
        }
    }

    #[verifier::rlimit(60)]
    fn parse_stmt(&mut self) -> (r: Result<Stmt, ParseError>)
        requires
            old(self).wf(),
        ensures
            final(self).wf(),
            final(self).toks() == old(self).toks(),
            match stmt(old(self).toks(), old(self).cursor()) {
                Ok((v, q)) => r matches Ok(x) && x@ == v && final(self).cursor() == q && q > old(self).cursor(),
                Err(e) => r matches Err(x) && x@ == e,
            },
        decreases old(self).toks().len() - old(self).cursor(), 5nat,
    {
        let t = self.peek();
        match t.t_type.kind() {
            Kind::Ret => match self.parse_ret() {
                Ok(s) => Ok(Stmt::StmtRet(s)),
                Err(e) => Err(e),
            },
            Kind::Exit => match self.parse_exit() {
                Ok(s) => Ok(Stmt::StmtExit(s)),
                Err(e) => Err(e),
            },
            Kind::Decl => match self.parse_decl() {
                Ok(s) => Ok(Stmt::StmtDecl(s)),
                Err(e) => Err(e),
            },
            Kind::If => match self.parse_if() {
                Ok(s) => Ok(Stmt::StmtIf(s)),
                Err(e) => Err(e),
            },
            Kind::Var => match self.parse_assign() {
                Ok(s) => Ok(Stmt::StmtAssign(s)),
                Err(e) => Err(e),
            },
            Kind::Func => match self.parse_func() {
                Ok(s) => Ok(Stmt::StmtFunc(s)),
                Err(e) => Err(e),
            },
            Kind::For => match self.parse_for() {
                Ok(s) => Ok(Stmt::StmtFor(s)),
                Err(e) => Err(e),
            },
            Kind::Asm => match self.parse_asm() {
                Ok(s) => Ok(Stmt::StmtAsm(s)),
                Err(e) => Err(e),
            },
            Kind::Semi => {
                self.consume();
                Ok(Stmt::StmtBlank)
            },
            _ => Err(Parser::error(ParseErrorKind::Unexpected, t)),
        }
    }

    /// Statements up to, and not including, a token of kind `tk`.
    #[verifier::rlimit(60)]
    fn parse_mult(&mut self, tk: Kind) -> (r: Result<Vec<Stmt>, ParseError>)
        requires
            old(self).wf(),
        ensures
            final(self).wf(),
            final(self).toks() == old(self).toks(),
            match block(old(self).toks(), old(self).cursor(), tk) {
                Ok((v, q)) => r matches Ok(x) && stmts_view(x@) == v && final(self).cursor() == q && q >= old(self).cursor(),
                Err(e) => r matches Err(x) && x@ == e,
            },
        decreases old(self).toks().len() - old(self).cursor(), 6nat,
    {
        let ghost start = self.pos as int;
        let mut stmts: Vec<Stmt> = Vec::new();
        loop
            invariant
                self.wf(),
                self.toks() == old(self).toks(),
                start == old(self).cursor(),
                self.cursor() >= start,
                block(self.toks(), start, tk) == prepend(stmts_view(stmts@), block(self.toks(), self.cursor(), tk)),
            ensures
                self.wf(),
                self.toks() == old(self).toks(),
                self.cursor() >= start,
                block(self.toks(), start, tk) == prepend(stmts_view(stmts@), block(self.toks(), self.cursor(), tk)),
                at(self.toks(), self.cursor()).kind == tk,
            decreases self.toks().len() - self.cursor(),
        {
            if self.peek().t_type.kind() == tk {
                break;
            }
            let ghost before = stmts@;
            let ghost here = self.cursor();
            let s = match self.parse_stmt() {
                Ok(s) => s,
                Err(e) => return Err(e),
            };
            stmts.push(s);
            proof {
                lemma_stmts_view_push(before, s);
                let ts = self.toks();
                assert(advanced(ts, here, self.cursor()));
                assert(block(ts, here, tk) == prepend(seq![s@], block(ts, self.cursor(), tk)));
                match block(ts, self.cursor(), tk) {
                    Ok((rest, q)) => {
                        assert(stmts_view(before).push(s@) + rest =~= stmts_view(before) + (seq![s@] + rest));
                    },
                    Err(_) => {},
                }
            }
        }
        Ok(stmts)
    }

    /// Parses the whole program into `parse_tree`.
    pub fn parse(&mut self) -> (r: Result<(), ParseError>)
        requires
            old(self).wf(),
            old(self).cursor() == 0,
        ensures
            match program(old(self).toks()) {
                Ok(v) => r is Ok && final(self).tree() == v,
                Err(e) => r matches Err(x) && x@ == e,
            },
    {
        match self.parse_mult(Kind::Eof) {
            Ok(stmts) => {
                self.parse_tree.stmts = stmts;
                Ok(())
            },
            Err(e) => Err(e),
        }
    }

}

} // verus!
