use vstd::prelude::*;

verus! {

/// The category of a token, without its payload.
#[derive(Clone, Copy, Debug, PartialEq, Eq, Structural)]
pub enum Kind {
    Ret,
    Exit,
    Decl,
    If,
    Func,
    For,
    Mac,
    Use,
    Semi,
    Eq,
    DEq,
    DPipe,
    DAmp,
    Star,
    Plus,
    Dash,
    Slash,
    Per,
    Ex,
    LPar,
    RPar,
    LBr,
    RBr,
    At,
    Amp,
    Hash,
    Dot,
    Lt,
    Gt,
    QMark,
    Int,
    Asm,
    Path,
    Var,
    Eof,
}

#[derive(Clone, Debug)]
pub enum TokenType {
    // Keywords
    Ret,
    Exit,
    Decl,
    If,
    Func,
    For,
    Mac,
    Use,
    // Symbols
    Semi,
    Eq,
    DEq,
    DPipe,
    DAmp,
    Star,
    Plus,
    Dash,
    Slash,
    Per,
    Ex,
    LPar,
    RPar,
    LBr,
    RBr,
    At,
    Amp,
    Hash,
    Dot,
    Lt,
    Gt,
    QMark,
    // Literals
    Int(String),
    Asm(String),
    Path(String),
    // Identifiers
    Var(String),
    // End of input
    Eof,
}

/// A token category and the line of the source it was read on.
#[derive(Clone, Debug)]
pub struct Token {
    pub t_type: TokenType,
    pub line: usize,
}

/// What a token category is, as a value: its kind and its payload text
/// (empty for the kinds that carry none).
pub struct TokenModel {
    pub kind: Kind,
    pub text: Seq<char>,
}

/// A token as a value.
pub struct TokenView {
    pub kind: Kind,
    pub text: Seq<char>,
    pub line: nat,
}

impl Kind {
    /// True of the kinds that carry a payload text.
    pub open spec fn has_payload(self) -> bool {
        self == Kind::Int || self == Kind::Asm || self == Kind::Path || self == Kind::Var
    }
}

impl View for TokenType {
    type V = TokenModel;

    open spec fn view(&self) -> TokenModel {
        TokenModel { kind: self.kind_spec(), text: self.payload_spec() }
    }
}

impl View for Token {
    type V = TokenView;

    open spec fn view(&self) -> TokenView {
        TokenView { kind: self.t_type.kind_spec(), text: self.t_type.payload_spec(), line: self.line as nat }
    }
}

/// The fixed text of each kind without a payload.
pub open spec fn fixed_text(k: Kind) -> Seq<char> {
    match k {
        Kind::Ret => "return"@,
        Kind::Exit => "exit"@,
        Kind::Decl => "decl"@,
        Kind::If => "if"@,
        Kind::Func => "func"@,
        Kind::For => "for"@,
        Kind::Mac => "mac"@,
        Kind::Use => "use"@,
        Kind::Semi => ";"@,
        Kind::Eq => "="@,
        Kind::DEq => "=="@,
        Kind::DPipe => "||"@,
        Kind::DAmp => "&&"@,
        Kind::Star => "*"@,
        Kind::Plus => "+"@,
        Kind::Dash => "-"@,
        Kind::Slash => "/"@,
        Kind::Per => "%"@,
        Kind::Ex => "!"@,
        Kind::LPar => "("@,
        Kind::RPar => ")"@,
        Kind::LBr => "{"@,
        Kind::RBr => "}"@,
        Kind::At => "@"@,
        Kind::Amp => "&"@,
        Kind::Hash => "#"@,
        Kind::Dot => "."@,
        Kind::Lt => "<"@,
        Kind::Gt => ">"@,
        Kind::QMark => "?"@,
        Kind::Eof => "end of file"@,
        _ => Seq::empty(),
    }
}

/// The display text of a token category: the fixed text, the payload itself
/// for integers and identifiers, and a quoted form for raw instructions and paths.
pub open spec fn display_text(m: TokenModel) -> Seq<char> {
    match m.kind {
        Kind::Int => m.text,
        Kind::Var => m.text,
        Kind::Asm => seq!['`'] + m.text + seq!['`'],
        Kind::Path => seq!['<'] + m.text + seq!['>'],
        _ => fixed_text(m.kind),
    }
}

impl TokenType {
    pub open spec fn kind_spec(&self) -> Kind {
        match self {
            TokenType::Ret => Kind::Ret,
            TokenType::Exit => Kind::Exit,
            TokenType::Decl => Kind::Decl,
            TokenType::If => Kind::If,
            TokenType::Func => Kind::Func,
            TokenType::For => Kind::For,
            TokenType::Mac => Kind::Mac,
            TokenType::Use => Kind::Use,
            TokenType::Semi => Kind::Semi,
            TokenType::Eq => Kind::Eq,
            TokenType::DEq => Kind::DEq,
            TokenType::DPipe => Kind::DPipe,
            TokenType::DAmp => Kind::DAmp,
            TokenType::Star => Kind::Star,
            TokenType::Plus => Kind::Plus,
            TokenType::Dash => Kind::Dash,
            TokenType::Slash => Kind::Slash,
            TokenType::Per => Kind::Per,
            TokenType::Ex => Kind::Ex,
            TokenType::LPar => Kind::LPar,
            TokenType::RPar => Kind::RPar,
            TokenType::LBr => Kind::LBr,
            TokenType::RBr => Kind::RBr,
            TokenType::At => Kind::At,
            TokenType::Amp => Kind::Amp,
            TokenType::Hash => Kind::Hash,
            TokenType::Dot => Kind::Dot,
            TokenType::Lt => Kind::Lt,
            TokenType::Gt => Kind::Gt,
            TokenType::QMark => Kind::QMark,
            TokenType::Int(_) => Kind::Int,
            TokenType::Asm(_) => Kind::Asm,
            TokenType::Path(_) => Kind::Path,
            TokenType::Var(_) => Kind::Var,
            TokenType::Eof => Kind::Eof,
        }
    }

    pub open spec fn payload_spec(&self) -> Seq<char> {
        match self {
            TokenType::Int(s) => s@,
            TokenType::Asm(s) => s@,
            TokenType::Path(s) => s@,
            TokenType::Var(s) => s@,
            _ => Seq::empty(),
        }
    }

    /// The category of this token, without its payload.
    pub fn kind(&self) -> (k: Kind)
        ensures
            k == self.kind_spec(),
    {
        match self {
            TokenType::Ret => Kind::Ret,
            TokenType::Exit => Kind::Exit,
            TokenType::Decl => Kind::Decl,
            TokenType::If => Kind::If,
            TokenType::Func => Kind::Func,
            TokenType::For => Kind::For,
            TokenType::Mac => Kind::Mac,
            TokenType::Use => Kind::Use,
            TokenType::Semi => Kind::Semi,
            TokenType::Eq => Kind::Eq,
            TokenType::DEq => Kind::DEq,
            TokenType::DPipe => Kind::DPipe,
            TokenType::DAmp => Kind::DAmp,
            TokenType::Star => Kind::Star,
            TokenType::Plus => Kind::Plus,
            TokenType::Dash => Kind::Dash,
            TokenType::Slash => Kind::Slash,
            TokenType::Per => Kind::Per,
            TokenType::Ex => Kind::Ex,
            TokenType::LPar => Kind::LPar,
            TokenType::RPar => Kind::RPar,
            TokenType::LBr => Kind::LBr,
            TokenType::RBr => Kind::RBr,
            TokenType::At => Kind::At,
            TokenType::Amp => Kind::Amp,
            TokenType::Hash => Kind::Hash,
            TokenType::Dot => Kind::Dot,
            TokenType::Lt => Kind::Lt,
            TokenType::Gt => Kind::Gt,
            TokenType::QMark => Kind::QMark,
            TokenType::Int(_) => Kind::Int,
            TokenType::Asm(_) => Kind::Asm,
            TokenType::Path(_) => Kind::Path,
            TokenType::Var(_) => Kind::Var,
            TokenType::Eof => Kind::Eof,
        }
    }

    /// The display text: the fixed text of the category, the payload of an
    /// integer or identifier, and a quoted form of a raw instruction or path.
    pub fn to_text(&self) -> (r: String)
        ensures
            r@ == display_text(self@),
    {
        match self {
            TokenType::Int(s) => s.clone(),
            TokenType::Var(s) => s.clone(),
            TokenType::Asm(s) => {
                let mut r = String::from_str("`");
                r.append(s.as_str());
                r.append("`");
                proof { reveal_strlit("`"); }
                assert(r@ =~= seq!['`'] + s@ + seq!['`']);
                r
            },
            TokenType::Path(s) => {
                let mut r = String::from_str("<");
                r.append(s.as_str());
                r.append(">");
                proof { reveal_strlit("<"); reveal_strlit(">"); }
                assert(r@ =~= seq!['<'] + s@ + seq!['>']);
                r
            },
            TokenType::Ret => String::from_str("return"),
            TokenType::Exit => String::from_str("exit"),
            TokenType::Decl => String::from_str("decl"),
            TokenType::If => String::from_str("if"),
            TokenType::Func => String::from_str("func"),
            TokenType::For => String::from_str("for"),
            TokenType::Mac => String::from_str("mac"),
            TokenType::Use => String::from_str("use"),
            TokenType::Semi => String::from_str(";"),
            TokenType::Eq => String::from_str("="),
            TokenType::DEq => String::from_str("=="),
            TokenType::DPipe => String::from_str("||"),
            TokenType::DAmp => String::from_str("&&"),
            TokenType::Star => String::from_str("*"),
            TokenType::Plus => String::from_str("+"),
            TokenType::Dash => String::from_str("-"),
            TokenType::Slash => String::from_str("/"),
            TokenType::Per => String::from_str("%"),
            TokenType::Ex => String::from_str("!"),
            TokenType::LPar => String::from_str("("),
            TokenType::RPar => String::from_str(")"),
            TokenType::LBr => String::from_str("{"),
            TokenType::RBr => String::from_str("}"),
            TokenType::At => String::from_str("@"),
            TokenType::Amp => String::from_str("&"),
            TokenType::Hash => String::from_str("#"),
            TokenType::Dot => String::from_str("."),
            TokenType::Lt => String::from_str("<"),
            TokenType::Gt => String::from_str(">"),
            TokenType::QMark => String::from_str("?"),
            TokenType::Eof => String::from_str("end of file"),
        }
    }

    /// A copy of this category, payload included.
    pub fn copy(&self) -> (r: TokenType)
        ensures
            r@ == self@,
    {
        match self {
            TokenType::Int(s) => TokenType::Int(s.clone()),
            TokenType::Asm(s) => TokenType::Asm(s.clone()),
            TokenType::Path(s) => TokenType::Path(s.clone()),
            TokenType::Var(s) => TokenType::Var(s.clone()),
            TokenType::Ret => TokenType::Ret,
            TokenType::Exit => TokenType::Exit,
            TokenType::Decl => TokenType::Decl,
            TokenType::If => TokenType::If,
            TokenType::Func => TokenType::Func,
            TokenType::For => TokenType::For,
            TokenType::Mac => TokenType::Mac,
            TokenType::Use => TokenType::Use,
            TokenType::Semi => TokenType::Semi,
            TokenType::Eq => TokenType::Eq,
            TokenType::DEq => TokenType::DEq,
            TokenType::DPipe => TokenType::DPipe,
            TokenType::DAmp => TokenType::DAmp,
            TokenType::Star => TokenType::Star,
            TokenType::Plus => TokenType::Plus,
            TokenType::Dash => TokenType::Dash,
            TokenType::Slash => TokenType::Slash,
            TokenType::Per => TokenType::Per,
            TokenType::Ex => TokenType::Ex,
            TokenType::LPar => TokenType::LPar,
            TokenType::RPar => TokenType::RPar,
            TokenType::LBr => TokenType::LBr,
            TokenType::RBr => TokenType::RBr,
            TokenType::At => TokenType::At,
            TokenType::Amp => TokenType::Amp,
            TokenType::Hash => TokenType::Hash,
            TokenType::Dot => TokenType::Dot,
            TokenType::Lt => TokenType::Lt,
            TokenType::Gt => TokenType::Gt,
            TokenType::QMark => TokenType::QMark,
            TokenType::Eof => TokenType::Eof,
        }
    }

    /// The payload text, for the categories that carry one.
    pub fn payload(&self) -> (r: Option<&String>)
        ensures
            self.kind_spec().has_payload() <==> r is Some,
            r matches Some(s) ==> s@ == self.payload_spec(),
    {
        match self {
            TokenType::Int(s) => Some(s),
            TokenType::Asm(s) => Some(s),
            TokenType::Path(s) => Some(s),
            TokenType::Var(s) => Some(s),
            _ => None,
        }
    }
}

impl PartialEq for TokenType {
    /// Two categories are equal when their kinds are, whatever their payloads.
    fn eq(&self, other: &TokenType) -> (r: bool) {
        self.kind() == other.kind()
    }
}

impl vstd::std_specs::cmp::PartialEqSpecImpl for TokenType {
    open spec fn obeys_eq_spec() -> bool {
        true
    }

    open spec fn eq_spec(&self, other: &TokenType) -> bool {
        self.kind_spec() == other.kind_spec()
    }
}

impl Eq for TokenType {

}

} // verus!
