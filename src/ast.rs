use vstd::prelude::*;

verus! {

/// A decimal number: `mantissa / 10^scale`.
pub struct Number {
    pub mantissa: i64,
    pub scale: u32,
}

/// Whether a record lets fields beyond its listed ones through.
pub struct RecordAttrs {
    pub open: bool,
}

/// Merge priority of a value with metadata.
pub enum MergePriority {
    Default,
    Normal,
}

/// Binary operators.
pub enum BinaryOp {
    Plus,
    Sub,
    Mult,
    Div,
    Modulo,
    Pow,
    Eq,
    LessThan,
    GreaterThan,
    GreaterOrEq,
    LessOrEq,
    Merge,
    StrConcat,
    ArrayConcat,
    DynAccess,
    DynRemove,
    HasField,
    ArrayElemAt,
    ArrayMap,
}

/// Where a unary operator stands relative to its operand.
pub enum OpPos {
    Prefix,
    Postfix,
    Special,
}

/// Unary operators.
pub enum UnaryOp {
    Ite,
    IsNum,
    IsBool,
    IsStr,
    IsFun,
    IsArray,
    IsRecord,
    BoolNot,
    BoolAnd,
    BoolOr,
    Blame,
    StaticAccess(String),
    ArrayLength,
    ChunksConcat,
}

/// Operators of more than two operands.
pub enum NAryOp {
    StrReplace,
    StrReplaceRegex,
    StrSubstr,
    MergeContract,
}

/// A piece of a string with interpolation.
pub enum StrChunk {
    Literal(String),
    /// An interpolated expression and its indentation.
    Expr(Box<Term>, usize),
}

/// Annotations attached to a value.
pub struct MetaValue {
    pub doc: Option<String>,
    pub types: Option<Types>,
    pub contracts: Vec<Types>,
    pub priority: MergePriority,
    pub value: Option<Box<Term>>,
}

/// One field of a record pattern.
pub enum Match {
    /// `id` with its metadata.
    Simple(String, MetaValue),
    /// `id` bound to a nested pattern, itself maybe named.
    Assign(String, MetaValue, Option<String>, Box<Destruct>),
}

/// A destructuring pattern.
pub enum Destruct {
    Record { matches: Vec<Match>, open: bool, rest: Option<String> },
    Empty,
}

/// Types.
pub enum Types {
    Dyn,
    Num,
    Bool,
    Str,
    Sym,
    /// A term used as a contract.
    Flat(Box<Term>),
    Var(String),
    Forall(String, Box<Types>),
    Enum(Box<Types>),
    StaticRecord(Box<Types>),
    DynRecord(Box<Types>),
    RowEmpty,
    RowExtend(String, Option<Box<Types>>, Box<Types>),
    Arrow(Box<Types>, Box<Types>),
    Array(Box<Types>),
}

/// Terms of the language.
pub enum Term {
    Null,
    Bool(bool),
    Num(Number),
    Str(String),
    /// Chunks stored last first.
    StrChunks(Vec<StrChunk>),
    Fun(String, Box<Term>),
    FunPattern(Option<String>, Destruct, Box<Term>),
    Lbl,
    Let(String, Box<Term>, Box<Term>),
    LetPattern(Option<String>, Destruct, Box<Term>, Box<Term>),
    App(Box<Term>, Box<Term>),
    Var(String),
    Enum(String),
    /// Fields by name, and attributes. Names are meant to be distinct; the
    /// printer lists fields by name, and fields of equal name in stored
    /// order.
    Record(Vec<(String, Term)>, RecordAttrs),
    /// Static fields, fields with computed names, attributes.
    RecRecord(Vec<(String, Term)>, Vec<(Term, Term)>, RecordAttrs),
    /// Scrutinee, branches by tag (tags meant to be distinct, listed by
    /// tag), default branch.
    Switch(Box<Term>, Vec<(String, Term)>, Box<Term>),
    Array(Vec<Term>),
    Op1(UnaryOp, Box<Term>),
    Op2(BinaryOp, Box<Term>, Box<Term>),
    OpN(NAryOp, Vec<Term>),
    Sym(i32),
    Wrapped(i32, Box<Term>),
    MetaValue(MetaValue),
    Import(String),
    ResolvedImport(u32),
    ParseError,
}

impl UnaryOp {
    pub open spec fn spec_pos(&self) -> OpPos {
        match self {
            UnaryOp::BoolAnd | UnaryOp::BoolOr | UnaryOp::StaticAccess(_) => OpPos::Postfix,
            UnaryOp::Ite | UnaryOp::ChunksConcat => OpPos::Special,
            _ => OpPos::Prefix,
        }
    }

    pub fn pos(&self) -> (r: OpPos)
        ensures
            r == self.spec_pos(),
    {
        match self {
            UnaryOp::BoolAnd | UnaryOp::BoolOr | UnaryOp::StaticAccess(_) => OpPos::Postfix,
            UnaryOp::Ite | UnaryOp::ChunksConcat => OpPos::Special,
            _ => OpPos::Prefix,
        }
    }
}

impl Term {
    /// Terms that never need parentheses as an operand.
    pub open spec fn spec_is_atom(&self) -> bool {
        match self {
            Term::Null | Term::Bool(_) | Term::Num(_) | Term::Str(_) | Term::StrChunks(_)
            | Term::Lbl | Term::Var(_) | Term::Enum(_) | Term::Record(..) | Term::RecRecord(..)
            | Term::Array(_) | Term::Import(_) | Term::ResolvedImport(_) | Term::Sym(_)
            | Term::ParseError => true,
            Term::Op1(UnaryOp::StaticAccess(_), _) => true,
            _ => false,
        }
    }

    pub fn is_atom(&self) -> (r: bool)
        ensures
            r == self.spec_is_atom(),
    {
        match self {
            Term::Null | Term::Bool(_) | Term::Num(_) | Term::Str(_) | Term::StrChunks(_)
            | Term::Lbl | Term::Var(_) | Term::Enum(_) | Term::Record(..) | Term::RecRecord(..)
            | Term::Array(_) | Term::Import(_) | Term::ResolvedImport(_) | Term::Sym(_)
            | Term::ParseError => true,
            Term::Op1(UnaryOp::StaticAccess(_), _) => true,
            _ => false,
        }
    }
}

impl Types {
    /// Types that never need parentheses as an operand.
    pub open spec fn spec_is_atom(&self) -> bool {
        match self {
            Types::Dyn | Types::Num | Types::Bool | Types::Str | Types::Sym | Types::Var(_)
            | Types::Enum(_) | Types::StaticRecord(_) | Types::DynRecord(_) | Types::RowEmpty => true,
            Types::Flat(t) => t.spec_is_atom(),
            _ => false,
        }
    }

    pub fn fmt_is_atom(&self) -> (r: bool)
        ensures
            r == self.spec_is_atom(),
    {
        match self {
            Types::Dyn | Types::Num | Types::Bool | Types::Str | Types::Sym | Types::Var(_)
            | Types::Enum(_) | Types::StaticRecord(_) | Types::DynRecord(_) | Types::RowEmpty => true,
            Types::Flat(t) => t.is_atom(),
            _ => false,
        }
    }
}

} // verus!
