use crate::ast::{Destruct, Match, MetaValue, StrChunk, Term, Types};
use vstd::prelude::*;

verus! {

/// The deepest nesting of terms and types that the printer accepts: deeper
/// trees are refused rather than risk exhausting the call stack.
pub const MAX_DEPTH: usize = 128;

/// Whether `ty` nests at most `n` levels of types and terms.
pub open spec fn types_within(ty: Types, n: nat) -> bool
    decreases ty, 0nat,
{
    n > 0 && {
        let m = (n - 1) as nat;
        match ty {
            Types::Flat(t) => term_within(*t, m),
            Types::Forall(_, b) => types_within(*b, m),
            Types::Enum(b) => types_within(*b, m),
            Types::StaticRecord(b) => types_within(*b, m),
            Types::DynRecord(b) => types_within(*b, m),
            Types::Array(b) => types_within(*b, m),
            Types::RowExtend(_, o, tail) => match o {
                Some(b) => types_within(*b, m) && types_within(*tail, m),
                None => types_within(*tail, m),
            },
            Types::Arrow(a, b) => types_within(*a, m) && types_within(*b, m),
            _ => true,
        }
    }
}

/// Whether the annotation and contracts of `mv` nest at most `n` levels.
pub open spec fn annot_within(mv: MetaValue, n: nat) -> bool
    decreases mv, 0nat,
{
    &&& match mv.types {
        Some(ty) => types_within(ty, n),
        None => true,
    }
    &&& forall|i: int| 0 <= i < mv.contracts.len() ==> types_within(#[trigger] mv.contracts[i], n)
}

/// Whether the annotations of the fields of `d` nest at most `n` levels.
pub open spec fn destruct_within(d: Destruct, n: nat) -> bool
    decreases d, 0nat,
{
    match d {
        Destruct::Record { matches, .. } => forall|i: int|
            0 <= i < matches.len() ==> match #[trigger] matches[i] {
                Match::Simple(_, mv) => annot_within(mv, n),
                Match::Assign(..) => true,
            },
        Destruct::Empty => true,
    }
}

pub open spec fn chunk_within(c: StrChunk, n: nat) -> bool
    decreases c, 0nat,
{
    match c {
        StrChunk::Literal(_) => true,
        StrChunk::Expr(e, _) => term_within(*e, n),
    }
}

/// Whether `t` nests at most `n` levels of terms and types.
pub open spec fn term_within(t: Term, n: nat) -> bool
    decreases t, 0nat,
{
    n > 0 && {
        let m = (n - 1) as nat;
        match t {
            Term::StrChunks(cs) => forall|i: int| 0 <= i < cs.len() ==> chunk_within(#[trigger] cs[i], m),
            Term::Fun(_, b) => term_within(*b, m),
            Term::FunPattern(_, d, b) => destruct_within(d, m) && term_within(*b, m),
            Term::Let(_, v, b) => term_within(*v, m) && term_within(*b, m),
            Term::LetPattern(_, d, v, b) => destruct_within(d, m) && term_within(*v, m) && term_within(*b, m),
            Term::App(a, b) => term_within(*a, m) && term_within(*b, m),
            Term::Record(fs, _) => forall|i: int| 0 <= i < fs.len() ==> term_within(#[trigger] fs[i].1, m),
            Term::RecRecord(fs, ds, _) => {
                &&& forall|i: int| 0 <= i < fs.len() ==> term_within(#[trigger] fs[i].1, m)
                &&& forall|i: int| 0 <= i < ds.len() ==> term_within(#[trigger] ds[i].0, m)
                &&& forall|i: int| 0 <= i < ds.len() ==> term_within(#[trigger] ds[i].1, m)
            },
            Term::Switch(s, cs, d) => {
                &&& term_within(*s, m)
                &&& forall|i: int| 0 <= i < cs.len() ==> term_within(#[trigger] cs[i].1, m)
                &&& term_within(*d, m)
            },
            Term::Array(v) => forall|i: int| 0 <= i < v.len() ==> term_within(#[trigger] v[i], m),
            Term::OpN(_, v) => forall|i: int| 0 <= i < v.len() ==> term_within(#[trigger] v[i], m),
            Term::Op1(_, a) => term_within(*a, m),
            Term::Op2(_, a, b) => term_within(*a, m) && term_within(*b, m),
            Term::MetaValue(mv) => annot_within(mv, m) && match mv.value {
                Some(v) => term_within(*v, m),
                None => true,
            },
            _ => true,
        }
    }
}

/// Whether `ty` nests at most `n` levels; never recurses deeper than `n`.
pub fn types_within_depth(ty: &Types, n: usize) -> (r: bool)
    ensures
        r == types_within(*ty, n as nat),
    decreases ty,
{
    if n == 0 {
        return false;
    }
    let m = n - 1;
    match ty {
        Types::Flat(t) => term_within_depth(t, m),
        Types::Forall(_, b) => types_within_depth(b, m),
        Types::Enum(b) => types_within_depth(b, m),
        Types::StaticRecord(b) => types_within_depth(b, m),
        Types::DynRecord(b) => types_within_depth(b, m),
        Types::Array(b) => types_within_depth(b, m),
        Types::RowExtend(_, o, tail) => {
            let head = match o {
                Some(b) => types_within_depth(b, m),
                None => true,
            };
            head && types_within_depth(tail, m)
        },
        Types::Arrow(a, b) => types_within_depth(a, m) && types_within_depth(b, m),
        _ => true,
    }
}

fn annot_within_depth(mv: &MetaValue, n: usize) -> (r: bool)
    ensures
        r == annot_within(*mv, n as nat),
    decreases mv,
{
    let head = match &mv.types {
        Some(ty) => types_within_depth(ty, n),
        None => true,
    };
    if !head {
        return false;
    }
    let mut i: usize = 0;
    while i < mv.contracts.len()
        invariant
            i <= mv.contracts@.len(),
            forall|j: int| 0 <= j < i ==> types_within(#[trigger] mv.contracts[j], n as nat),
        decreases mv.contracts@.len() - i,
    {
        if !types_within_depth(&mv.contracts[i], n) {
            return false;
        }
        i = i + 1;
    }
    true
}

fn match_within_depth(mt: &Match, n: usize) -> (r: bool)
    ensures
        r == match *mt {
            Match::Simple(_, mv) => annot_within(mv, n as nat),
            Match::Assign(..) => true,
        },
    decreases mt,
{
    match mt {
        Match::Simple(_, mv) => annot_within_depth(mv, n),
        Match::Assign(..) => true,
    }
}

fn matches_within_depth(ms: &Vec<Match>, n: usize) -> (r: bool)
    ensures
        r == forall|i: int|
            0 <= i < ms.len() ==> match #[trigger] ms[i] {
                Match::Simple(_, mv) => annot_within(mv, n as nat),
                Match::Assign(..) => true,
            },
    decreases ms,
{
    let mut i: usize = 0;
    while i < ms.len()
        invariant
            i <= ms@.len(),
            forall|j: int| 0 <= j < i ==> match #[trigger] ms[j] {
                Match::Simple(_, mv) => annot_within(mv, n as nat),
                Match::Assign(..) => true,
            },
        decreases ms@.len() - i,
    {
        if !match_within_depth(&ms[i], n) {
            return false;
        }
        i = i + 1;
    }
    true
}

fn destruct_within_depth(d: &Destruct, n: usize) -> (r: bool)
    ensures
        r == destruct_within(*d, n as nat),
    decreases d,
{
    match d {
        Destruct::Record { matches, .. } => matches_within_depth(matches, n),
        Destruct::Empty => true,
    }
}

fn terms_within_depth(v: &Vec<Term>, n: usize) -> (r: bool)
    ensures
        r == forall|i: int| 0 <= i < v.len() ==> term_within(#[trigger] v[i], n as nat),
    decreases v,
{
    let mut i: usize = 0;
    while i < v.len()
        invariant
            i <= v@.len(),
            forall|j: int| 0 <= j < i ==> term_within(#[trigger] v[j], n as nat),
        decreases v@.len() - i,
    {
        if !term_within_depth(&v[i], n) {
            return false;
        }
        i = i + 1;
    }
    true
}

fn fields_within_depth(v: &Vec<(String, Term)>, n: usize) -> (r: bool)
    ensures
        r == forall|i: int| 0 <= i < v.len() ==> term_within(#[trigger] v[i].1, n as nat),
    decreases v,
{
    let mut i: usize = 0;
    while i < v.len()
        invariant
            i <= v@.len(),
            forall|j: int| 0 <= j < i ==> term_within(#[trigger] v[j].1, n as nat),
        decreases v@.len() - i,
    {
        if !term_within_depth(&v[i].1, n) {
            return false;
        }
        i = i + 1;
    }
    true
}

fn pairs_within_depth(v: &Vec<(Term, Term)>, n: usize) -> (r: bool)
    ensures
        r == ((forall|i: int| 0 <= i < v.len() ==> term_within(#[trigger] v[i].0, n as nat))
            && (forall|i: int| 0 <= i < v.len() ==> term_within(#[trigger] v[i].1, n as nat))),
    decreases v,
{
    let mut i: usize = 0;
    while i < v.len()
        invariant
            i <= v@.len(),
            forall|j: int| 0 <= j < i ==> term_within(#[trigger] v[j].0, n as nat),
            forall|j: int| 0 <= j < i ==> term_within(#[trigger] v[j].1, n as nat),
        decreases v@.len() - i,
    {
        if !term_within_depth(&v[i].0, n) || !term_within_depth(&v[i].1, n) {
            return false;
        }
        i = i + 1;
    }
    true
}

fn chunks_within_depth(v: &Vec<StrChunk>, n: usize) -> (r: bool)
    ensures
        r == forall|i: int| 0 <= i < v.len() ==> chunk_within(#[trigger] v[i], n as nat),
    decreases v,
{
    let mut i: usize = 0;
    while i < v.len()
        invariant
            i <= v@.len(),
            forall|j: int| 0 <= j < i ==> chunk_within(#[trigger] v[j], n as nat),
        decreases v@.len() - i,
    {
        let ok = match &v[i] {
            StrChunk::Literal(_) => true,
            StrChunk::Expr(e, _) => term_within_depth(e, n),
        };
        if !ok {
            return false;
        }
        i = i + 1;
    }
    true
}

/// Whether `t` nests at most `n` levels; never recurses deeper than `n`.
pub fn term_within_depth(t: &Term, n: usize) -> (r: bool)
    ensures
        r == term_within(*t, n as nat),
    decreases t,
{
    if n == 0 {
        return false;
    }
    let m = n - 1;
    match t {
        Term::StrChunks(cs) => chunks_within_depth(cs, m),
        Term::Fun(_, b) => term_within_depth(b, m),
        Term::FunPattern(_, d, b) => destruct_within_depth(d, m) && term_within_depth(b, m),
        Term::Let(_, v, b) => term_within_depth(v, m) && term_within_depth(b, m),
        Term::LetPattern(_, d, v, b) => destruct_within_depth(d, m) && term_within_depth(v, m)
            && term_within_depth(b, m),
        Term::App(a, b) => term_within_depth(a, m) && term_within_depth(b, m),
        Term::Record(fs, _) => fields_within_depth(fs, m),
        Term::RecRecord(fs, ds, _) => fields_within_depth(fs, m) && pairs_within_depth(ds, m),
        Term::Switch(s, cs, d) => term_within_depth(s, m) && fields_within_depth(cs, m)
            && term_within_depth(d, m),
        Term::Array(v) => terms_within_depth(v, m),
        Term::OpN(_, v) => terms_within_depth(v, m),
        Term::Op1(_, a) => term_within_depth(a, m),
        Term::Op2(_, a, b) => term_within_depth(a, m) && term_within_depth(b, m),
        Term::MetaValue(mv) => {
            let value = match &mv.value {
                Some(v) => term_within_depth(v, m),
                None => true,
            };
            annot_within_depth(mv, m) && value
        },
        _ => true,
    }
}

} // verus!
