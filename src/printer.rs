use crate::ast::{
    BinaryOp, Destruct, Match, MergePriority, MetaValue, NAryOp, OpPos, StrChunk, Term, Types,
    UnaryOp,
};
use crate::depth::{term_within, term_within_depth, types_within, types_within_depth, MAX_DEPTH};
use crate::doc::{cat, enclose, group, layout, nest, softline, txt, DocSpec, Document};
use crate::number::{i64_text, int_text, number_text};
use crate::order::{entry, entry_key, is_entry_of, lemma_sort_len, lemma_sort_map, occurs_in, sort_by_key, sorted_map};
use crate::quoting::{escape, escape_text, marker_matches, max_marker_need, min_interpolate_sign};
use vstd::prelude::*;

verus! {

/// Why a tree could not be printed.
#[derive(Debug)]
pub enum PrettyError {
    /// A construct that has no concrete syntax, named.
    UnsupportedConstruct(String),
    /// A tree nested deeper than `MAX_DEPTH` levels.
    TooDeep,
}

/// Whether every type and term inside `ty` can be printed.
pub open spec fn types_supported(ty: Types) -> bool
    decreases ty, 0nat,
{
    match ty {
        Types::Flat(t) => term_supported(*t),
        Types::Forall(_, b) => types_supported(*b),
        Types::Enum(b) => types_supported(*b),
        Types::StaticRecord(b) => types_supported(*b),
        Types::DynRecord(b) => types_supported(*b),
        Types::Array(b) => types_supported(*b),
        Types::RowExtend(_, o, tail) => match o {
            Some(b) => types_supported(*b) && types_supported(*tail),
            None => types_supported(*tail),
        },
        Types::Arrow(a, b) => types_supported(*a) && types_supported(*b),
        _ => true,
    }
}

/// Whether the annotation and the contracts of `mv` can be printed.
pub open spec fn annot_supported(mv: MetaValue) -> bool
    decreases mv, 0nat,
{
    &&& match mv.types {
        Some(ty) => types_supported(ty),
        None => true,
    }
    &&& forall|i: int| 0 <= i < mv.contracts.len() ==> types_supported(#[trigger] mv.contracts[i])
}

/// Whether all of `mv`, its value included, can be printed.
pub open spec fn meta_supported(mv: MetaValue) -> bool
    decreases mv, 1nat,
{
    &&& annot_supported(mv)
    &&& match mv.value {
        Some(v) => term_supported(*v),
        None => true,
    }
}

/// Whether a pattern holds only simple field bindings with printable metadata.
pub open spec fn destruct_supported(d: Destruct) -> bool
    decreases d, 0nat,
{
    match d {
        Destruct::Record { matches, .. } => forall|i: int|
            0 <= i < matches.len() ==> match #[trigger] matches[i] {
                Match::Simple(_, mv) => annot_supported(mv),
                Match::Assign(..) => false,
            },
        Destruct::Empty => true,
    }
}

pub open spec fn chunk_supported(c: StrChunk) -> bool
    decreases c, 0nat,
{
    match c {
        StrChunk::Literal(_) => true,
        StrChunk::Expr(e, _) => term_supported(*e),
    }
}

/// Whether `t` can be printed: it holds no pattern beyond simple field
/// bindings and no special unary operator other than the conditional.
pub open spec fn term_supported(t: Term) -> bool
    decreases t, 0nat,
{
    match t {
        Term::StrChunks(cs) => forall|i: int| 0 <= i < cs.len() ==> chunk_supported(#[trigger] cs[i]),
        Term::Fun(_, b) => term_supported(*b),
        Term::FunPattern(_, d, b) => destruct_supported(d) && term_supported(*b),
        Term::Let(_, v, b) => term_supported(*v) && term_supported(*b),
        Term::LetPattern(_, d, v, b) => destruct_supported(d) && term_supported(*v) && term_supported(*b),
        Term::App(a, b) => term_supported(*a) && term_supported(*b),
        Term::Record(fs, _) => forall|i: int| 0 <= i < fs.len() ==> term_supported(#[trigger] fs[i].1),
        Term::RecRecord(fs, ds, _) => {
            &&& forall|i: int| 0 <= i < fs.len() ==> term_supported(#[trigger] fs[i].1)
            &&& forall|i: int| 0 <= i < ds.len() ==> term_supported(#[trigger] ds[i].0)
            &&& forall|i: int| 0 <= i < ds.len() ==> term_supported(#[trigger] ds[i].1)
        },
        Term::Switch(s, cs, d) => {
            &&& term_supported(*s)
            &&& forall|i: int| 0 <= i < cs.len() ==> term_supported(#[trigger] cs[i].1)
            &&& term_supported(*d)
        },
        Term::Array(v) => forall|i: int| 0 <= i < v.len() ==> term_supported(#[trigger] v[i]),
        Term::OpN(_, v) => forall|i: int| 0 <= i < v.len() ==> term_supported(#[trigger] v[i]),
        Term::Op1(op, a) => term_supported(*a) && (op.spec_pos() is Special ==> op is Ite),
        Term::Op2(_, a, b) => term_supported(*a) && term_supported(*b),
        Term::MetaValue(mv) => annot_supported(mv) && match mv.value {
            Some(v) => term_supported(*v),
            None => true,
        },
        _ => true,
    }
}

pub open spec fn sp() -> DocSpec {
    txt(seq![' '])
}

/// The rest of a quantifier header after `acc`: the binders of the
/// quantifiers that `ty` starts with, then `.`, a soft break and the body.
pub open spec fn forall_tail_doc(acc: DocSpec, ty: Types) -> DocSpec
    decreases ty, 1nat, 0int,
{
    match ty {
        Types::Forall(id, b) => forall_tail_doc(cat(cat(acc, txt(" "@)), txt(id@)), *b),
        _ => cat(cat(cat(acc, txt("."@)), softline()), types_doc(ty)),
    }
}

/// The document of a type.
pub open spec fn types_doc(ty: Types) -> DocSpec
    decreases ty, 0nat, 0int,
{
    match ty {
        Types::Dyn => txt("Dyn"@),
        Types::Num => txt("Num"@),
        Types::Bool => txt("Bool"@),
        Types::Str => txt("Str"@),
        Types::Sym => txt("Sym"@),
        Types::Array(elt) => {
            let arg = if elt.spec_is_atom() {
                types_doc(*elt)
            } else {
                enclose("("@, nest(2, types_doc(*elt)), ")"@)
            };
            cat(cat(group(txt("Array"@)), txt(seq![' '])), arg)
        },
        Types::Flat(t) => term_doc(*t),
        Types::Var(v) => txt(v@),
        Types::Forall(id, b) => forall_tail_doc(
            cat(group(cat(txt("forall"@), DocSpec::Line)), txt(id@)),
            *b,
        ),
        Types::Enum(row) => enclose("[|"@, types_doc(*row), "|]"@),
        Types::StaticRecord(row) => enclose("{"@, enclose("{"@, types_doc(*row), "}"@), "}"@),
        Types::DynRecord(elt) => enclose(
            "{"@,
            group(cat(cat(cat(DocSpec::Line, txt("_: "@)), types_doc(*elt)), DocSpec::Line)),
            "}"@,
        ),
        Types::RowEmpty => DocSpec::Nil,
        Types::RowExtend(id, ty_opt, tail) => {
            let builder = match ty_opt {
                Some(t) => cat(cat(txt(id@), txt(": "@)), types_doc(*t)),
                None => txt(id@),
            };
            match *tail {
                Types::RowEmpty => cat(builder, types_doc(*tail)),
                Types::Var(_) => cat(cat(builder, txt(" ; "@)), types_doc(*tail)),
                Types::Dyn => cat(builder, txt(" ; Dyn"@)),
                _ => cat(cat(builder, txt(", "@)), types_doc(*tail)),
            }
        },
        Types::Arrow(dom, codom) => {
            let d = match *dom {
                Types::Arrow(..) => enclose("("@, types_doc(*dom), ")"@),
                _ => types_doc(*dom),
            };
            cat(cat(cat(d, softline()), txt("-> "@)), types_doc(*codom))
        },
    }
}

/// The first `n` contracts of `mv`, each as `| type`, separated by lines.
pub open spec fn contracts_doc(mv: MetaValue, n: int) -> DocSpec
    decreases mv, 0nat, n,
{
    if n <= 0 || n > mv.contracts.len() {
        DocSpec::Nil
    } else {
        let item = cat(txt("| "@), types_doc(mv.contracts[n - 1]));
        if n == 1 {
            item
        } else {
            cat(cat(contracts_doc(mv, n - 1), DocSpec::Line), item)
        }
    }
}

/// The annotation clause of `mv`.
pub open spec fn annot_doc(mv: MetaValue) -> DocSpec
    decreases mv, 1nat, 0int,
{
    let head = match mv.types {
        Some(ty) => cat(cat(txt(": "@), types_doc(ty)), DocSpec::Line),
        None => DocSpec::Nil,
    };
    let prio = match mv.priority {
        MergePriority::Default => cat(DocSpec::Line, txt("| default"@)),
        MergePriority::Normal => DocSpec::Nil,
    };
    group(nest(2, cat(cat(head, contracts_doc(mv, mv.contracts.len() as int)), prio)))
}

/// A value with its annotation clause.
pub open spec fn meta_doc(mv: MetaValue) -> DocSpec
    decreases mv, 2nat, 0int,
{
    let head = match mv.value {
        Some(v) => cat(term_doc(*v), sp()),
        None => DocSpec::Nil,
    };
    cat(head, annot_doc(mv))
}

pub open spec fn match_spec_doc(m: Match) -> DocSpec
    decreases m, 0nat, 0int,
{
    match m {
        Match::Simple(id, mv) => cat(cat(txt(id@), sp()), annot_doc(mv)),
        Match::Assign(..) => DocSpec::Nil,
    }
}

/// The first `n` fields of a record pattern, separated by `, `.
pub open spec fn matches_spec_doc(ms: Vec<Match>, n: int) -> DocSpec
    decreases ms, 0nat, n,
{
    if n <= 0 || n > ms.len() {
        DocSpec::Nil
    } else if n == 1 {
        match_spec_doc(ms[0])
    } else {
        cat(cat(matches_spec_doc(ms, n - 1), txt(", "@)), match_spec_doc(ms[n - 1]))
    }
}

/// The document of a destructuring pattern.
pub open spec fn destruct_doc(d: Destruct) -> DocSpec
    decreases d, 0nat, 0int,
{
    match d {
        Destruct::Record { matches, open, rest } => enclose(
            "{"@,
            cat(matches_spec_doc(matches, matches.len() as int), pattern_tail_doc(matches.len() > 0, open, rest)),
            "}"@,
        ),
        Destruct::Empty => DocSpec::Nil,
    }
}

/// The end of an open record pattern: `..`, followed by the name bound to
/// the remaining fields if there is one, after `, ` when fields precede it.
/// Nothing for a closed pattern without such a name.
pub open spec fn pattern_tail_doc(after_fields: bool, open: bool, rest: Option<String>) -> DocSpec {
    let sep = if after_fields {
        txt(", "@)
    } else {
        DocSpec::Nil
    };
    match rest {
        Some(r) => cat(sep, cat(txt(".."@), txt(r@))),
        None => if open {
            cat(sep, txt(".."@))
        } else {
            DocSpec::Nil
        },
    }
}

pub open spec fn pattern_param_doc(id: Option<String>, d: Destruct) -> DocSpec
    decreases d, 1nat, 0int,
{
    let name = match id {
        Some(s) => cat(
            txt(s@),
            match d {
                Destruct::Empty => DocSpec::Nil,
                _ => txt(" @ "@),
            },
        ),
        None => DocSpec::Nil,
    };
    cat(name, destruct_doc(d))
}

/// `t`, in parentheses unless it is an atom.
pub open spec fn atom_doc(t: Term) -> DocSpec
    decreases t, 2nat, 0int,
{
    if t.spec_is_atom() {
        term_doc(t)
    } else {
        enclose("("@, term_doc(t), ")"@)
    }
}

pub open spec fn header_end(acc: DocSpec, body: DocSpec) -> DocSpec {
    cat(cat(cat(acc, txt(" =>"@)), softline()), nest(2, body))
}

pub open spec fn fun_tail_doc(acc: DocSpec, t: Term) -> DocSpec
    decreases t, 3nat, 0int,
{
    match t {
        Term::Fun(id, b) => fun_tail_doc(cat(cat(acc, sp()), txt(id@)), *b),
        _ => header_end(acc, term_doc(t)),
    }
}

pub open spec fn fun_pattern_tail_doc(acc: DocSpec, t: Term) -> DocSpec
    decreases t, 3nat, 0int,
{
    match t {
        Term::FunPattern(id, d, b) => fun_pattern_tail_doc(cat(cat(acc, sp()), pattern_param_doc(id, d)), *b),
        _ => header_end(acc, term_doc(t)),
    }
}

/// The first `n` items of `v`, separated by `sep` and a line.
pub open spec fn items_spec_doc(v: Vec<Term>, n: int, sep: Seq<char>, atoms: bool) -> DocSpec
    decreases v, 0nat, n,
{
    if n <= 0 || n > v.len() {
        DocSpec::Nil
    } else {
        let item = if atoms {
            atom_doc(v[n - 1])
        } else {
            term_doc(v[n - 1])
        };
        if n == 1 {
            item
        } else {
            cat(cat(cat(items_spec_doc(v, n - 1, sep, atoms), txt(sep)), DocSpec::Line), item)
        }
    }
}

/// The marker signs one chunk asks for.
pub open spec fn chunk_need(c: StrChunk) -> nat {
    match c {
        StrChunk::Literal(s) => max_marker_need(marker_matches(s@)),
        StrChunk::Expr(..) => 1,
    }
}

/// The marker length of the first `n` chunks.
pub open spec fn chunks_marker(cs: Seq<StrChunk>, n: int) -> nat
    decreases n,
{
    if n <= 0 || n > cs.len() {
        0
    } else {
        let rest = chunks_marker(cs, n - 1);
        let d = chunk_need(cs[n - 1]);
        if d > rest {
            d
        } else {
            rest
        }
    }
}

/// The chunks from the last down to the one at `k`, each printed.
pub open spec fn chunks_doc(cs: Vec<StrChunk>, k: int, interp: Seq<char>, multiline: bool) -> DocSpec
    decreases cs, 0nat, cs.len() - k,
{
    if k < 0 || k >= cs.len() {
        DocSpec::Nil
    } else {
        let piece = match cs[k] {
            StrChunk::Literal(s) => if multiline {
                txt(s@)
            } else {
                txt(escape(s@))
            },
            StrChunk::Expr(e, _) => cat(cat(cat(txt(interp), txt("{"@)), term_doc(*e)), txt("}"@)),
        };
        cat(chunks_doc(cs, k + 1, interp, multiline), piece)
    }
}

/// The annotation clause of a bound term, if it carries one.
pub open spec fn bound_meta_doc(rt: Term) -> DocSpec
    decreases rt, 2nat, 0int,
{
    match rt {
        Term::MetaValue(mv) => annot_doc(mv),
        _ => DocSpec::Nil,
    }
}

/// The value of a bound term: its annotated value where it has one, else
/// the term itself.
pub open spec fn bound_value_doc(rt: Term) -> DocSpec
    decreases rt, 2nat, 0int,
{
    match rt {
        Term::MetaValue(mv) => match mv.value {
            Some(v) => term_doc(*v),
            None => term_doc(rt),
        },
        _ => term_doc(rt),
    }
}

pub open spec fn let_spec_layout(head: DocSpec, md: DocSpec, vd: DocSpec, bd: DocSpec) -> DocSpec {
    group(
        cat(
            cat(
                group(
                    cat(
                        cat(
                            cat(
                                cat(cat(cat(cat(cat(head, md), sp()), txt("="@)), DocSpec::Line), nest(2, vd)),
                                DocSpec::Line,
                            ),
                            txt("in"@),
                        ),
                        DocSpec::LineTight,
                    ),
                ),
                DocSpec::Line,
            ),
            bd,
        ),
    )
}

pub open spec fn comment_doc(s: Seq<char>) -> DocSpec {
    cat(txt(s), DocSpec::HardLine)
}

pub open spec fn nary_op_spec_text(op: NAryOp) -> Seq<char> {
    match op {
        NAryOp::StrReplace => "%strreplace%"@,
        NAryOp::StrReplaceRegex => "%strreplaceregex%"@,
        NAryOp::StrSubstr => "%substr%"@,
        NAryOp::MergeContract => "%mergecontract%"@,
    }
}

/// Whether `op l r` is a subtraction from the literal zero.
pub open spec fn is_negation(op: BinaryOp, l: Term) -> bool {
    match l {
        Term::Num(n) => op is Sub && n.mantissa == 0,
        _ => false,
    }
}

/// A record field: `name = value,`, or `name <meta> = value,`.
pub open spec fn field_spec_doc(name: DocSpec, rt: Term) -> DocSpec
    decreases rt, 3nat, 0int,
{
    let body = match rt {
        Term::MetaValue(mv) => cat(
            cat(annot_doc(mv), sp()),
            match mv.value {
                Some(v) => cat(txt("= "@), term_doc(*v)),
                None => DocSpec::Nil,
            },
        ),
        _ => group(nest(2, cat(cat(txt("="@), DocSpec::Line), term_doc(rt)))),
    };
    cat(cat(cat(name, sp()), body), txt(","@))
}

/// The first `n` fields of `fs` as (name, document) pairs, in stored order.
pub open spec fn field_entries(fs: Vec<(String, Term)>, n: int) -> Seq<(Seq<char>, DocSpec)>
    decreases fs, 0nat, n,
{
    if n <= 0 || n > fs.len() {
        seq![]
    } else {
        field_entries(fs, n - 1).push((fs[n - 1].0@, field_spec_doc(txt(fs[n - 1].0@), fs[n - 1].1)))
    }
}

/// Documents separated by lines.
pub open spec fn join_lines(ds: Seq<DocSpec>) -> DocSpec
    decreases ds.len(),
{
    if ds.len() == 0 {
        DocSpec::Nil
    } else if ds.len() == 1 {
        ds[0]
    } else {
        cat(cat(join_lines(ds.drop_last()), DocSpec::Line), ds.last())
    }
}

pub open spec fn pair_key() -> spec_fn((Seq<char>, DocSpec)) -> Seq<char> {
    |p: (Seq<char>, DocSpec)| p.0
}

pub open spec fn pair_doc() -> spec_fn((Seq<char>, DocSpec)) -> DocSpec {
    |p: (Seq<char>, DocSpec)| p.1
}

/// The statically named fields of a record, ordered by name.
pub open spec fn static_fields_spec(fs: Vec<(String, Term)>) -> DocSpec
    decreases fs, 1nat, 0int,
{
    join_lines(sort_by_key(field_entries(fs, fs.len() as int), pair_key()).map_values(pair_doc()))
}

pub open spec fn record_spec_layout(fields: DocSpec, open: bool) -> DocSpec {
    let tail = if open {
        cat(DocSpec::Line, txt(".."@))
    } else {
        DocSpec::Nil
    };
    enclose("{"@, group(cat(nest(2, cat(cat(DocSpec::Line, fields), tail)), DocSpec::Line)), "}"@)
}

/// The first `n` branches of a switch as (tag, document) pairs.
pub open spec fn case_entries(cs: Vec<(String, Term)>, n: int) -> Seq<(Seq<char>, DocSpec)>
    decreases cs, 0nat, n,
{
    if n <= 0 || n > cs.len() {
        seq![]
    } else {
        case_entries(cs, n - 1).push((cs[n - 1].0@, case_doc(cs[n - 1].0@, term_doc(cs[n - 1].1))))
    }
}

/// A switch branch: `` `tag => body,``.
pub open spec fn case_doc(tag: Seq<char>, body: DocSpec) -> DocSpec {
    cat(cat(cat(cat(txt("`"@), txt(tag)), txt(" => "@)), body), txt(","@))
}

/// The branches of a switch, ordered by tag.
pub open spec fn cases_spec(cs: Vec<(String, Term)>) -> DocSpec
    decreases cs, 1nat, 0int,
{
    join_lines(sort_by_key(case_entries(cs, cs.len() as int), pair_key()).map_values(pair_doc()))
}

/// A branch as its tag and its document.
pub open spec fn case_entry() -> spec_fn((String, Term)) -> (Seq<char>, DocSpec) {
    |e: (String, Term)| (e.0@, case_doc(e.0@, term_doc(e.1)))
}

/// The first `n` fields with computed names, in stored order.
pub open spec fn dynamic_fields_spec(ds: Vec<(Term, Term)>, n: int) -> DocSpec
    decreases ds, 0nat, n,
{
    if n <= 0 || n > ds.len() {
        DocSpec::Nil
    } else {
        let item = field_spec_doc(term_doc(ds[n - 1].0), ds[n - 1].1);
        if n == 1 {
            item
        } else {
            cat(cat(dynamic_fields_spec(ds, n - 1), DocSpec::Line), item)
        }
    }
}

/// A field as its name and its document.
pub open spec fn field_entry() -> spec_fn((String, Term)) -> (Seq<char>, DocSpec) {
    |e: (String, Term)| (e.0@, field_spec_doc(txt(e.0@), e.1))
}

/// The document of a term.
pub open spec fn term_doc(t: Term) -> DocSpec
    decreases t, 1nat, 0int,
{
    match t {
        Term::Null => txt("null"@),
        Term::Bool(b) => txt(if b { "true"@ } else { "false"@ }),
        Term::Num(n) => txt(number_text(n)),
        Term::Str(s) => enclose("\""@, txt(escape(s@)), "\""@),
        Term::StrChunks(cs) => {
            let nb = chunks_marker(cs@, cs.len() as int);
            let interp = Seq::new(nb, |_i: int| '%');
            let multiline = cs.len() > 1;
            let quoted = enclose("\""@, chunks_doc(cs, 0, interp, multiline), "\""@);
            if multiline {
                enclose("m"@ + interp, quoted, interp + "m"@)
            } else {
                quoted
            }
        },
        Term::Fun(id, b) => fun_tail_doc(cat(cat(txt("fun"@), sp()), txt(id@)), *b),
        Term::FunPattern(id, d, b) => fun_pattern_tail_doc(
            cat(cat(txt("fun"@), sp()), pattern_param_doc(id, d)),
            *b,
        ),
        Term::Lbl => comment_doc("# <label>"@),
        Term::Let(id, rt, b) => {
            let md = bound_meta_doc(*rt);
            let vd = bound_value_doc(*rt);
            let_spec_layout(cat(cat(txt("let"@), sp()), txt(id@)), md, vd, term_doc(*b))
        },
        Term::LetPattern(opt_id, d, rt, b) => {
            let name = match opt_id {
                Some(id) => cat(
                    txt(id@),
                    match d {
                        Destruct::Empty => DocSpec::Nil,
                        _ => txt(" @ "@),
                    },
                ),
                None => DocSpec::Nil,
            };
            let md = bound_meta_doc(*rt);
            let vd = bound_value_doc(*rt);
            let head = cat(cat(cat(cat(txt("let"@), sp()), name), destruct_doc(d)), sp());
            let_spec_layout(head, md, vd, term_doc(*b))
        },
        Term::App(f, a) => match *f {
            Term::Op1(UnaryOp::Ite, _) => group(
                cat(
                    cat(
                        cat(cat(cat(cat(term_doc(*f), sp()), txt("then"@)), DocSpec::Line), nest(2, term_doc(*a))),
                        DocSpec::Line,
                    ),
                    txt("else"@),
                ),
            ),
            _ => group(cat(cat(term_doc(*f), DocSpec::Line), atom_doc(*a))),
        },
        Term::Var(id) => txt(id@),
        Term::Enum(id) => cat(txt("`"@), txt(id@)),
        Term::Record(fs, attrs) => record_spec_layout(static_fields_spec(fs), attrs.open),
        Term::RecRecord(fs, ds, attrs) => {
            let st = static_fields_spec(fs);
            let dy = dynamic_fields_spec(ds, ds.len() as int);
            record_spec_layout(
                if fs.len() > 0 && ds.len() > 0 {
                    cat(cat(st, DocSpec::Line), dy)
                } else {
                    cat(st, dy)
                },
                attrs.open,
            )
        },
        Term::Switch(tst, cs, def) => {
            let branches = group(
                enclose(
                    "{"@,
                    cat(nest(2, cat(cat(cat(cases_spec(cs), DocSpec::Line), txt("_ => "@)), term_doc(*def))), DocSpec::LineTight),
                    "}"@,
                ),
            );
            cat(cat(cat(cat(txt("switch"@), sp()), branches), sp()), atom_doc(*tst))
        },
        Term::Array(v) => enclose(
            "["@,
            group(cat(nest(2, cat(DocSpec::Line, items_spec_doc(v, v.len() as int, ","@, false))), DocSpec::Line)),
            "]"@,
        ),
        Term::Op1(op, a) => match op.spec_pos() {
            OpPos::Prefix => cat(txt(unary_op_spec_text(op)), atom_doc(*a)),
            OpPos::Postfix => cat(atom_doc(*a), txt(unary_op_spec_text(op))),
            OpPos::Special => cat(txt("if "@), term_doc(*a)),
        },
        Term::Op2(op, l, r) => match op {
            BinaryOp::DynAccess => group(cat(cat(term_doc(*r), txt("."@)), term_doc(*l))),
            _ => if is_negation(op, *l) {
                group(cat(txt("-"@), atom_doc(*r)))
            } else {
                group(
                    nest(
                        2,
                        cat(cat(cat(cat(atom_doc(*l), sp()), txt(binary_op_spec_text(op))), DocSpec::Line), atom_doc(*r)),
                    ),
                )
            },
        },
        Term::OpN(op, v) => group(
            cat(cat(txt(nary_op_spec_text(op)), DocSpec::Line), nest(2, items_spec_doc(v, v.len() as int, ""@, true))),
        ),
        Term::Sym(n) => cat(cat(cat(txt("# <symbol: "@), txt(int_text(n as int))), txt(">"@)), DocSpec::HardLine),
        Term::Wrapped(..) => comment_doc("# <wrapped>"@),
        Term::MetaValue(mv) => meta_doc(mv),
        Term::Import(p) => cat(txt("import "@), enclose("\""@, txt(p@), "\""@)),
        Term::ResolvedImport(id) => cat(
            cat(txt("import <file_id: FileId("@), txt(int_text(id as int))),
            txt(")>"@),
        ),
        Term::ParseError => comment_doc("# <PARSE ERROR!>"@),
    }
}

/// The text of a term laid out at `width`.
pub open spec fn term_text(t: Term, width: nat) -> Seq<char> {
    layout(term_doc(t), width)
}

/// The text of a type laid out at `width`.
pub open spec fn types_text(ty: Types, width: nat) -> Seq<char> {
    layout(types_doc(ty), width)
}

/// The concrete syntax of a binary operator.
pub fn binary_op_text(op: &BinaryOp) -> (r: &'static str)
    ensures
        r@ == binary_op_spec_text(*op),
{
    match op {
        BinaryOp::Plus => "+",
        BinaryOp::Sub => "-",
        BinaryOp::Mult => "*",
        BinaryOp::Div => "/",
        BinaryOp::Modulo => "%",
        BinaryOp::Pow => "%pow%",
        BinaryOp::Eq => "==",
        BinaryOp::LessThan => "<",
        BinaryOp::GreaterThan => ">",
        BinaryOp::GreaterOrEq => ">=",
        BinaryOp::LessOrEq => "<=",
        BinaryOp::Merge => "&",
        BinaryOp::StrConcat => "++",
        BinaryOp::ArrayConcat => "@",
        BinaryOp::DynAccess => ".",
        BinaryOp::DynRemove => "%dynremove%",
        BinaryOp::HasField => "%hasfield%",
        BinaryOp::ArrayElemAt => "%arrayelemat%",
        BinaryOp::ArrayMap => "%arraymap%",
    }
}

pub open spec fn binary_op_spec_text(op: BinaryOp) -> Seq<char> {
    match op {
        BinaryOp::Plus => "+"@,
        BinaryOp::Sub => "-"@,
        BinaryOp::Mult => "*"@,
        BinaryOp::Div => "/"@,
        BinaryOp::Modulo => "%"@,
        BinaryOp::Pow => "%pow%"@,
        BinaryOp::Eq => "=="@,
        BinaryOp::LessThan => "<"@,
        BinaryOp::GreaterThan => ">"@,
        BinaryOp::GreaterOrEq => ">="@,
        BinaryOp::LessOrEq => "<="@,
        BinaryOp::Merge => "&"@,
        BinaryOp::StrConcat => "++"@,
        BinaryOp::ArrayConcat => "@"@,
        BinaryOp::DynAccess => "."@,
        BinaryOp::DynRemove => "%dynremove%"@,
        BinaryOp::HasField => "%hasfield%"@,
        BinaryOp::ArrayElemAt => "%arrayelemat%"@,
        BinaryOp::ArrayMap => "%arraymap%"@,
    }
}

pub open spec fn unary_op_spec_text(op: UnaryOp) -> Seq<char> {
    match op {
        UnaryOp::Ite => "if"@,
        UnaryOp::IsNum => "%isnum%"@,
        UnaryOp::IsBool => "%isbool%"@,
        UnaryOp::IsStr => "%isstr%"@,
        UnaryOp::IsFun => "%isfun%"@,
        UnaryOp::IsArray => "%isarray%"@,
        UnaryOp::IsRecord => "%isrecord%"@,
        UnaryOp::BoolNot => "!"@,
        UnaryOp::BoolAnd => "&&"@,
        UnaryOp::BoolOr => "||"@,
        UnaryOp::Blame => "%blame%"@,
        UnaryOp::StaticAccess(id) => "."@ + id@,
        UnaryOp::ArrayLength => "%length%"@,
        UnaryOp::ChunksConcat => "%chunksconcat%"@,
    }
}

/// The concrete syntax of a unary operator.
pub fn unary_op_text(op: &UnaryOp) -> (r: String)
    ensures
        r@ == unary_op_spec_text(*op),
{
    match op {
        UnaryOp::StaticAccess(id) => {
            let mut s = String::from_str(".");
            s.append(id.as_str());
            s
        },
        UnaryOp::Ite => String::from_str("if"),
        UnaryOp::IsNum => String::from_str("%isnum%"),
        UnaryOp::IsBool => String::from_str("%isbool%"),
        UnaryOp::IsStr => String::from_str("%isstr%"),
        UnaryOp::IsFun => String::from_str("%isfun%"),
        UnaryOp::IsArray => String::from_str("%isarray%"),
        UnaryOp::IsRecord => String::from_str("%isrecord%"),
        UnaryOp::BoolNot => String::from_str("!"),
        UnaryOp::BoolAnd => String::from_str("&&"),
        UnaryOp::BoolOr => String::from_str("||"),
        UnaryOp::Blame => String::from_str("%blame%"),
        UnaryOp::ArrayLength => String::from_str("%length%"),
        UnaryOp::ChunksConcat => String::from_str("%chunksconcat%"),
    }
}

/// The concrete syntax of an n-ary operator.
pub fn nary_op_text(op: &NAryOp) -> (r: &'static str)
    ensures
        r@ == match *op {
            NAryOp::StrReplace => "%strreplace%"@,
            NAryOp::StrReplaceRegex => "%strreplaceregex%"@,
            NAryOp::StrSubstr => "%substr%"@,
            NAryOp::MergeContract => "%mergecontract%"@,
        },
{
    match op {
        NAryOp::StrReplace => "%strreplace%",
        NAryOp::StrReplaceRegex => "%strreplaceregex%",
        NAryOp::StrSubstr => "%substr%",
        NAryOp::MergeContract => "%mergecontract%",
    }
}

/// `n` marker signs.
pub fn marker_run(n: usize) -> (r: String)
    ensures
        r@ == Seq::new(n as nat, |_i: int| '%'),
{
    let mut s = String::new();
    let mut i: usize = 0;
    while i < n
        invariant
            i <= n,
            s@ == Seq::new(i as nat, |_i: int| '%'),
        decreases n - i,
    {
        proof {
            reveal_strlit("%");
        }
        s.append("%");
        assert(s@ =~= Seq::new((i + 1) as nat, |_i: int| '%'));
        i = i + 1;
    }
    s
}

/// `s` as a single-line string literal's content, escaped.
pub fn escaped_string(s: &str) -> (r: Document)
    ensures
        r@ == crate::doc::txt(crate::quoting::escape(s@)),
{
    Document::text(escape_text(s))
}

/// The annotation clause of `mv`: `: type`, then `| contract` for each
/// contract, then `| default` for the default priority, as one group.
pub fn metadata(mv: &MetaValue) -> (r: Result<Document, PrettyError>)
    ensures
        r is Err ==> r->Err_0 is UnsupportedConstruct,
        r is Ok <==> annot_supported(*mv),
        r matches Ok(d) ==> d@ == annot_doc(*mv),
    decreases mv, 0nat,
{
    let head = match &mv.types {
        Some(ty) => Document::text_str(": ").append(pretty_types(ty)?).append(Document::line()),
        None => Document::nil(),
    };
    let mut cs = Document::nil();
    let mut i: usize = 0;
    while i < mv.contracts.len()
        invariant
            i <= mv.contracts@.len(),
            forall|j: int| 0 <= j < i ==> types_supported(#[trigger] mv.contracts[j]),
            cs@ == contracts_doc(*mv, i as int),
        decreases mv.contracts@.len() - i,
    {
        let item = Document::text_str("| ").append(pretty_types(&mv.contracts[i])?);
        cs = if i == 0 {
            item
        } else {
            cs.append(Document::line()).append(item)
        };
        i = i + 1;
    }
    let prio = match mv.priority {
        MergePriority::Default => Document::line().append(Document::text_str("| default")),
        MergePriority::Normal => Document::nil(),
    };
    Ok(head.append(cs).append(prio).nest(2).group())
}

/// A value with its annotations: the value, a space, then the clause.
pub fn pretty_meta(mv: &MetaValue) -> (r: Result<Document, PrettyError>)
    ensures
        r is Err ==> r->Err_0 is UnsupportedConstruct,
        r is Ok <==> meta_supported(*mv),
        r matches Ok(d) ==> d@ == meta_doc(*mv),
    decreases mv, 1nat,
{
    let head = match &mv.value {
        Some(v) => {
            let d = pretty_term(v)?;
            d.append(Document::space())
        },
        None => Document::nil(),
    };
    let md = metadata(mv)?;
    Ok(head.append(md))
}

/// One field of a record pattern: `id <meta>`.
fn match_doc(m: &Match) -> (r: Result<Document, PrettyError>)
    ensures
        r is Err ==> r->Err_0 is UnsupportedConstruct,
        r is Ok <==> match *m {
            Match::Simple(_, mv) => annot_supported(mv),
            Match::Assign(..) => false,
        },
        r matches Ok(d) ==> d@ == match_spec_doc(*m),
    decreases m, 1nat,
{
    match m {
        Match::Simple(id, meta) => {
            let md = metadata(meta)?;
            Ok(Document::text(id.clone()).append(Document::space()).append(md))
        },
        Match::Assign(..) => Err(PrettyError::UnsupportedConstruct(String::from_str("nested pattern"))),
    }
}

/// The fields of a record pattern, separated by `, `.
fn matches_doc(matches: &Vec<Match>) -> (r: Result<Document, PrettyError>)
    ensures
        r is Err ==> r->Err_0 is UnsupportedConstruct,
        r is Ok <==> forall|i: int|
            0 <= i < matches.len() ==> match #[trigger] matches[i] {
                Match::Simple(_, mv) => annot_supported(mv),
                Match::Assign(..) => false,
            },
        r matches Ok(d) ==> d@ == matches_spec_doc(*matches, matches.len() as int),
    decreases matches, 0nat,
{
    let mut acc = Document::nil();
    let mut i: usize = 0;
    while i < matches.len()
        invariant
            i <= matches@.len(),
            forall|j: int| 0 <= j < i ==> match #[trigger] matches[j] {
                Match::Simple(_, mv) => annot_supported(mv),
                Match::Assign(..) => false,
            },
            acc@ == matches_spec_doc(*matches, i as int),
        decreases matches@.len() - i,
    {
        let item = match_doc(&matches[i])?;
        acc = if i == 0 {
            item
        } else {
            acc.append(Document::text_str(", ")).append(item)
        };
        i = i + 1;
    }
    Ok(acc)
}

/// A destructuring pattern: `{ a <meta>, b <meta> }`, with `..` (and the
/// name of the remaining fields) before the closing brace when it is open,
/// or nothing.
pub fn pretty_destruct(d: &Destruct) -> (r: Result<Document, PrettyError>)
    ensures
        r is Err ==> r->Err_0 is UnsupportedConstruct,
        r is Ok <==> destruct_supported(*d),
        r matches Ok(x) ==> x@ == destruct_doc(*d),
    decreases d, 1nat,
{
    match d {
        Destruct::Record { matches, open, rest } => {
            let fields = matches_doc(matches)?;
            Ok(fields.append(pattern_tail(matches.len() > 0, *open, rest)).enclose("{", "}"))
        },
        Destruct::Empty => Ok(Document::nil()),
    }
}

/// The end of a record pattern: `..` and the rest binder when open.
fn pattern_tail(after_fields: bool, open: bool, rest: &Option<String>) -> (r: Document)
    ensures
        r@ == pattern_tail_doc(after_fields, open, *rest),
{
    let sep = if after_fields {
        Document::text_str(", ")
    } else {
        Document::nil()
    };
    match rest {
        Some(name) => sep.append(Document::text_str("..").append(Document::text(name.clone()))),
        None => if open {
            sep.append(Document::text_str(".."))
        } else {
            Document::nil()
        },
    }
}

/// `t`, in parentheses unless it is an atom.
pub fn atom(t: &Term) -> (r: Result<Document, PrettyError>)
    ensures
        r is Err ==> r->Err_0 is UnsupportedConstruct,
        r is Ok <==> term_supported(*t),
        r matches Ok(d) ==> d@ == atom_doc(*t),
    decreases t, 3nat,
{
    let d = pretty_term(t)?;
    if t.is_atom() {
        Ok(d)
    } else {
        Ok(d.enclose("(", ")"))
    }
}

/// The rest of a curried function header, `acc` holding `fun p1 .. pk`:
/// the parameters of the abstractions that `t` starts with, then `=>` and
/// the body.
fn fun_tail(acc: Document, t: &Term) -> (r: Result<Document, PrettyError>)
    ensures
        r is Err ==> r->Err_0 is UnsupportedConstruct,
        r is Ok <==> term_supported(*t),
        r matches Ok(d) ==> d@ == fun_tail_doc(acc@, *t),
    decreases t, 3nat,
{
    match t {
        Term::Fun(id, body) => {
            let acc = acc.append(Document::space()).append(Document::text(id.clone()));
            fun_tail(acc, body)
        },
        _ => {
            let body = pretty_term(t)?;
            Ok(acc.append(Document::text_str(" =>")).append(Document::softline()).append(body.nest(2)))
        },
    }
}

/// The parameter of a pattern abstraction: its name, then its pattern.
fn pattern_param(id: &Option<String>, dst: &Destruct) -> (r: Result<Document, PrettyError>)
    ensures
        r is Err ==> r->Err_0 is UnsupportedConstruct,
        r is Ok <==> destruct_supported(*dst),
        r matches Ok(d) ==> d@ == pattern_param_doc(*id, *dst),
    decreases dst, 2nat,
{
    let name = match id {
        Some(id) => {
            let sep = match dst {
                Destruct::Empty => Document::nil(),
                _ => Document::text_str(" @ "),
            };
            Document::text(id.clone()).append(sep)
        },
        None => Document::nil(),
    };
    let pat = pretty_destruct(dst)?;
    Ok(name.append(pat))
}

/// Like `fun_tail`, for abstractions over patterns.
fn fun_pattern_tail(acc: Document, t: &Term) -> (r: Result<Document, PrettyError>)
    ensures
        r is Err ==> r->Err_0 is UnsupportedConstruct,
        r is Ok <==> term_supported(*t),
        r matches Ok(d) ==> d@ == fun_pattern_tail_doc(acc@, *t),
    decreases t, 3nat,
{
    match t {
        Term::FunPattern(id, dst, body) => {
            let p = pattern_param(id, dst)?;
            let acc = acc.append(Document::space()).append(p);
            fun_pattern_tail(acc, body)
        },
        _ => {
            let body = pretty_term(t)?;
            Ok(acc.append(Document::text_str(" =>")).append(Document::softline()).append(body.nest(2)))
        },
    }
}

/// A record field: `name = value,`, or `name <meta> = value,` when the value
/// carries annotations.
fn field_doc(name: Document, rt: &Term) -> (r: Result<Document, PrettyError>)
    ensures
        r is Err ==> r->Err_0 is UnsupportedConstruct,
        r is Ok <==> term_supported(*rt),
        r matches Ok(d) ==> d@ == field_spec_doc(name@, *rt),
    decreases rt, 3nat,
{
    let body = match rt {
        Term::MetaValue(mv) => {
            let md = metadata(mv)?;
            let v = match &mv.value {
                Some(v) => {
                    let vd = pretty_term(v)?;
                    Document::text_str("= ").append(vd)
                },
                None => Document::nil(),
            };
            md.append(Document::space()).append(v)
        },
        _ => {
            let vd = pretty_term(rt)?;
            Document::text_str("=").append(Document::line()).append(vd).nest(2).group()
        },
    };
    Ok(name.append(Document::space()).append(body).append(Document::text_str(",")))
}

proof fn lemma_field_entries(fs: Vec<(String, Term)>, n: int)
    requires
        0 <= n <= fs.len(),
    ensures
        field_entries(fs, n) == fs@.take(n).map_values(field_entry()),
    decreases n,
{
    if n > 0 {
        lemma_field_entries(fs, n - 1);
        let a = field_entries(fs, n);
        let prev = fs@.take(n - 1).map_values(field_entry());
        let b = fs@.take(n).map_values(field_entry());
        assert(fs[n - 1] == fs@[n - 1]);
        assert(a == field_entries(fs, n - 1).push(field_entry()(fs@[n - 1])));
        assert forall|i: int| 0 <= i < n implies a[i] == b[i] by {
            if i < n - 1 {
                assert(b[i] == field_entry()(fs@[i]));
                assert(prev[i] == field_entry()(fs@[i]));
            }
        }
        assert(a =~= b);
    } else {
        assert(fs@.take(n).map_values(field_entry()) =~= seq![]);
    }
}

/// The field documents of `fs` ordered by name are those of its entries
/// sorted by name.
proof fn lemma_sorted_field_docs(fs: Vec<(String, Term)>)
    ensures
        ({
            let ss = sort_by_key(fs@, entry_key());
            let docs = sort_by_key(field_entries(fs, fs.len() as int), pair_key()).map_values(pair_doc());
            &&& ss.len() == fs@.len()
            &&& docs.len() == fs@.len()
            &&& forall|p: int| 0 <= p < docs.len() ==> #[trigger] docs[p] == field_spec_doc(txt(ss[p].0@), ss[p].1)
        }),
{
    let f = field_entry();
    lemma_field_entries(fs, fs.len() as int);
    assert(fs@.take(fs.len() as int) =~= fs@);
    lemma_sort_map(fs@, f, entry_key(), pair_key());
    lemma_sort_len(fs@, entry_key());
    let ss = sort_by_key(fs@, entry_key());
    let docs = sort_by_key(field_entries(fs, fs.len() as int), pair_key()).map_values(pair_doc());
    assert forall|p: int| 0 <= p < docs.len() implies #[trigger] docs[p] == field_spec_doc(txt(ss[p].0@), ss[p].1) by {
        assert(docs[p] == f(ss[p]).1);
    }
}

/// The statically named fields of a record, ordered by name, each
/// followed by a breakable line but the last.
fn static_fields(fields: &Vec<(String, Term)>) -> (r: Result<Document, PrettyError>)
    ensures
        r is Err ==> r->Err_0 is UnsupportedConstruct,
        r is Ok <==> forall|i: int| 0 <= i < fields.len() ==> term_supported(#[trigger] fields[i].1),
        r matches Ok(d) ==> d@ == static_fields_spec(*fields),
    decreases fields, 0nat,
{
    let ghost ss = sort_by_key(fields@, entry_key());
    let ghost docs = sort_by_key(field_entries(*fields, fields.len() as int), pair_key()).map_values(pair_doc());
    proof {
        lemma_sorted_field_docs(*fields);
    }
    let sorted = sorted_map(fields);
    let mut acc = Document::nil();
    proof {
        assert(docs.take(0) =~= seq![]);
    }
    let mut i: usize = 0;
    while i < sorted.len()
        invariant
            i <= sorted@.len(),
            sorted@.len() == fields@.len(),
            forall|p: int| 0 <= p < sorted@.len() ==> #[trigger] is_entry_of(fields, sorted@[p]),
            forall|j: int| 0 <= j < fields@.len() ==> #[trigger] occurs_in(sorted@, entry(fields, j)),
            forall|p: int| 0 <= p < i ==> term_supported(*(#[trigger] sorted@[p]).1),
            forall|p: int| 0 <= p < sorted@.len() ==> *(#[trigger] sorted@[p]).0 == ss[p].0 && *sorted@[p].1 == ss[p].1,
            ss == sort_by_key(fields@, entry_key()),
            docs.len() == fields@.len(),
            forall|p: int| 0 <= p < docs.len() ==> #[trigger] docs[p] == field_spec_doc(txt(ss[p].0@), ss[p].1),
            acc@ == join_lines(docs.take(i as int)),
        decreases sorted@.len() - i,
    {
        let (name, value) = sorted[i];
        proof {
            assert(is_entry_of(fields, sorted@[i as int]));
        }
        let ghost j = choose|j: int| 0 <= j < fields@.len() && sorted@[i as int] == entry(fields, j);
        assert(*value == fields[j].1);
        proof {
            assert(docs.take(i + 1).drop_last() =~= docs.take(i as int));
            assert(docs.take(i + 1).last() == docs[i as int]);
        }
        let item = match field_doc(Document::text(name.clone()), value) {
            Ok(d) => d,
            Err(e) => {
                assert(!term_supported(fields[j].1));
                return Err(e);
            },
        };
        acc = if i == 0 {
            item
        } else {
            acc.append(Document::line()).append(item)
        };
        i = i + 1;
    }
    proof {
        assert forall|j: int| 0 <= j < fields.len() implies term_supported(#[trigger] fields[j].1) by {
            assert(occurs_in(sorted@, entry(fields, j)));
            let p = choose|p: int| 0 <= p < sorted@.len() && sorted@[p] == entry(fields, j);
            assert(term_supported(*sorted@[p].1));
        }
        assert(docs.take(docs.len() as int) =~= docs);
    }
    Ok(acc)
}

/// The rest of a quantifier header, `acc` holding `forall a1 .. ak`: the
/// binders of the quantifiers that `ty` starts with, then `.` and the body.
fn forall_tail(acc: Document, ty: &Types) -> (r: Result<Document, PrettyError>)
    ensures
        r is Err ==> r->Err_0 is UnsupportedConstruct,
        r is Ok <==> types_supported(*ty),
        r matches Ok(d) ==> d@ == forall_tail_doc(acc@, *ty),
    decreases ty, 3nat,
{
    match ty {
        Types::Forall(id, body) => {
            let acc = acc.append(Document::text_str(" ")).append(Document::text(id.clone()));
            forall_tail(acc, body)
        },
        _ => {
            let body = pretty_types(ty)?;
            Ok(acc.append(Document::text_str(".")).append(Document::softline()).append(body))
        },
    }
}

/// The document of a type.
pub fn pretty_types(ty: &Types) -> (r: Result<Document, PrettyError>)
    ensures
        r is Err ==> r->Err_0 is UnsupportedConstruct,
        r is Ok <==> types_supported(*ty),
        r matches Ok(d) ==> d@ == types_doc(*ty),
    decreases ty, 2nat,
{
    match ty {
        Types::Dyn => Ok(Document::text_str("Dyn")),
        Types::Num => Ok(Document::text_str("Num")),
        Types::Bool => Ok(Document::text_str("Bool")),
        Types::Str => Ok(Document::text_str("Str")),
        Types::Sym => Ok(Document::text_str("Sym")),
        Types::Array(elt) => {
            let inner = pretty_types(elt)?;
            let arg = if elt.fmt_is_atom() {
                inner
            } else {
                inner.nest(2).enclose("(", ")")
            };
            Ok(Document::text_str("Array").group().append(Document::space()).append(arg))
        },
        Types::Flat(t) => pretty_term(t),
        Types::Var(v) => Ok(Document::text(v.clone())),
        Types::Forall(id, body) => {
            let head = Document::text_str("forall").append(Document::line()).group().append(
                Document::text(id.clone()),
            );
            forall_tail(head, body)
        },
        Types::Enum(row) => {
            let d = pretty_types(row)?;
            Ok(d.enclose("[|", "|]"))
        },
        Types::StaticRecord(row) => {
            let d = pretty_types(row)?;
            Ok(d.enclose("{", "}").enclose("{", "}"))
        },
        Types::DynRecord(elt) => {
            let d = pretty_types(elt)?;
            Ok(
                Document::line().append(Document::text_str("_: ")).append(d).append(
                    Document::line(),
                ).group().enclose("{", "}"),
            )
        },
        Types::RowEmpty => Ok(Document::nil()),
        Types::RowExtend(id, ty_opt, tail) => {
            let mut builder = Document::text(id.clone());
            match ty_opt {
                Some(t) => {
                    let d = pretty_types(t)?;
                    builder = builder.append(Document::text_str(": ")).append(d);
                },
                None => {},
            }
            match &**tail {
                Types::RowEmpty => {
                    let rest = pretty_types(tail)?;
                    Ok(builder.append(rest))
                },
                Types::Var(_) => {
                    let rest = pretty_types(tail)?;
                    Ok(builder.append(Document::text_str(" ; ")).append(rest))
                },
                Types::Dyn => {
                    proof {
                        assert(types_supported(**tail));
                    }
                    Ok(builder.append(Document::text_str(" ; Dyn")))
                },
                _ => {
                    let rest = pretty_types(tail)?;
                    Ok(builder.append(Document::text_str(", ")).append(rest))
                },
            }
        },
        Types::Arrow(dom, codom) => {
            let d = pretty_types(dom)?;
            let d = match &**dom {
                Types::Arrow(..) => d.enclose("(", ")"),
                _ => d,
            };
            let c = pretty_types(codom)?;
            Ok(d.append(Document::softline()).append(Document::text_str("-> ")).append(c))
        },
    }
}

/// The annotations and the value of a bound term: where it carries
/// annotations, those and its value, else nothing and the term itself.
fn bound_parts(rt: &Term) -> (r: Result<(Document, Document), PrettyError>)
    ensures
        r is Err ==> r->Err_0 is UnsupportedConstruct,
        r is Ok <==> term_supported(*rt),
        r matches Ok(p) ==> p.0@ == bound_meta_doc(*rt) && p.1@ == bound_value_doc(*rt),
    decreases rt, 3nat,
{
    match rt {
        Term::MetaValue(mv) => {
            let md = metadata(mv)?;
            let vd = match &mv.value {
                Some(v) => pretty_term(v)?,
                None => pretty_term(rt)?,
            };
            Ok((md, vd))
        },
        _ => {
            let vd = pretty_term(rt)?;
            Ok((Document::nil(), vd))
        },
    }
}

/// `head meta = value in` as one group, then a breakable line and the
/// body, the whole grouped.
fn let_layout(head: Document, md: Document, vd: Document, bd: Document) -> (r: Document)
    ensures
        r@ == let_spec_layout(head@, md@, vd@, bd@),
{
    head.append(md).append(Document::space()).append(Document::text_str("=")).append(
        Document::line(),
    ).append(vd.nest(2)).append(Document::line()).append(Document::text_str("in")).append(
        Document::line_tight(),
    ).group().append(Document::line()).append(bd).group()
}

/// The items of `v`, each through `atom` when `atoms`, separated by `sep`
/// and a breakable line.
fn items_doc(v: &Vec<Term>, sep: &str, atoms: bool) -> (r: Result<Document, PrettyError>)
    ensures
        r is Err ==> r->Err_0 is UnsupportedConstruct,
        r is Ok <==> forall|i: int| 0 <= i < v.len() ==> term_supported(#[trigger] v[i]),
        r matches Ok(d) ==> d@ == items_spec_doc(*v, v.len() as int, sep@, atoms),
    decreases v, 0nat,
{
    let mut acc = Document::nil();
    let mut i: usize = 0;
    while i < v.len()
        invariant
            i <= v@.len(),
            forall|j: int| 0 <= j < i ==> term_supported(#[trigger] v[j]),
            acc@ == items_spec_doc(*v, i as int, sep@, atoms),
        decreases v@.len() - i,
    {
        let item = if atoms {
            atom(&v[i])?
        } else {
            pretty_term(&v[i])?
        };
        acc = if i == 0 {
            item
        } else {
            acc.append(Document::text_str(sep)).append(Document::line()).append(item)
        };
        i = i + 1;
    }
    Ok(acc)
}

/// The fields of a record whose names are computed, in their stored order.
fn dynamic_fields(fields: &Vec<(Term, Term)>) -> (r: Result<Document, PrettyError>)
    ensures
        r is Err ==> r->Err_0 is UnsupportedConstruct,
        r is Ok <==> (forall|i: int| 0 <= i < fields.len() ==> term_supported(#[trigger] fields[i].0))
            && (forall|i: int| 0 <= i < fields.len() ==> term_supported(#[trigger] fields[i].1)),
        r matches Ok(d) ==> d@ == dynamic_fields_spec(*fields, fields.len() as int),
    decreases fields, 0nat,
{
    let mut acc = Document::nil();
    let mut i: usize = 0;
    while i < fields.len()
        invariant
            i <= fields@.len(),
            forall|j: int| 0 <= j < i ==> term_supported(#[trigger] fields[j].0),
            forall|j: int| 0 <= j < i ==> term_supported(#[trigger] fields[j].1),
            acc@ == dynamic_fields_spec(*fields, i as int),
        decreases fields@.len() - i,
    {
        let name = pretty_term(&fields[i].0)?;
        let item = field_doc(name, &fields[i].1)?;
        acc = if i == 0 {
            item
        } else {
            acc.append(Document::line()).append(item)
        };
        i = i + 1;
    }
    Ok(acc)
}

proof fn lemma_case_entries(cs: Vec<(String, Term)>, n: int)
    requires
        0 <= n <= cs.len(),
    ensures
        case_entries(cs, n) == cs@.take(n).map_values(case_entry()),
    decreases n,
{
    if n > 0 {
        lemma_case_entries(cs, n - 1);
        let a = case_entries(cs, n);
        let prev = cs@.take(n - 1).map_values(case_entry());
        let b = cs@.take(n).map_values(case_entry());
        assert(cs[n - 1] == cs@[n - 1]);
        assert(a == case_entries(cs, n - 1).push(case_entry()(cs@[n - 1])));
        assert forall|i: int| 0 <= i < n implies a[i] == b[i] by {
            if i < n - 1 {
                assert(b[i] == case_entry()(cs@[i]));
                assert(prev[i] == case_entry()(cs@[i]));
            }
        }
        assert(a =~= b);
    } else {
        assert(cs@.take(n).map_values(case_entry()) =~= seq![]);
    }
}

/// The branch documents of `cs` ordered by tag are those of its entries
/// sorted by tag.
proof fn lemma_sorted_case_docs(cs: Vec<(String, Term)>)
    ensures
        ({
            let ss = sort_by_key(cs@, entry_key());
            let docs = sort_by_key(case_entries(cs, cs.len() as int), pair_key()).map_values(pair_doc());
            &&& ss.len() == cs@.len()
            &&& docs.len() == cs@.len()
            &&& forall|p: int| 0 <= p < docs.len() ==> #[trigger] docs[p] == case_doc(ss[p].0@, term_doc(ss[p].1))
        }),
{
    let f = case_entry();
    lemma_case_entries(cs, cs.len() as int);
    assert(cs@.take(cs.len() as int) =~= cs@);
    lemma_sort_map(cs@, f, entry_key(), pair_key());
    lemma_sort_len(cs@, entry_key());
    let ss = sort_by_key(cs@, entry_key());
    let docs = sort_by_key(case_entries(cs, cs.len() as int), pair_key()).map_values(pair_doc());
    assert forall|p: int| 0 <= p < docs.len() implies #[trigger] docs[p] == case_doc(ss[p].0@, term_doc(ss[p].1)) by {
        assert(docs[p] == f(ss[p]).1);
    }
}

/// The branches of a switch, ordered by tag.
fn switch_cases(cases: &Vec<(String, Term)>) -> (r: Result<Document, PrettyError>)
    ensures
        r is Err ==> r->Err_0 is UnsupportedConstruct,
        r is Ok <==> forall|i: int| 0 <= i < cases.len() ==> term_supported(#[trigger] cases[i].1),
        r matches Ok(d) ==> d@ == cases_spec(*cases),
    decreases cases, 0nat,
{
    let ghost ss = sort_by_key(cases@, entry_key());
    let ghost docs = sort_by_key(case_entries(*cases, cases.len() as int), pair_key()).map_values(pair_doc());
    proof {
        lemma_sorted_case_docs(*cases);
    }
    let sorted = sorted_map(cases);
    let mut acc = Document::nil();
    proof {
        assert(docs.take(0) =~= seq![]);
    }
    let mut i: usize = 0;
    while i < sorted.len()
        invariant
            i <= sorted@.len(),
            sorted@.len() == cases@.len(),
            forall|p: int| 0 <= p < sorted@.len() ==> #[trigger] is_entry_of(cases, sorted@[p]),
            forall|j: int| 0 <= j < cases@.len() ==> #[trigger] occurs_in(sorted@, entry(cases, j)),
            forall|p: int| 0 <= p < i ==> term_supported(*(#[trigger] sorted@[p]).1),
            forall|p: int| 0 <= p < sorted@.len() ==> *(#[trigger] sorted@[p]).0 == ss[p].0 && *sorted@[p].1 == ss[p].1,
            ss == sort_by_key(cases@, entry_key()),
            docs.len() == cases@.len(),
            forall|p: int| 0 <= p < docs.len() ==> #[trigger] docs[p] == case_doc(ss[p].0@, term_doc(ss[p].1)),
            acc@ == join_lines(docs.take(i as int)),
        decreases sorted@.len() - i,
    {
        let (tag, branch) = sorted[i];
        proof {
            assert(is_entry_of(cases, sorted@[i as int]));
        }
        let ghost j = choose|j: int| 0 <= j < cases@.len() && sorted@[i as int] == entry(cases, j);
        assert(*branch == cases[j].1);
        proof {
            assert(docs.take(i + 1).drop_last() =~= docs.take(i as int));
            assert(docs.take(i + 1).last() == docs[i as int]);
        }
        let bd = match pretty_term(branch) {
            Ok(d) => d,
            Err(e) => {
                assert(!term_supported(cases[j].1));
                return Err(e);
            },
        };
        let item = Document::text_str("`").append(Document::text(tag.clone())).append(
            Document::text_str(" => "),
        ).append(bd).append(Document::text_str(","));
        acc = if i == 0 {
            item
        } else {
            acc.append(Document::line()).append(item)
        };
        i = i + 1;
    }
    proof {
        assert forall|j: int| 0 <= j < cases.len() implies term_supported(#[trigger] cases[j].1) by {
            assert(occurs_in(sorted@, entry(cases, j)));
            let p = choose|p: int| 0 <= p < sorted@.len() && sorted@[p] == entry(cases, j);
            assert(term_supported(*sorted@[p].1));
        }
        assert(docs.take(docs.len() as int) =~= docs);
    }
    Ok(acc)
}

/// The body of a record: its fields and `..` when open, between braces.
fn record_layout(fields: Document, open: bool) -> (r: Document)
    ensures
        r@ == record_spec_layout(fields@, open),
{
    let tail = if open {
        Document::line().append(Document::text_str(".."))
    } else {
        Document::nil()
    };
    Document::line().append(fields).append(tail).nest(2).append(Document::line()).group().enclose(
        "{",
        "}",
    )
}

/// A comment line for a construct that has no concrete syntax.
fn comment(s: &str) -> (r: Document)
    ensures
        r@ == comment_doc(s@),
{
    Document::text_str(s).append(Document::hardline())
}

/// A string with interpolation: quoted and escaped when it is one chunk,
/// else between `m%..%"` and `"%..%m` delimiters with the literal chunks raw.
fn str_chunks_doc(chunks: &Vec<StrChunk>) -> (r: Result<Document, PrettyError>)
    ensures
        r is Err ==> r->Err_0 is UnsupportedConstruct,
        r is Ok <==> forall|i: int| 0 <= i < chunks.len() ==> chunk_supported(#[trigger] chunks[i]),
        r matches Ok(d) ==> d@ == term_doc(Term::StrChunks(*chunks)),
    decreases chunks, 0nat,
{
    let n = chunks.len();
    let multiline = n > 1;
    let mut nb: usize = 0;
    let mut i: usize = 0;
    while i < n
        invariant
            i <= n,
            n == chunks@.len(),
            nb == chunks_marker(chunks@, i as int),
        decreases n - i,
    {
        let d = match &chunks[i] {
            StrChunk::Literal(s) => min_interpolate_sign(s.as_str()),
            StrChunk::Expr(..) => 1,
        };
        if d > nb {
            nb = d;
        }
        i = i + 1;
    }
    let interp = marker_run(nb);
    let mut body = Document::nil();
    let mut k: usize = n;
    while k > 0
        invariant
            k <= n,
            n == chunks@.len(),
            forall|j: int| k <= j < n ==> chunk_supported(#[trigger] chunks[j]),
            multiline == (n > 1),
            interp@ == Seq::new(nb as nat, |_i: int| '%'),
            body@ == chunks_doc(*chunks, k as int, interp@, multiline),
        decreases k,
    {
        k = k - 1;
        let piece = match &chunks[k] {
            StrChunk::Literal(s) => if multiline {
                Document::text(s.clone())
            } else {
                escaped_string(s.as_str())
            },
            StrChunk::Expr(e, _) => {
                let ed = pretty_term(e)?;
                Document::text(interp.clone()).append(Document::text_str("{")).append(ed).append(
                    Document::text_str("}"),
                )
            },
        };
        body = body.append(piece);
    }
    let quoted = body.enclose("\"", "\"");
    if multiline {
        let mut open = String::from_str("m");
        open.append(interp.as_str());
        let mut close = interp.clone();
        close.append("m");
        Ok(quoted.enclose(open.as_str(), close.as_str()))
    } else {
        Ok(quoted)
    }
}

/// The document of a term.
pub fn pretty_term(t: &Term) -> (r: Result<Document, PrettyError>)
    ensures
        r is Err ==> r->Err_0 is UnsupportedConstruct,
        r is Ok <==> term_supported(*t),
        r matches Ok(d) ==> d@ == term_doc(*t),
    decreases t, 2nat,
{
    match t {
        Term::Null => Ok(Document::text_str("null")),
        Term::Bool(b) => Ok(Document::text_str(if *b { "true" } else { "false" })),
        Term::Num(n) => Ok(Document::text(n.to_text())),
        Term::Str(s) => Ok(escaped_string(s.as_str()).enclose("\"", "\"")),
        Term::StrChunks(chunks) => str_chunks_doc(chunks),
        Term::Fun(id, body) => {
            let head = Document::text_str("fun").append(Document::space()).append(
                Document::text(id.clone()),
            );
            fun_tail(head, body)
        },
        Term::FunPattern(id, dst, body) => {
            let p = pattern_param(id, dst)?;
            let head = Document::text_str("fun").append(Document::space()).append(p);
            fun_pattern_tail(head, body)
        },
        Term::Lbl => Ok(comment("# <label>")),
        Term::Let(id, rt, body) => {
            let (md, vd) = bound_parts(rt)?;
            let bd = pretty_term(body)?;
            let head = Document::text_str("let").append(Document::space()).append(
                Document::text(id.clone()),
            );
            Ok(let_layout(head, md, vd, bd))
        },
        Term::LetPattern(opt_id, dst, rt, body) => {
            let name = match opt_id {
                Some(id) => {
                    let sep = match dst {
                        Destruct::Empty => Document::nil(),
                        _ => Document::text_str(" @ "),
                    };
                    Document::text(id.clone()).append(sep)
                },
                None => Document::nil(),
            };
            let pat = pretty_destruct(dst)?;
            let (md, vd) = bound_parts(rt)?;
            let bd = pretty_term(body)?;
            let head = Document::text_str("let").append(Document::space()).append(name).append(
                pat,
            ).append(Document::space());
            Ok(let_layout(head, md, vd, bd))
        },
        Term::App(f, arg) => match &**f {
            Term::Op1(UnaryOp::Ite, _) => {
                let fd = pretty_term(f)?;
                let ad = pretty_term(arg)?;
                Ok(
                    fd.append(Document::space()).append(Document::text_str("then")).append(
                        Document::line(),
                    ).append(ad.nest(2)).append(Document::line()).append(
                        Document::text_str("else"),
                    ).group(),
                )
            },
            _ => {
                let fd = pretty_term(f)?;
                let ad = atom(arg)?;
                Ok(fd.append(Document::line()).append(ad).group())
            },
        },
        Term::Var(id) => Ok(Document::text(id.clone())),
        Term::Enum(id) => Ok(Document::text_str("`").append(Document::text(id.clone()))),
        Term::Record(fields, attrs) => {
            let fd = static_fields(fields)?;
            Ok(record_layout(fd, attrs.open))
        },
        Term::RecRecord(fields, dyn_fields, attrs) => {
            let fd = static_fields(fields)?;
            let dd = dynamic_fields(dyn_fields)?;
            let all = if fields.len() > 0 && dyn_fields.len() > 0 {
                fd.append(Document::line()).append(dd)
            } else {
                fd.append(dd)
            };
            Ok(record_layout(all, attrs.open))
        },
        Term::Switch(tst, cases, def) => {
            let cd = switch_cases(cases)?;
            let dd = pretty_term(def)?;
            let branches = cd.append(Document::line()).append(Document::text_str("_ => ")).append(dd).nest(
                2,
            ).append(Document::line_tight()).enclose("{", "}").group();
            let td = atom(tst)?;
            Ok(
                Document::text_str("switch").append(Document::space()).append(branches).append(
                    Document::space(),
                ).append(td),
            )
        },
        Term::Array(items) => {
            let d = items_doc(items, ",", false)?;
            Ok(
                Document::line().append(d).nest(2).append(Document::line()).group().enclose(
                    "[",
                    "]",
                ),
            )
        },
        Term::Op1(op, arg) => match op.pos() {
            OpPos::Prefix => {
                let ad = atom(arg)?;
                Ok(Document::text(unary_op_text(op)).append(ad))
            },
            OpPos::Postfix => {
                let ad = atom(arg)?;
                Ok(ad.append(Document::text(unary_op_text(op))))
            },
            OpPos::Special => match op {
                UnaryOp::Ite => {
                    let ad = pretty_term(arg)?;
                    Ok(Document::text_str("if ").append(ad))
                },
                _ => Err(PrettyError::UnsupportedConstruct(unary_op_text(op))),
            },
        },
        Term::Op2(op, l, r) => match op {
            BinaryOp::DynAccess => {
                let rd = pretty_term(r)?;
                let ld = pretty_term(l)?;
                Ok(rd.append(Document::text_str(".")).append(ld).group())
            },
            _ => {
                let negation = match (op, &**l) {
                    (BinaryOp::Sub, Term::Num(n)) => n.is_zero(),
                    _ => false,
                };
                if negation {
                    proof {
                        assert(term_supported(**l));
                    }
                    let rd = atom(r)?;
                    Ok(Document::text_str("-").append(rd).group())
                } else {
                    let ld = atom(l)?;
                    let rd = atom(r)?;
                    Ok(
                        ld.append(Document::space()).append(
                            Document::text_str(binary_op_text(op)),
                        ).append(Document::line()).append(rd).nest(2).group(),
                    )
                }
            },
        },
        Term::OpN(op, args) => {
            let d = items_doc(args, "", true)?;
            Ok(
                Document::text_str(nary_op_text(op)).append(Document::line()).append(
                    d.nest(2),
                ).group(),
            )
        },
        Term::Sym(n) => Ok(
            Document::text_str("# <symbol: ").append(Document::text(i64_text(*n as i64))).append(
                Document::text_str(">"),
            ).append(Document::hardline()),
        ),
        Term::Wrapped(..) => Ok(comment("# <wrapped>")),
        Term::MetaValue(mv) => pretty_meta(mv),
        Term::Import(path) => Ok(
            Document::text_str("import ").append(
                Document::text(path.clone()).enclose("\"", "\""),
            ),
        ),
        Term::ResolvedImport(id) => Ok(
            Document::text_str("import <file_id: FileId(").append(
                Document::text(i64_text(*id as i64)),
            ).append(Document::text_str(")>")),
        ),
        Term::ParseError => Ok(comment("# <PARSE ERROR!>")),
    }
}

/// The text of a term laid out at `width` columns.
pub fn print_term(t: &Term, width: usize) -> (r: Result<String, PrettyError>)
    ensures
        (r is Err && r->Err_0 is TooDeep) <==> !term_within(*t, MAX_DEPTH as nat),
        r is Ok <==> term_within(*t, MAX_DEPTH as nat) && term_supported(*t),
        r matches Ok(s) ==> s@ == term_text(*t, width as nat),
{
    if !term_within_depth(t, MAX_DEPTH) {
        return Err(PrettyError::TooDeep);
    }
    let d = pretty_term(t)?;
    Ok(d.render(width))
}

/// The text of a type laid out at `width` columns.
pub fn print_types(ty: &Types, width: usize) -> (r: Result<String, PrettyError>)
    ensures
        (r is Err && r->Err_0 is TooDeep) <==> !types_within(*ty, MAX_DEPTH as nat),
        r is Ok <==> types_within(*ty, MAX_DEPTH as nat) && types_supported(*ty),
        r matches Ok(s) ==> s@ == types_text(*ty, width as nat),
{
    if !types_within_depth(ty, MAX_DEPTH) {
        return Err(PrettyError::TooDeep);
    }
    let d = pretty_types(ty)?;
    Ok(d.render(width))
}

} // verus!
