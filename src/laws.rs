use crate::ast::{BinaryOp, Number, Term, Types};
use crate::doc::{cat, enclose, flat_text, group, softline, txt, DocSpec};
use crate::order::{lemma_sort_sorted, sort_by_key, sorted_by};
use crate::printer::{field_entries, pair_key, atom_doc, forall_tail_doc, term_doc, term_text, types_doc, types_text};
use vstd::prelude::*;

verus! {

/// Printing a type is deterministic: equal types at equal widths give
/// equal texts.
pub proof fn lemma_types_text_deterministic(a: Types, b: Types, width: nat)
    requires
        a == b,
    ensures
        types_text(a, width) == types_text(b, width),
{
}

/// Printing a term is deterministic: equal terms at equal widths give
/// equal texts. Equal here means equal values, fields in the same stored
/// order; fields stored in another order are sorted into the same order
/// by the record's document (see `lemma_record_fields_by_name`).
pub proof fn lemma_term_text_deterministic(a: Term, b: Term, width: nat)
    requires
        a == b,
    ensures
        term_text(a, width) == term_text(b, width),
{
}

/// A subtraction from the literal zero reads as a negation: the one-line
/// form (`flat_text`) of its document is `-` followed by that of the
/// operand, with no zero and no space. This speaks of the document; how the
/// layout breaks it into lines is left to the renderer.
pub proof fn lemma_negation_sugar(z: Number, x: Term)
    requires
        z.mantissa == 0,
    ensures
        flat_text(term_doc(Term::Op2(BinaryOp::Sub, Box::new(Term::Num(z)), Box::new(x))))
            == "-"@ + flat_text(atom_doc(x)),
{
    reveal_with_fuel(flat_text, 4);
    let t = Term::Op2(BinaryOp::Sub, Box::new(Term::Num(z)), Box::new(x));
    assert(term_doc(t) == group(cat(txt("-"@), atom_doc(x))));
}

/// The fields of a record are listed by name, whatever their stored
/// order: the (name, document) pairs that make up a record's document are
/// ordered by name.
pub proof fn lemma_record_fields_by_name(fs: Vec<(String, Term)>)
    ensures
        sorted_by(sort_by_key(field_entries(fs, fs.len() as int), pair_key()), pair_key()),
{
    lemma_sort_sorted(field_entries(fs, fs.len() as int), pair_key());
}

/// An arrow whose domain is itself an arrow shows that domain in
/// parentheses, while the codomain of an arrow never gets any: a chain of
/// arrows to the right reads without parentheses. Stated over the one-line
/// form (`flat_text`) of the documents, not over the laid-out text.
pub proof fn lemma_arrow_associativity(a: Types, b: Types, c: Types)
    ensures
        flat_text(types_doc(Types::Arrow(Box::new(Types::Arrow(Box::new(a), Box::new(b))), Box::new(c))))
            == "("@ + flat_text(types_doc(Types::Arrow(Box::new(a), Box::new(b)))) + ")"@ + " -> "@
            + flat_text(types_doc(c)),
        !(a is Arrow) ==> flat_text(types_doc(Types::Arrow(Box::new(a), Box::new(Types::Arrow(Box::new(b), Box::new(c))))))
            == flat_text(types_doc(a)) + " -> "@ + flat_text(types_doc(Types::Arrow(Box::new(b), Box::new(c)))),
{
    reveal_with_fuel(flat_text, 6);
    reveal_strlit(" -> ");
    reveal_strlit("-> ");
    let arrow = " -> "@;
    assert(flat_text(softline()) + flat_text(txt("-> "@)) =~= arrow);
    let ab = Types::Arrow(Box::new(a), Box::new(b));
    let dom = enclose("("@, types_doc(ab), ")"@);
    assert(flat_text(dom) == "("@ + flat_text(types_doc(ab)) + ")"@);
    let left = Types::Arrow(Box::new(ab), Box::new(c));
    assert(types_doc(left) == cat(cat(cat(dom, softline()), txt("-> "@)), types_doc(c)));
    assert(flat_text(types_doc(left)) =~= "("@ + flat_text(types_doc(ab)) + ")"@ + arrow + flat_text(types_doc(c)));
    if !(a is Arrow) {
        let bc = Types::Arrow(Box::new(b), Box::new(c));
        let right = Types::Arrow(Box::new(a), Box::new(bc));
        assert(types_doc(right) == cat(cat(cat(types_doc(a), softline()), txt("-> "@)), types_doc(bc)));
        assert(flat_text(types_doc(right)) =~= flat_text(types_doc(a)) + arrow + flat_text(types_doc(bc)));
    }
}

/// Two nested quantifiers share one header: the one-line form
/// (`flat_text`) of the document is `forall a b. ` then that of the body.
/// Stated over the document, not over the laid-out text.
pub proof fn lemma_foralls_coalesce(a: String, b: String, body: Types)
    requires
        !(body is Forall),
    ensures
        flat_text(types_doc(Types::Forall(a, Box::new(Types::Forall(b, Box::new(body))))))
            == "forall "@ + a@ + " "@ + b@ + ". "@ + flat_text(types_doc(body)),
{
    reveal_with_fuel(flat_text, 6);
    reveal_strlit("forall ");
    reveal_strlit("forall");
    reveal_strlit(" ");
    reveal_strlit(". ");
    reveal_strlit(".");
    let head = cat(group(cat(txt("forall"@), DocSpec::Line)), txt(a@));
    assert(flat_text(head) =~= "forall "@ + a@);
    let head2 = cat(cat(head, txt(" "@)), txt(b@));
    assert(flat_text(head2) =~= "forall "@ + a@ + " "@ + b@);
    let inner = Types::Forall(b, Box::new(body));
    assert(forall_tail_doc(head, inner) == forall_tail_doc(head2, body));
    let d = cat(cat(cat(head2, txt("."@)), softline()), types_doc(body));
    assert(forall_tail_doc(head2, body) == d);
    assert(flat_text(d) =~= "forall "@ + a@ + " "@ + b@ + ". "@ + flat_text(types_doc(body)));
}

} // verus!
