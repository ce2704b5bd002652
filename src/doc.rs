use pretty::BoxDoc;
use vstd::prelude::*;

verus! {

/// The layout expression a [`Document`] stands for.
pub enum DocSpec {
    Nil,
    Text(Seq<char>),
    /// A break that renders as a space when its group is flat.
    Line,
    /// A break that renders as nothing when its group is flat.
    LineTight,
    /// A break that is always a newline.
    HardLine,
    Cat(Box<DocSpec>, Box<DocSpec>),
    Nest(int, Box<DocSpec>),
    Group(Box<DocSpec>),
}

/// The text of a document laid out at a width: a function of the document
/// and the width alone.
pub uninterp spec fn layout(d: DocSpec, width: nat) -> Seq<char>;

pub open spec fn cat(a: DocSpec, b: DocSpec) -> DocSpec {
    DocSpec::Cat(Box::new(a), Box::new(b))
}

pub open spec fn txt(s: Seq<char>) -> DocSpec {
    DocSpec::Text(s)
}

pub open spec fn nest(n: int, d: DocSpec) -> DocSpec {
    DocSpec::Nest(n, Box::new(d))
}

pub open spec fn group(d: DocSpec) -> DocSpec {
    DocSpec::Group(Box::new(d))
}

/// A break that renders as a space when it fits, else as a newline.
pub open spec fn softline() -> DocSpec {
    group(DocSpec::Line)
}

/// `open`, then `d`, then `close`.
pub open spec fn enclose(open: Seq<char>, d: DocSpec, close: Seq<char>) -> DocSpec {
    cat(cat(txt(open), d), txt(close))
}

/// The text of a document laid out on a single line: every breakable line
/// flattened, a hard line kept as a newline.
pub open spec fn flat_text(d: DocSpec) -> Seq<char>
    decreases d,
{
    match d {
        DocSpec::Nil => seq![],
        DocSpec::Text(s) => s,
        DocSpec::Line => seq![' '],
        DocSpec::LineTight => seq![],
        DocSpec::HardLine => seq!['\n'],
        DocSpec::Cat(a, b) => flat_text(*a) + flat_text(*b),
        DocSpec::Nest(_, a) => flat_text(*a),
        DocSpec::Group(a) => flat_text(*a),
    }
}

/// A layout document built on the `pretty` crate, together with the
/// expression it was built from. Each constructor below builds `inner` with
/// the `pretty` function its wrapper names and records the same step in
/// `model`, so that `inner` always lays out as `model` says; `render` rests
/// on that.
pub struct Document {
    inner: BoxDoc<'static, ()>,
    model: Ghost<DocSpec>,
}

#[verifier::external_type_specification]
#[verifier::external_body]
#[verifier::reject_recursive_types(A)]
pub struct ExBoxDoc<'a, A>(BoxDoc<'a, A>);

/// Relies on `BoxDoc::nil`: the empty document.
#[verifier::external_body]
fn box_nil() -> BoxDoc<'static, ()> {
    BoxDoc::nil()
}

/// Relies on `BoxDoc::text`: the document holding exactly the given text.
#[verifier::external_body]
fn box_text(s: String) -> BoxDoc<'static, ()> {
    BoxDoc::text(s)
}

/// Relies on `BoxDoc::line`: a newline, or a space when flattened.
#[verifier::external_body]
fn box_line() -> BoxDoc<'static, ()> {
    BoxDoc::line()
}

/// Relies on `BoxDoc::line_`: a newline, or nothing when flattened.
#[verifier::external_body]
fn box_line_tight() -> BoxDoc<'static, ()> {
    BoxDoc::line_()
}

/// Relies on `BoxDoc::hardline`: a newline in every layout.
#[verifier::external_body]
fn box_hardline() -> BoxDoc<'static, ()> {
    BoxDoc::hardline()
}

/// Relies on `BoxDoc::append`: `a` followed by `b`.
#[verifier::external_body]
fn box_append(a: BoxDoc<'static, ()>, b: BoxDoc<'static, ()>) -> BoxDoc<'static, ()> {
    a.append(b)
}

/// Relies on `BoxDoc::nest`: `d` with `n` more columns of indentation after
/// each of its newlines.
#[verifier::external_body]
fn box_nest(d: BoxDoc<'static, ()>, n: isize) -> BoxDoc<'static, ()> {
    d.nest(n)
}

/// Relies on `BoxDoc::group`: `d` laid out on one line where it fits.
#[verifier::external_body]
fn box_group(d: BoxDoc<'static, ()>) -> BoxDoc<'static, ()> {
    d.group()
}

/// Relies on `Doc::pretty` and its `Display`: the text of the document laid
/// out at `width`, which depends on the document and the width alone.
#[verifier::external_body]
fn box_render(d: &Document, width: usize) -> (r: String)
    ensures
        r@ == layout(d@, width as nat),
{
    d.inner.pretty(width).to_string()
}

impl View for Document {
    type V = DocSpec;

    closed spec fn view(&self) -> DocSpec {
        self.model@
    }
}

impl Document {
    pub fn nil() -> (r: Document)
        ensures
            r@ == DocSpec::Nil,
    {
        Document { inner: box_nil(), model: Ghost(DocSpec::Nil) }
    }

    pub fn text(s: String) -> (r: Document)
        ensures
            r@ == txt(s@),
    {
        let ghost v = s@;
        Document { inner: box_text(s), model: Ghost(txt(v)) }
    }

    pub fn text_str(s: &str) -> (r: Document)
        ensures
            r@ == txt(s@),
    {
        Document::text(String::from_str(s))
    }

    pub fn line() -> (r: Document)
        ensures
            r@ == DocSpec::Line,
    {
        Document { inner: box_line(), model: Ghost(DocSpec::Line) }
    }

    pub fn line_tight() -> (r: Document)
        ensures
            r@ == DocSpec::LineTight,
    {
        Document { inner: box_line_tight(), model: Ghost(DocSpec::LineTight) }
    }

    pub fn hardline() -> (r: Document)
        ensures
            r@ == DocSpec::HardLine,
    {
        Document { inner: box_hardline(), model: Ghost(DocSpec::HardLine) }
    }

    pub fn softline() -> (r: Document)
        ensures
            r@ == softline(),
    {
        Document::line().group()
    }

    pub fn space() -> (r: Document)
        ensures
            r@ == txt(seq![' ']),
    {
        let r = Document::text_str(" ");
        proof {
            reveal_strlit(" ");
            assert(" "@ =~= seq![' ']);
        }
        r
    }

    pub fn append(self, other: Document) -> (r: Document)
        ensures
            r@ == cat(self@, other@),
    {
        let ghost m = cat(self@, other@);
        Document { inner: box_append(self.inner, other.inner), model: Ghost(m) }
    }

    pub fn nest(self, n: isize) -> (r: Document)
        requires
            n >= 0,
        ensures
            r@ == nest(n as int, self@),
    {
        let ghost m = nest(n as int, self@);
        Document { inner: box_nest(self.inner, n), model: Ghost(m) }
    }

    pub fn group(self) -> (r: Document)
        ensures
            r@ == group(self@),
    {
        let ghost m = group(self@);
        Document { inner: box_group(self.inner), model: Ghost(m) }
    }

    /// `open`, then this document, then `close`.
    pub fn enclose(self, open: &str, close: &str) -> (r: Document)
        ensures
            r@ == enclose(open@, self@, close@),
    {
        Document::text_str(open).append(self).append(Document::text_str(close))
    }

    /// The text of this document laid out at `width` columns.
    pub fn render(&self, width: usize) -> (r: String)
        ensures
            r@ == layout(self@, width as nat),
    {
        box_render(self, width)
    }
}

} // verus!
