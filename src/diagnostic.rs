use vstd::prelude::*;

use crate::ident::{concat_idents, names, Ident, Span};
use crate::levenshtein::{is_nearest, nearest};

verus! {

/// The code reserved for a reference to an undefined binding.
pub const UNDEFINED_VARIABLE: usize = 701;

#[derive(Clone, Copy, Debug, PartialEq, Eq, Structural)]
pub enum LabelStyle {
    Primary,
    Context,
}

/// What a label says; turning it into text is left to the renderer.
#[derive(Clone, Debug, PartialEq, Eq)]
pub enum LabelMessage {
    UndefinedVariable,
    DidYouMean(Ident),
}

/// A note attached to a span of the source.
#[derive(Clone, Debug, PartialEq, Eq)]
pub struct Label {
    pub style: LabelStyle,
    pub message: LabelMessage,
    pub span: Span,
}

#[derive(Clone, Debug, PartialEq, Eq)]
pub enum ErrorVariant {
    /// The identifiers that were declared when the reference was made.
    Undefined { idents: Vec<Ident> },
}

/// A reference to a binding that no visible scope declares.
#[derive(Clone, Debug, PartialEq, Eq)]
pub struct Error {
    variant: ErrorVariant,
    ident: Ident,
    span: Span,
}

/// The literal keywords a misspelt name may have been meant as.
pub fn literal_keywords() -> (r: Vec<Ident>)
    ensures
        names(r@) == seq![seq!['n', 'u', 'l', 'l'], seq!['t', 'r', 'u', 'e'], seq!['f', 'a', 'l', 's', 'e']],
{
    let mut r: Vec<Ident> = Vec::new();
    r.push(Ident::from_chars(vec!['n', 'u', 'l', 'l']));
    r.push(Ident::from_chars(vec!['t', 'r', 'u', 'e']));
    r.push(Ident::from_chars(vec!['f', 'a', 'l', 's', 'e']));
    assert(names(r@) =~= seq![seq!['n', 'u', 'l', 'l'], seq!['t', 'r', 'u', 'e'], seq!['f', 'a', 'l', 's', 'e']]);
    r
}

/// `message` proposes the name `name`.
pub open spec fn suggests(message: LabelMessage, name: Seq<char>) -> bool {
    message matches LabelMessage::DidYouMean(g) && g@ == name
}

/// The labels of an undefined-binding diagnostic at `span` for the name
/// `name`, with `pool` as the names it may have been meant as: a primary
/// label, then a suggestion of the nearest name of the pool, if there is one.
pub open spec fn undefined_labels_ok(labels: Seq<Label>, name: Seq<char>, span: Span, pool: Seq<Seq<char>>) -> bool {
    &&& labels.len() == if pool.len() == 0 { 1int } else { 2int }
    &&& labels[0].style == LabelStyle::Primary
    &&& labels[0].message == LabelMessage::UndefinedVariable
    &&& labels[0].span == span
    &&& pool.len() > 0 ==> {
        &&& labels[1].style == LabelStyle::Context
        &&& labels[1].span == span
        &&& exists|k: int| #[trigger] is_nearest(name, pool, k) && suggests(labels[1].message, pool[k])
    }
}

/// Builds the labels for a name that is not defined, suggesting the nearest
/// of `candidates`.
pub fn undefined_labels(name: &Ident, span: Span, candidates: &Vec<Ident>) -> (r: Vec<Label>)
    ensures
        undefined_labels_ok(r@, name@, span, names(candidates@)),
{
    let mut labels: Vec<Label> = Vec::new();
    labels.push(Label { style: LabelStyle::Primary, message: LabelMessage::UndefinedVariable, span });
    match nearest(name.chars(), candidates) {
        Some(k) => {
            let guess = candidates[k].duplicate();
            labels.push(Label { style: LabelStyle::Context, message: LabelMessage::DidYouMean(guess), span });
            assert(suggests(labels@[1].message, names(candidates@)[k as int]));
        },
        None => {},
    }
    labels
}

impl Error {
    /// The name that was referenced.
    pub closed spec fn name(&self) -> Seq<char> {
        self.ident@
    }

    /// Where it was referenced.
    pub closed spec fn at(&self) -> Span {
        self.span
    }

    /// The names that were declared at the reference, in order.
    pub closed spec fn candidates(&self) -> Seq<Seq<char>> {
        match &self.variant {
            ErrorVariant::Undefined { idents } => names(idents@),
        }
    }

    pub fn undefined(ident: Ident, span: Span, idents: Vec<Ident>) -> (r: Error)
        ensures
            r.name() == ident@,
            r.at() == span,
            r.candidates() == names(idents@),
    {
        Error { variant: ErrorVariant::Undefined { idents }, ident, span }
    }

    pub fn ident(&self) -> (r: &Ident)
        ensures
            r@ == self.name(),
    {
        &self.ident
    }

    pub fn span(&self) -> (r: Span)
        ensures
            r == self.at(),
    {
        self.span
    }

    /// The identifiers that were declared at the reference.
    pub fn idents(&self) -> (r: &Vec<Ident>)
        ensures
            names(r@) == self.candidates(),
    {
        match &self.variant {
            ErrorVariant::Undefined { idents } => idents,
        }
    }

    pub fn code(&self) -> (r: usize)
        ensures
            r == UNDEFINED_VARIABLE,
    {
        match &self.variant {
            ErrorVariant::Undefined { .. } => UNDEFINED_VARIABLE,
        }
    }

    /// The labels of the diagnostic, where a suggestion is drawn from the
    /// declared names followed by `keywords`.
    pub fn labels_with_keywords(&self, keywords: &Vec<Ident>) -> (r: Vec<Label>)
        ensures
            undefined_labels_ok(r@, self.name(), self.at(), self.candidates() + names(keywords@)),
    {
        let pool = concat_idents(self.idents(), keywords);
        undefined_labels(&self.ident, self.span, &pool)
    }

    /// The labels of the diagnostic, where a suggestion is drawn from the
    /// declared names followed by the literal keywords.
    pub fn labels(&self) -> (r: Vec<Label>)
        ensures
            undefined_labels_ok(
                r@,
                self.name(),
                self.at(),
                self.candidates() + seq![seq!['n', 'u', 'l', 'l'], seq!['t', 'r', 'u', 'e'], seq!['f', 'a', 'l', 's', 'e']],
            ),
    {
        let keywords = literal_keywords();
        self.labels_with_keywords(&keywords)
    }
}

} // verus!
