//! Tokens and token trees of style sheets.

use vstd::prelude::*;
use vstd::string::StringSliceAdditionalSpecFns;
use crate::position::{Location, Position};

verus! {

/// A token that carries a text value: identifiers, at-keywords, hashes, strings, URLs and the
/// bad strings and URLs that the tokenizer reports.
#[derive(Debug)]
pub struct NamedToken {
    pub content: String,
    pub location: Location,
}

pub type Ident = NamedToken;
pub type AtKeyword = NamedToken;
pub type Hash = NamedToken;
pub type IDHash = NamedToken;
pub type QuotedString = NamedToken;
pub type UnquotedUrl = NamedToken;
pub type BadUrl = NamedToken;
pub type BadString = NamedToken;

impl NamedToken {
    pub fn location(&self) -> (r: Location)
        ensures
            r == self.location,
    {
        self.location
    }
}

/// A punctuation token that carries nothing but its range: colons, semicolons and commas.
#[derive(Debug)]
pub struct PunctToken {
    pub location: Location,
}

pub type Colon = PunctToken;
pub type Semicolon = PunctToken;
pub type Comma = PunctToken;

impl PunctToken {
    pub fn location(&self) -> (r: Location)
        ensures
            r == self.location,
    {
        self.location
    }
}

/// An operator or delimiter, named by its source spelling (at most four bytes).
#[derive(Debug)]
pub struct Operator {
    pub name: String,
    pub location: Location,
}

impl Operator {
    pub fn new(s: &str, location: Location) -> (r: Operator)
        requires
            s.spec_bytes().len() <= 4,
        ensures
            r.name@ == s@,
            r.location == location,
    {
        Operator { name: String::from_str(s), location }
    }

    /// Whether the operator is spelled `s`.
    pub fn is(&self, s: &str) -> (r: bool)
        ensures
            r == (self.name@ == s@),
    {
        crate::text::str_eq(self.name.as_str(), s)
    }

    pub fn location(&self) -> (r: Location)
        ensures
            r == self.location,
    {
        self.location
    }
}

/// An operator made from the spelling `s` (as `Operator::new` makes it) is spelled `t` (as
/// `Operator::is` tells) exactly when `t` is `s`; so one made from at most four bytes is never
/// spelled by a string of more than four bytes.
pub proof fn lemma_operator_spelling(op: Operator, s: &str, t: &str)
    requires
        op.name@ == s@,
    ensures
        (op.name@ == t@) <==> (s@ == t@),
        s.spec_bytes().len() <= 4 && t.spec_bytes().len() > 4 ==> op.name@ != t@,
{
}

/// A number, percentage or dimension. Its floating-point value is not kept; whether it was
/// written with a sign and its integer value (for integers) are.
#[derive(Debug)]
pub struct Numeric {
    pub has_sign: bool,
    pub int_value: Option<i32>,
    pub location: Location,
}

pub type Number = Numeric;
pub type Percentage = Numeric;

impl Numeric {
    pub fn location(&self) -> (r: Location)
        ensures
            r == self.location,
    {
        self.location
    }
}

#[derive(Debug)]
pub struct Dimension {
    pub has_sign: bool,
    pub int_value: Option<i32>,
    pub unit: String,
    pub location: Location,
}

impl Dimension {
    pub fn location(&self) -> (r: Location)
        ensures
            r == self.location,
    {
        self.location
    }
}

/// A function call `name( ... )`: the range of `name(`, the parsed content, the range of `)`,
/// and the tokens left after the content.
#[derive(Debug)]
pub struct Function<T> {
    pub name: String,
    pub children: T,
    pub left: Location,
    pub right: Location,
    pub trailing: Vec<TokenTree>,
}

/// A bracketed group: the range of the opening bracket, the parsed content, the range of the
/// closing bracket, and the tokens left after the content.
#[derive(Debug)]
pub struct Group<T> {
    pub children: T,
    pub left: Location,
    pub right: Location,
    pub trailing: Vec<TokenTree>,
}

pub type Paren<T> = Group<T>;
pub type Bracket<T> = Group<T>;
pub type Brace<T> = Group<T>;

impl<T> Function<T> {
    pub open spec fn spec_location(&self) -> Location {
        Location { start: self.left.start, end: self.right.end }
    }

    pub fn location(&self) -> (r: Location)
        ensures
            r == self.spec_location(),
    {
        Location { start: self.left.start, end: self.right.end }
    }

    pub fn left(&self) -> (r: Location)
        ensures
            r == self.left,
    {
        self.left
    }

    pub fn right(&self) -> (r: Location)
        ensures
            r == self.right,
    {
        self.right
    }

    pub fn children(&self) -> (r: &T)
        ensures
            r == &self.children,
    {
        &self.children
    }

    pub fn trailing(&self) -> (r: &Vec<TokenTree>)
        ensures
            r == &self.trailing,
    {
        &self.trailing
    }
}

impl<T> Group<T> {
    pub open spec fn spec_location(&self) -> Location {
        Location { start: self.left.start, end: self.right.end }
    }

    pub fn location(&self) -> (r: Location)
        ensures
            r == self.spec_location(),
    {
        Location { start: self.left.start, end: self.right.end }
    }

    pub fn left(&self) -> (r: Location)
        ensures
            r == self.left,
    {
        self.left
    }

    pub fn right(&self) -> (r: Location)
        ensures
            r == self.right,
    {
        self.right
    }

    pub fn children(&self) -> (r: &T)
        ensures
            r == &self.children,
    {
        &self.children
    }

    pub fn trailing(&self) -> (r: &Vec<TokenTree>)
        ensures
            r == &self.trailing,
    {
        &self.trailing
    }
}

/// A comment with its text between the delimiters.
#[derive(Debug)]
pub struct Comment {
    pub content: String,
    pub location: Location,
}

/// A token, with the content of its block for blocks and functions.
#[derive(Debug)]
pub enum TokenTree {
    Ident(Ident),
    AtKeyword(AtKeyword),
    Hash(Hash),
    IDHash(IDHash),
    QuotedString(QuotedString),
    UnquotedUrl(UnquotedUrl),
    Number(Number),
    Percentage(Percentage),
    Dimension(Dimension),
    Colon(Colon),
    Semicolon(Semicolon),
    Comma(Comma),
    Operator(Operator),
    Function(Function<Vec<TokenTree>>),
    Paren(Paren<Vec<TokenTree>>),
    Bracket(Bracket<Vec<TokenTree>>),
    Brace(Brace<Vec<TokenTree>>),
    BadUrl(BadUrl),
    BadString(BadString),
    BadOperator(Operator),
}

impl TokenTree {
    pub open spec fn spec_location(self) -> Location {
        match self {
            TokenTree::Ident(x) => x.location,
            TokenTree::AtKeyword(x) => x.location,
            TokenTree::Hash(x) => x.location,
            TokenTree::IDHash(x) => x.location,
            TokenTree::QuotedString(x) => x.location,
            TokenTree::UnquotedUrl(x) => x.location,
            TokenTree::Number(x) => x.location,
            TokenTree::Percentage(x) => x.location,
            TokenTree::Dimension(x) => x.location,
            TokenTree::Colon(x) => x.location,
            TokenTree::Semicolon(x) => x.location,
            TokenTree::Comma(x) => x.location,
            TokenTree::Operator(x) => x.location,
            TokenTree::Function(x) => x.spec_location(),
            TokenTree::Paren(x) => x.spec_location(),
            TokenTree::Bracket(x) => x.spec_location(),
            TokenTree::Brace(x) => x.spec_location(),
            TokenTree::BadUrl(x) => x.location,
            TokenTree::BadString(x) => x.location,
            TokenTree::BadOperator(x) => x.location,
        }
    }

    pub fn location(&self) -> (r: Location)
        ensures
            r == self.spec_location(),
    {
        match self {
            TokenTree::Ident(x) => x.location,
            TokenTree::AtKeyword(x) => x.location,
            TokenTree::Hash(x) => x.location,
            TokenTree::IDHash(x) => x.location,
            TokenTree::QuotedString(x) => x.location,
            TokenTree::UnquotedUrl(x) => x.location,
            TokenTree::Number(x) => x.location,
            TokenTree::Percentage(x) => x.location,
            TokenTree::Dimension(x) => x.location,
            TokenTree::Colon(x) => x.location,
            TokenTree::Semicolon(x) => x.location,
            TokenTree::Comma(x) => x.location,
            TokenTree::Operator(x) => x.location,
            TokenTree::Function(x) => x.location(),
            TokenTree::Paren(x) => x.location(),
            TokenTree::Bracket(x) => x.location(),
            TokenTree::Brace(x) => x.location(),
            TokenTree::BadUrl(x) => x.location,
            TokenTree::BadString(x) => x.location,
            TokenTree::BadOperator(x) => x.location,
        }
    }

    pub open spec fn is_group(self) -> bool {
        self is Function || self is Paren || self is Bracket || self is Brace
    }

    /// The token holds no children: it is not a group, or a group with nothing in it.
    pub open spec fn childless(self) -> bool {
        match self {
            TokenTree::Function(x) => x.children@.len() == 0 && x.trailing@.len() == 0,
            TokenTree::Paren(x) => x.children@.len() == 0 && x.trailing@.len() == 0,
            TokenTree::Bracket(x) => x.children@.len() == 0 && x.trailing@.len() == 0,
            TokenTree::Brace(x) => x.children@.len() == 0 && x.trailing@.len() == 0,
            _ => true,
        }
    }

    /// The content of a function or bracketed group; `None` for other tokens.
    pub fn children(&self) -> (r: Option<&Vec<TokenTree>>)
        ensures
            r is Some <==> self.is_group(),
            self is Function ==> r == Some(&self->Function_0.children),
            self is Paren ==> r == Some(&self->Paren_0.children),
            self is Bracket ==> r == Some(&self->Bracket_0.children),
            self is Brace ==> r == Some(&self->Brace_0.children),
    {
        match self {
            TokenTree::Function(x) => Some(&x.children),
            TokenTree::Paren(x) => Some(&x.children),
            TokenTree::Bracket(x) => Some(&x.children),
            TokenTree::Brace(x) => Some(&x.children),
            _ => None,
        }
    }

    /// Whether the token is the identifier `is`.
    pub fn is_keyword(&self, is: &str) -> (r: bool)
        ensures
            r == (self is Ident && self->Ident_0.content@ == is@),
    {
        match self {
            TokenTree::Ident(x) => crate::text::str_eq(x.content.as_str(), is),
            _ => false,
        }
    }

    pub fn is_ident(&self) -> (r: bool)
        ensures
            r == self is Ident,
    {
        match self {
            TokenTree::Ident(_) => true,
            _ => false,
        }
    }

    pub fn is_function(&self) -> (r: bool)
        ensures
            r == self is Function,
    {
        match self {
            TokenTree::Function(_) => true,
            _ => false,
        }
    }

    pub fn is_ident_or_function(&self) -> (r: bool)
        ensures
            r == (self is Ident || self is Function),
    {
        self.is_ident() || self.is_function()
    }

    pub fn is_colon(&self) -> (r: bool)
        ensures
            r == self is Colon,
    {
        match self {
            TokenTree::Colon(_) => true,
            _ => false,
        }
    }
}

/// A block body, or the semicolon that stands in place of one.
#[derive(Debug)]
pub enum BraceOrSemicolon<T> {
    Brace(Brace<T>),
    Semicolon(Semicolon),
}

impl<T> BraceOrSemicolon<T> {
    pub open spec fn spec_location(&self) -> Location {
        match self {
            BraceOrSemicolon::Brace(x) => x.spec_location(),
            BraceOrSemicolon::Semicolon(x) => x.location,
        }
    }

    pub fn location(&self) -> (r: Location)
        ensures
            r == self.spec_location(),
    {
        match self {
            BraceOrSemicolon::Brace(x) => x.location(),
            BraceOrSemicolon::Semicolon(x) => x.location,
        }
    }
}

} // verus!
