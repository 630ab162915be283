//! The value-level pieces of the SQL syntax tree that the statement
//! forms are built from, and the token cursor they are parsed from.

use vstd::prelude::*;

verus! {

/// An identifier, already normalised by the tokenizer.
#[derive(Debug)]
pub struct Ident {
    pub value: String,
}

impl Clone for Ident {
    /// A cloned identifier is the same identifier.
    fn clone(&self) -> (r: Ident)
        ensures
            r == *self,
    {
        Ident { value: self.value.clone() }
    }
}

impl Ident {
    pub fn new(value: String) -> (r: Ident)
        ensures
            r.value@ == value@,
    {
        Ident { value }
    }
}

/// A possibly qualified name: one or more identifiers.
#[derive(Clone, Debug)]
pub struct ObjectName(pub Vec<Ident>);

/// The dotted form of a name: its identifiers joined by `.`.
pub open spec fn name_key(idents: Seq<Ident>) -> Seq<char>
    decreases idents.len(),
{
    if idents.len() == 0 {
        Seq::empty()
    } else if idents.len() == 1 {
        idents[0].value@
    } else {
        name_key(idents.drop_last()) + seq!['.'] + idents.last().value@
    }
}

impl ObjectName {
    /// Renders the name in its dotted form.
    pub fn real_value(&self) -> (r: String)
        ensures
            r@ == name_key(self.0@),
    {
        let mut r = String::new();
        let mut i: usize = 0;
        proof {
            assert(self.0@.take(0) =~= Seq::<Ident>::empty());
        }
        while i < self.0.len()
            invariant
                i <= self.0@.len(),
                r@ == name_key(self.0@.take(i as int)),
            decreases self.0@.len() - i,
        {
            proof {
                assert(self.0@.take(i + 1).drop_last() =~= self.0@.take(i as int));
                assert(self.0@.take(i + 1).last() == self.0@[i as int]);
            }
            if i > 0 {
                r.append(".");
                proof {
                    reveal_strlit(".");
                    assert("."@ =~= seq!['.']);
                }
            }
            r.append(self.0[i].value.as_str());
            i = i + 1;
        }
        proof {
            assert(self.0@.take(self.0@.len() as int) =~= self.0@);
        }
        r
    }
}

/// A literal value in an option list.
#[derive(Debug)]
pub enum Value {
    SingleQuotedString(String),
    Number(String),
    Boolean(bool),
    Null,
}

impl Clone for Value {
    /// A cloned literal holds the same value.
    fn clone(&self) -> (r: Value)
        ensures
            r == *self,
    {
        match self {
            Value::SingleQuotedString(s) => Value::SingleQuotedString(s.clone()),
            Value::Number(s) => Value::Number(s.clone()),
            Value::Boolean(b) => Value::Boolean(*b),
            Value::Null => Value::Null,
        }
    }
}

/// One `key = value` pair of a WITH list or a row-format option list.
#[derive(Clone, Debug)]
pub struct SqlOption {
    pub name: ObjectName,
    pub value: Value,
}

/// A column declaration of a CREATE statement.
#[derive(Clone, Debug)]
pub struct ColumnDef {
    pub name: Ident,
    pub data_type: String,
}

/// A table constraint of a CREATE statement.
#[derive(Clone, Debug)]
pub enum TableConstraint {
    Unique { columns: Vec<Ident>, is_primary: bool },
}

/// A watermark declaration of a CREATE SOURCE statement.
#[derive(Clone, Debug)]
pub struct SourceWatermark {
    pub column: Ident,
    pub expr: String,
}

/// The selecting query of a CREATE SINK ... AS statement, carried as
/// text.
#[derive(Clone, Debug)]
pub struct Query {
    pub sql: String,
}

/// When a sink emits its rows.
#[derive(Clone, Copy, Debug, PartialEq, Eq, Structural)]
pub enum EmitMode {
    Immediately,
    OnWindowClose,
}

/// What kind of object a DROP statement drops.
#[derive(Clone, Copy, Debug, PartialEq, Eq, Structural)]
pub enum ObjectType {
    Table,
    View,
    Index,
    Schema,
    Source,
    Sink,
    Database,
    User,
    Connection,
}

/// An error raised while parsing.
#[derive(Clone, Debug)]
pub enum ParserError {
    TokenizerError(String),
    ParserError(String),
}

/// One token of the statement text.
#[derive(Debug)]
pub enum Token {
    Word(String),
    SingleQuotedString(String),
    Number(String),
    Comma,
    LParen,
    RParen,
    Eq,
    Period,
    SemiColon,
    EOF,
}

impl Clone for Token {
    /// A cloned token is the same token.
    fn clone(&self) -> (r: Token)
        ensures
            r == *self,
    {
        match self {
            Token::Word(s) => Token::Word(s.clone()),
            Token::SingleQuotedString(s) => Token::SingleQuotedString(s.clone()),
            Token::Number(s) => Token::Number(s.clone()),
            Token::Comma => Token::Comma,
            Token::LParen => Token::LParen,
            Token::RParen => Token::RParen,
            Token::Eq => Token::Eq,
            Token::Period => Token::Period,
            Token::SemiColon => Token::SemiColon,
            Token::EOF => Token::EOF,
        }
    }
}

/// A cursor over the token stream of one statement.
#[derive(Clone, Debug)]
pub struct Parser {
    pub tokens: Vec<Token>,
    pub index: usize,
}

impl Parser {
    pub open spec fn wf(self) -> bool {
        self.index <= self.tokens@.len()
    }

    pub fn new(tokens: Vec<Token>) -> (r: Parser)
        ensures
            r.tokens@ == tokens@,
            r.index == 0,
            r.wf(),
    {
        Parser { tokens, index: 0 }
    }

    /// The next token, or EOF past the end. Does not advance.
    pub fn peek_token(&self) -> (r: Token)
        ensures
            self.index < self.tokens@.len() ==> r == self.tokens@[self.index as int],
            self.index >= self.tokens@.len() ==> r is EOF,
    {
        if self.index < self.tokens.len() {
            self.tokens[self.index].clone()
        } else {
            Token::EOF
        }
    }

    /// Advances past the next token and returns it.
    pub fn next_token(&mut self) -> (r: Token)
        requires
            old(self).wf(),
        ensures
            final(self).tokens@ == old(self).tokens@,
            final(self).wf(),
            old(self).index < old(self).tokens@.len() ==> (r == old(self).tokens@[old(
                self,
            ).index as int] && final(self).index == old(self).index + 1),
            old(self).index >= old(self).tokens@.len() ==> (r is EOF && final(self).index == old(
                self,
            ).index),
    {
        if self.index < self.tokens.len() {
            let t = self.tokens[self.index].clone();
            self.index = self.index + 1;
            t
        } else {
            Token::EOF
        }
    }

    /// Consumes the next token when it is the given word; otherwise
    /// leaves the cursor alone.
    pub fn parse_keyword(&mut self, kw: &str) -> (r: bool)
        requires
            old(self).wf(),
        ensures
            final(self).tokens@ == old(self).tokens@,
            final(self).wf(),
            r ==> ({
                &&& old(self).index < old(self).tokens@.len()
                &&& (old(self).tokens@[old(self).index as int] matches Token::Word(w) && w@ == kw@)
                &&& final(self).index == old(self).index + 1
            }),
            !r ==> final(self).index == old(self).index,
    {
        if self.index < self.tokens.len() {
            let matched = match &self.tokens[self.index] {
                Token::Word(w) => {
                    let kws = String::from_str(kw);
                    *w == kws
                },
                _ => false,
            };
            if matched {
                self.index = self.index + 1;
                return true;
            }
        }
        false
    }

    /// Consumes a string literal, or reports what stood in its place.
    pub fn parse_literal_string(&mut self) -> (r: Result<String, ParserError>)
        requires
            old(self).wf(),
        ensures
            final(self).tokens@ == old(self).tokens@,
            final(self).wf(),
            match r {
                Result::Ok(s) => ({
                    &&& old(self).index < old(self).tokens@.len()
                    &&& old(self).tokens@[old(self).index as int] matches Token::SingleQuotedString(
                        v,
                    ) && s@ == v@
                    &&& final(self).index == old(self).index + 1
                }),
                Result::Err(_) => ({
                    &&& !(old(self).index < old(self).tokens@.len() && old(self).tokens@[old(
                        self,
                    ).index as int] is SingleQuotedString)
                    &&& final(self).index == old(self).index
                }),
            },
    {
        if self.index < self.tokens.len() {
            let got = match &self.tokens[self.index] {
                Token::SingleQuotedString(s) => Option::Some(s.clone()),
                _ => Option::None,
            };
            match got {
                Option::Some(s) => {
                    self.index = self.index + 1;
                    return Result::Ok(s);
                },
                Option::None => {},
            }
        }
        Result::Err(ParserError::ParserError(String::from_str("expected literal string")))
    }
}

} // verus!
