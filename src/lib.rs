//! A parser for Hive `CREATE TABLE` statements.
//!
//! The statement text is read into a [`CreateTableStatement`] whose string
//! fields borrow from the text. The grammar is written out as spec functions
//! over the characters of the statement (see [`lexer`] and
//! [`create_table`]), and the executable parser is proved to compute them.
use vstd::prelude::*;

pub mod create_table;
pub mod laws;
pub mod lexer;
pub mod select;

pub use create_table::{
    clean_parsed_string, parse_hive_create_table, CreateTableStatement, PropertyPair, RowFormat,
    StoredAs, TableColumn,
};
pub use select::SelectStatement;

verus! {

/// One token of the grammar.
#[derive(Debug, Clone, Copy, PartialEq, Eq, Structural)]
pub enum Token {
    Create,
    External,
    Table,
    Identifier,
    DataType,
    StringLiteral,
    Comment,
    Comma,
    OpenParen,
    CloseParen,
    Equals,
    Format,
    As,
    OutputFormat,
    By,
    SerdeProperties,
}

/// The tokens that the grammar would have accepted where a parse failed.
/// Each variant names the whole set; [`Expected::tokens`] lists it.
#[derive(Debug, Clone, Copy, PartialEq, Eq, Structural)]
pub enum Expected {
    Create,
    ExternalOrTable,
    Table,
    Identifier,
    IdentifierOrCloseParen,
    DataType,
    CommentCommaOrCloseParen,
    CommaOrCloseParen,
    StringLiteral,
    StringLiteralOrCloseParen,
    Equals,
    OpenParen,
    Format,
    As,
    OutputFormat,
    By,
    SerdeProperties,
}

pub open spec fn expected_tokens(e: Expected) -> Seq<Token> {
    match e {
        Expected::Create => seq![Token::Create],
        Expected::ExternalOrTable => seq![Token::External, Token::Table],
        Expected::Table => seq![Token::Table],
        Expected::Identifier => seq![Token::Identifier],
        Expected::IdentifierOrCloseParen => seq![Token::Identifier, Token::CloseParen],
        Expected::DataType => seq![Token::DataType],
        Expected::CommentCommaOrCloseParen => seq![Token::Comment, Token::Comma, Token::CloseParen],
        Expected::CommaOrCloseParen => seq![Token::Comma, Token::CloseParen],
        Expected::StringLiteral => seq![Token::StringLiteral],
        Expected::StringLiteralOrCloseParen => seq![Token::StringLiteral, Token::CloseParen],
        Expected::Equals => seq![Token::Equals],
        Expected::OpenParen => seq![Token::OpenParen],
        Expected::Format => seq![Token::Format],
        Expected::As => seq![Token::As],
        Expected::OutputFormat => seq![Token::OutputFormat],
        Expected::By => seq![Token::By],
        Expected::SerdeProperties => seq![Token::SerdeProperties],
    }
}

impl Expected {
    /// The set of tokens, each once.
    pub fn tokens(&self) -> (r: Vec<Token>)
        ensures
            r@ == expected_tokens(*self),
    {
        let r = match self {
            Expected::Create => vec![Token::Create],
            Expected::ExternalOrTable => vec![Token::External, Token::Table],
            Expected::Table => vec![Token::Table],
            Expected::Identifier => vec![Token::Identifier],
            Expected::IdentifierOrCloseParen => vec![Token::Identifier, Token::CloseParen],
            Expected::DataType => vec![Token::DataType],
            Expected::CommentCommaOrCloseParen => vec![Token::Comment, Token::Comma, Token::CloseParen],
            Expected::CommaOrCloseParen => vec![Token::Comma, Token::CloseParen],
            Expected::StringLiteral => vec![Token::StringLiteral],
            Expected::StringLiteralOrCloseParen => vec![Token::StringLiteral, Token::CloseParen],
            Expected::Equals => vec![Token::Equals],
            Expected::OpenParen => vec![Token::OpenParen],
            Expected::Format => vec![Token::Format],
            Expected::As => vec![Token::As],
            Expected::OutputFormat => vec![Token::OutputFormat],
            Expected::By => vec![Token::By],
            Expected::SerdeProperties => vec![Token::SerdeProperties],
        };
        assert(r@ =~= expected_tokens(*self));
        r
    }
}

/// A clause whose form the grammar recognises but the model does not hold.
#[derive(Debug, Clone, Copy, PartialEq, Eq, Structural)]
pub enum Construct {
    /// A `ROW FORMAT` other than `SERDE '...'`.
    RowFormat,
    /// A `STORED AS` other than `INPUTFORMAT '...' OUTPUTFORMAT '...'`.
    StorageFormat,
}

/// Why a statement could not be read. Positions count characters from the
/// start of the statement.
#[derive(Debug, Clone, Copy, PartialEq, Eq, Structural)]
pub enum Error {
    ParseError { position: usize, expected: Expected },
    UnsupportedConstruct { position: usize, construct: Construct },
}

/// A statement of the DDL.
pub enum Ddl<'a> {
    CreateTable(CreateTableStatement<'a>),
    Select(SelectStatement<'a>),
}

} // verus!
