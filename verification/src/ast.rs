//! The token taxonomy: the closed set of token kinds that the classifier can
//! assign, together with the sets of kinds that drive suppression and
//! emission.

use vstd::prelude::*;

verus! {

/// The kind of a committed token. A kind is computed exactly once, at commit
/// time, from the token's final text and the chain of previously committed
/// tokens; it is never recomputed.
#[derive(Copy, Clone, Debug, PartialEq, Eq, Structural)]
pub enum NodeASTType {
    /// Sentinel kind of the root of the token chain.
    Module,
    Unknown,
    EOL,
    /// A variable-declarator keyword: `const`, `let` or `var`.
    VariableDeclarator,
    /// The name introduced directly after a variable-declarator keyword.
    VariableDeclaration,
    /// A `:` that separates a variable or parameter from its type.
    VariableTypeSeperator,
    /// The type text that follows a `VariableTypeSeperator`.
    TypeAnnotation,
    TypeUnionSeperator,
    OrStatement,
    AssignmentOperator,
    KeywordFunction,
    KeywordDeclare,
    KeywordInterface,
    KeywordType,
    KeywordAs,
    /// The name introduced directly after the `function` keyword.
    FunctionDeclaration,
    OpeningParenthesis,
    ClosingParenthesis,
    /// `{`
    OpeningBracket,
    /// `}`
    ClosingBracket,
    /// `[`
    OpeningBrace,
    /// `]`
    ClosingBrace,
    Identifier,
    ExportDeclaration,
    WhiteSpace,
    Terminator,
    CommaSeperator,
    SingleQuote,
    DoubleQuote,
    CommentLine,
    CommentMultilineOpener,
    CommentMultilineCloser,
}

impl NodeASTType {
    /// The display text of this kind.
    pub open spec fn spec_name(self) -> Seq<char> {
        match self {
            NodeASTType::Module => "Module"@,
            NodeASTType::Unknown => "Unknown"@,
            NodeASTType::EOL => "EOL"@,
            NodeASTType::VariableDeclarator => "VariableDeclarator"@,
            NodeASTType::VariableDeclaration => "VariableDeclaration"@,
            NodeASTType::VariableTypeSeperator => "VariableTypeSeperator"@,
            NodeASTType::TypeAnnotation => "TypeAnnotation"@,
            NodeASTType::TypeUnionSeperator => "TypeUnionSeperator"@,
            NodeASTType::OrStatement => "OrStatement"@,
            NodeASTType::AssignmentOperator => "AssignmentOperator"@,
            NodeASTType::KeywordFunction => "KeywordFunction"@,
            NodeASTType::KeywordDeclare => "KeywordDeclare"@,
            NodeASTType::KeywordInterface => "KeywordInterface"@,
            NodeASTType::KeywordType => "KeywordType"@,
            NodeASTType::KeywordAs => "KeywordAs"@,
            NodeASTType::FunctionDeclaration => "FunctionDeclaration"@,
            NodeASTType::OpeningParenthesis => "OpeningParenthesis"@,
            NodeASTType::ClosingParenthesis => "ClosingParenthesis"@,
            NodeASTType::OpeningBracket => "OpeningBracket"@,
            NodeASTType::ClosingBracket => "ClosingBracket"@,
            NodeASTType::OpeningBrace => "OpeningBrace"@,
            NodeASTType::ClosingBrace => "ClosingBrace"@,
            NodeASTType::Identifier => "Identifier"@,
            NodeASTType::ExportDeclaration => "ExportDeclaration"@,
            NodeASTType::WhiteSpace => "WhiteSpace"@,
            NodeASTType::Terminator => "Terminator"@,
            NodeASTType::CommaSeperator => "CommaSeperator"@,
            NodeASTType::SingleQuote => "SingleQuote"@,
            NodeASTType::DoubleQuote => "DoubleQuote"@,
            NodeASTType::CommentLine => "CommentLine"@,
            NodeASTType::CommentMultilineOpener => "CommentMultilineOpener"@,
            NodeASTType::CommentMultilineCloser => "CommentMultilineCloser"@,
        }
    }

    /// Returns the display text of this kind.
    pub fn name(&self) -> (s: &'static str)
        ensures
            s@ == self.spec_name(),
    {
        match self {
            NodeASTType::Module => "Module",
            NodeASTType::Unknown => "Unknown",
            NodeASTType::EOL => "EOL",
            NodeASTType::VariableDeclarator => "VariableDeclarator",
            NodeASTType::VariableDeclaration => "VariableDeclaration",
            NodeASTType::VariableTypeSeperator => "VariableTypeSeperator",
            NodeASTType::TypeAnnotation => "TypeAnnotation",
            NodeASTType::TypeUnionSeperator => "TypeUnionSeperator",
            NodeASTType::OrStatement => "OrStatement",
            NodeASTType::AssignmentOperator => "AssignmentOperator",
            NodeASTType::KeywordFunction => "KeywordFunction",
            NodeASTType::KeywordDeclare => "KeywordDeclare",
            NodeASTType::KeywordInterface => "KeywordInterface",
            NodeASTType::KeywordType => "KeywordType",
            NodeASTType::KeywordAs => "KeywordAs",
            NodeASTType::FunctionDeclaration => "FunctionDeclaration",
            NodeASTType::OpeningParenthesis => "OpeningParenthesis",
            NodeASTType::ClosingParenthesis => "ClosingParenthesis",
            NodeASTType::OpeningBracket => "OpeningBracket",
            NodeASTType::ClosingBracket => "ClosingBracket",
            NodeASTType::OpeningBrace => "OpeningBrace",
            NodeASTType::ClosingBrace => "ClosingBrace",
            NodeASTType::Identifier => "Identifier",
            NodeASTType::ExportDeclaration => "ExportDeclaration",
            NodeASTType::WhiteSpace => "WhiteSpace",
            NodeASTType::Terminator => "Terminator",
            NodeASTType::CommaSeperator => "CommaSeperator",
            NodeASTType::SingleQuote => "SingleQuote",
            NodeASTType::DoubleQuote => "DoubleQuote",
            NodeASTType::CommentLine => "CommentLine",
            NodeASTType::CommentMultilineOpener => "CommentMultilineOpener",
            NodeASTType::CommentMultilineCloser => "CommentMultilineCloser",
        }
    }
}

/// The kinds whose commit activates suppression when no suppression is
/// already active.
pub open spec fn is_pausing_kind(t: NodeASTType) -> bool {
    t == NodeASTType::KeywordDeclare || t == NodeASTType::KeywordType
        || t == NodeASTType::KeywordInterface || t == NodeASTType::CommentLine
        || t == NodeASTType::CommentMultilineOpener || t == NodeASTType::KeywordAs
}

/// The kinds that are never written to the output buffer, even while no
/// suppression is active.
pub open spec fn is_emit_excluded(t: NodeASTType) -> bool {
    t == NodeASTType::WhiteSpace || t == NodeASTType::EOL || t == NodeASTType::TypeAnnotation
        || t == NodeASTType::KeywordInterface || t == NodeASTType::KeywordType
        || t == NodeASTType::KeywordDeclare || t == NodeASTType::VariableTypeSeperator
}

/// The kinds that carry a single trailing space when written to the output
/// buffer. This table is the only formatting logic in the system.
pub open spec fn has_space_seperator(t: NodeASTType) -> bool {
    t == NodeASTType::KeywordFunction || t == NodeASTType::ExportDeclaration
        || t == NodeASTType::VariableDeclarator || t == NodeASTType::VariableDeclaration
        || t == NodeASTType::AssignmentOperator
}

} // verus!
