//! The pause/resume state machines.
//!
//! Each pausing construct (comment, ambient/interface block, type alias,
//! cast) owns one small state machine. While suppression is active, the
//! machine owning it is asked, at every commit, whether suppression should
//! continue given the kind of the token just committed. The answer also
//! decides the fate of that very token: a token on which the machine resumes
//! is evaluated against the now-lifted state, so it is written to the output
//! again (subject to the fixed list of kinds that are never emitted) unless
//! it announces a pausing construct of its own, in which case that
//! construct's suppression activates at once and withholds it.

use vstd::prelude::*;

use crate::ast::NodeASTType;

verus! {

/// Common interface of the pause state machines. The behaviour of each
/// machine is fully described by its two associated spec functions:
/// `next_state` gives the machine state after evaluating a token kind, and
/// `still_paused` tells whether suppression continues on that token.
pub trait Pauser: Sized {
    /// The machine state after evaluating a committed token of kind `t`.
    spec fn next_state(self, t: NodeASTType) -> Self;

    /// Whether suppression continues on a committed token of kind `t`.
    spec fn still_paused(self, t: NodeASTType) -> bool;

    /// Evaluates one committed token kind, advancing the machine and
    /// answering whether suppression continues.
    fn is_paused_after_evaluating(&mut self, next_type: NodeASTType) -> (b: bool)
        ensures
            *final(self) == old(self).next_state(next_type),
            b == old(self).still_paused(next_type),
    ;
}

/// The null machine: it never resumes. It stands in for constructs that
/// have no end condition of their own.
pub struct NotPauser {}

impl NotPauser {
    pub fn new() -> NotPauser {
        NotPauser {  }
    }
}

impl Pauser for NotPauser {
    open spec fn next_state(self, t: NodeASTType) -> NotPauser {
        self
    }

    open spec fn still_paused(self, t: NodeASTType) -> bool {
        true
    }

    fn is_paused_after_evaluating(&mut self, next_type: NodeASTType) -> (b: bool) {
        true
    }
}

/// Progress of a comment through its lifetime.
#[derive(Copy, Clone, Debug, PartialEq, Eq, Structural)]
pub enum CommentMode {
    /// No comment is being consumed.
    Inactive,
    /// Inside a line comment; it ends with the line.
    SingleLine,
    /// Inside a block comment; it ends with its closing marker.
    Multiline,
    /// The closing marker of a block comment has just been consumed; the
    /// next token no longer belongs to the comment.
    Ending,
}

/// Suppresses line comments until their end of line and block comments
/// until their closing marker. A line comment releases the machine on the
/// end-of-line token itself; a block comment's closing marker still belongs
/// to the comment, so there the machine resumes on the first token after
/// it.
#[derive(Copy, Clone, Debug, PartialEq, Eq, Structural)]
pub struct CommentPauser {
    pub mode: CommentMode,
}

impl CommentPauser {
    pub fn new() -> (p: CommentPauser)
        ensures
            p.mode == CommentMode::Inactive,
    {
        CommentPauser { mode: CommentMode::Inactive }
    }

    fn reset(&mut self)
        ensures
            final(self).mode == CommentMode::Inactive,
    {
        self.mode = CommentMode::Inactive;
    }
}

impl Pauser for CommentPauser {
    open spec fn next_state(self, t: NodeASTType) -> CommentPauser {
        match self.mode {
            CommentMode::Inactive => {
                if t == NodeASTType::CommentLine {
                    CommentPauser { mode: CommentMode::SingleLine }
                } else if t == NodeASTType::CommentMultilineOpener {
                    CommentPauser { mode: CommentMode::Multiline }
                } else {
                    self
                }
            },
            CommentMode::SingleLine => {
                if t == NodeASTType::EOL {
                    CommentPauser { mode: CommentMode::Inactive }
                } else {
                    self
                }
            },
            CommentMode::Multiline => {
                if t == NodeASTType::CommentMultilineCloser {
                    CommentPauser { mode: CommentMode::Ending }
                } else {
                    self
                }
            },
            CommentMode::Ending => CommentPauser { mode: CommentMode::Inactive },
        }
    }

    open spec fn still_paused(self, t: NodeASTType) -> bool {
        match self.mode {
            CommentMode::Inactive => t == NodeASTType::CommentLine || t
                == NodeASTType::CommentMultilineOpener,
            CommentMode::SingleLine => t != NodeASTType::EOL,
            CommentMode::Multiline => true,
            CommentMode::Ending => false,
        }
    }

    fn is_paused_after_evaluating(&mut self, next_type: NodeASTType) -> (b: bool) {
        match self.mode {
            CommentMode::Inactive => {
                if next_type == NodeASTType::CommentLine {
                    self.mode = CommentMode::SingleLine;
                    true
                } else if next_type == NodeASTType::CommentMultilineOpener {
                    self.mode = CommentMode::Multiline;
                    true
                } else {
                    false
                }
            },
            CommentMode::SingleLine => {
                if next_type == NodeASTType::EOL {
                    self.reset();
                    false
                } else {
                    true
                }
            },
            CommentMode::Multiline => {
                if next_type == NodeASTType::CommentMultilineCloser {
                    self.mode = CommentMode::Ending;
                }
                true
            },
            CommentMode::Ending => {
                self.reset();
                false
            },
        }
    }
}

/// The shape of the right-hand side of a type alias, decided by its first
/// significant token after the assignment operator.
#[derive(Copy, Clone, Debug, PartialEq, Eq, Structural)]
pub enum TypeAliasShape {
    /// No significant right-hand-side token has been seen yet.
    Undecided,
    /// The right-hand side is an object type: `{ ... }`.
    ObjectType,
    /// The right-hand side is an array type: `[ ... ]`.
    ArrayType,
    /// The right-hand side is a bare identifier, just consumed; the machine
    /// resumes on the very next token.
    BareIdentifier,
    /// Any other shape; the machine falls back to resuming on the next
    /// terminator.
    Other,
}

/// Suppresses a type alias definition (`type` keyword) until its right-hand
/// side is complete. Everything before the assignment operator is ignored;
/// the first significant token after it decides the shape and thereby the
/// end condition.
#[derive(Copy, Clone, Debug, PartialEq, Eq, Structural)]
pub struct KeywordTypePauser {
    pub shape: TypeAliasShape,
    pub is_passed_assignment_operator: bool,
    pub opening_bracket_count: usize,
    pub closing_bracket_count: usize,
    pub opening_brace_count: usize,
    pub closing_brace_count: usize,
}

/// Increments a token counter, staying put at the top of its range instead
/// of wrapping.
pub open spec fn saturating_inc(n: usize) -> usize {
    if n == usize::MAX {
        n
    } else {
        (n + 1) as usize
    }
}

impl KeywordTypePauser {
    pub fn new() -> (p: KeywordTypePauser)
        ensures
            p == KeywordTypePauser::initial(),
    {
        KeywordTypePauser {
            shape: TypeAliasShape::Undecided,
            is_passed_assignment_operator: false,
            opening_bracket_count: 0,
            closing_bracket_count: 0,
            opening_brace_count: 0,
            closing_brace_count: 0,
        }
    }

    /// The state the machine starts in and returns to after resuming.
    pub open spec fn initial() -> KeywordTypePauser {
        KeywordTypePauser {
            shape: TypeAliasShape::Undecided,
            is_passed_assignment_operator: false,
            opening_bracket_count: 0,
            closing_bracket_count: 0,
            opening_brace_count: 0,
            closing_brace_count: 0,
        }
    }

    fn reset(&mut self)
        ensures
            *final(self) == KeywordTypePauser::initial(),
    {
        self.shape = TypeAliasShape::Undecided;
        self.is_passed_assignment_operator = false;
        self.opening_bracket_count = 0;
        self.closing_bracket_count = 0;
        self.opening_brace_count = 0;
        self.closing_brace_count = 0;
    }

    /// State update while consuming an object-type right-hand side: count
    /// `{` against `}`.
    pub open spec fn object_next(self, t: NodeASTType) -> KeywordTypePauser {
        let counted = if t == NodeASTType::OpeningBracket {
            KeywordTypePauser {
                opening_bracket_count: saturating_inc(self.opening_bracket_count),
                ..self
            }
        } else if t == NodeASTType::ClosingBracket {
            KeywordTypePauser {
                closing_bracket_count: saturating_inc(self.closing_bracket_count),
                ..self
            }
        } else {
            self
        };
        if !counted.object_paused(t) {
            KeywordTypePauser::initial()
        } else {
            counted
        }
    }

    /// Whether suppression continues, judged after counting `t`: the object
    /// type ends at the first terminator once its brackets are balanced.
    pub open spec fn object_paused(self, t: NodeASTType) -> bool {
        let counted = if t == NodeASTType::OpeningBracket {
            KeywordTypePauser {
                opening_bracket_count: saturating_inc(self.opening_bracket_count),
                ..self
            }
        } else if t == NodeASTType::ClosingBracket {
            KeywordTypePauser {
                closing_bracket_count: saturating_inc(self.closing_bracket_count),
                ..self
            }
        } else {
            self
        };
        !(counted.opening_bracket_count == counted.closing_bracket_count
            && t == NodeASTType::Terminator)
    }

    /// Handles one token of an object-type right-hand side.
    fn evaluate_object_type(&mut self, next_type: NodeASTType) -> (b: bool)
        ensures
            *final(self) == old(self).object_next(next_type),
            b == old(self).object_paused(next_type),
    {
        if next_type == NodeASTType::OpeningBracket {
            if self.opening_bracket_count < usize::MAX {
                self.opening_bracket_count = self.opening_bracket_count + 1;
            }
        }
        if next_type == NodeASTType::ClosingBracket {
            if self.closing_bracket_count < usize::MAX {
                self.closing_bracket_count = self.closing_bracket_count + 1;
            }
        }
        if self.opening_bracket_count == self.closing_bracket_count
            && next_type == NodeASTType::Terminator {
            self.reset();
            false
        } else {
            true
        }
    }

    /// State update while consuming an array-type right-hand side: count `[`
    /// against `]`.
    pub open spec fn array_next(self, t: NodeASTType) -> KeywordTypePauser {
        let counted = if t == NodeASTType::OpeningBrace {
            KeywordTypePauser { opening_brace_count: saturating_inc(self.opening_brace_count), ..self }
        } else if t == NodeASTType::ClosingBrace {
            KeywordTypePauser { closing_brace_count: saturating_inc(self.closing_brace_count), ..self }
        } else {
            self
        };
        if !counted.array_paused(t) {
            KeywordTypePauser::initial()
        } else {
            counted
        }
    }

    /// Whether suppression continues, judged after counting `t`: the array
    /// type ends at a terminator whose braces are balanced; a terminator
    /// reached with unbalanced braces leaves the construct unresolved and
    /// suppression in place.
    pub open spec fn array_paused(self, t: NodeASTType) -> bool {
        let counted = if t == NodeASTType::OpeningBrace {
            KeywordTypePauser { opening_brace_count: saturating_inc(self.opening_brace_count), ..self }
        } else if t == NodeASTType::ClosingBrace {
            KeywordTypePauser { closing_brace_count: saturating_inc(self.closing_brace_count), ..self }
        } else {
            self
        };
        !(counted.opening_brace_count == counted.closing_brace_count
            && t == NodeASTType::Terminator)
    }

    /// Handles one token of an array-type right-hand side.
    fn evaluate_array_type(&mut self, next_type: NodeASTType) -> (b: bool)
        ensures
            *final(self) == old(self).array_next(next_type),
            b == old(self).array_paused(next_type),
    {
        if next_type == NodeASTType::OpeningBrace {
            if self.opening_brace_count < usize::MAX {
                self.opening_brace_count = self.opening_brace_count + 1;
            }
        }
        if next_type == NodeASTType::ClosingBrace {
            if self.closing_brace_count < usize::MAX {
                self.closing_brace_count = self.closing_brace_count + 1;
            }
        }
        if self.opening_brace_count == self.closing_brace_count
            && next_type == NodeASTType::Terminator {
            self.reset();
            false
        } else {
            true
        }
    }
}

impl Pauser for KeywordTypePauser {
    open spec fn next_state(self, t: NodeASTType) -> KeywordTypePauser {
        if !self.is_passed_assignment_operator {
            if t == NodeASTType::AssignmentOperator {
                KeywordTypePauser { is_passed_assignment_operator: true, ..self }
            } else {
                self
            }
        } else {
            match self.shape {
                TypeAliasShape::Undecided => {
                    if t == NodeASTType::WhiteSpace || t == NodeASTType::EOL
                        || t == NodeASTType::AssignmentOperator {
                        self
                    } else if t == NodeASTType::OpeningBracket {
                        KeywordTypePauser { shape: TypeAliasShape::ObjectType, ..self }.object_next(
                            t,
                        )
                    } else if t == NodeASTType::OpeningBrace {
                        KeywordTypePauser { shape: TypeAliasShape::ArrayType, ..self }.array_next(t)
                    } else if t == NodeASTType::Identifier {
                        KeywordTypePauser { shape: TypeAliasShape::BareIdentifier, ..self }
                    } else if t == NodeASTType::Terminator {
                        KeywordTypePauser::initial()
                    } else {
                        KeywordTypePauser { shape: TypeAliasShape::Other, ..self }
                    }
                },
                TypeAliasShape::ObjectType => self.object_next(t),
                TypeAliasShape::ArrayType => self.array_next(t),
                TypeAliasShape::BareIdentifier => KeywordTypePauser::initial(),
                TypeAliasShape::Other => {
                    if t == NodeASTType::Terminator {
                        KeywordTypePauser::initial()
                    } else {
                        self
                    }
                },
            }
        }
    }

    open spec fn still_paused(self, t: NodeASTType) -> bool {
        if !self.is_passed_assignment_operator {
            true
        } else {
            match self.shape {
                TypeAliasShape::Undecided => {
                    if t == NodeASTType::OpeningBracket {
                        KeywordTypePauser { shape: TypeAliasShape::ObjectType, ..self }.object_paused(
                            t,
                        )
                    } else if t == NodeASTType::OpeningBrace {
                        KeywordTypePauser { shape: TypeAliasShape::ArrayType, ..self }.array_paused(
                            t,
                        )
                    } else {
                        t != NodeASTType::Terminator
                    }
                },
                TypeAliasShape::ObjectType => self.object_paused(t),
                TypeAliasShape::ArrayType => self.array_paused(t),
                TypeAliasShape::BareIdentifier => false,
                TypeAliasShape::Other => t != NodeASTType::Terminator,
            }
        }
    }

    fn is_paused_after_evaluating(&mut self, next_type: NodeASTType) -> (b: bool) {
        if !self.is_passed_assignment_operator {
            if next_type == NodeASTType::AssignmentOperator {
                self.is_passed_assignment_operator = true;
            }
            return true;
        }
        match self.shape {
            TypeAliasShape::Undecided => {
                if next_type == NodeASTType::WhiteSpace || next_type == NodeASTType::EOL
                    || next_type == NodeASTType::AssignmentOperator {
                    true
                } else if next_type == NodeASTType::OpeningBracket {
                    self.shape = TypeAliasShape::ObjectType;
                    self.evaluate_object_type(next_type)
                } else if next_type == NodeASTType::OpeningBrace {
                    self.shape = TypeAliasShape::ArrayType;
                    self.evaluate_array_type(next_type)
                } else if next_type == NodeASTType::Identifier {
                    self.shape = TypeAliasShape::BareIdentifier;
                    true
                } else if next_type == NodeASTType::Terminator {
                    self.reset();
                    false
                } else {
                    self.shape = TypeAliasShape::Other;
                    true
                }
            },
            TypeAliasShape::ObjectType => self.evaluate_object_type(next_type),
            TypeAliasShape::ArrayType => self.evaluate_array_type(next_type),
            TypeAliasShape::BareIdentifier => {
                self.reset();
                false
            },
            TypeAliasShape::Other => {
                if next_type == NodeASTType::Terminator {
                    self.reset();
                    false
                } else {
                    true
                }
            },
        }
    }
}

/// Suppresses an ambient declaration (`declare`) or an interface definition
/// (`interface`); the two constructs follow the same grammar, so they share
/// one machine. It counts opening against closing curly brackets and resumes
/// when the count returns to zero after having been positive; a construct
/// without any brackets ends at its terminator instead.
#[derive(Copy, Clone, Debug, PartialEq, Eq, Structural)]
pub struct KeywordDeclarePauser {
    pub opening_bracket_count: usize,
    pub closing_bracket_count: usize,
}

impl KeywordDeclarePauser {
    pub fn new() -> (p: KeywordDeclarePauser)
        ensures
            p == KeywordDeclarePauser::initial(),
    {
        KeywordDeclarePauser { opening_bracket_count: 0, closing_bracket_count: 0 }
    }

    /// The state the machine starts in and returns to after resuming.
    pub open spec fn initial() -> KeywordDeclarePauser {
        KeywordDeclarePauser { opening_bracket_count: 0, closing_bracket_count: 0 }
    }

    fn reset(&mut self)
        ensures
            *final(self) == KeywordDeclarePauser::initial(),
    {
        self.opening_bracket_count = 0;
        self.closing_bracket_count = 0;
    }

    /// The counters after counting a token of kind `t`.
    pub open spec fn counted(self, t: NodeASTType) -> KeywordDeclarePauser {
        if t == NodeASTType::OpeningBracket {
            KeywordDeclarePauser {
                opening_bracket_count: saturating_inc(self.opening_bracket_count),
                ..self
            }
        } else if t == NodeASTType::ClosingBracket {
            KeywordDeclarePauser {
                closing_bracket_count: saturating_inc(self.closing_bracket_count),
                ..self
            }
        } else {
            self
        }
    }
}

impl Pauser for KeywordDeclarePauser {
    open spec fn next_state(self, t: NodeASTType) -> KeywordDeclarePauser {
        if !self.still_paused(t) {
            KeywordDeclarePauser::initial()
        } else {
            self.counted(t)
        }
    }

    open spec fn still_paused(self, t: NodeASTType) -> bool {
        let c = self.counted(t);
        !((c.opening_bracket_count > 0 && c.opening_bracket_count == c.closing_bracket_count) || (
        c.opening_bracket_count == 0 && t == NodeASTType::Terminator))
    }

    fn is_paused_after_evaluating(&mut self, next_type: NodeASTType) -> (b: bool) {
        if next_type == NodeASTType::OpeningBracket {
            if self.opening_bracket_count < usize::MAX {
                self.opening_bracket_count = self.opening_bracket_count + 1;
            }
        } else if next_type == NodeASTType::ClosingBracket {
            if self.closing_bracket_count < usize::MAX {
                self.closing_bracket_count = self.closing_bracket_count + 1;
            }
        }
        if self.opening_bracket_count > 0
            && self.opening_bracket_count == self.closing_bracket_count {
            self.reset();
            return false;
        }
        if self.opening_bracket_count == 0 && next_type == NodeASTType::Terminator {
            self.reset();
            return false;
        }
        true
    }
}

/// Suppresses a cast expression (`as`): everything between the keyword and
/// the end of the statement is withheld; the machine resumes on the
/// terminator itself, which is therefore still emitted.
pub struct KeywordAsPauser {}

impl KeywordAsPauser {
    pub fn new() -> KeywordAsPauser {
        KeywordAsPauser {  }
    }
}

impl Pauser for KeywordAsPauser {
    open spec fn next_state(self, t: NodeASTType) -> KeywordAsPauser {
        self
    }

    open spec fn still_paused(self, t: NodeASTType) -> bool {
        t != NodeASTType::Terminator
    }

    fn is_paused_after_evaluating(&mut self, next_type: NodeASTType) -> (b: bool) {
        next_type != NodeASTType::Terminator
    }
}

} // verus!
