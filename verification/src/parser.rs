//! The tokenizer/emitter driver.
//!
//! [`parser`] consumes its input one character at a time, accumulates the
//! current pending token, decides token boundaries, classifies each finished
//! token from its lexical context, feeds the classified kind into the active
//! pause machine (if any), and appends the token to the output buffer when
//! not suppressed. The whole behaviour is captured by the spec-level machine
//! (`step_char`, `run_from`, `spec_transform`) against which every method of
//! [`Tree`] is verified.

use vstd::prelude::*;
use vstd::string::*;

use crate::ast::NodeASTType;
use crate::ast::has_space_seperator;
use crate::ast::is_emit_excluded;
use crate::ast::is_pausing_kind;
use crate::pauser::CommentPauser;
use crate::pauser::KeywordAsPauser;
use crate::pauser::KeywordDeclarePauser;
use crate::pauser::KeywordTypePauser;
use crate::pauser::Pauser;

verus! {

/// The mathematical content of a committed token: its text, its kind, and
/// the position of its lexical parent in the chain.
pub struct NodeModel {
    pub value: Seq<char>,
    pub node_type: NodeASTType,
    pub parent: int,
}

/// A committed token. Once committed it is immutable; its `parent` field is
/// the index, in the token chain, of the token it was lexically nested under
/// at commit time (the chain tail of that moment).
pub struct Node {
    pub value: Vec<char>,
    pub node_type: NodeASTType,
    pub parent: usize,
}

impl View for Node {
    type V = NodeModel;

    open spec fn view(&self) -> NodeModel {
        NodeModel { value: self.value@, node_type: self.node_type, parent: self.parent as int }
    }
}

/// The models of a chain of committed tokens.
pub open spec fn chain_view(nodes: Seq<Node>) -> Seq<NodeModel> {
    nodes.map_values(|n: Node| n@)
}

/// Well-formedness of a token chain: it starts at the sentinel root token,
/// and every later token's parent was committed strictly before it. The
/// backward parent walk therefore always terminates.
pub open spec fn wf_chain(ns: Seq<NodeModel>) -> bool {
    &&& ns.len() >= 1
    &&& ns[0].node_type == NodeASTType::Module
    &&& forall|i: int| 1 <= i < ns.len() ==> 0 <= #[trigger] ns[i].parent < i
}

/// The kind of the chain tail: the lexical parent that the next committed
/// token will receive.
pub open spec fn tail_kind(ns: Seq<NodeModel>) -> NodeASTType {
    if ns.len() > 0 {
        ns[ns.len() - 1].node_type
    } else {
        NodeASTType::Module
    }
}

/// The kind of the nearest meaningful ancestor of the token at position `i`:
/// the first ancestor, walking backward through the parent links, that is
/// not whitespace or an end of line; the sentinel root if there is none.
pub open spec fn spec_ancestor_kind(ns: Seq<NodeModel>, i: int) -> NodeASTType
    decreases i,
{
    if 0 < i < ns.len() && 0 <= ns[i].parent < i {
        let p = ns[i].parent;
        if ns[p].node_type == NodeASTType::WhiteSpace || ns[p].node_type == NodeASTType::EOL {
            spec_ancestor_kind(ns, p)
        } else {
            ns[p].node_type
        }
    } else {
        NodeASTType::Module
    }
}

/// Classification of a `:` token: it separates a name from its type exactly
/// when it follows a variable declaration, a parameter name (an identifier
/// nested directly under an opening parenthesis), or a closing parenthesis
/// (a return type); anywhere else its role is unknown.
pub open spec fn classify_colon(ns: Seq<NodeModel>) -> NodeASTType {
    let parent = tail_kind(ns);
    if parent == NodeASTType::VariableDeclaration {
        NodeASTType::VariableTypeSeperator
    } else if parent == NodeASTType::Identifier && spec_ancestor_kind(ns, ns.len() - 1)
        == NodeASTType::OpeningParenthesis {
        NodeASTType::VariableTypeSeperator
    } else if parent == NodeASTType::ClosingParenthesis {
        NodeASTType::VariableTypeSeperator
    } else {
        NodeASTType::Unknown
    }
}

/// Classification of a token that matches no fixed text: its kind is derived
/// from its lexical parent, the chain tail at commit time.
pub open spec fn classify_fallback(ns: Seq<NodeModel>) -> NodeASTType {
    let parent = tail_kind(ns);
    if parent == NodeASTType::KeywordFunction {
        NodeASTType::FunctionDeclaration
    } else if parent == NodeASTType::VariableTypeSeperator {
        NodeASTType::TypeAnnotation
    } else if parent == NodeASTType::VariableDeclarator {
        NodeASTType::VariableDeclaration
    } else {
        NodeASTType::Identifier
    }
}

/// The classifier: a pure function from a token's text and the chain as it
/// stood before the token was appended to the token's kind. Fixed keyword
/// and punctuation texts have fixed kinds; `:` and all remaining texts are
/// classified from at most two ancestors.
pub open spec fn spec_classify(value: Seq<char>, ns: Seq<NodeModel>) -> NodeASTType {
    if value == "declare"@ {
        NodeASTType::KeywordDeclare
    } else if value == "export"@ {
        NodeASTType::ExportDeclaration
    } else if value == "const"@ || value == "let"@ || value == "var"@ {
        NodeASTType::VariableDeclarator
    } else if value == "function"@ {
        NodeASTType::KeywordFunction
    } else if value == "as"@ {
        NodeASTType::KeywordAs
    } else if value == "interface"@ {
        NodeASTType::KeywordInterface
    } else if value == "type"@ {
        NodeASTType::KeywordType
    } else if value == seq!['{'] {
        NodeASTType::OpeningBracket
    } else if value == seq![','] {
        NodeASTType::CommaSeperator
    } else if value == seq!['}'] {
        NodeASTType::ClosingBracket
    } else if value == seq!['('] {
        NodeASTType::OpeningParenthesis
    } else if value == seq![')'] {
        NodeASTType::ClosingParenthesis
    } else if value == seq!['['] {
        NodeASTType::OpeningBrace
    } else if value == seq!['|', '|'] {
        NodeASTType::OrStatement
    } else if value == seq!['|'] {
        NodeASTType::TypeUnionSeperator
    } else if value == seq![']'] {
        NodeASTType::ClosingBrace
    } else if value == seq![';'] {
        NodeASTType::Terminator
    } else if value == seq!['/', '/'] {
        NodeASTType::CommentLine
    } else if value == seq!['/', '*'] {
        NodeASTType::CommentMultilineOpener
    } else if value == seq!['*', '/'] {
        NodeASTType::CommentMultilineCloser
    } else if value == seq!['\''] {
        NodeASTType::SingleQuote
    } else if value == seq!['"'] {
        NodeASTType::DoubleQuote
    } else if value == seq![':'] {
        classify_colon(ns)
    } else if value == seq!['\n'] {
        NodeASTType::EOL
    } else if value.len() == 0 {
        NodeASTType::WhiteSpace
    } else if value == seq!['='] {
        NodeASTType::AssignmentOperator
    } else {
        classify_fallback(ns)
    }
}

/// Compares a token's characters against a string.
fn token_is(v: &Vec<char>, s: &str) -> (b: bool)
    ensures
        b == (v@ == s@),
{
    let n = s.unicode_len();
    if v.len() != n {
        proof {
            assert(v@ != s@) by {
                if v@ == s@ {
                    assert(v@.len() == s@.len());
                }
            }
        }
        return false;
    }
    let mut i: usize = 0;
    while i < n
        invariant
            n == v@.len() == s@.len(),
            0 <= i <= n,
            forall|k: int| 0 <= k < i ==> v@[k] == s@[k],
        decreases n - i,
    {
        if v[i] != s.get_char(i) {
            proof {
                assert(v@ != s@) by {
                    if v@ == s@ {
                        assert(v@[i as int] == s@[i as int]);
                    }
                }
            }
            return false;
        }
        i = i + 1;
    }
    proof {
        assert(v@ =~= s@);
    }
    true
}

/// Tests whether a token is exactly one given character.
fn token_is_char(v: &Vec<char>, c: char) -> (b: bool)
    ensures
        b == (v@ == seq![c]),
{
    let r = v.len() == 1 && v[0] == c;
    proof {
        if r {
            assert(v@ =~= seq![c]);
        } else {
            if v@ == seq![c] {
                assert(v@.len() == 1 && v@[0] == c);
            }
        }
    }
    r
}

/// Tests whether a token is exactly two given characters.
fn token_is_pair(v: &Vec<char>, c0: char, c1: char) -> (b: bool)
    ensures
        b == (v@ == seq![c0, c1]),
{
    let r = v.len() == 2 && v[0] == c0 && v[1] == c1;
    proof {
        if r {
            assert(v@ =~= seq![c0, c1]);
        } else {
            if v@ == seq![c0, c1] {
                assert(v@.len() == 2 && v@[0] == c0 && v@[1] == c1);
            }
        }
    }
    r
}

/// The kind of the nearest meaningful ancestor of the token at index `i`,
/// computed by the backward walk that [`spec_ancestor_kind`] describes.
fn ancestor_kind(nodes: &Vec<Node>, i: usize) -> (k: NodeASTType)
    requires
        wf_chain(chain_view(nodes@)),
        i < nodes@.len(),
    ensures
        k == spec_ancestor_kind(chain_view(nodes@), i as int),
    decreases i,
{
    if i == 0 {
        NodeASTType::Module
    } else {
        let p = nodes[i].parent;
        proof {
            assert(chain_view(nodes@)[i as int] == nodes@[i as int]@);
            assert(chain_view(nodes@)[p as int] == nodes@[p as int]@);
        }
        let pk = nodes[p].node_type;
        if pk == NodeASTType::WhiteSpace || pk == NodeASTType::EOL {
            ancestor_kind(nodes, p)
        } else {
            pk
        }
    }
}

/// Runs the classifier on a finished token text against a token chain.
fn classify_token(value: &Vec<char>, nodes: &Vec<Node>) -> (t: NodeASTType)
    requires
        wf_chain(chain_view(nodes@)),
    ensures
        t == spec_classify(value@, chain_view(nodes@)),
{
    proof {
        assert(chain_view(nodes@).len() == nodes@.len());
        assert(chain_view(nodes@)[nodes@.len() - 1] == nodes@[nodes@.len() - 1]@);
    }
    if token_is(value, "declare") {
        NodeASTType::KeywordDeclare
    } else if token_is(value, "export") {
        NodeASTType::ExportDeclaration
    } else if token_is(value, "const") || token_is(value, "let") || token_is(value, "var") {
        NodeASTType::VariableDeclarator
    } else if token_is(value, "function") {
        NodeASTType::KeywordFunction
    } else if token_is(value, "as") {
        NodeASTType::KeywordAs
    } else if token_is(value, "interface") {
        NodeASTType::KeywordInterface
    } else if token_is(value, "type") {
        NodeASTType::KeywordType
    } else if token_is_char(value, '{') {
        NodeASTType::OpeningBracket
    } else if token_is_char(value, ',') {
        NodeASTType::CommaSeperator
    } else if token_is_char(value, '}') {
        NodeASTType::ClosingBracket
    } else if token_is_char(value, '(') {
        NodeASTType::OpeningParenthesis
    } else if token_is_char(value, ')') {
        NodeASTType::ClosingParenthesis
    } else if token_is_char(value, '[') {
        NodeASTType::OpeningBrace
    } else if token_is_pair(value, '|', '|') {
        NodeASTType::OrStatement
    } else if token_is_char(value, '|') {
        NodeASTType::TypeUnionSeperator
    } else if token_is_char(value, ']') {
        NodeASTType::ClosingBrace
    } else if token_is_char(value, ';') {
        NodeASTType::Terminator
    } else if token_is_pair(value, '/', '/') {
        NodeASTType::CommentLine
    } else if token_is_pair(value, '/', '*') {
        NodeASTType::CommentMultilineOpener
    } else if token_is_pair(value, '*', '/') {
        NodeASTType::CommentMultilineCloser
    } else if token_is_char(value, '\'') {
        NodeASTType::SingleQuote
    } else if token_is_char(value, '"') {
        NodeASTType::DoubleQuote
    } else if token_is_char(value, ':') {
        let parent = nodes[nodes.len() - 1].node_type;
        if parent == NodeASTType::VariableDeclaration {
            NodeASTType::VariableTypeSeperator
        } else if parent == NodeASTType::Identifier && ancestor_kind(nodes, nodes.len() - 1)
            == NodeASTType::OpeningParenthesis {
            NodeASTType::VariableTypeSeperator
        } else if parent == NodeASTType::ClosingParenthesis {
            NodeASTType::VariableTypeSeperator
        } else {
            NodeASTType::Unknown
        }
    } else if token_is_char(value, '\n') {
        NodeASTType::EOL
    } else if value.len() == 0 {
        NodeASTType::WhiteSpace
    } else if token_is_char(value, '=') {
        NodeASTType::AssignmentOperator
    } else {
        let parent = nodes[nodes.len() - 1].node_type;
        if parent == NodeASTType::KeywordFunction {
            NodeASTType::FunctionDeclaration
        } else if parent == NodeASTType::VariableTypeSeperator {
            NodeASTType::TypeAnnotation
        } else if parent == NodeASTType::VariableDeclarator {
            NodeASTType::VariableDeclaration
        } else {
            NodeASTType::Identifier
        }
    }
}

/// The Unicode white-space characters: exactly the characters that vanish
/// when a text is trimmed.
pub open spec fn blank_char(c: char) -> bool {
    c == ' ' || c == '\t' || c == '\n' || c == '\r' || c == '\u{0b}' || c == '\u{0c}' || c
        == '\u{85}' || c == '\u{a0}' || c == '\u{1680}' || ('\u{2000}' <= c && c <= '\u{200a}') || c
        == '\u{2028}' || c == '\u{2029}' || c == '\u{202f}' || c == '\u{205f}' || c == '\u{3000}'
}

/// A text is blank when trimming it leaves nothing. Blank tokens are never
/// kept in the token chain.
pub open spec fn blank_text(s: Seq<char>) -> bool {
    forall|i: int| 0 <= i < s.len() ==> blank_char(#[trigger] s[i])
}

fn is_blank_char(c: char) -> (b: bool)
    ensures
        b == blank_char(c),
{
    c == ' ' || c == '\t' || c == '\n' || c == '\r' || c == '\u{0b}' || c == '\u{0c}' || c
        == '\u{85}' || c == '\u{a0}' || c == '\u{1680}' || ('\u{2000}' <= c && c <= '\u{200a}') || c
        == '\u{2028}' || c == '\u{2029}' || c == '\u{202f}' || c == '\u{205f}' || c == '\u{3000}'
}

fn is_blank_token(v: &Vec<char>) -> (b: bool)
    ensures
        b == blank_text(v@),
{
    let mut i: usize = 0;
    while i < v.len()
        invariant
            0 <= i <= v@.len(),
            forall|k: int| 0 <= k < i ==> blank_char(#[trigger] v@[k]),
        decreases v@.len() - i,
    {
        if !is_blank_char(v[i]) {
            return false;
        }
        i = i + 1;
    }
    true
}

/// Copies a token text.
fn copy_chars(v: &Vec<char>) -> (r: Vec<char>)
    ensures
        r@ == v@,
{
    let mut r: Vec<char> = Vec::new();
    let mut i: usize = 0;
    while i < v.len()
        invariant
            0 <= i <= v@.len(),
            r@ == v@.take(i as int),
        decreases v@.len() - i,
    {
        r.push(v[i]);
        proof {
            assert(r@ =~= v@.take(i + 1));
        }
        i = i + 1;
    }
    proof {
        assert(r@ =~= v@);
    }
    r
}

/// Appends a token text to the output buffer.
fn append_chars(out: &mut Vec<char>, src: &Vec<char>)
    ensures
        final(out)@ == old(out)@ + src@,
{
    let mut i: usize = 0;
    while i < src.len()
        invariant
            0 <= i <= src@.len(),
            out@ == old(out)@ + src@.take(i as int),
        decreases src@.len() - i,
    {
        out.push(src[i]);
        proof {
            assert(out@ =~= old(out)@ + src@.take(i + 1));
        }
        i = i + 1;
    }
    proof {
        assert(out@ =~= old(out)@ + src@);
    }
}

/// Converts a string to the character sequence the machine runs on.
fn str_to_chars(s: &str) -> (v: Vec<char>)
    ensures
        v@ == s@,
{
    let n = s.unicode_len();
    let mut v: Vec<char> = Vec::new();
    let mut i: usize = 0;
    while i < n
        invariant
            n == s@.len(),
            0 <= i <= n,
            v@ == s@.take(i as int),
        decreases n - i,
    {
        v.push(s.get_char(i));
        proof {
            assert(v@ =~= s@.take(i + 1));
        }
        i = i + 1;
    }
    proof {
        assert(v@ =~= s@);
    }
    v
}

/// The trailing text emitted immediately after a token of the given kind.
pub open spec fn spec_seperator(t: NodeASTType) -> Seq<char> {
    if has_space_seperator(t) {
        seq![' ']
    } else {
        Seq::empty()
    }
}

/// The separator table: the fixed trailing string written after each emitted
/// token of the given kind.
pub fn seperator(node_type: NodeASTType) -> (r: &'static str)
    ensures
        r@ == spec_seperator(node_type),
{
    match node_type {
        NodeASTType::KeywordFunction | NodeASTType::ExportDeclaration
        | NodeASTType::VariableDeclarator | NodeASTType::VariableDeclaration
        | NodeASTType::AssignmentOperator => {
            let r = " ";
            proof {
                reveal_strlit(" ");
                assert(r@ =~= seq![' ']);
            }
            r
        },
        _ => {
            let r = "";
            proof {
                reveal_strlit("");
                assert(r@ =~= Seq::<char>::empty());
            }
            r
        },
    }
}

/// The full state of one transform invocation, at the mathematical level:
/// the output so far, the pending token, the committed token chain, and the
/// suppression state. The cast machine carries no state of its own, so only
/// the other three machines appear.
#[verifier::ext_equal]
pub struct TreeModel {
    pub output: Seq<char>,
    pub current: Seq<char>,
    pub nodes: Seq<NodeModel>,
    pub is_paused: bool,
    pub paused_kind: NodeASTType,
    pub declare_pauser: KeywordDeclarePauser,
    pub type_pauser: KeywordTypePauser,
    pub comment_pauser: CommentPauser,
}

impl TreeModel {
    /// Structural health of the state: the token chain is well formed.
    pub open spec fn wf(self) -> bool {
        wf_chain(self.nodes)
    }
}

/// The state a fresh transform starts from: everything empty, suppression
/// inactive, and the chain holding only the sentinel root token.
pub open spec fn init_model() -> TreeModel {
    TreeModel {
        output: Seq::empty(),
        current: Seq::empty(),
        nodes: seq![NodeModel { value: Seq::empty(), node_type: NodeASTType::Module, parent: 0 }],
        is_paused: false,
        paused_kind: NodeASTType::Unknown,
        declare_pauser: KeywordDeclarePauser::initial(),
        type_pauser: KeywordTypePauser::initial(),
        comment_pauser: CommentPauser { mode: crate::pauser::CommentMode::Inactive },
    }
}

/// Suppression activates for a construct of kind `t`, with the machine that
/// will own it reset to its starting state.
pub open spec fn step_pause(m: TreeModel, t: NodeASTType) -> TreeModel {
    let base = TreeModel { is_paused: true, paused_kind: t, ..m };
    if t == NodeASTType::KeywordType {
        TreeModel { type_pauser: KeywordTypePauser::initial(), ..base }
    } else if t == NodeASTType::KeywordDeclare || t == NodeASTType::KeywordInterface {
        TreeModel { declare_pauser: KeywordDeclarePauser::initial(), ..base }
    } else if t == NodeASTType::CommentLine || t == NodeASTType::CommentMultilineOpener {
        TreeModel { comment_pauser: CommentPauser { mode: crate::pauser::CommentMode::Inactive }, ..base }
    } else {
        base
    }
}

/// While suppression is active, the owning machine evaluates the kind of the
/// token just committed and decides whether suppression continues.
pub open spec fn step_resume(m: TreeModel, t: NodeASTType) -> TreeModel {
    if m.is_paused {
        match m.paused_kind {
            NodeASTType::KeywordType => TreeModel {
                is_paused: m.type_pauser.still_paused(t),
                type_pauser: m.type_pauser.next_state(t),
                ..m
            },
            NodeASTType::KeywordInterface | NodeASTType::KeywordDeclare => TreeModel {
                is_paused: m.declare_pauser.still_paused(t),
                declare_pauser: m.declare_pauser.next_state(t),
                ..m
            },
            NodeASTType::KeywordAs => TreeModel {
                is_paused: t != NodeASTType::Terminator,
                ..m
            },
            NodeASTType::CommentLine | NodeASTType::CommentMultilineOpener => TreeModel {
                is_paused: m.comment_pauser.still_paused(t),
                comment_pauser: m.comment_pauser.next_state(t),
                ..m
            },
            _ => m,
        }
    } else {
        m
    }
}

/// The suppression update of one commit. While suppressed, the owning
/// machine evaluates the committed kind and may lift the suppression; a
/// lifting token is then held against the now-updated state, so if it
/// announces a pausing construct of its own, that construct activates at
/// once. While unsuppressed, a pausing kind activates its construct.
pub open spec fn step_suppress(m: TreeModel, kind: NodeASTType) -> TreeModel {
    if m.is_paused {
        let mr = step_resume(m, kind);
        if !mr.is_paused && is_pausing_kind(kind) {
            step_resume(step_pause(mr, kind), kind)
        } else {
            mr
        }
    } else if is_pausing_kind(kind) {
        step_resume(step_pause(m, kind), kind)
    } else {
        m
    }
}

/// One commit: the pending token is classified from the chain as it stands;
/// the suppression state is updated first (a pausing kind activates it, and
/// an active machine may lift it on this very token — a token on which the
/// machine resumes is evaluated anew against the now-updated state, so if it
/// itself announces a pausing construct, that construct's suppression
/// activates at once); the token is then written to the output exactly when
/// suppression is inactive and its kind is not on the exclusion list;
/// finally a non-blank token joins the chain, and the pending accumulator is
/// reset.
pub open spec fn step_commit(m: TreeModel) -> TreeModel {
    let kind = spec_classify(m.current, m.nodes);
    let m1 = step_suppress(m, kind);
    let m2 = if !m1.is_paused && !is_emit_excluded(kind) {
        TreeModel { output: m1.output + m.current + spec_seperator(kind), ..m1 }
    } else {
        m1
    };
    let m3 = if !blank_text(m.current) {
        TreeModel {
            nodes: m2.nodes.push(
                NodeModel { value: m.current, node_type: kind, parent: m.nodes.len() - 1 },
            ),
            ..m2
        }
    } else {
        m2
    };
    TreeModel { current: Seq::empty(), ..m3 }
}

/// The driver: the mutable state of one transform invocation. The state is
/// owned exclusively by that invocation; concurrent transforms each build
/// their own `Tree`.
pub struct Tree {
    pub output: Vec<char>,
    pub current_token: Vec<char>,
    pub nodes: Vec<Node>,
    pub is_paused: bool,
    pub paused_node_type: NodeASTType,
    pub keyword_declare_pauser: KeywordDeclarePauser,
    pub keyword_type_pauser: KeywordTypePauser,
    pub keyword_as_pauser: KeywordAsPauser,
    pub comment_pauser: CommentPauser,
}

impl View for Tree {
    type V = TreeModel;

    open spec fn view(&self) -> TreeModel {
        TreeModel {
            output: self.output@,
            current: self.current_token@,
            nodes: chain_view(self.nodes@),
            is_paused: self.is_paused,
            paused_kind: self.paused_node_type,
            declare_pauser: self.keyword_declare_pauser,
            type_pauser: self.keyword_type_pauser,
            comment_pauser: self.comment_pauser,
        }
    }
}

impl Tree {
    /// A fresh driver whose chain holds only the sentinel root token.
    pub fn new() -> (tree: Tree)
        ensures
            tree@ == init_model(),
            tree@.wf(),
    {
        let root = Node { value: Vec::new(), node_type: NodeASTType::Module, parent: 0 };
        let mut nodes: Vec<Node> = Vec::new();
        nodes.push(root);
        let tree = Tree {
            output: Vec::new(),
            current_token: Vec::new(),
            nodes,
            is_paused: false,
            paused_node_type: NodeASTType::Unknown,
            keyword_declare_pauser: KeywordDeclarePauser::new(),
            keyword_type_pauser: KeywordTypePauser::new(),
            keyword_as_pauser: KeywordAsPauser::new(),
            comment_pauser: CommentPauser::new(),
        };
        proof {
            assert(tree@.nodes =~= init_model().nodes);
            assert(tree@ =~= init_model());
        }
        tree
    }

    /// A copy of the committed token most recently appended to the chain:
    /// the lexical parent that the next committed token will receive.
    pub fn last_node(&self) -> (node: Node)
        requires
            self@.wf(),
        ensures
            node@ == self@.nodes.last(),
    {
        let i = self.nodes.len() - 1;
        let node = Node {
            value: copy_chars(&self.nodes[i].value),
            node_type: self.nodes[i].node_type,
            parent: self.nodes[i].parent,
        };
        proof {
            assert(self@.nodes[i as int] == self.nodes@[i as int]@);
        }
        node
    }

    /// Activates suppression for a construct of kind `node_type`, resetting
    /// the machine that will own it.
    pub fn pause_writing(&mut self, node_type: NodeASTType)
        ensures
            final(self)@ == step_pause(old(self)@, node_type),
    {
        self.is_paused = true;
        self.paused_node_type = node_type;
        match node_type {
            NodeASTType::KeywordType => {
                self.keyword_type_pauser = KeywordTypePauser::new();
            },
            NodeASTType::KeywordDeclare | NodeASTType::KeywordInterface => {
                self.keyword_declare_pauser = KeywordDeclarePauser::new();
            },
            NodeASTType::CommentLine | NodeASTType::CommentMultilineOpener => {
                self.comment_pauser = CommentPauser::new();
            },
            _ => {},
        }
        proof {
            assert(final(self)@ =~= step_pause(old(self)@, node_type));
        }
    }

    /// While suppression is active, hands the kind of the token just
    /// committed to the machine owning the suppression; the machine may lift
    /// it. A construct kind that owns no machine leaves suppression as it is.
    pub fn consider_resuming_writing(&mut self, node_type: NodeASTType)
        ensures
            final(self)@ == step_resume(old(self)@, node_type),
    {
        if self.is_paused {
            match self.paused_node_type {
                NodeASTType::KeywordType => {
                    let b = self.keyword_type_pauser.is_paused_after_evaluating(node_type);
                    self.is_paused = b;
                },
                NodeASTType::KeywordInterface | NodeASTType::KeywordDeclare => {
                    let b = self.keyword_declare_pauser.is_paused_after_evaluating(node_type);
                    self.is_paused = b;
                },
                NodeASTType::KeywordAs => {
                    let b = self.keyword_as_pauser.is_paused_after_evaluating(node_type);
                    self.is_paused = b;
                },
                NodeASTType::CommentLine | NodeASTType::CommentMultilineOpener => {
                    let b = self.comment_pauser.is_paused_after_evaluating(node_type);
                    self.is_paused = b;
                },
                _ => {},
            }
        }
        proof {
            assert(final(self)@ =~= step_resume(old(self)@, node_type));
        }
    }

    /// Replaces the pending token text.
    pub fn update_current_value(&mut self, value: &str)
        ensures
            final(self)@ == (TreeModel { current: value@, ..old(self)@ }),
    {
        let chars = str_to_chars(value);
        self.current_token = chars;
        proof {
            assert(final(self)@ =~= (TreeModel { current: value@, ..old(self)@ }));
        }
    }

    /// Replaces the pending token text with a single character.
    fn set_current_char(&mut self, c: char)
        ensures
            final(self)@ == (TreeModel { current: seq![c], ..old(self)@ }),
    {
        self.current_token.clear();
        self.current_token.push(c);
        proof {
            assert(self.current_token@ =~= seq![c]);
            assert(final(self)@ =~= (TreeModel { current: seq![c], ..old(self)@ }));
        }
    }

    /// Appends one character to the pending token.
    fn push_current(&mut self, c: char)
        ensures
            final(self)@ == (TreeModel { current: old(self)@.current.push(c), ..old(self)@ }),
    {
        self.current_token.push(c);
        proof {
            assert(final(self)@ =~= (
            TreeModel { current: old(self)@.current.push(c), ..old(self)@ }));
        }
    }

    /// Computes the kind that the given text would commit as, from the chain
    /// as it currently stands.
    pub fn detect_type(&self, value: String) -> (t: NodeASTType)
        requires
            self@.wf(),
        ensures
            t == spec_classify(value@, self@.nodes),
    {
        let chars = str_to_chars(value.as_str());
        classify_token(&chars, &self.nodes)
    }

    /// Commits the pending token, as [`step_commit`] describes.
    #[verifier::rlimit(100)]
    pub fn commit(&mut self)
        requires
            old(self)@.wf(),
        ensures
            final(self)@ == step_commit(old(self)@),
            final(self)@.wf(),
    {
        let kind = classify_token(&self.current_token, &self.nodes);
        let pausing = match kind {
            NodeASTType::KeywordDeclare | NodeASTType::KeywordType | NodeASTType::KeywordInterface
            | NodeASTType::CommentLine | NodeASTType::CommentMultilineOpener
            | NodeASTType::KeywordAs => true,
            _ => false,
        };
        if self.is_paused {
            self.consider_resuming_writing(kind);
            if !self.is_paused && pausing {
                self.pause_writing(kind);
                self.consider_resuming_writing(kind);
            }
        } else if pausing {
            self.pause_writing(kind);
            self.consider_resuming_writing(kind);
        }
        let excluded = match kind {
            NodeASTType::WhiteSpace | NodeASTType::EOL | NodeASTType::TypeAnnotation
            | NodeASTType::KeywordInterface | NodeASTType::KeywordType | NodeASTType::KeywordDeclare
            | NodeASTType::VariableTypeSeperator => true,
            _ => false,
        };
        if !self.is_paused && !excluded {
            append_chars(&mut self.output, &self.current_token);
            let space = match kind {
                NodeASTType::KeywordFunction | NodeASTType::ExportDeclaration
                | NodeASTType::VariableDeclarator | NodeASTType::VariableDeclaration
                | NodeASTType::AssignmentOperator => true,
                _ => false,
            };
            if space {
                self.output.push(' ');
            }
            proof {
                assert(self.output@ =~= old(self)@.output + old(self)@.current + spec_seperator(
                    kind,
                ));
            }
        }
        if !is_blank_token(&self.current_token) {
            let parent_idx = self.nodes.len() - 1;
            let value = copy_chars(&self.current_token);
            let node = Node { value, node_type: kind, parent: parent_idx };
            self.nodes.push(node);
            proof {
                assert(chain_view(self.nodes@) =~= chain_view(old(self).nodes@).push(
                    NodeModel {
                        value: old(self)@.current,
                        node_type: kind,
                        parent: old(self)@.nodes.len() - 1,
                    },
                ));
            }
        }
        self.current_token.clear();
        proof {
            assert(final(self)@ =~= step_commit(old(self)@));
        }
    }
}

/// One character of input. Inside a quoted region every character is
/// appended to the pending token verbatim, until the matching closing quote
/// forces a commit. Outside of one, a space or a piece of punctuation ends
/// the pending token: punctuation is then committed as its own token, a `:`
/// becomes the pending token instead, and a newline commits as an
/// end-of-line token. Any other character accumulates; a pending token that
/// has just become a two-character comment marker commits at once.
pub open spec fn step_char(m: TreeModel, c: char) -> TreeModel {
    let tk = tail_kind(m.nodes);
    if tk == NodeASTType::SingleQuote {
        let m1 = TreeModel { current: m.current.push(c), ..m };
        if c == '\'' {
            step_commit(m1)
        } else {
            m1
        }
    } else if tk == NodeASTType::DoubleQuote {
        let m1 = TreeModel { current: m.current.push(c), ..m };
        if c == '"' {
            step_commit(m1)
        } else {
            m1
        }
    } else if c == ' ' {
        step_commit(m)
    } else if c == '\n' {
        step_commit(TreeModel { current: seq!['\n'], ..step_commit(m) })
    } else if c == '\'' || c == '"' || c == '{' || c == '}' || c == '.' || c == ';' || c == '['
        || c == ']' || c == '(' || c == ')' || c == ',' {
        step_commit(TreeModel { current: seq![c], ..step_commit(m) })
    } else if c == ':' {
        TreeModel { current: seq![':'], ..step_commit(m) }
    } else {
        let m1 = TreeModel { current: m.current.push(c), ..m };
        if m1.current == seq!['/', '/'] || m1.current == seq!['/', '*'] || m1.current == seq![
            '*',
            '/',
        ] {
            step_commit(m1)
        } else {
            m1
        }
    }
}

/// Runs the machine over a whole character sequence, left to right.
pub open spec fn run_from(m: TreeModel, s: Seq<char>) -> TreeModel
    decreases s.len(),
{
    if s.len() == 0 {
        m
    } else {
        run_from(step_char(m, s[0]), s.skip(1))
    }
}

/// What the transform returns on a given input text.
pub open spec fn spec_transform(s: Seq<char>) -> Seq<char> {
    run_from(init_model(), s).output
}

/// A commit never breaks the token chain: the only token it can add points
/// at the previous chain tail.
pub proof fn lemma_step_commit_wf(m: TreeModel)
    requires
        m.wf(),
    ensures
        step_commit(m).wf(),
{
    let r = step_commit(m);
    if !blank_text(m.current) {
        assert forall|i: int| 1 <= i < r.nodes.len() implies 0 <= #[trigger] r.nodes[i].parent
            < i by {
            if i < m.nodes.len() {
                assert(r.nodes[i] == m.nodes[i]);
            }
        }
    }
}

/// Consuming a character preserves the well-formedness of the token chain.
pub proof fn lemma_step_char_wf(m: TreeModel, c: char)
    requires
        m.wf(),
    ensures
        step_char(m, c).wf(),
{
    lemma_step_commit_wf(m);
    let tk = tail_kind(m.nodes);
    if tk == NodeASTType::SingleQuote || tk == NodeASTType::DoubleQuote {
        lemma_step_commit_wf(TreeModel { current: m.current.push(c), ..m });
    } else if c == '\n' {
        lemma_step_commit_wf(TreeModel { current: seq!['\n'], ..step_commit(m) });
    } else if c == '\'' || c == '"' || c == '{' || c == '}' || c == '.' || c == ';' || c == '['
        || c == ']' || c == '(' || c == ')' || c == ',' {
        lemma_step_commit_wf(TreeModel { current: seq![c], ..step_commit(m) });
    } else {
        lemma_step_commit_wf(TreeModel { current: m.current.push(c), ..m });
    }
}

/// Running the machine one character further: the run over `s.push(c)` is
/// the run over `s` followed by one step on `c`.
#[verifier::rlimit(50)]
pub proof fn lemma_run_snoc(m: TreeModel, s: Seq<char>, c: char)
    ensures
        run_from(m, s.push(c)) == step_char(run_from(m, s), c),
    decreases s.len(),
{
    if s.len() == 0 {
        assert(s.push(c)[0] == c);
        assert(s.push(c).skip(1) =~= Seq::<char>::empty());
        assert(run_from(m, s.push(c)) == run_from(step_char(m, c), s.push(c).skip(1)));
        assert(run_from(step_char(m, c), Seq::<char>::empty()) == step_char(m, c));
        assert(run_from(m, s) == m);
    } else {
        assert(s.push(c)[0] == s[0]);
        assert(s.push(c).skip(1) =~= s.skip(1).push(c));
        assert(run_from(m, s.push(c)) == run_from(step_char(m, s[0]), s.skip(1).push(c)));
        lemma_run_snoc(step_char(m, s[0]), s.skip(1), c);
        assert(run_from(m, s) == run_from(step_char(m, s[0]), s.skip(1)));
    }
}

/// A run preserves the well-formedness of the token chain.
pub proof fn lemma_run_wf(m: TreeModel, s: Seq<char>)
    requires
        m.wf(),
    ensures
        run_from(m, s).wf(),
    decreases s.len(),
{
    if s.len() > 0 {
        lemma_step_char_wf(m, s[0]);
        lemma_run_wf(step_char(m, s[0]), s.skip(1));
    }
}

/// Relies on `String`'s `FromIterator` implementation through
/// `Iterator::collect`: collecting characters yields the string made of
/// exactly those characters, in order.
#[verifier::external_body]
fn chars_to_string(v: &Vec<char>) -> (s: String)
    ensures
        s@ == v@,
{
    v.iter().collect()
}

/// Feeds one character of input to the driver, as [`step_char`] describes.
#[verifier::rlimit(100)]
fn advance(tree: &mut Tree, c: char)
    requires
        old(tree)@.wf(),
    ensures
        final(tree)@ == step_char(old(tree)@, c),
        final(tree)@.wf(),
{
    proof {
        lemma_step_char_wf(old(tree)@, c);
    }
    let i = tree.nodes.len() - 1;
    let tk = tree.nodes[i].node_type;
    proof {
        assert(tree@.nodes[i as int] == tree.nodes@[i as int]@);
        assert(tk == tail_kind(old(tree)@.nodes));
    }
    if tk == NodeASTType::SingleQuote {
        tree.push_current(c);
        if c == '\'' {
            tree.commit();
        }
    } else if tk == NodeASTType::DoubleQuote {
        tree.push_current(c);
        if c == '"' {
            tree.commit();
        }
    } else if c == ' ' {
        tree.commit();
    } else if c == '\n' {
        tree.commit();
        tree.set_current_char('\n');
        tree.commit();
    } else if c == '\'' || c == '"' || c == '{' || c == '}' || c == '.' || c == ';' || c == '['
        || c == ']' || c == '(' || c == ')' || c == ',' {
        tree.commit();
        tree.set_current_char(c);
        tree.commit();
    } else if c == ':' {
        tree.commit();
        tree.set_current_char(':');
    } else {
        tree.push_current(c);
        let mut marker = false;
        if tree.current_token.len() == 2 {
            let a = tree.current_token[0];
            let b = tree.current_token[1];
            marker = (a == '/' && b == '/') || (a == '/' && b == '*') || (a == '*' && b == '/');
        }
        proof {
            let cur = tree@.current;
            assert(marker == (cur == seq!['/', '/'] || cur == seq!['/', '*'] || cur == seq![
                '*',
                '/',
            ])) by {
                if cur.len() == 2 {
                    if cur[0] == '/' && cur[1] == '/' {
                        assert(cur =~= seq!['/', '/']);
                    }
                    if cur[0] == '/' && cur[1] == '*' {
                        assert(cur =~= seq!['/', '*']);
                    }
                    if cur[0] == '*' && cur[1] == '/' {
                        assert(cur =~= seq!['*', '/']);
                    }
                }
            }
        }
        if marker {
            tree.commit();
        }
    }
    proof {
        assert(final(tree)@ =~= step_char(old(tree)@, c));
    }
}

/// The transform: strips type-only syntax from the input, one character at a
/// time, and returns the text that survives. It is total: malformed input
/// degrades to suppressed output, never to an error.
#[verifier::rlimit(100)]
pub fn parser(contents: String) -> (updated: String)
    ensures
        updated@ == spec_transform(contents@),
{
    let chars = str_to_chars(contents.as_str());
    let mut tree = Tree::new();
    proof {
        assert(contents@.take(0) =~= Seq::<char>::empty());
    }
    let n = chars.len();
    let mut i: usize = 0;
    while i < n
        invariant
            n == chars@.len(),
            chars@ == contents@,
            0 <= i <= n,
            tree@ == run_from(init_model(), contents@.take(i as int)),
            tree@.wf(),
        decreases n - i,
    {
        let c = chars[i];
        proof {
            lemma_run_snoc(init_model(), contents@.take(i as int), c);
            assert(contents@.take(i as int).push(c) =~= contents@.take(i + 1));
        }
        advance(&mut tree, c);
        i = i + 1;
    }
    proof {
        assert(contents@.take(n as int) =~= contents@);
    }
    chars_to_string(&tree.output)
}

} // verus!
