//! The continuation law: input that follows a finished construct is
//! transformed exactly as it would be alone.
//!
//! A finished statement — a stripped type alias, a closed ambient block, a
//! plain statement — leaves the machine unsuppressed with nothing pending;
//! only its committed tokens remain in the chain, and of those only the
//! chain tail can influence how later tokens classify. The correspondence
//! below relates two such states whose tails no classification rule can
//! tell apart and shows that they transform all further input identically,
//! so the output of the rest of the input is simply appended.

use vstd::prelude::*;

use crate::ast::NodeASTType;
use crate::ast::is_emit_excluded;
use crate::parser::NodeModel;
use crate::parser::TreeModel;
use crate::parser::blank_text;
use crate::parser::init_model;
use crate::parser::run_from;
use crate::parser::spec_ancestor_kind;
use crate::parser::spec_classify;
use crate::parser::spec_transform;
use crate::parser::step_char;
use crate::parser::step_commit;
use crate::parser::step_suppress;
use crate::parser::tail_kind;
use crate::parser::wf_chain;

verus! {

/// The tail kinds that some classification rule or the tokenizer's quote
/// test distinguishes, plus the two kinds the ancestor walk skips. A tail
/// of any other kind influences nothing.
pub open spec fn influential(k: NodeASTType) -> bool {
    ||| k == NodeASTType::VariableDeclaration
    ||| k == NodeASTType::Identifier
    ||| k == NodeASTType::ClosingParenthesis
    ||| k == NodeASTType::KeywordFunction
    ||| k == NodeASTType::VariableTypeSeperator
    ||| k == NodeASTType::VariableDeclarator
    ||| k == NodeASTType::SingleQuote
    ||| k == NodeASTType::DoubleQuote
    ||| k == NodeASTType::OpeningParenthesis
    ||| k == NodeASTType::WhiteSpace
    ||| k == NodeASTType::EOL
}

/// Two chains that classify every future token alike: their tails carry
/// the same kind, or kinds that no rule distinguishes; and the tails'
/// nearest meaningful ancestors agree wherever the one rule that looks two
/// levels back could tell them apart.
pub open spec fn matching_chains(n1: Seq<NodeModel>, n2: Seq<NodeModel>) -> bool {
    &&& wf_chain(n1)
    &&& wf_chain(n2)
    &&& tail_kind(n1) != NodeASTType::WhiteSpace && tail_kind(n1) != NodeASTType::EOL
    &&& tail_kind(n2) != NodeASTType::WhiteSpace && tail_kind(n2) != NodeASTType::EOL
    &&& (tail_kind(n1) == tail_kind(n2) || (!influential(tail_kind(n1)) && !influential(
        tail_kind(n2),
    )))
    &&& (spec_ancestor_kind(n1, n1.len() - 1) == spec_ancestor_kind(n2, n2.len() - 1) || (
    spec_ancestor_kind(n1, n1.len() - 1) != NodeASTType::OpeningParenthesis
        && spec_ancestor_kind(n2, n2.len() - 1) != NodeASTType::OpeningParenthesis))
}

/// Matching chains classify every token text alike.
#[verifier::rlimit(100)]
proof fn lemma_classify_matching(value: Seq<char>, n1: Seq<NodeModel>, n2: Seq<NodeModel>)
    requires
        matching_chains(n1, n2),
    ensures
        spec_classify(value, n1) == spec_classify(value, n2),
{
}

/// Two machine states that transform all further input alike, the first
/// carrying `d` of extra output: same pending token, same suppression
/// (including the owning machine's state while one is active), and
/// matching chains.
pub open spec fn matching_states(m1: TreeModel, m2: TreeModel, d: Seq<char>) -> bool {
    &&& m1.output == d + m2.output
    &&& m1.current == m2.current
    &&& m1.is_paused == m2.is_paused
    &&& m1.is_paused ==> m1.paused_kind == m2.paused_kind
    &&& (m1.is_paused && m1.paused_kind == NodeASTType::KeywordType) ==> m1.type_pauser
        == m2.type_pauser
    &&& (m1.is_paused && (m1.paused_kind == NodeASTType::KeywordDeclare || m1.paused_kind
        == NodeASTType::KeywordInterface)) ==> m1.declare_pauser == m2.declare_pauser
    &&& (m1.is_paused && (m1.paused_kind == NodeASTType::CommentLine || m1.paused_kind
        == NodeASTType::CommentMultilineOpener)) ==> m1.comment_pauser == m2.comment_pauser
    &&& matching_chains(m1.nodes, m2.nodes)
}

/// A non-blank token never carries a whitespace or end-of-line kind.
proof fn lemma_chained_kind_solid(value: Seq<char>, ns: Seq<NodeModel>)
    requires
        !blank_text(value),
    ensures
        spec_classify(value, ns) != NodeASTType::WhiteSpace,
        spec_classify(value, ns) != NodeASTType::EOL,
{
    if spec_classify(value, ns) == NodeASTType::EOL {
        assert(value == seq!['\n']);
        assert(crate::parser::blank_char(value[0]));
    }
}

/// Pushing the same token onto matching chains leaves them matching.
proof fn lemma_push_matching(n1: Seq<NodeModel>, n2: Seq<NodeModel>, value: Seq<char>, k: NodeASTType)
    requires
        matching_chains(n1, n2),
        k != NodeASTType::WhiteSpace,
        k != NodeASTType::EOL,
    ensures
        matching_chains(
            n1.push(NodeModel { value, node_type: k, parent: n1.len() - 1 }),
            n2.push(NodeModel { value, node_type: k, parent: n2.len() - 1 }),
        ),
{
    let p1 = n1.push(NodeModel { value, node_type: k, parent: n1.len() - 1 });
    let p2 = n2.push(NodeModel { value, node_type: k, parent: n2.len() - 1 });
    assert(wf_chain(p1)) by {
        assert(forall|i: int| 1 <= i < n1.len() ==> 0 <= #[trigger] p1[i].parent < i);
    }
    assert(wf_chain(p2)) by {
        assert(forall|i: int| 1 <= i < n2.len() ==> 0 <= #[trigger] p2[i].parent < i);
    }
    assert(tail_kind(p1) == k && tail_kind(p2) == k);
    assert(spec_ancestor_kind(p1, p1.len() - 1) == tail_kind(n1));
    assert(spec_ancestor_kind(p2, p2.len() - 1) == tail_kind(n2));
}

/// The suppression update of one commit treats matching states alike:
/// both answer the same, the owning machine (if one remains) holds the
/// same state on both sides, and nothing else of either state changes.
#[verifier::rlimit(100)]
proof fn lemma_suppress_matching(m1: TreeModel, m2: TreeModel, d: Seq<char>, kind: NodeASTType)
    requires
        matching_states(m1, m2, d),
    ensures
        step_suppress(m1, kind).is_paused == step_suppress(m2, kind).is_paused,
        step_suppress(m1, kind).is_paused ==> step_suppress(m1, kind).paused_kind == step_suppress(
            m2,
            kind,
        ).paused_kind,
        (step_suppress(m1, kind).is_paused && step_suppress(m1, kind).paused_kind
            == NodeASTType::KeywordType) ==> step_suppress(m1, kind).type_pauser == step_suppress(
            m2,
            kind,
        ).type_pauser,
        (step_suppress(m1, kind).is_paused && (step_suppress(m1, kind).paused_kind
            == NodeASTType::KeywordDeclare || step_suppress(m1, kind).paused_kind
            == NodeASTType::KeywordInterface)) ==> step_suppress(m1, kind).declare_pauser
            == step_suppress(m2, kind).declare_pauser,
        (step_suppress(m1, kind).is_paused && (step_suppress(m1, kind).paused_kind
            == NodeASTType::CommentLine || step_suppress(m1, kind).paused_kind
            == NodeASTType::CommentMultilineOpener)) ==> step_suppress(m1, kind).comment_pauser
            == step_suppress(m2, kind).comment_pauser,
        step_suppress(m1, kind).output == m1.output,
        step_suppress(m1, kind).current == m1.current,
        step_suppress(m1, kind).nodes == m1.nodes,
        step_suppress(m2, kind).output == m2.output,
        step_suppress(m2, kind).current == m2.current,
        step_suppress(m2, kind).nodes == m2.nodes,
{
}

/// One commit preserves the correspondence: both states classify the token
/// alike, update their suppression alike, emit the same text, and chain
/// the same node.
#[verifier::rlimit(100)]
proof fn lemma_commit_matching(m1: TreeModel, m2: TreeModel, d: Seq<char>)
    requires
        matching_states(m1, m2, d),
    ensures
        matching_states(step_commit(m1), step_commit(m2), d),
{
    lemma_classify_matching(m1.current, m1.nodes, m2.nodes);
    let kind = spec_classify(m1.current, m1.nodes);
    lemma_suppress_matching(m1, m2, d, kind);
    let s1 = step_suppress(m1, kind);
    if !s1.is_paused && !is_emit_excluded(kind) {
        assert(d + m2.output + m1.current + crate::parser::spec_seperator(kind) =~= d + (m2.output
            + m2.current + crate::parser::spec_seperator(kind)));
    }
    if !blank_text(m1.current) {
        lemma_chained_kind_solid(m1.current, m1.nodes);
        lemma_push_matching(m1.nodes, m2.nodes, m1.current, kind);
    }
}

/// One character preserves the correspondence.
#[verifier::rlimit(100)]
proof fn lemma_step_matching(m1: TreeModel, m2: TreeModel, d: Seq<char>, c: char)
    requires
        matching_states(m1, m2, d),
    ensures
        matching_states(step_char(m1, c), step_char(m2, c), d),
{
    let tk = tail_kind(m1.nodes);
    if tk == NodeASTType::SingleQuote || tk == NodeASTType::DoubleQuote {
        assert(tail_kind(m2.nodes) == tk);
        let a1 = TreeModel { current: m1.current.push(c), ..m1 };
        let a2 = TreeModel { current: m2.current.push(c), ..m2 };
        assert(matching_states(a1, a2, d));
        if (tk == NodeASTType::SingleQuote && c == '\'') || (tk == NodeASTType::DoubleQuote && c
            == '"') {
            lemma_commit_matching(a1, a2, d);
        }
    } else if c == ' ' {
        assert(tail_kind(m2.nodes) != NodeASTType::SingleQuote && tail_kind(m2.nodes)
            != NodeASTType::DoubleQuote);
        lemma_commit_matching(m1, m2, d);
    } else if c == '\n' || c == '\'' || c == '"' || c == '{' || c == '}' || c == '.' || c == ';'
        || c == '[' || c == ']' || c == '(' || c == ')' || c == ',' {
        assert(tail_kind(m2.nodes) != NodeASTType::SingleQuote && tail_kind(m2.nodes)
            != NodeASTType::DoubleQuote);
        lemma_commit_matching(m1, m2, d);
        let cur2: Seq<char> = if c == '\n' {
            seq!['\n']
        } else {
            seq![c]
        };
        let b1 = TreeModel { current: cur2, ..step_commit(m1) };
        let b2 = TreeModel { current: cur2, ..step_commit(m2) };
        assert(matching_states(b1, b2, d));
        lemma_commit_matching(b1, b2, d);
    } else if c == ':' {
        assert(tail_kind(m2.nodes) != NodeASTType::SingleQuote && tail_kind(m2.nodes)
            != NodeASTType::DoubleQuote);
        lemma_commit_matching(m1, m2, d);
        assert(matching_states(
            TreeModel { current: seq![':'], ..step_commit(m1) },
            TreeModel { current: seq![':'], ..step_commit(m2) },
            d,
        ));
    } else {
        assert(tail_kind(m2.nodes) != NodeASTType::SingleQuote && tail_kind(m2.nodes)
            != NodeASTType::DoubleQuote);
        let a1 = TreeModel { current: m1.current.push(c), ..m1 };
        let a2 = TreeModel { current: m2.current.push(c), ..m2 };
        assert(matching_states(a1, a2, d));
        if a1.current == seq!['/', '/'] || a1.current == seq!['/', '*'] || a1.current == seq![
            '*',
            '/',
        ] {
            lemma_commit_matching(a1, a2, d);
        }
    }
}

/// A whole run preserves the correspondence.
proof fn lemma_run_matching(m1: TreeModel, m2: TreeModel, d: Seq<char>, s: Seq<char>)
    requires
        matching_states(m1, m2, d),
    ensures
        matching_states(run_from(m1, s), run_from(m2, s), d),
    decreases s.len(),
{
    if s.len() > 0 {
        lemma_step_matching(m1, m2, d, s[0]);
        lemma_run_matching(step_char(m1, s[0]), step_char(m2, s[0]), d, s.skip(1));
    }
}

/// Input that follows a finished construct is unaffected by it: from any
/// state with suppression inactive, nothing pending, and a chain tail that
/// no classification rule tells apart from a fresh start, the rest of the
/// input yields exactly the output it would yield alone, appended to what
/// was already written. The state a stripped `type X = { ... };` leaves
/// behind is of this shape: unsuppressed, pending token empty, tail a
/// terminator with a closing bracket above it.
pub proof fn lemma_following_input_unaffected(m: TreeModel, s: Seq<char>)
    requires
        !m.is_paused,
        m.current.len() == 0,
        wf_chain(m.nodes),
        !influential(tail_kind(m.nodes)),
        tail_kind(m.nodes) != NodeASTType::WhiteSpace,
        tail_kind(m.nodes) != NodeASTType::EOL,
        spec_ancestor_kind(m.nodes, m.nodes.len() - 1) != NodeASTType::OpeningParenthesis,
    ensures
        run_from(m, s).output == m.output + spec_transform(s),
{
    let m0 = init_model();
    assert(matching_states(m, m0, m.output)) by {
        assert(m.output =~= m.output + m0.output);
        assert(m.current =~= m0.current);
        assert(wf_chain(m0.nodes)) by {
            assert(m0.nodes[0].node_type == NodeASTType::Module);
        }
        assert(tail_kind(m0.nodes) == NodeASTType::Module);
        assert(spec_ancestor_kind(m0.nodes, 0) == NodeASTType::Module);
    }
    lemma_run_matching(m, m0, m.output, s);
}

} // verus!
