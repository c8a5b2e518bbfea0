//! Laws of the transform, proved against the spec-level machine of
//! [`crate::parser`]: what suppression guarantees about the output, how the
//! ambient/interface machine tracks a balanced block, and why quoted text
//! can never trigger stripping.

use vstd::prelude::*;

use crate::ast::NodeASTType;
use crate::ast::is_pausing_kind;
use crate::parser::NodeModel;
use crate::parser::TreeModel;
use crate::parser::init_model;
use crate::parser::run_from;
use crate::parser::spec_classify;
use crate::parser::spec_transform;
use crate::parser::step_char;
use crate::parser::step_commit;
use crate::parser::step_resume;
use crate::parser::tail_kind;
use crate::pauser::KeywordDeclarePauser;
use crate::plain::lemma_run_concat;
use crate::plain::lemma_word_accumulates;
use crate::plain::plain_word;
use crate::pauser::Pauser;
use crate::pauser::saturating_inc;

verus! {

/// Suppression stays active at every step while the machine consumes `cs`.
pub open spec fn stays_paused(m: TreeModel, cs: Seq<char>) -> bool
    decreases cs.len(),
{
    cs.len() == 0 || (step_char(m, cs[0]).is_paused && stays_paused(step_char(m, cs[0]), cs.skip(1)))
}

/// A token committed while suppression is active reaches the output only if
/// it leaves suppression lifted behind it: while the commit ends suppressed —
/// whether the old construct held on, or the token lifted it and announced a
/// new one — the output is unchanged.
pub proof fn lemma_paused_commit(m: TreeModel)
    requires
        m.is_paused,
    ensures
        step_commit(m).is_paused ==> step_commit(m).output == m.output,
{
    let kind = spec_classify(m.current, m.nodes);
    let mr = step_resume(m, kind);
    assert(mr.output == m.output);
}

/// A commit made while no suppression is active can activate one only for a
/// pausing kind, and such a kind comes only from the fixed pausing texts;
/// in particular no single-character token and no end-of-line token pauses.
pub proof fn lemma_unpaused_commit_kind(m: TreeModel)
    requires
        !m.is_paused,
    ensures
        step_commit(m).is_paused ==> is_pausing_kind(spec_classify(m.current, m.nodes)),
{
}

/// A token of a single character never classifies as a pausing kind: every
/// pausing construct is announced by a text of at least two characters.
pub proof fn lemma_single_char_not_pausing(value: Seq<char>, ns: Seq<NodeModel>)
    requires
        value.len() == 1,
    ensures
        !is_pausing_kind(spec_classify(value, ns)),
{
    lemma_keyword_texts();
}

/// While suppression remains active, consuming a character that commits the
/// pending token and then a single-character token of its own appends
/// nothing to the output.
#[verifier::rlimit(100)]
proof fn lemma_paused_step_boundary(m: TreeModel, c: char)
    requires
        m.is_paused,
        step_char(m, c).is_paused,
        tail_kind(m.nodes) != NodeASTType::SingleQuote,
        tail_kind(m.nodes) != NodeASTType::DoubleQuote,
        c == '\n' || c == '\'' || c == '"' || c == '{' || c == '}' || c == '.' || c == ';' || c
            == '[' || c == ']' || c == '(' || c == ')' || c == ',',
    ensures
        step_char(m, c).output == m.output,
{
    let ma = step_commit(m);
    lemma_paused_commit(m);
    let cur2: Seq<char> = if c == '\n' {
        seq!['\n']
    } else {
        seq![c]
    };
    let mb = TreeModel { current: cur2, ..ma };
    if ma.is_paused {
        lemma_paused_commit(mb);
    } else {
        // The suppression lifted on the pending token; the single character
        // committed next can classify only as a kind that does not pause, so
        // the end state cannot be paused, against the premise.
        lemma_single_char_not_pausing(cur2, mb.nodes);
        lemma_unpaused_commit_kind(mb);
        assert(!step_char(m, c).is_paused);
    }
}

/// While suppression remains active, consuming a character appends nothing
/// to the output.
#[verifier::rlimit(100)]
pub proof fn lemma_paused_step(m: TreeModel, c: char)
    requires
        m.is_paused,
        step_char(m, c).is_paused,
    ensures
        step_char(m, c).output == m.output,
{
    let tk = tail_kind(m.nodes);
    if tk == NodeASTType::SingleQuote || tk == NodeASTType::DoubleQuote {
        let m1 = TreeModel { current: m.current.push(c), ..m };
        lemma_paused_commit(m1);
        if (tk == NodeASTType::SingleQuote && c == '\'') || (tk == NodeASTType::DoubleQuote && c
            == '"') {
            assert(step_char(m, c) == step_commit(m1));
            if !step_commit(m1).is_paused {
                assert(!step_char(m, c).is_paused);
            }
        }
    } else if c == ' ' {
        lemma_paused_commit(m);
    } else if c == '\n' || c == '\'' || c == '"' || c == '{' || c == '}' || c == '.' || c == ';'
        || c == '[' || c == ']' || c == '(' || c == ')' || c == ',' {
        lemma_paused_step_boundary(m, c);
    } else if c == ':' {
        lemma_paused_commit(m);
    } else {
        let m1 = TreeModel { current: m.current.push(c), ..m };
        if m1.current == seq!['/', '/'] || m1.current == seq!['/', '*'] || m1.current == seq![
            '*',
            '/',
        ] {
            lemma_paused_commit(m1);
        }
    }
}

/// The texts of the keyword tokens, written out character by character.
pub proof fn lemma_keyword_texts()
    ensures
        "declare"@ == seq!['d', 'e', 'c', 'l', 'a', 'r', 'e'],
        "export"@ == seq!['e', 'x', 'p', 'o', 'r', 't'],
        "const"@ == seq!['c', 'o', 'n', 's', 't'],
        "let"@ == seq!['l', 'e', 't'],
        "var"@ == seq!['v', 'a', 'r'],
        "function"@ == seq!['f', 'u', 'n', 'c', 't', 'i', 'o', 'n'],
        "as"@ == seq!['a', 's'],
        "interface"@ == seq!['i', 'n', 't', 'e', 'r', 'f', 'a', 'c', 'e'],
        "type"@ == seq!['t', 'y', 'p', 'e'],
{
    reveal_strlit("declare");
    reveal_strlit("export");
    reveal_strlit("const");
    reveal_strlit("let");
    reveal_strlit("var");
    reveal_strlit("function");
    reveal_strlit("as");
    reveal_strlit("interface");
    reveal_strlit("type");
    assert("declare"@ =~= seq!['d', 'e', 'c', 'l', 'a', 'r', 'e']);
    assert("export"@ =~= seq!['e', 'x', 'p', 'o', 'r', 't']);
    assert("const"@ =~= seq!['c', 'o', 'n', 's', 't']);
    assert("let"@ =~= seq!['l', 'e', 't']);
    assert("var"@ =~= seq!['v', 'a', 'r']);
    assert("function"@ =~= seq!['f', 'u', 'n', 'c', 't', 'i', 'o', 'n']);
    assert("as"@ =~= seq!['a', 's']);
    assert("interface"@ =~= seq!['i', 'n', 't', 'e', 'r', 'f', 'a', 'c', 'e']);
    assert("type"@ =~= seq!['t', 'y', 'p', 'e']);
}

/// While a pausing construct keeps suppression active, the output does not
/// grow: every token committed in that span — for an ambient or interface
/// block, every token of the block's inside — is withheld from the output.
pub proof fn lemma_suppressed_output_unchanged(m: TreeModel, cs: Seq<char>)
    requires
        m.is_paused,
        stays_paused(m, cs),
    ensures
        run_from(m, cs).output == m.output,
        run_from(m, cs).is_paused,
    decreases cs.len(),
{
    if cs.len() > 0 {
        lemma_paused_step(m, cs[0]);
        lemma_suppressed_output_unchanged(step_char(m, cs[0]), cs.skip(1));
    }
}

/// The declare/interface machine run over a sequence of committed token
/// kinds.
pub open spec fn declare_run(p: KeywordDeclarePauser, ks: Seq<NodeASTType>) -> KeywordDeclarePauser
    decreases ks.len(),
{
    if ks.len() == 0 {
        p
    } else {
        declare_run(p.next_state(ks[0]), ks.skip(1))
    }
}

/// The declare/interface machine answers "still paused" at every token of
/// `ks`.
pub open spec fn declare_all_paused(p: KeywordDeclarePauser, ks: Seq<NodeASTType>) -> bool
    decreases ks.len(),
{
    ks.len() == 0 || (p.still_paused(ks[0]) && declare_all_paused(p.next_state(ks[0]), ks.skip(1)))
}

/// How many tokens of `ks` have kind `t`.
pub open spec fn count_kind(ks: Seq<NodeASTType>, t: NodeASTType) -> int
    decreases ks.len(),
{
    if ks.len() == 0 {
        0int
    } else {
        count_kind(ks.skip(1), t) + if ks[0] == t {
            1int
        } else {
            0int
        }
    }
}

/// The running curly-bracket balance of a kind sequence.
pub open spec fn bracket_net(ks: Seq<NodeASTType>) -> int {
    count_kind(ks, NodeASTType::OpeningBracket) - count_kind(ks, NodeASTType::ClosingBracket)
}

pub proof fn lemma_count_kind_bounds(ks: Seq<NodeASTType>, t: NodeASTType)
    ensures
        0 <= count_kind(ks, t) <= ks.len(),
    decreases ks.len(),
{
    if ks.len() > 0 {
        lemma_count_kind_bounds(ks.skip(1), t);
    }
}

/// Splitting a count at the first element.
pub proof fn lemma_count_kind_head(ks: Seq<NodeASTType>, t: NodeASTType, i: int)
    requires
        1 <= i <= ks.len(),
    ensures
        count_kind(ks.take(i), t) == (if ks[0] == t {
            1int
        } else {
            0int
        }) + count_kind(ks.skip(1).take(i - 1), t),
{
    let taken = ks.take(i);
    assert(taken[0] == ks[0]);
    assert(taken.skip(1) =~= ks.skip(1).take(i - 1));
}

/// While the running bracket balance stays positive, the declare/interface
/// machine stays paused, and its counters track the block exactly.
pub proof fn lemma_declare_pauser_stays_inside(p: KeywordDeclarePauser, ks: Seq<NodeASTType>)
    requires
        p.opening_bracket_count > p.closing_bracket_count,
        p.opening_bracket_count + count_kind(ks, NodeASTType::OpeningBracket) <= usize::MAX,
        p.closing_bracket_count + count_kind(ks, NodeASTType::ClosingBracket) <= usize::MAX,
        forall|i: int|
            1 <= i <= ks.len() ==> p.opening_bracket_count - p.closing_bracket_count + bracket_net(
                #[trigger] ks.take(i),
            ) > 0,
    ensures
        declare_all_paused(p, ks),
        declare_run(p, ks).opening_bracket_count == p.opening_bracket_count + count_kind(
            ks,
            NodeASTType::OpeningBracket,
        ),
        declare_run(p, ks).closing_bracket_count == p.closing_bracket_count + count_kind(
            ks,
            NodeASTType::ClosingBracket,
        ),
    decreases ks.len(),
{
    lemma_count_kind_bounds(ks, NodeASTType::OpeningBracket);
    lemma_count_kind_bounds(ks, NodeASTType::ClosingBracket);
    if ks.len() > 0 {
        let t = ks[0];
        lemma_count_kind_bounds(ks.skip(1), NodeASTType::OpeningBracket);
        lemma_count_kind_bounds(ks.skip(1), NodeASTType::ClosingBracket);
        let o2 = p.counted(t).opening_bracket_count;
        let c2 = p.counted(t).closing_bracket_count;
        assert(ks.take(1) =~= seq![t]);
        assert(seq![t].skip(1) =~= Seq::<NodeASTType>::empty());
        assert(count_kind(Seq::<NodeASTType>::empty(), NodeASTType::OpeningBracket) == 0);
        assert(count_kind(Seq::<NodeASTType>::empty(), NodeASTType::ClosingBracket) == 0);
        assert(count_kind(seq![t], NodeASTType::OpeningBracket) == (if t
            == NodeASTType::OpeningBracket {
            1int
        } else {
            0int
        }));
        assert(count_kind(seq![t], NodeASTType::ClosingBracket) == (if t
            == NodeASTType::ClosingBracket {
            1int
        } else {
            0int
        }));
        assert(o2 - c2 == p.opening_bracket_count - p.closing_bracket_count + bracket_net(
            ks.take(1),
        ));
        assert(o2 > c2);
        assert(p.still_paused(t));
        let p2 = p.next_state(t);
        assert(p2 == p.counted(t));
        assert forall|i: int|
            1 <= i <= ks.skip(1).len() implies p2.opening_bracket_count - p2.closing_bracket_count
            + bracket_net(#[trigger] ks.skip(1).take(i)) > 0 by {
            lemma_count_kind_head(ks, NodeASTType::OpeningBracket, i + 1);
            lemma_count_kind_head(ks, NodeASTType::ClosingBracket, i + 1);
            assert(p.opening_bracket_count - p.closing_bracket_count + bracket_net(
                ks.take(i + 1),
            ) > 0);
        }
        lemma_declare_pauser_stays_inside(p2, ks.skip(1));
        lemma_count_kind_head(ks, NodeASTType::OpeningBracket, ks.len() as int);
        lemma_count_kind_head(ks, NodeASTType::ClosingBracket, ks.len() as int);
        assert(ks.skip(1).take(ks.len() - 1) =~= ks.skip(1));
    }
}

/// A balanced block keeps the declare/interface machine paused at every
/// token strictly inside it and releases it exactly on the bracket that
/// balances the block: with the engine law on suppressed output, none of the
/// block's inner tokens can reach the output.
pub proof fn lemma_declare_pauser_balanced_block(ks: Seq<NodeASTType>)
    requires
        2 <= ks.len() <= usize::MAX,
        ks[0] == NodeASTType::OpeningBracket,
        forall|i: int| 1 <= i < ks.len() ==> bracket_net(#[trigger] ks.take(i)) > 0,
        bracket_net(ks) == 0,
    ensures
        declare_all_paused(KeywordDeclarePauser::initial(), ks.drop_last()),
        !declare_run(KeywordDeclarePauser::initial(), ks.drop_last()).still_paused(ks.last()),
{
    let p0 = KeywordDeclarePauser::initial();
    let body = ks.drop_last();
    let mid = body.skip(1);
    let t0 = ks[0];
    assert(p0.still_paused(t0));
    let p1 = p0.next_state(t0);
    assert(p1.opening_bracket_count == 1 && p1.closing_bracket_count == 0);
    lemma_count_kind_bounds(mid, NodeASTType::OpeningBracket);
    lemma_count_kind_bounds(mid, NodeASTType::ClosingBracket);
    assert(body[0] == t0);
    assert(body.skip(1) =~= mid);
    assert forall|i: int|
        1 <= i <= mid.len() implies p1.opening_bracket_count - p1.closing_bracket_count
        + bracket_net(#[trigger] mid.take(i)) > 0 by {
        lemma_count_kind_head(ks, NodeASTType::OpeningBracket, i + 1);
        lemma_count_kind_head(ks, NodeASTType::ClosingBracket, i + 1);
        assert(ks.skip(1).take(i) =~= mid.take(i));
        assert(ks.take(1) =~= seq![t0]);
        assert(bracket_net(ks.take(i + 1)) > 0);
    }
    lemma_declare_pauser_stays_inside(p1, mid);
    let pn = declare_run(p1, mid);
    assert(declare_run(p0, body) == pn);
    // The balance decomposes over the last token, so that token must be the
    // closing bracket and it brings the counters level.
    let last = ks.last();
    lemma_count_kind_snoc(body, last, NodeASTType::OpeningBracket);
    lemma_count_kind_snoc(body, last, NodeASTType::ClosingBracket);
    assert(body.push(last) =~= ks);
    assert(ks.take(ks.len() - 1) =~= body);
    assert(bracket_net(body) > 0);
    assert(last == NodeASTType::ClosingBracket);
    lemma_count_kind_head(ks, NodeASTType::OpeningBracket, ks.len() - 1);
    lemma_count_kind_head(ks, NodeASTType::ClosingBracket, ks.len() - 1);
    assert(ks.skip(1).take(ks.len() - 2) =~= mid);
    assert(pn.opening_bracket_count - pn.closing_bracket_count == bracket_net(body));
    let pc = pn.counted(last);
    assert(pc.closing_bracket_count == saturating_inc(pn.closing_bracket_count));
    assert(pn.closing_bracket_count < usize::MAX);
    assert(pc.opening_bracket_count == pc.closing_bracket_count);
    assert(pc.opening_bracket_count > 0);
}

/// Appending one kind to a counted sequence.
pub proof fn lemma_count_kind_snoc(ks: Seq<NodeASTType>, x: NodeASTType, t: NodeASTType)
    ensures
        count_kind(ks.push(x), t) == count_kind(ks, t) + if x == t {
            1int
        } else {
            0int
        },
    decreases ks.len(),
{
    if ks.len() == 0 {
        assert(ks.push(x)[0] == x);
        assert(ks.push(x).skip(1) =~= Seq::<NodeASTType>::empty());
        assert(count_kind(Seq::<NodeASTType>::empty(), t) == 0);
    } else {
        assert(ks.push(x)[0] == ks[0]);
        assert(ks.push(x).skip(1) =~= ks.skip(1).push(x));
        lemma_count_kind_snoc(ks.skip(1), x, t);
    }
}

/// How many times a character occurs in a sequence.
pub open spec fn count_char(cs: Seq<char>, c: char) -> int
    decreases cs.len(),
{
    if cs.len() == 0 {
        0int
    } else {
        (if cs[0] == c {
            1int
        } else {
            0int
        }) + count_char(cs.skip(1), c)
    }
}

pub proof fn lemma_count_char_nonneg(cs: Seq<char>, c: char)
    ensures
        count_char(cs, c) >= 0,
    decreases cs.len(),
{
    if cs.len() > 0 {
        lemma_count_char_nonneg(cs.skip(1), c);
    }
}

/// A state inside an ambient or interface block: suppression is owned by
/// the declare/interface machine, and no closing bracket is pending —
/// either directly, or because the pending text belongs to a quoted region,
/// whose token always ends with its quote mark.
pub open spec fn inside_declare(m: TreeModel) -> bool {
    &&& m.is_paused
    &&& (m.paused_kind == NodeASTType::KeywordDeclare || m.paused_kind
        == NodeASTType::KeywordInterface)
    &&& (tail_kind(m.nodes) == NodeASTType::SingleQuote || tail_kind(m.nodes)
        == NodeASTType::DoubleQuote || (forall|i: int|
        0 <= i < m.current.len() ==> m.current[i] != '}'))
}

/// Only the very text `}` classifies as a closing bracket.
proof fn lemma_closing_bracket_text(value: Seq<char>, ns: Seq<NodeModel>)
    ensures
        spec_classify(value, ns) == NodeASTType::ClosingBracket ==> value == seq!['}'],
{
}

/// A token whose text holds no closing bracket cannot classify as one.
proof fn lemma_no_closing_bracket_kind(value: Seq<char>, ns: Seq<NodeModel>)
    requires
        forall|i: int| 0 <= i < value.len() ==> value[i] != '}',
    ensures
        spec_classify(value, ns) != NodeASTType::ClosingBracket,
{
    lemma_closing_bracket_text(value, ns);
    if spec_classify(value, ns) == NodeASTType::ClosingBracket {
        assert(value[0] == '}');
    }
}

/// A commit of anything but a closing bracket, made inside a block with
/// more brackets opened than closed, keeps the machine inside it with its
/// counters intact and writes nothing.
proof fn lemma_inside_commit(m: TreeModel)
    requires
        m.is_paused,
        m.paused_kind == NodeASTType::KeywordDeclare || m.paused_kind
            == NodeASTType::KeywordInterface,
        m.declare_pauser.opening_bracket_count > m.declare_pauser.closing_bracket_count,
        spec_classify(m.current, m.nodes) != NodeASTType::ClosingBracket,
    ensures
        step_commit(m).is_paused,
        step_commit(m).paused_kind == m.paused_kind,
        step_commit(m).output == m.output,
        step_commit(m).current.len() == 0,
        step_commit(m).declare_pauser.opening_bracket_count
            >= m.declare_pauser.opening_bracket_count,
        step_commit(m).declare_pauser.closing_bracket_count
            == m.declare_pauser.closing_bracket_count,
{
    let kind = spec_classify(m.current, m.nodes);
    let p = m.declare_pauser;
    let pc = p.counted(kind);
    assert(pc.closing_bracket_count == p.closing_bracket_count);
    assert(pc.opening_bracket_count >= p.opening_bracket_count);
    assert(p.still_paused(kind));
}

/// A commit of a closing bracket inside a block that still has more than
/// one bracket to close: the counter advances by one, the machine stays
/// paused, nothing is written.
proof fn lemma_inside_commit_closing(m: TreeModel)
    requires
        m.is_paused,
        m.paused_kind == NodeASTType::KeywordDeclare || m.paused_kind
            == NodeASTType::KeywordInterface,
        m.current == seq!['}'],
        m.declare_pauser.opening_bracket_count > m.declare_pauser.closing_bracket_count + 1,
    ensures
        step_commit(m).is_paused,
        step_commit(m).paused_kind == m.paused_kind,
        step_commit(m).output == m.output,
        step_commit(m).current.len() == 0,
        step_commit(m).declare_pauser.opening_bracket_count
            == m.declare_pauser.opening_bracket_count,
        step_commit(m).declare_pauser.closing_bracket_count
            == m.declare_pauser.closing_bracket_count + 1,
{
    lemma_keyword_texts();
    if m.current == seq!['{'] {
        assert(m.current[0] == '{');
    }
    if m.current == seq![','] {
        assert(m.current[0] == ',');
    }
    let kind = spec_classify(m.current, m.nodes);
    assert(kind == NodeASTType::ClosingBracket);
    let p = m.declare_pauser;
    let pc = p.counted(kind);
    assert(pc.closing_bracket_count == saturating_inc(p.closing_bracket_count));
    assert(p.closing_bracket_count < usize::MAX);
    assert(p.still_paused(kind));
}

/// Consuming one character inside a block whose bracket deficit exceeds
/// what this character could close keeps the machine inside the block,
/// bounds the counters, and writes nothing.
#[verifier::rlimit(100)]
proof fn lemma_outnumbered_step(m: TreeModel, c: char)
    requires
        inside_declare(m),
        m.declare_pauser.opening_bracket_count > m.declare_pauser.closing_bracket_count + (
        if c == '}' {
            1int
        } else {
            0int
        }),
    ensures
        inside_declare(step_char(m, c)),
        step_char(m, c).output == m.output,
        step_char(m, c).declare_pauser.opening_bracket_count
            >= m.declare_pauser.opening_bracket_count,
        step_char(m, c).declare_pauser.closing_bracket_count
            <= m.declare_pauser.closing_bracket_count + (if c == '}' {
            1int
        } else {
            0int
        }),
{
    let tk = tail_kind(m.nodes);
    if tk == NodeASTType::SingleQuote || tk == NodeASTType::DoubleQuote {
        let m1 = TreeModel { current: m.current.push(c), ..m };
        if (tk == NodeASTType::SingleQuote && c == '\'') || (tk == NodeASTType::DoubleQuote && c
            == '"') {
            // The quoted token ends with its quote mark, so it cannot be the
            // text `}`.
            lemma_closing_bracket_text(m1.current, m1.nodes);
            if m1.current == seq!['}'] {
                assert(m1.current.len() == 1);
                assert(m1.current[0] == '}');
                assert(m1.current[0] == c);
            }
            lemma_inside_commit(m1);
        }
    } else if c == ' ' {
        lemma_no_closing_bracket_kind(m.current, m.nodes);
        lemma_inside_commit(m);
    } else if c == '\n' || c == '\'' || c == '"' || c == '{' || c == '}' || c == '.' || c == ';'
        || c == '[' || c == ']' || c == '(' || c == ')' || c == ',' {
        lemma_no_closing_bracket_kind(m.current, m.nodes);
        lemma_inside_commit(m);
        let cur2: Seq<char> = if c == '\n' {
            seq!['\n']
        } else {
            seq![c]
        };
        let mb = TreeModel { current: cur2, ..step_commit(m) };
        if c == '}' {
            lemma_inside_commit_closing(mb);
        } else {
            assert(cur2[0] != '}');
            lemma_no_closing_bracket_kind(cur2, mb.nodes);
            lemma_inside_commit(mb);
        }
    } else if c == ':' {
        lemma_no_closing_bracket_kind(m.current, m.nodes);
        lemma_inside_commit(m);
        assert(inside_declare(TreeModel { current: seq![':'], ..step_commit(m) }));
    } else {
        let m1 = TreeModel { current: m.current.push(c), ..m };
        assert(forall|i: int| 0 <= i < m1.current.len() ==> m1.current[i] != '}');
        if m1.current == seq!['/', '/'] || m1.current == seq!['/', '*'] || m1.current == seq![
            '*',
            '/',
        ] {
            lemma_no_closing_bracket_kind(m1.current, m1.nodes);
            lemma_inside_commit(m1);
        }
    }
}

/// Malformed input degrades to silence: once an ambient or interface block
/// has opened more brackets than the rest of the input holds closing
/// bracket characters — so its count can never balance — the output never
/// grows again.
pub proof fn lemma_unmatched_bracket_suppresses_rest(m: TreeModel, cs: Seq<char>)
    requires
        inside_declare(m),
        m.declare_pauser.opening_bracket_count > m.declare_pauser.closing_bracket_count
            + count_char(cs, '}'),
    ensures
        run_from(m, cs).output == m.output,
        inside_declare(run_from(m, cs)),
    decreases cs.len(),
{
    if cs.len() > 0 {
        lemma_count_char_nonneg(cs.skip(1), '}');
        lemma_outnumbered_step(m, cs[0]);
        lemma_unmatched_bracket_suppresses_rest(step_char(m, cs[0]), cs.skip(1));
    }
}

/// The characters that open an ambient block: the keyword and its opening
/// bracket.
pub open spec fn ambient_block_opening() -> Seq<char> {
    seq!['d', 'e', 'c', 'l', 'a', 'r', 'e', '{']
}

/// Committing the pending text `declare` from an unsuppressed state
/// activates the ambient machine, fresh, and writes nothing.
#[verifier::rlimit(100)]
proof fn lemma_commit_declare_keyword(m: TreeModel)
    requires
        !m.is_paused,
        m.current == seq!['d', 'e', 'c', 'l', 'a', 'r', 'e'],
    ensures
        step_commit(m).is_paused,
        step_commit(m).paused_kind == NodeASTType::KeywordDeclare,
        step_commit(m).declare_pauser == KeywordDeclarePauser::initial(),
        step_commit(m).output == m.output,
        step_commit(m).current.len() == 0,
{
    lemma_keyword_texts();
    assert(spec_classify(m.current, m.nodes) == NodeASTType::KeywordDeclare);
    let p0 = KeywordDeclarePauser::initial();
    assert(p0.counted(NodeASTType::KeywordDeclare) == p0);
    assert(p0.still_paused(NodeASTType::KeywordDeclare));
}

/// Committing the pending text `{` right after the ambient machine was
/// activated: the bracket is counted, suppression holds, nothing is
/// written.
#[verifier::rlimit(100)]
proof fn lemma_commit_first_bracket(m: TreeModel)
    requires
        m.is_paused,
        m.paused_kind == NodeASTType::KeywordDeclare || m.paused_kind
            == NodeASTType::KeywordInterface,
        m.declare_pauser == KeywordDeclarePauser::initial(),
        m.current == seq!['{'],
    ensures
        step_commit(m).is_paused,
        step_commit(m).paused_kind == m.paused_kind,
        step_commit(m).declare_pauser.opening_bracket_count == 1,
        step_commit(m).declare_pauser.closing_bracket_count == 0,
        step_commit(m).output == m.output,
        step_commit(m).current.len() == 0,
{
    lemma_keyword_texts();
    assert(spec_classify(m.current, m.nodes) == NodeASTType::OpeningBracket);
    let p0 = m.declare_pauser;
    assert(p0.counted(NodeASTType::OpeningBracket).opening_bracket_count == 1);
    assert(p0.still_paused(NodeASTType::OpeningBracket));
}

/// From a cleanly finished state, the characters `declare{` activate the
/// ambient machine and count its opening bracket, writing nothing.
#[verifier::rlimit(100)]
proof fn lemma_ambient_opening_run(m: TreeModel)
    requires
        !m.is_paused,
        m.current.len() == 0,
        tail_kind(m.nodes) != NodeASTType::SingleQuote,
        tail_kind(m.nodes) != NodeASTType::DoubleQuote,
    ensures
        run_from(m, ambient_block_opening()).is_paused,
        run_from(m, ambient_block_opening()).paused_kind == NodeASTType::KeywordDeclare,
        run_from(m, ambient_block_opening()).declare_pauser.opening_bracket_count == 1,
        run_from(m, ambient_block_opening()).declare_pauser.closing_bracket_count == 0,
        run_from(m, ambient_block_opening()).current.len() == 0,
        run_from(m, ambient_block_opening()).output == m.output,
{
    let kw = seq!['d', 'e', 'c', 'l', 'a', 'r', 'e'];
    let d = ambient_block_opening();
    assert(d =~= kw + seq!['{']);
    lemma_run_concat(m, kw, seq!['{']);
    lemma_ambient_keyword_plain();
    assert(m.current =~= kw.take(0));
    lemma_word_accumulates(m, kw, 0);
    assert(kw.skip(0) =~= kw);
    let m1 = TreeModel { current: kw, ..m };
    assert(run_from(m, kw) == m1);
    lemma_ambient_bracket_step(m1);
    assert(run_from(m, d) == run_from(m1, seq!['{']));
}

/// The ambient keyword accumulates as one plain word.
proof fn lemma_ambient_keyword_plain()
    ensures
        plain_word(seq!['d', 'e', 'c', 'l', 'a', 'r', 'e']),
{
    let kw = seq!['d', 'e', 'c', 'l', 'a', 'r', 'e'];
    assert(kw.take(2) =~= seq!['d', 'e']);
    assert forall|i: int| 0 <= i < kw.len() implies crate::plain::word_char(#[trigger] kw[i]) by {
        assert(!crate::parser::blank_char(kw[i]));
    }
}

/// The opening bracket that follows the pending ambient keyword: the
/// keyword commits and activates its machine, then the bracket commits and
/// is counted; nothing is written.
#[verifier::rlimit(100)]
proof fn lemma_ambient_bracket_step(m1: TreeModel)
    requires
        !m1.is_paused,
        m1.current == seq!['d', 'e', 'c', 'l', 'a', 'r', 'e'],
        tail_kind(m1.nodes) != NodeASTType::SingleQuote,
        tail_kind(m1.nodes) != NodeASTType::DoubleQuote,
    ensures
        run_from(m1, seq!['{']).is_paused,
        run_from(m1, seq!['{']).paused_kind == NodeASTType::KeywordDeclare,
        run_from(m1, seq!['{']).declare_pauser.opening_bracket_count == 1,
        run_from(m1, seq!['{']).declare_pauser.closing_bracket_count == 0,
        run_from(m1, seq!['{']).current.len() == 0,
        run_from(m1, seq!['{']).output == m1.output,
{
    lemma_commit_declare_keyword(m1);
    let m2 = step_commit(m1);
    let m3 = TreeModel { current: seq!['{'], ..m2 };
    lemma_commit_first_bracket(m3);
    let m4 = step_commit(m3);
    assert(step_char(m1, '{') == m4);
    assert(run_from(m1, seq!['{']) == run_from(step_char(m1, '{'), seq!['{'].skip(1)));
    assert(seq!['{'].skip(1) =~= Seq::<char>::empty());
    assert(run_from(m4, Seq::<char>::empty()) == m4);
}

/// P8 end to end: an ambient block whose opening bracket the rest of the
/// input never closes swallows everything from its keyword on, so the
/// transform of the whole input is the transform of the prefix alone. The
/// prefix must have finished cleanly: suppression inactive, nothing
/// pending, no quoted region open.
#[verifier::rlimit(100)]
pub proof fn lemma_unmatched_block_cuts_input(p: Seq<char>, rest: Seq<char>)
    requires
        !run_from(init_model(), p).is_paused,
        run_from(init_model(), p).current.len() == 0,
        tail_kind(run_from(init_model(), p).nodes) != NodeASTType::SingleQuote,
        tail_kind(run_from(init_model(), p).nodes) != NodeASTType::DoubleQuote,
        count_char(rest, '}') == 0,
    ensures
        spec_transform(p + ambient_block_opening() + rest) == spec_transform(p),
{
    let m0 = init_model();
    let mp = run_from(m0, p);
    let d = ambient_block_opening();
    assert(p + ambient_block_opening() + rest =~= p + (d + rest));
    lemma_run_concat(m0, p, d + rest);
    lemma_run_concat(mp, d, rest);
    lemma_ambient_opening_run(mp);
    let m4 = run_from(mp, d);
    assert(inside_declare(m4));
    lemma_unmatched_bracket_suppresses_rest(m4, rest);
    assert(run_from(m0, p + (d + rest)).output == mp.output);
}

/// Inside a quoted region the machine is inert: every character before the
/// closing quote goes verbatim into the pending token, and neither the
/// output, the chain, nor the suppression state can change — classification
/// inside quotes can never trigger stripping.
#[verifier::rlimit(100)]
pub proof fn lemma_quoted_text_inert(m: TreeModel, cs: Seq<char>, q: char)
    requires
        (tail_kind(m.nodes) == NodeASTType::SingleQuote && q == '\'') || (tail_kind(m.nodes)
            == NodeASTType::DoubleQuote && q == '"'),
        forall|i: int| 0 <= i < cs.len() ==> cs[i] != q,
    ensures
        run_from(m, cs) == (TreeModel { current: m.current + cs, ..m }),
    decreases cs.len(),
{
    if cs.len() == 0 {
        assert(m.current + cs =~= m.current);
        assert(run_from(m, cs) =~= (TreeModel { current: m.current + cs, ..m }));
    } else {
        let m1 = TreeModel { current: m.current.push(cs[0]), ..m };
        assert(step_char(m, cs[0]) == m1);
        lemma_quoted_text_inert(m1, cs.skip(1), q);
        assert(m.current.push(cs[0]) + cs.skip(1) =~= m.current + cs);
        assert(run_from(m, cs) =~= (TreeModel { current: m.current + cs, ..m }));
    }
}

} // verus!
