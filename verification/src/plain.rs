//! The plain fragment and the idempotence law.
//!
//! Input that carries no type-only syntax comes out of the transform as the
//! same statements, normalized: the words of each statement glued together,
//! followed by its terminator. On such input a second pass changes nothing.
//! The law cannot hold of arbitrary input: words glued by the first pass can
//! spell a keyword that the second pass then strips, so the fragment below
//! requires that neither a word nor a statement's glued words spell a fixed
//! token.

use vstd::prelude::*;

use crate::ast::NodeASTType;
use crate::laws::lemma_keyword_texts;
use crate::parser::NodeModel;
use crate::parser::TreeModel;
use crate::parser::blank_char;
use crate::parser::init_model;
use crate::parser::run_from;
use crate::parser::spec_classify;
use crate::parser::spec_transform;
use crate::parser::step_char;
use crate::parser::step_commit;
use crate::parser::tail_kind;

verus! {

/// A character that can stand inside a plain word: not a blank and not one
/// of the characters that end or open a token on their own.
pub open spec fn word_char(c: char) -> bool {
    &&& !blank_char(c)
    &&& c != '\''
    &&& c != '"'
    &&& c != '{'
    &&& c != '}'
    &&& c != '.'
    &&& c != ':'
    &&& c != ';'
    &&& c != '['
    &&& c != ']'
    &&& c != '('
    &&& c != ')'
    &&& c != ','
}

/// The fixed token texts that a word of word characters could spell.
pub open spec fn word_fixed_text(w: Seq<char>) -> bool {
    ||| w == "declare"@
    ||| w == "export"@
    ||| w == "const"@
    ||| w == "let"@
    ||| w == "var"@
    ||| w == "function"@
    ||| w == "as"@
    ||| w == "interface"@
    ||| w == "type"@
    ||| w == seq!['|']
    ||| w == seq!['|', '|']
    ||| w == seq!['=']
}

/// A word that tokenizes as itself: it is made of word characters and does
/// not open with a comment marker (which would commit early).
pub open spec fn plain_word(w: Seq<char>) -> bool {
    &&& w.len() > 0
    &&& forall|i: int| 0 <= i < w.len() ==> word_char(#[trigger] w[i])
    &&& !(w.len() >= 2 && (w.take(2) == seq!['/', '/'] || w.take(2) == seq!['/', '*'] || w.take(2)
        == seq!['*', '/']))
}

/// A plain word that also classifies as an identifier: it spells no fixed
/// token.
pub open spec fn safe_word(w: Seq<char>) -> bool {
    plain_word(w) && !word_fixed_text(w)
}

/// One piece of a plain statement.
pub enum PlainPiece {
    Word(Seq<char>),
    Space,
    Newline,
}

/// Whether a piece is a word.
pub open spec fn is_word(p: PlainPiece) -> bool {
    match p {
        PlainPiece::Word(w) => true,
        _ => false,
    }
}

/// The text of a word piece; empty for a blank piece.
pub open spec fn word_text(p: PlainPiece) -> Seq<char> {
    match p {
        PlainPiece::Word(w) => w,
        _ => Seq::empty(),
    }
}

/// The characters of one piece.
pub open spec fn piece_chars(p: PlainPiece) -> Seq<char> {
    match p {
        PlainPiece::Word(w) => w,
        PlainPiece::Space => seq![' '],
        PlainPiece::Newline => seq!['\n'],
    }
}

/// The characters of a sequence of pieces.
pub open spec fn pieces_chars(ps: Seq<PlainPiece>) -> Seq<char>
    decreases ps.len(),
{
    if ps.len() == 0 {
        Seq::empty()
    } else {
        piece_chars(ps[0]) + pieces_chars(ps.skip(1))
    }
}

/// The words of a sequence of pieces, glued together.
pub open spec fn words_cat(ps: Seq<PlainPiece>) -> Seq<char>
    decreases ps.len(),
{
    if ps.len() == 0 {
        Seq::empty()
    } else {
        word_text(ps[0]) + words_cat(ps.skip(1))
    }
}

/// The pieces of one plain statement: every word is safe, and two words
/// never stand next to each other (a blank separates them).
pub open spec fn plain_pieces(ps: Seq<PlainPiece>) -> bool {
    &&& forall|i: int| 0 <= i < ps.len() ==> is_word(#[trigger] ps[i]) ==> safe_word(word_text(ps[i]))
    &&& forall|i: int| 0 < i < ps.len() ==> !(is_word(ps[i - 1]) && is_word(#[trigger] ps[i]))
}

/// One plain statement: its pieces followed by a terminator.
pub struct PlainBlock {
    pub pieces: Seq<PlainPiece>,
}

/// The characters of one statement.
pub open spec fn block_chars(b: PlainBlock) -> Seq<char> {
    pieces_chars(b.pieces) + seq![';']
}

/// The characters of a sequence of statements.
pub open spec fn blocks_chars(bs: Seq<PlainBlock>) -> Seq<char>
    decreases bs.len(),
{
    if bs.len() == 0 {
        Seq::empty()
    } else {
        block_chars(bs[0]) + blocks_chars(bs.skip(1))
    }
}

/// A plain statement: its pieces are plain, and the glued words — the very
/// text the transform will emit for it — again form a safe word, or no word
/// at all.
pub open spec fn plain_block(b: PlainBlock) -> bool {
    &&& plain_pieces(b.pieces)
    &&& words_cat(b.pieces).len() == 0 || safe_word(words_cat(b.pieces))
}

/// A plain input: a sequence of plain statements.
pub open spec fn plain_blocks(bs: Seq<PlainBlock>) -> bool {
    forall|i: int| 0 <= i < bs.len() ==> plain_block(#[trigger] bs[i])
}

/// What the transform emits for a plain input: each statement's words glued
/// together, followed by its terminator.
pub open spec fn blocks_output(bs: Seq<PlainBlock>) -> Seq<char>
    decreases bs.len(),
{
    if bs.len() == 0 {
        Seq::empty()
    } else {
        words_cat(bs[0].pieces) + seq![';'] + blocks_output(bs.skip(1))
    }
}

/// The machine state between plain tokens: suppression inactive, the chain
/// well formed, and the chain tail one of the kinds that plain input leaves
/// behind.
pub open spec fn plain_state(m: TreeModel) -> bool {
    &&& !m.is_paused
    &&& m.wf()
    &&& (tail_kind(m.nodes) == NodeASTType::Module || tail_kind(m.nodes) == NodeASTType::Identifier
        || tail_kind(m.nodes) == NodeASTType::Terminator)
}

/// Running the machine over concatenated input splits at the seam.
#[verifier::rlimit(100)]
pub proof fn lemma_run_concat(m: TreeModel, a: Seq<char>, b: Seq<char>)
    ensures
        run_from(m, a + b) == run_from(run_from(m, a), b),
    decreases a.len(),
{
    if a.len() == 0 {
        assert(a + b =~= b);
    } else {
        assert((a + b)[0] == a[0]);
        assert((a + b).skip(1) =~= a.skip(1) + b);
        lemma_run_concat(step_char(m, a[0]), a.skip(1), b);
    }
}

/// In a plain context a safe word classifies as an identifier.
#[verifier::rlimit(100)]
proof fn lemma_safe_word_kind(w: Seq<char>, ns: Seq<NodeModel>)
    requires
        safe_word(w),
        tail_kind(ns) == NodeASTType::Module || tail_kind(ns) == NodeASTType::Identifier
            || tail_kind(ns) == NodeASTType::Terminator,
    ensures
        spec_classify(w, ns) == NodeASTType::Identifier,
{
    lemma_keyword_texts();
    assert(word_char(w[0]));
    if w == seq!['{'] {
        assert(w[0] == '{');
    }
    if w == seq![','] {
        assert(w[0] == ',');
    }
    if w == seq!['}'] {
        assert(w[0] == '}');
    }
    if w == seq!['('] {
        assert(w[0] == '(');
    }
    if w == seq![')'] {
        assert(w[0] == ')');
    }
    if w == seq!['['] {
        assert(w[0] == '[');
    }
    if w == seq![']'] {
        assert(w[0] == ']');
    }
    if w == seq![';'] {
        assert(w[0] == ';');
    }
    if w == seq![':'] {
        assert(w[0] == ':');
    }
    if w == seq!['\''] {
        assert(w[0] == '\'');
    }
    if w == seq!['"'] {
        assert(w[0] == '"');
    }
    if w == seq!['\n'] {
        assert(w[0] == '\n');
        assert(blank_char('\n'));
    }
    if w == seq!['/', '/'] {
        assert(w.take(2) =~= seq!['/', '/']);
    }
    if w == seq!['/', '*'] {
        assert(w.take(2) =~= seq!['/', '*']);
    }
    if w == seq!['*', '/'] {
        assert(w.take(2) =~= seq!['*', '/']);
    }
}

/// A safe word is not blank.
proof fn lemma_safe_word_not_blank(w: Seq<char>)
    requires
        safe_word(w),
    ensures
        !crate::parser::blank_text(w),
{
    assert(word_char(w[0]));
    assert(!blank_char(w[0]));
}

/// Committing a pending safe word in a plain state appends exactly that
/// word to the output and chains it as an identifier.
#[verifier::rlimit(100)]
proof fn lemma_commit_word(m: TreeModel)
    requires
        plain_state(m),
        safe_word(m.current),
    ensures
        plain_state(step_commit(m)),
        step_commit(m).current.len() == 0,
        step_commit(m).output == m.output + m.current,
        tail_kind(step_commit(m).nodes) == NodeASTType::Identifier,
        step_commit(m) == (TreeModel {
            output: m.output + m.current,
            current: Seq::empty(),
            nodes: m.nodes.push(
                NodeModel {
                    value: m.current,
                    node_type: NodeASTType::Identifier,
                    parent: m.nodes.len() - 1,
                },
            ),
            ..m
        }),
{
    lemma_safe_word_kind(m.current, m.nodes);
    lemma_safe_word_not_blank(m.current);
    crate::parser::lemma_step_commit_wf(m);
    assert(m.output + m.current + crate::parser::spec_seperator(NodeASTType::Identifier) =~= m.output
        + m.current);
    assert(step_commit(m) =~= (TreeModel {
        output: m.output + m.current,
        current: Seq::empty(),
        nodes: m.nodes.push(
            NodeModel {
                value: m.current,
                node_type: NodeASTType::Identifier,
                parent: m.nodes.len() - 1,
            },
        ),
        ..m
    }));
    assert(step_commit(m).nodes.last() == NodeModel {
        value: m.current,
        node_type: NodeASTType::Identifier,
        parent: m.nodes.len() - 1,
    });
}

/// Committing an empty pending token changes nothing.
#[verifier::rlimit(100)]
proof fn lemma_commit_empty(m: TreeModel)
    requires
        !m.is_paused,
        m.current.len() == 0,
    ensures
        step_commit(m) == m,
{
    lemma_keyword_texts();
    assert(m.current =~= Seq::<char>::empty());
    assert(spec_classify(m.current, m.nodes) == NodeASTType::WhiteSpace);
    assert(step_commit(m) =~= m);
}

/// How a token of one character classifies, for the two single characters
/// that plain statements commit on their own.
proof fn lemma_classify_single(value: Seq<char>, ns: Seq<NodeModel>)
    requires
        value.len() == 1,
    ensures
        value[0] == ';' ==> spec_classify(value, ns) == NodeASTType::Terminator,
        value[0] == '\n' ==> spec_classify(value, ns) == NodeASTType::EOL,
{
    lemma_keyword_texts();
    if value == seq!['{'] {
        assert(value[0] == '{');
    }
    if value == seq![','] {
        assert(value[0] == ',');
    }
    if value == seq!['}'] {
        assert(value[0] == '}');
    }
    if value == seq!['('] {
        assert(value[0] == '(');
    }
    if value == seq![')'] {
        assert(value[0] == ')');
    }
    if value == seq!['['] {
        assert(value[0] == '[');
    }
    if value == seq!['|'] {
        assert(value[0] == '|');
    }
    if value == seq![']'] {
        assert(value[0] == ']');
    }
    if value == seq![';'] {
        assert(value[0] == ';');
    }
    if value == seq!['\''] {
        assert(value[0] == '\'');
    }
    if value == seq!['"'] {
        assert(value[0] == '"');
    }
    if value == seq![':'] {
        assert(value[0] == ':');
    }
    if value == seq!['\n'] {
        assert(value[0] == '\n');
    }
    if value == seq!['='] {
        assert(value[0] == '=');
    }
    if value[0] == ';' {
        assert(value =~= seq![';']);
    }
    if value[0] == '\n' {
        assert(value =~= seq!['\n']);
    }
}

/// Committing a pending end-of-line token only clears it: the token is
/// neither written nor chained.
#[verifier::rlimit(100)]
proof fn lemma_commit_eol(m: TreeModel)
    requires
        !m.is_paused,
        m.current == seq!['\n'],
    ensures
        step_commit(m) == (TreeModel { current: Seq::empty(), ..m }),
{
    lemma_classify_single(m.current, m.nodes);
    assert(spec_classify(m.current, m.nodes) == NodeASTType::EOL);
    assert(blank_char(m.current[0]));
    assert(step_commit(m) =~= (TreeModel { current: Seq::empty(), ..m }));
}

/// Committing a pending terminator in a plain state writes it and chains
/// it.
#[verifier::rlimit(100)]
proof fn lemma_commit_terminator(m: TreeModel)
    requires
        plain_state(m),
        m.current == seq![';'],
    ensures
        plain_state(step_commit(m)),
        step_commit(m).current.len() == 0,
        step_commit(m).output == m.output + seq![';'],
        tail_kind(step_commit(m).nodes) == NodeASTType::Terminator,
{
    lemma_classify_single(m.current, m.nodes);
    assert(spec_classify(m.current, m.nodes) == NodeASTType::Terminator);
    assert(!crate::parser::blank_text(m.current)) by {
        assert(m.current[0] == ';');
        assert(!blank_char(';'));
    }
    crate::parser::lemma_step_commit_wf(m);
    assert(m.output + m.current + crate::parser::spec_seperator(NodeASTType::Terminator)
        =~= m.output + seq![';']);
    assert(step_commit(m).nodes.last() == NodeModel {
        value: m.current,
        node_type: NodeASTType::Terminator,
        parent: m.nodes.len() - 1,
    });
}

/// The characters of a plain word accumulate one by one into the pending
/// token without committing anything. Only the chain tail matters: it must
/// not put the machine in a quoted region.
#[verifier::rlimit(100)]
pub proof fn lemma_word_accumulates(m: TreeModel, w: Seq<char>, j: int)
    requires
        tail_kind(m.nodes) != NodeASTType::SingleQuote,
        tail_kind(m.nodes) != NodeASTType::DoubleQuote,
        plain_word(w),
        0 <= j <= w.len(),
        m.current == w.take(j),
    ensures
        run_from(m, w.skip(j)) == (TreeModel { current: w, ..m }),
    decreases w.len() - j,
{
    if j == w.len() {
        assert(w.take(j) =~= w);
        assert(w.skip(j) =~= Seq::<char>::empty());
        assert(run_from(m, w.skip(j)) =~= (TreeModel { current: w, ..m }));
    } else {
        let c = w[j];
        assert(word_char(c));
        assert(w.skip(j)[0] == c);
        let m1 = TreeModel { current: m.current.push(c), ..m };
        assert(m1.current =~= w.take(j + 1));
        assert(!(m1.current == seq!['/', '/'] || m1.current == seq!['/', '*'] || m1.current
            == seq!['*', '/'])) by {
            if j + 1 == 2 {
                assert(w.take(2) =~= w.take(j + 1));
                assert(w.len() >= 2);
            }
        }
        assert(step_char(m, c) == m1);
        assert(w.skip(j).skip(1) =~= w.skip(j + 1));
        lemma_word_accumulates(m1, w, j + 1);
        assert(run_from(m, w.skip(j)) == run_from(m1, w.skip(j).skip(1)));
    }
}

/// Consuming a space commits the pending word, if any, into the output.
#[verifier::rlimit(100)]
proof fn lemma_boundary_space(m: TreeModel)
    requires
        plain_state(m),
        m.current.len() == 0 || safe_word(m.current),
    ensures
        plain_state(run_from(m, seq![' '])),
        run_from(m, seq![' ']).current.len() == 0,
        run_from(m, seq![' ']).output == m.output + m.current,
{
    let m1 = if m.current.len() == 0 {
        lemma_commit_empty(m);
        m
    } else {
        lemma_commit_word(m);
        step_commit(m)
    };
    assert(step_char(m, ' ') == m1);
    assert(run_from(m, seq![' ']) == run_from(step_char(m, ' '), seq![' '].skip(1)));
    assert(seq![' '].skip(1) =~= Seq::<char>::empty());
    assert(run_from(m1, Seq::<char>::empty()) == m1);
    assert(m1.output =~= m.output + m.current);
}

/// Consuming a newline commits the pending word, if any, into the output;
/// the end-of-line token itself leaves no trace.
#[verifier::rlimit(100)]
proof fn lemma_boundary_newline(m: TreeModel)
    requires
        plain_state(m),
        m.current.len() == 0 || safe_word(m.current),
    ensures
        plain_state(run_from(m, seq!['\n'])),
        run_from(m, seq!['\n']).current.len() == 0,
        run_from(m, seq!['\n']).output == m.output + m.current,
{
    let ma = if m.current.len() == 0 {
        lemma_commit_empty(m);
        m
    } else {
        lemma_commit_word(m);
        step_commit(m)
    };
    let mb = TreeModel { current: seq!['\n'], ..ma };
    lemma_commit_eol(mb);
    let m1 = step_commit(mb);
    assert(m1 == (TreeModel { current: Seq::empty(), ..ma }));
    assert(step_char(m, '\n') == m1);
    assert(run_from(m, seq!['\n']) == run_from(step_char(m, '\n'), seq!['\n'].skip(1)));
    assert(seq!['\n'].skip(1) =~= Seq::<char>::empty());
    assert(run_from(m1, Seq::<char>::empty()) == m1);
    assert(m1.output =~= m.output + m.current);
}

/// Consuming a terminator commits the pending word, if any, and then the
/// terminator itself: both reach the output.
#[verifier::rlimit(100)]
proof fn lemma_boundary_terminator(m: TreeModel)
    requires
        plain_state(m),
        m.current.len() == 0 || safe_word(m.current),
    ensures
        plain_state(run_from(m, seq![';'])),
        run_from(m, seq![';']).current.len() == 0,
        run_from(m, seq![';']).output == m.output + m.current + seq![';'],
{
    let ma = if m.current.len() == 0 {
        lemma_commit_empty(m);
        m
    } else {
        lemma_commit_word(m);
        step_commit(m)
    };
    let mb = TreeModel { current: seq![';'], ..ma };
    lemma_commit_terminator(mb);
    let m1 = step_commit(mb);
    assert(step_char(m, ';') == m1);
    assert(run_from(m, seq![';']) == run_from(step_char(m, ';'), seq![';'].skip(1)));
    assert(seq![';'].skip(1) =~= Seq::<char>::empty());
    assert(run_from(m1, Seq::<char>::empty()) == m1);
    assert(m1.output =~= m.output + m.current + seq![';']);
}

/// A tail slice of plain pieces is again plain.
proof fn lemma_plain_pieces_skip(ps: Seq<PlainPiece>)
    requires
        plain_pieces(ps),
        ps.len() > 0,
    ensures
        plain_pieces(ps.skip(1)),
{
    let rest = ps.skip(1);
    assert(forall|i: int| 0 <= i < rest.len() ==> rest[i] == ps[i + 1]);
}

/// Running the machine over the pieces of one plain statement: the glued
/// words move, in order, through the pending token into the output; at the
/// end the last word (if any) is still pending.
#[verifier::rlimit(100)]
proof fn lemma_pieces_run(m: TreeModel, ps: Seq<PlainPiece>)
    requires
        plain_state(m),
        m.current.len() == 0 || safe_word(m.current),
        m.current.len() > 0 ==> (ps.len() == 0 || !is_word(ps[0])),
        plain_pieces(ps),
    ensures
        plain_state(run_from(m, pieces_chars(ps))),
        run_from(m, pieces_chars(ps)).current.len() == 0 || safe_word(
            run_from(m, pieces_chars(ps)).current,
        ),
        run_from(m, pieces_chars(ps)).output + run_from(m, pieces_chars(ps)).current == m.output
            + m.current + words_cat(ps),
    decreases ps.len(), 1int,
{
    if ps.len() == 0 {
        assert(pieces_chars(ps) =~= Seq::<char>::empty());
        assert(m.output + m.current + words_cat(ps) =~= m.output + m.current);
    } else {
        match ps[0] {
            PlainPiece::Word(w) => {
                lemma_pieces_run_word(m, ps);
            },
            PlainPiece::Space => {
                lemma_pieces_run_blank(m, ps);
            },
            PlainPiece::Newline => {
                lemma_pieces_run_blank(m, ps);
            },
        }
    }
}

/// The word case of [`lemma_pieces_run`]: the word accumulates into the
/// empty pending token and waits for the next boundary.
#[verifier::rlimit(100)]
#[verifier::spinoff_prover]
proof fn lemma_pieces_run_word(m: TreeModel, ps: Seq<PlainPiece>)
    requires
        plain_state(m),
        ps.len() > 0,
        is_word(ps[0]),
        m.current.len() == 0,
        plain_pieces(ps),
    ensures
        plain_state(run_from(m, pieces_chars(ps))),
        run_from(m, pieces_chars(ps)).current.len() == 0 || safe_word(
            run_from(m, pieces_chars(ps)).current,
        ),
        run_from(m, pieces_chars(ps)).output + run_from(m, pieces_chars(ps)).current == m.output
            + m.current + words_cat(ps),
    decreases ps.len(), 0int,
{
    let rest = ps.skip(1);
    lemma_plain_pieces_skip(ps);
    let w = word_text(ps[0]);
    assert(safe_word(w));
    assert(m.current =~= w.take(0));
    lemma_word_accumulates(m, w, 0);
    assert(w.skip(0) =~= w);
    let m1 = TreeModel { current: w, ..m };
    assert(run_from(m, w) == m1);
    lemma_run_concat(m, w, pieces_chars(rest));
    assert(pieces_chars(ps) == w + pieces_chars(rest));
    assert(rest.len() == 0 || !is_word(rest[0])) by {
        if rest.len() > 0 {
            assert(rest[0] == ps[1]);
            assert(!(is_word(ps[0]) && is_word(ps[1])));
        }
    }
    lemma_pieces_run(m1, rest);
    assert(m.output + m.current + words_cat(ps) =~= m1.output + m1.current + words_cat(rest));
}

/// The blank cases of [`lemma_pieces_run`]: a space or a newline commits
/// the pending word, if any, into the output.
#[verifier::rlimit(100)]
#[verifier::spinoff_prover]
proof fn lemma_pieces_run_blank(m: TreeModel, ps: Seq<PlainPiece>)
    requires
        plain_state(m),
        ps.len() > 0,
        !is_word(ps[0]),
        m.current.len() == 0 || safe_word(m.current),
        plain_pieces(ps),
    ensures
        plain_state(run_from(m, pieces_chars(ps))),
        run_from(m, pieces_chars(ps)).current.len() == 0 || safe_word(
            run_from(m, pieces_chars(ps)).current,
        ),
        run_from(m, pieces_chars(ps)).output + run_from(m, pieces_chars(ps)).current == m.output
            + m.current + words_cat(ps),
    decreases ps.len(), 0int,
{
    let rest = ps.skip(1);
    lemma_plain_pieces_skip(ps);
    let bc = piece_chars(ps[0]);
    if ps[0] is Space {
        lemma_boundary_space(m);
        assert(bc =~= seq![' ']);
    } else {
        lemma_boundary_newline(m);
        assert(bc =~= seq!['\n']);
    }
    let m1 = run_from(m, bc);
    lemma_run_concat(m, bc, pieces_chars(rest));
    assert(pieces_chars(ps) == bc + pieces_chars(rest));
    lemma_pieces_run(m1, rest);
    assert(m1.output + m1.current + words_cat(rest) =~= m.output + m.current + words_cat(ps));
}

/// Running the machine over one plain statement emits its glued words and
/// its terminator, and returns to a plain state with nothing pending.
#[verifier::rlimit(100)]
proof fn lemma_block_run(m: TreeModel, b: PlainBlock)
    requires
        plain_state(m),
        m.current.len() == 0,
        plain_block(b),
    ensures
        plain_state(run_from(m, block_chars(b))),
        run_from(m, block_chars(b)).current.len() == 0,
        run_from(m, block_chars(b)).output == m.output + words_cat(b.pieces) + seq![';'],
{
    lemma_run_concat(m, pieces_chars(b.pieces), seq![';']);
    lemma_pieces_run(m, b.pieces);
    let m1 = run_from(m, pieces_chars(b.pieces));
    lemma_boundary_terminator(m1);
    assert(run_from(m1, seq![';']).output =~= m.output + words_cat(b.pieces) + seq![';']) by {
        assert(m1.output + m1.current == m.output + m.current + words_cat(b.pieces));
        assert(m.output + m.current + words_cat(b.pieces) =~= m.output + words_cat(b.pieces));
        assert(m1.output + m1.current + seq![';'] =~= (m1.output + m1.current) + seq![';']);
    }
}

/// Running the machine over a sequence of plain statements emits exactly
/// their normalized text.
#[verifier::rlimit(100)]
proof fn lemma_blocks_run(m: TreeModel, bs: Seq<PlainBlock>)
    requires
        plain_state(m),
        m.current.len() == 0,
        plain_blocks(bs),
    ensures
        plain_state(run_from(m, blocks_chars(bs))),
        run_from(m, blocks_chars(bs)).current.len() == 0,
        run_from(m, blocks_chars(bs)).output == m.output + blocks_output(bs),
    decreases bs.len(),
{
    if bs.len() == 0 {
        assert(blocks_chars(bs) =~= Seq::<char>::empty());
        assert(run_from(m, blocks_chars(bs)) == m);
        assert(m.output + blocks_output(bs) =~= m.output);
    } else {
        lemma_run_concat(m, block_chars(bs[0]), blocks_chars(bs.skip(1)));
        lemma_block_run(m, bs[0]);
        let m1 = run_from(m, block_chars(bs[0]));
        assert(plain_blocks(bs.skip(1))) by {
            assert(forall|i: int| 0 <= i < bs.skip(1).len() ==> bs.skip(1)[i] == bs[i + 1]);
        }
        lemma_blocks_run(m1, bs.skip(1));
        assert(m1.output + blocks_output(bs.skip(1)) =~= m.output + blocks_output(bs)) by {
            assert(m1.output =~= m.output + words_cat(bs[0].pieces) + seq![';']);
        }
    }
}

/// On plain input the transform emits each statement's words glued
/// together, followed by its terminator, and nothing else.
pub proof fn lemma_transform_plain(bs: Seq<PlainBlock>)
    requires
        plain_blocks(bs),
    ensures
        spec_transform(blocks_chars(bs)) == blocks_output(bs),
{
    let m = init_model();
    assert(plain_state(m)) by {
        assert(m.nodes[0].node_type == NodeASTType::Module);
    }
    lemma_blocks_run(m, bs);
    assert(m.output + blocks_output(bs) =~= blocks_output(bs));
}

/// The normalized form of one statement: its glued words as a single word
/// piece, or no piece at all.
pub open spec fn compact_block(b: PlainBlock) -> PlainBlock {
    if words_cat(b.pieces).len() == 0 {
        PlainBlock { pieces: Seq::empty() }
    } else {
        PlainBlock { pieces: seq![PlainPiece::Word(words_cat(b.pieces))] }
    }
}

/// The normalized form of a plain input: what the transform emits for it,
/// read back as plain statements.
pub open spec fn compact_blocks(bs: Seq<PlainBlock>) -> Seq<PlainBlock>
    decreases bs.len(),
{
    if bs.len() == 0 {
        Seq::empty()
    } else {
        seq![compact_block(bs[0])] + compact_blocks(bs.skip(1))
    }
}

/// One normalized statement is again plain, and it spells exactly the
/// emitted text of the statement it came from.
proof fn lemma_compact_block(b: PlainBlock)
    requires
        plain_block(b),
    ensures
        plain_block(compact_block(b)),
        block_chars(compact_block(b)) == words_cat(b.pieces) + seq![';'],
        words_cat(compact_block(b).pieces) == words_cat(b.pieces),
{
    let cb = compact_block(b);
    if words_cat(b.pieces).len() == 0 {
        assert(pieces_chars(cb.pieces) =~= Seq::<char>::empty());
        assert(words_cat(cb.pieces) =~= Seq::<char>::empty());
        assert(block_chars(cb) =~= words_cat(b.pieces) + seq![';']);
        assert(words_cat(cb.pieces) =~= words_cat(b.pieces));
    } else {
        let w = words_cat(b.pieces);
        reveal_with_fuel(pieces_chars, 2);
        reveal_with_fuel(words_cat, 2);
        assert(cb.pieces[0] == PlainPiece::Word(w));
        assert(cb.pieces.skip(1) =~= Seq::<PlainPiece>::empty());
        assert(pieces_chars(cb.pieces) =~= w);
        assert(words_cat(cb.pieces) =~= w);
        assert(block_chars(cb) =~= w + seq![';']);
    }
}

/// The normalized input is plain, spells the emitted text of the original,
/// and emits the same text again.
proof fn lemma_compact_blocks(bs: Seq<PlainBlock>)
    requires
        plain_blocks(bs),
    ensures
        plain_blocks(compact_blocks(bs)),
        blocks_chars(compact_blocks(bs)) == blocks_output(bs),
        blocks_output(compact_blocks(bs)) == blocks_output(bs),
    decreases bs.len(),
{
    let cbs = compact_blocks(bs);
    if bs.len() == 0 {
        assert(blocks_chars(cbs) =~= blocks_output(bs));
        assert(blocks_output(cbs) =~= blocks_output(bs));
    } else {
        lemma_compact_block(bs[0]);
        lemma_compact_blocks(bs.skip(1));
        let head = compact_block(bs[0]);
        let tail = compact_blocks(bs.skip(1));
        assert(cbs[0] == head);
        assert(cbs.skip(1) =~= tail);
        assert(forall|i: int| 0 <= i < cbs.len() ==> plain_block(#[trigger] cbs[i])) by {
            assert(forall|i: int| 0 < i < cbs.len() ==> cbs[i] == tail[i - 1]);
        }
        assert(blocks_chars(cbs) == block_chars(head) + blocks_chars(tail));
        assert(blocks_chars(cbs) =~= blocks_output(bs));
        assert(blocks_output(cbs) == words_cat(head.pieces) + seq![';'] + blocks_output(tail));
        assert(blocks_output(cbs) =~= blocks_output(bs));
    }
}

/// Idempotence on already-stripped input: transforming plain input twice
/// emits the same text as transforming it once. The restriction to plain
/// input is essential: the first pass glues the words of a statement
/// together, and on input whose glued words spell a pausing keyword a
/// second pass strips what the first one left.
pub proof fn lemma_transform_idempotent_on_plain(bs: Seq<PlainBlock>)
    requires
        plain_blocks(bs),
    ensures
        spec_transform(spec_transform(blocks_chars(bs))) == spec_transform(blocks_chars(bs)),
{
    lemma_transform_plain(bs);
    lemma_compact_blocks(bs);
    lemma_transform_plain(compact_blocks(bs));
}

} // verus!
