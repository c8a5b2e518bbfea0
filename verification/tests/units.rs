//! Unit tests of the pause machines, the classifier, the separator table,
//! and the driver's methods.

use typestrip::ast::NodeASTType;
use typestrip::parser::Tree;
use typestrip::parser::seperator;
use typestrip::pauser::CommentPauser;
use typestrip::pauser::KeywordAsPauser;
use typestrip::pauser::KeywordDeclarePauser;
use typestrip::pauser::KeywordTypePauser;
use typestrip::pauser::NotPauser;
use typestrip::pauser::Pauser;

#[test]
fn not_pauser_never_resumes() {
    let mut p = NotPauser::new();
    assert!(p.is_paused_after_evaluating(NodeASTType::Terminator));
    assert!(p.is_paused_after_evaluating(NodeASTType::EOL));
}

#[test]
fn comment_pauser_single_line_ends_with_the_line() {
    let mut p = CommentPauser::new();
    assert!(p.is_paused_after_evaluating(NodeASTType::CommentLine));
    assert!(p.is_paused_after_evaluating(NodeASTType::Identifier));
    assert!(!p.is_paused_after_evaluating(NodeASTType::EOL));
    assert!(!p.is_paused_after_evaluating(NodeASTType::VariableDeclarator));
}

#[test]
fn comment_pauser_holds_no_pause_when_fresh() {
    let mut p = CommentPauser::new();
    assert!(!p.is_paused_after_evaluating(NodeASTType::Identifier));
    assert!(!p.is_paused_after_evaluating(NodeASTType::Terminator));
    assert!(!p.is_paused_after_evaluating(NodeASTType::EOL));
}

#[test]
fn comment_pauser_multiline_ends_with_closer() {
    let mut p = CommentPauser::new();
    assert!(p.is_paused_after_evaluating(NodeASTType::CommentMultilineOpener));
    assert!(p.is_paused_after_evaluating(NodeASTType::Identifier));
    assert!(p.is_paused_after_evaluating(NodeASTType::Terminator));
    assert!(p.is_paused_after_evaluating(NodeASTType::CommentMultilineCloser));
    assert!(!p.is_paused_after_evaluating(NodeASTType::Identifier));
}

#[test]
fn type_pauser_object_shape_ends_at_balanced_terminator() {
    let mut p = KeywordTypePauser::new();
    assert!(p.is_paused_after_evaluating(NodeASTType::Identifier));
    assert!(p.is_paused_after_evaluating(NodeASTType::AssignmentOperator));
    assert!(p.is_paused_after_evaluating(NodeASTType::OpeningBracket));
    assert!(p.is_paused_after_evaluating(NodeASTType::Identifier));
    assert!(p.is_paused_after_evaluating(NodeASTType::ClosingBracket));
    assert!(!p.is_paused_after_evaluating(NodeASTType::Terminator));
}

#[test]
fn type_pauser_bare_identifier_resumes_right_after_it() {
    let mut p = KeywordTypePauser::new();
    assert!(p.is_paused_after_evaluating(NodeASTType::AssignmentOperator));
    assert!(p.is_paused_after_evaluating(NodeASTType::Identifier));
    assert!(!p.is_paused_after_evaluating(NodeASTType::Terminator));
}

#[test]
fn type_pauser_unknown_shape_falls_back_to_terminator() {
    let mut p = KeywordTypePauser::new();
    assert!(p.is_paused_after_evaluating(NodeASTType::AssignmentOperator));
    assert!(p.is_paused_after_evaluating(NodeASTType::DoubleQuote));
    assert!(p.is_paused_after_evaluating(NodeASTType::Identifier));
    assert!(!p.is_paused_after_evaluating(NodeASTType::Terminator));
}

#[test]
fn declare_pauser_resumes_on_balanced_brackets() {
    let mut p = KeywordDeclarePauser::new();
    assert!(p.is_paused_after_evaluating(NodeASTType::OpeningBracket));
    assert!(p.is_paused_after_evaluating(NodeASTType::Identifier));
    assert!(p.is_paused_after_evaluating(NodeASTType::OpeningBracket));
    assert!(p.is_paused_after_evaluating(NodeASTType::ClosingBracket));
    assert!(!p.is_paused_after_evaluating(NodeASTType::ClosingBracket));
}

#[test]
fn declare_pauser_without_brackets_resumes_on_terminator() {
    let mut p = KeywordDeclarePauser::new();
    assert!(p.is_paused_after_evaluating(NodeASTType::VariableDeclarator));
    assert!(p.is_paused_after_evaluating(NodeASTType::Identifier));
    assert!(!p.is_paused_after_evaluating(NodeASTType::Terminator));
}

#[test]
fn declare_pauser_stays_paused_while_unbalanced() {
    let mut p = KeywordDeclarePauser::new();
    assert!(p.is_paused_after_evaluating(NodeASTType::OpeningBracket));
    assert!(p.is_paused_after_evaluating(NodeASTType::OpeningBracket));
    assert!(p.is_paused_after_evaluating(NodeASTType::ClosingBracket));
    assert!(p.is_paused_after_evaluating(NodeASTType::Terminator));
}

#[test]
fn as_pauser_resumes_on_terminator() {
    let mut p = KeywordAsPauser::new();
    assert!(p.is_paused_after_evaluating(NodeASTType::Identifier));
    assert!(!p.is_paused_after_evaluating(NodeASTType::Terminator));
}

#[test]
fn seperator_table_spaces_exactly_the_declaration_kinds() {
    assert_eq!(seperator(NodeASTType::KeywordFunction), " ");
    assert_eq!(seperator(NodeASTType::ExportDeclaration), " ");
    assert_eq!(seperator(NodeASTType::VariableDeclarator), " ");
    assert_eq!(seperator(NodeASTType::VariableDeclaration), " ");
    assert_eq!(seperator(NodeASTType::AssignmentOperator), " ");
    assert_eq!(seperator(NodeASTType::Identifier), "");
    assert_eq!(seperator(NodeASTType::Terminator), "");
    assert_eq!(seperator(NodeASTType::OpeningBracket), "");
}

#[test]
fn kind_names_match_their_variants() {
    assert_eq!(NodeASTType::KeywordDeclare.name(), "KeywordDeclare");
    assert_eq!(NodeASTType::VariableTypeSeperator.name(), "VariableTypeSeperator");
    assert_eq!(NodeASTType::Unknown.name(), "Unknown");
    assert_eq!(NodeASTType::Module.name(), "Module");
}

#[test]
fn detect_type_classifies_fixed_texts() {
    let tree = Tree::new();
    assert_eq!(tree.detect_type(String::from("declare")), NodeASTType::KeywordDeclare);
    assert_eq!(tree.detect_type(String::from("interface")), NodeASTType::KeywordInterface);
    assert_eq!(tree.detect_type(String::from("const")), NodeASTType::VariableDeclarator);
    assert_eq!(tree.detect_type(String::from("let")), NodeASTType::VariableDeclarator);
    assert_eq!(tree.detect_type(String::from("var")), NodeASTType::VariableDeclarator);
    assert_eq!(tree.detect_type(String::from("function")), NodeASTType::KeywordFunction);
    assert_eq!(tree.detect_type(String::from("as")), NodeASTType::KeywordAs);
    assert_eq!(tree.detect_type(String::from("type")), NodeASTType::KeywordType);
    assert_eq!(tree.detect_type(String::from("{")), NodeASTType::OpeningBracket);
    assert_eq!(tree.detect_type(String::from("}")), NodeASTType::ClosingBracket);
    assert_eq!(tree.detect_type(String::from("||")), NodeASTType::OrStatement);
    assert_eq!(tree.detect_type(String::from("|")), NodeASTType::TypeUnionSeperator);
    assert_eq!(tree.detect_type(String::from(";")), NodeASTType::Terminator);
    assert_eq!(tree.detect_type(String::from("//")), NodeASTType::CommentLine);
    assert_eq!(tree.detect_type(String::from("/*")), NodeASTType::CommentMultilineOpener);
    assert_eq!(tree.detect_type(String::from("*/")), NodeASTType::CommentMultilineCloser);
    assert_eq!(tree.detect_type(String::from("\n")), NodeASTType::EOL);
    assert_eq!(tree.detect_type(String::from("")), NodeASTType::WhiteSpace);
    assert_eq!(tree.detect_type(String::from("=")), NodeASTType::AssignmentOperator);
    assert_eq!(tree.detect_type(String::from("anything")), NodeASTType::Identifier);
}

#[test]
fn detect_type_resolves_colon_from_context() {
    let mut tree = Tree::new();
    assert_eq!(tree.detect_type(String::from(":")), NodeASTType::Unknown);
    tree.update_current_value("const");
    tree.commit();
    tree.update_current_value("x");
    tree.commit();
    assert_eq!(tree.detect_type(String::from(":")), NodeASTType::VariableTypeSeperator);
}

#[test]
fn commit_builds_the_chain_and_the_output() {
    let mut tree = Tree::new();
    assert_eq!(tree.last_node().node_type, NodeASTType::Module);
    tree.update_current_value("const");
    tree.commit();
    assert_eq!(tree.last_node().node_type, NodeASTType::VariableDeclarator);
    tree.update_current_value("x");
    tree.commit();
    assert_eq!(tree.last_node().node_type, NodeASTType::VariableDeclaration);
    let written: String = tree.output.iter().collect();
    assert_eq!(written, "const x ");
}

#[test]
fn pause_and_resume_are_observable() {
    let mut tree = Tree::new();
    assert!(!tree.is_paused);
    tree.pause_writing(NodeASTType::KeywordAs);
    assert!(tree.is_paused);
    tree.consider_resuming_writing(NodeASTType::Identifier);
    assert!(tree.is_paused);
    tree.consider_resuming_writing(NodeASTType::Terminator);
    assert!(!tree.is_paused);
}

#[test]
fn line_comment_releases_on_its_end_of_line() {
    let mut tree = Tree::new();
    tree.update_current_value("//");
    tree.commit();
    assert!(tree.is_paused);
    tree.update_current_value("\n");
    tree.commit();
    assert!(!tree.is_paused);
    let written: String = tree.output.iter().collect();
    assert_eq!(written, "");
}

#[test]
fn lifting_keyword_reactivates_suppression() {
    let mut tree = Tree::new();
    tree.update_current_value("/*");
    tree.commit();
    assert!(tree.is_paused);
    tree.update_current_value("*/");
    tree.commit();
    assert!(tree.is_paused);
    tree.update_current_value("declare");
    tree.commit();
    assert!(tree.is_paused);
    let written: String = tree.output.iter().collect();
    assert_eq!(written, "");
}

#[test]
fn suppressed_tokens_are_chained_but_not_written() {
    let mut tree = Tree::new();
    tree.update_current_value("declare");
    tree.commit();
    assert!(tree.is_paused);
    tree.update_current_value("secret");
    tree.commit();
    assert_eq!(tree.last_node().node_type, NodeASTType::Identifier);
    let value: String = tree.last_node().value.iter().collect();
    assert_eq!(value, "secret");
    let written: String = tree.output.iter().collect();
    assert_eq!(written, "");
}
