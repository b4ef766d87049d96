use clippy_lints::nonstandard_macro_braces::{
    braces_suggestion, macro_braces, BraceFinding, Conf, LintHelp, MacroBraces, MacroMatcher,
};
use clippy_lints::token::{Delimiter, Span, TokenKind, TokenTree};

fn default_check() -> MacroBraces {
    MacroBraces::new(&Conf { standard_macro_braces: Vec::new() })
}

fn matcher(name: &str, braces: (char, char)) -> MacroMatcher {
    MacroMatcher { name: name.to_string(), braces }
}

fn ident(name: &str, lo: u32) -> TokenTree {
    TokenTree::Token(TokenKind::Ident(name.to_string()), Span { lo, hi: lo + name.len() as u32 })
}

fn bang(lo: u32) -> TokenTree {
    TokenTree::Token(TokenKind::Bang, Span { lo, hi: lo + 1 })
}

fn other(lo: u32) -> TokenTree {
    TokenTree::Token(TokenKind::Other, Span { lo, hi: lo + 1 })
}

fn group(lo: u32, hi: u32, delim: Delimiter, inner: Vec<TokenTree>) -> TokenTree {
    TokenTree::Delimited(Span { lo, hi }, delim, inner)
}

#[test]
fn vec_with_curly_braces_is_reported() {
    let check = default_check();
    assert_eq!(check.check_mac("vec", Some("vec!{1, 2, 3}")), Some(('[', ']')));
}

#[test]
fn vec_with_brackets_is_fine() {
    let check = default_check();
    assert_eq!(check.check_mac("vec", Some("vec![1, 2, 3]")), None);
}

#[test]
fn every_default_macro_is_checked() {
    let check = default_check();
    for name in ["print", "println", "eprint", "eprintln", "write", "writeln", "format", "format_args", "matches"] {
        assert_eq!(check.check_mac(name, Some(&format!("{name}!{{x}}"))), Some(('(', ')')));
        assert_eq!(check.check_mac(name, Some(&format!("{name}![x]"))), Some(('(', ')')));
        assert_eq!(check.check_mac(name, Some(&format!("{name}!(x)"))), None);
    }
    assert_eq!(check.check_mac("vec", Some("vec!(1)")), Some(('[', ']')));
}

#[test]
fn whitespace_between_bang_and_brace_is_skipped() {
    let check = default_check();
    assert_eq!(check.check_mac("vec", Some("vec! \n\t{1}")), Some(('[', ']')));
    assert_eq!(check.check_mac("vec", Some("vec!\u{3000}[1]")), None);
}

#[test]
fn unknown_macro_is_not_checked() {
    let check = default_check();
    assert_eq!(check.check_mac("dbg", Some("dbg!{x}")), None);
}

#[test]
fn missing_or_odd_snippet_is_not_reported() {
    let check = default_check();
    assert_eq!(check.check_mac("vec", None), None);
    assert_eq!(check.check_mac("vec", Some("vecx!{1}")), None);
    assert_eq!(check.check_mac("vec", Some("vec !{1}")), None);
    assert_eq!(check.check_mac("vec", Some("vec!")), None);
    assert_eq!(check.check_mac("vec", Some("vec!<1>")), None);
    assert_eq!(check.check_mac("vec", Some("ve")), None);
}

#[test]
fn configured_braces_override_defaults() {
    let check = MacroBraces::new(&Conf { standard_macro_braces: vec![matcher("vec", ('(', ')'))] });
    assert_eq!(check.check_mac("vec", Some("vec!(1)")), None);
    assert_eq!(check.check_mac("vec", Some("vec![1]")), Some(('(', ')')));
    assert_eq!(check.check_mac("println", Some("println!{}")), Some(('(', ')')));
}

#[test]
fn configured_macro_is_added() {
    let check = MacroBraces::new(&Conf { standard_macro_braces: vec![matcher("quote", ('{', '}'))] });
    assert_eq!(check.check_mac("quote", Some("quote!(x)")), Some(('{', '}')));
    assert_eq!(check.check_mac("quote", Some("quote!{x}")), None);
}

#[test]
fn last_configured_entry_wins() {
    let check = MacroBraces::new(&Conf {
        standard_macro_braces: vec![matcher("quote", ('(', ')')), matcher("quote", ('[', ']'))],
    });
    assert_eq!(check.check_mac("quote", Some("quote!(x)")), Some(('[', ']')));
    assert_eq!(check.check_mac("quote", Some("quote![x]")), None);
}

#[test]
fn table_holds_defaults_and_configuration() {
    let (table, max_len) = macro_braces(&[]);
    assert_eq!(table.get("vec"), Some(('[', ']')));
    assert_eq!(table.get("format_args"), Some(('(', ')')));
    assert_eq!(table.get("dbg"), None);
    assert_eq!(max_len, 11);

    let (table, max_len) = macro_braces(&[matcher("a_really_long_macro_name", ('{', '}')), matcher("vec", ('{', '}'))]);
    assert_eq!(table.get("a_really_long_macro_name"), Some(('{', '}')));
    assert_eq!(table.get("vec"), Some(('{', '}')));
    assert_eq!(table.get("print"), Some(('(', ')')));
    assert_eq!(max_len, 24);
}

#[test]
fn max_len_counts_bytes() {
    // Five characters, ten bytes in UTF-8.
    let (_, max_len) = macro_braces(&[matcher("ééééé", ('(', ')'))]);
    assert_eq!(max_len, 11);
    let (_, max_len) = macro_braces(&[matcher("éééééééé", ('(', ')'))]);
    assert_eq!(max_len, 16);
}

#[test]
fn suggestion_for_the_documented_example() {
    let help = braces_suggestion("vec!{1, 2, 3}", ('[', ']'), false).unwrap();
    assert_eq!(
        help,
        LintHelp {
            msg: "use of irregular braces for `vec!` macro".to_string(),
            help: "consider writing".to_string(),
            sugg: "vec![1, 2, 3]".to_string(),
        }
    );
}

#[test]
fn suggestion_with_semicolon() {
    let help = braces_suggestion("vec!{1, 2, 3}", ('[', ']'), true).unwrap();
    assert_eq!(help.sugg, "vec![1, 2, 3];");
}

#[test]
fn suggestion_keeps_path_and_trims_arguments() {
    let help = braces_suggestion("std::vec! { 1 } ", ('[', ']'), false).unwrap();
    assert_eq!(help.msg, "use of irregular braces for `std::vec!` macro");
    assert_eq!(help.sugg, "std::vec![ 1 ]");
    let help = braces_suggestion("println!{}", ('(', ')'), false).unwrap();
    assert_eq!(help.sugg, "println!()");
}

#[test]
fn suggestion_needs_a_bang() {
    assert_eq!(braces_suggestion("vec{1}", ('[', ']'), false), None);
}

#[test]
fn suggestion_is_not_reported_again() {
    let check = default_check();
    let snip = "vec! {1, 2}";
    let braces = check.check_mac("vec", Some(snip)).unwrap();
    let help = braces_suggestion(snip, braces, false).unwrap();
    assert_eq!(help.sugg, "vec![1, 2]");
    assert_eq!(check.check_mac("vec", Some(&help.sugg)), None);
}

#[test]
fn macro_body_is_checked_only_for_macro_rules() {
    let check = default_check();
    // vec!{1}
    let body = vec![ident("vec", 10), bang(13), group(14, 17, Delimiter::Brace, vec![other(15)])];
    assert_eq!(check.check_mac_def(false, &body), Vec::new());
    assert_eq!(
        check.check_mac_def(true, &body),
        vec![BraceFinding { lo: 10, hi: 17, braces: ('[', ']') }]
    );
}

#[test]
fn macro_body_findings_follow_brace_groups_only() {
    let check = default_check();
    // { println![x] } ( vec!{} ) vec![] format!{} <invisible: print!{}>
    let body = vec![
        group(0, 20, Delimiter::Brace, vec![ident("println", 2), bang(9), group(10, 13, Delimiter::Bracket, vec![other(11)])]),
        group(21, 31, Delimiter::Parenthesis, vec![ident("vec", 22), bang(25), group(26, 28, Delimiter::Brace, vec![])]),
        ident("vec", 32),
        bang(35),
        group(36, 38, Delimiter::Bracket, vec![]),
        ident("format", 39),
        bang(45),
        group(46, 48, Delimiter::Brace, vec![]),
        group(49, 60, Delimiter::Invisible, vec![ident("print", 49), bang(54), group(55, 57, Delimiter::Brace, vec![])]),
    ];
    assert_eq!(
        check.check_mac_def(true, &body),
        vec![
            BraceFinding { lo: 2, hi: 13, braces: ('(', ')') },
            BraceFinding { lo: 39, hi: 48, braces: ('(', ')') },
        ]
    );
}

#[test]
fn macro_body_needs_bang_and_group() {
    let check = default_check();
    let body = vec![
        ident("vec", 0),
        other(3),
        group(4, 6, Delimiter::Brace, vec![]),
        ident("vec", 7),
        bang(10),
        ident("vec", 11),
        ident("vec", 14),
        bang(17),
    ];
    assert_eq!(check.check_mac_def(true, &body), Vec::new());
}

#[test]
fn nested_brace_groups_are_searched() {
    let check = MacroBraces::new(&Conf { standard_macro_braces: vec![matcher("quote", ('[', ']'))] });
    let body = vec![group(
        0,
        40,
        Delimiter::Brace,
        vec![group(1, 39, Delimiter::Brace, vec![ident("quote", 2), bang(7), group(8, 12, Delimiter::Parenthesis, vec![])])],
    )];
    assert_eq!(check.check_mac_def(true, &body), vec![BraceFinding { lo: 2, hi: 12, braces: ('[', ']') }]);
}
