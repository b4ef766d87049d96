//! Checks that common macros are used with consistent bracing, e.g. that
//! `vec!{1, 2, 3}` is written `vec![1, 2, 3]`.
//!
//! The table of expected braces starts from the well-known macros of std
//! and takes the user's configured macros on top, the user's entries
//! overriding the defaults. Macro calls are checked one by one
//! (`check_mac`) and inside the bodies of `macro_rules!` definitions
//! (`check_mac_def`); `braces_suggestion` builds the rewritten call.
use vstd::prelude::*;

use crate::brace_table::{is_max_name_len, BraceTable, Braces};
use crate::text::{
    first_char, has_prefix, is_white_space, lemma_find_char_at, push_char, skip_white_space,
    split_once_char, split_once_seq, strip_prefix, strip_prefix_char, strip_prefix_seq, trim,
    trim_seq, trim_start, trim_start_seq,
};
use crate::token::{delimiter_open, open_of, Delimiter, Span, TokenKind, TokenTree};

verus! {

/// A macro and the braces it is to be called with, as the user configures
/// it.
#[derive(Debug)]
pub struct MacroMatcher {
    pub name: String,
    pub braces: Braces,
}

/// The part of the configuration that the brace check reads.
#[derive(Debug)]
pub struct Conf {
    /// Macros, with their braces, that the user adds to or overrides in the
    /// default table.
    pub standard_macro_braces: Vec<MacroMatcher>,
}

/// A macro call inside a macro definition whose brackets differ from the
/// configured ones: the span from the macro's name to the end of its
/// argument group, and the braces it should have.
#[derive(Clone, Copy, Debug, PartialEq, Eq)]
pub struct BraceFinding {
    pub lo: u32,
    pub hi: u32,
    pub braces: Braces,
}

/// The message, help and suggested replacement of one lint report.
#[derive(Debug, PartialEq, Eq)]
pub struct LintHelp {
    pub msg: String,
    pub help: String,
    pub sugg: String,
}

/// Whether `c` opens a bracketed macro argument list.
pub open spec fn is_open_brace(c: char) -> bool {
    c == '{' || c == '(' || c == '['
}

/// The braces of the well-known macros of std.
pub open spec fn default_macro_braces() -> Map<Seq<char>, Braces> {
    Map::empty().insert("print"@, ('(', ')')).insert("println"@, ('(', ')')).insert(
        "eprint"@,
        ('(', ')'),
    ).insert("eprintln"@, ('(', ')')).insert("write"@, ('(', ')')).insert(
        "writeln"@,
        ('(', ')'),
    ).insert("format"@, ('(', ')')).insert("format_args"@, ('(', ')')).insert(
        "vec"@,
        ('[', ']'),
    ).insert("matches"@, ('(', ')'))
}

/// The default table with the configured macros set on top, in order, so
/// that a later entry for a name overrides an earlier one and the defaults.
pub open spec fn configured_braces(conf: Seq<MacroMatcher>) -> Map<Seq<char>, Braces>
    decreases conf.len(),
{
    if conf.len() == 0 {
        default_macro_braces()
    } else {
        configured_braces(conf.drop_last()).insert(conf.last().name@, conf.last().braces)
    }
}

/// The braces a macro call is to be reported with, given the macro's name
/// and the source text of the call from that name on: the call must be the
/// name, `!`, then (after whitespace) an opening bracket other than the
/// configured one.
pub open spec fn mac_call_braces(
    braces: Map<Seq<char>, Braces>,
    name: Seq<char>,
    snip: Option<Seq<char>>,
) -> Option<Braces> {
    if !braces.contains_key(name) {
        None
    } else {
        match snip {
            None => None,
            Some(s) => match strip_prefix_seq(s, name) {
                None => None,
                Some(rest) => match strip_prefix_seq(rest, seq!['!']) {
                    None => None,
                    Some(args) => {
                        let a = trim_start_seq(args);
                        if a.len() > 0 && is_open_brace(a[0]) && a[0] != braces[name].0 {
                            Some(braces[name])
                        } else {
                            None
                        }
                    },
                },
            },
        }
    }
}

/// The finding for an identifier followed by `bang` and `group`, if they
/// form a call of a known macro with other brackets than its configured ones.
pub open spec fn macro_call_finding(
    braces: Map<Seq<char>, Braces>,
    name: Seq<char>,
    span: Span,
    bang: TokenTree,
    group: TokenTree,
) -> Seq<BraceFinding> {
    match (bang, group) {
        (TokenTree::Token(TokenKind::Bang, _), TokenTree::Delimited(group_span, delim, _)) => {
            match delimiter_open(delim) {
                Some(open) => if braces.contains_key(name) && open != braces[name].0 {
                    seq![BraceFinding { lo: span.lo, hi: group_span.hi, braces: braces[name] }]
                } else {
                    seq![]
                },
                None => seq![],
            }
        },
        _ => seq![],
    }
}

/// The findings among the first `n` token trees of `ts`, in order: macro
/// calls `name ! (..)` with unexpected brackets, and those inside
/// brace-delimited groups.
pub open spec fn body_findings(
    braces: Map<Seq<char>, Braces>,
    ts: Seq<TokenTree>,
    n: nat,
) -> Seq<BraceFinding>
    decreases ts, n,
{
    if n == 0 || n > ts.len() {
        seq![]
    } else {
        let i = n - 1;
        body_findings(braces, ts, (n - 1) as nat) + match ts[i] {
            TokenTree::Delimited(_, Delimiter::Brace, inner) => body_findings(
                braces,
                inner@,
                inner@.len(),
            ),
            TokenTree::Token(TokenKind::Ident(name), span) => if i + 2 < ts.len() {
                macro_call_finding(braces, name@, span, ts[i + 1], ts[i + 2])
            } else {
                seq![]
            },
            _ => seq![],
        }
    }
}

/// The report for a call whose source text is `snip`: the macro's name is
/// what precedes the first `!`, and the suggestion puts the trimmed
/// arguments, without their old brackets, between `braces`.
pub open spec fn braces_help(snip: Seq<char>, braces: Braces, add_semi: bool) -> Option<
    (Seq<char>, Seq<char>, Seq<char>),
> {
    match split_once_seq(snip, '!') {
        None => None,
        Some((name, rest)) => {
            let args = trim_seq(rest);
            let inner = args.subrange(1, args.len() - 1);
            let semi = if add_semi {
                seq![';']
            } else {
                Seq::<char>::empty()
            };
            Some(
                (
                    "use of irregular braces for `"@ + name + "!` macro"@,
                    "consider writing"@,
                    name + seq!['!', braces.0] + inner + seq![braces.1] + semi,
                ),
            )
        },
    }
}

/// A configured macro that no later entry names again is to be called with
/// the braces of that entry, whatever the defaults say of it.
pub proof fn law_last_configured_entry_wins(conf: Seq<MacroMatcher>, i: int)
    requires
        0 <= i < conf.len(),
        forall|j: int| i < j < conf.len() ==> conf[j].name@ != conf[i].name@,
    ensures
        configured_braces(conf).contains_key(conf[i].name@),
        configured_braces(conf)[conf[i].name@] == conf[i].braces,
    decreases conf.len(),
{
    if i < conf.len() - 1 {
        let rest = conf.drop_last();
        assert(rest[i] == conf[i]);
        assert forall|j: int| i < j < rest.len() implies rest[j].name@ != rest[i].name@ by {
            assert(rest[j] == conf[j]);
        }
        law_last_configured_entry_wins(rest, i);
    }
}

/// A macro that the configuration does not name keeps its default braces,
/// and is in the table only if it is among the defaults.
pub proof fn law_unconfigured_macro_keeps_default(conf: Seq<MacroMatcher>, name: Seq<char>)
    requires
        forall|j: int| 0 <= j < conf.len() ==> conf[j].name@ != name,
    ensures
        configured_braces(conf).contains_key(name) == default_macro_braces().contains_key(name),
        default_macro_braces().contains_key(name) ==> configured_braces(conf)[name]
            == default_macro_braces()[name],
    decreases conf.len(),
{
    if conf.len() > 0 {
        let rest = conf.drop_last();
        assert forall|j: int| 0 <= j < rest.len() implies rest[j].name@ != name by {
            assert(rest[j] == conf[j]);
        }
        assert(conf.last().name@ != name);
        law_unconfigured_macro_keeps_default(rest, name);
    }
}

/// The suggested rewrite of a reported call is not reported again: a call
/// `name!..` that `check_mac` reports with `braces`, rewritten as
/// `braces_suggestion` suggests, passes `check_mac`. (The macro's name holds
/// no `!`, and the configured opening bracket is not whitespace.)
pub proof fn law_suggestion_is_not_reported(
    braces: Map<Seq<char>, Braces>,
    name: Seq<char>,
    snip: Seq<char>,
    add_semi: bool,
)
    requires
        mac_call_braces(braces, name, Some(snip)) is Some,
        forall|k: int| 0 <= k < name.len() ==> name[k] != '!',
        !is_white_space(braces[name].0),
    ensures
        braces_help(snip, braces[name], add_semi) matches Some((_, _, sugg)) && has_prefix(
            sugg,
            name + seq!['!'],
        ) && mac_call_braces(braces, name, Some(sugg)) is None,
{
    let b = braces[name];
    let n = name.len() as int;
    assert(snip.take(n) == name);
    let rest = snip.skip(n);
    assert(rest.take(1) == seq!['!']);
    assert(rest[0] == rest.take(1)[0]);
    assert(snip[n] == rest[0]);
    assert forall|j: int| 0 <= j < n implies snip[j] != '!' by {
        assert(snip.take(n)[j] == snip[j]);
    }
    lemma_find_char_at(snip, '!', 0, n);
    let (before, after) = split_once_seq(snip, '!').unwrap();
    assert(before =~= name);
    let args = trim_seq(after);
    let inner = args.subrange(1, args.len() - 1);
    let semi = if add_semi {
        seq![';']
    } else {
        Seq::<char>::empty()
    };
    let sugg = name + seq!['!', b.0] + inner + seq![b.1] + semi;
    assert(sugg.take(n + 1) =~= name + seq!['!']);
    assert(sugg.take(n) =~= name);
    let rest2 = sugg.skip(n);
    assert(rest2.take(1) =~= seq!['!']);
    let args2 = rest2.skip(1);
    assert(args2[0] == b.0);
    assert(skip_white_space(args2, 0) == 0);
    assert(trim_start_seq(args2)[0] == b.0);
}

/// `b` is the brace pair of some macro in the table.
pub open spec fn is_configured_pair(braces: Map<Seq<char>, Braces>, b: Braces) -> bool {
    exists|name: Seq<char>| braces.contains_key(name) && braces[name] == b
}

/// Every finding in a macro body carries the braces that the table holds
/// for some macro.
pub proof fn law_findings_carry_configured_braces(
    braces: Map<Seq<char>, Braces>,
    ts: Seq<TokenTree>,
    n: nat,
)
    ensures
        forall|k: int|
            0 <= k < body_findings(braces, ts, n).len() ==> is_configured_pair(
                braces,
                #[trigger] body_findings(braces, ts, n)[k].braces,
            ),
    decreases ts, n,
{
    if n != 0 && n <= ts.len() {
        let i = n - 1;
        law_findings_carry_configured_braces(braces, ts, (n - 1) as nat);
        let prev = body_findings(braces, ts, (n - 1) as nat);
        let all = body_findings(braces, ts, n);
        match ts[i] {
            TokenTree::Delimited(_, Delimiter::Brace, inner) => {
                law_findings_carry_configured_braces(braces, inner@, inner@.len());
                let more = body_findings(braces, inner@, inner@.len());
                assert(all == prev + more);
                assert forall|k: int| 0 <= k < all.len() implies is_configured_pair(
                    braces,
                    #[trigger] all[k].braces,
                ) by {
                    if k >= prev.len() {
                        assert(all[k] == more[k - prev.len()]);
                    } else {
                        assert(all[k] == prev[k]);
                    }
                }
            },
            TokenTree::Token(TokenKind::Ident(name), span) => {
                let more = if i + 2 < ts.len() {
                    macro_call_finding(braces, name@, span, ts[i + 1], ts[i + 2])
                } else {
                    seq![]
                };
                assert(all == prev + more);
                assert forall|k: int| 0 <= k < all.len() implies is_configured_pair(
                    braces,
                    #[trigger] all[k].braces,
                ) by {
                    if k >= prev.len() {
                        assert(all[k] == more[k - prev.len()]);
                        assert(braces.contains_key(name@) && braces[name@] == all[k].braces);
                    } else {
                        assert(all[k] == prev[k]);
                    }
                }
            },
            _ => {
                assert(all =~= prev);
            },
        }
    }
}

/// The findings of the first `n` trees of a body start the findings of any
/// longer prefix: later trees only add findings after them.
pub proof fn lemma_findings_prefix(braces: Map<Seq<char>, Braces>, ts: Seq<TokenTree>, n: nat, m: nat)
    requires
        n <= m <= ts.len(),
    ensures
        body_findings(braces, ts, n).len() <= body_findings(braces, ts, m).len(),
        body_findings(braces, ts, m).take(body_findings(braces, ts, n).len() as int)
            == body_findings(braces, ts, n),
    decreases m,
{
    let f_n = body_findings(braces, ts, n);
    if m == n {
        assert(f_n.take(f_n.len() as int) =~= f_n);
    } else {
        lemma_findings_prefix(braces, ts, n, (m - 1) as nat);
        let f_prev = body_findings(braces, ts, (m - 1) as nat);
        let f_m = body_findings(braces, ts, m);
        assert(f_m.take(f_prev.len() as int) =~= f_prev);
        assert(f_m.take(f_n.len() as int) =~= f_prev.take(f_n.len() as int));
    }
}

/// Every brace-delimited group of a macro body is searched, whatever trees
/// precede it: the findings of the group's own trees appear, in order and
/// contiguously, in the findings of the body, right after those of the
/// trees before the group.
pub proof fn law_brace_group_is_searched(
    braces: Map<Seq<char>, Braces>,
    ts: Seq<TokenTree>,
    i: int,
)
    requires
        0 <= i < ts.len(),
        ts[i] is Delimited,
        ts[i]->Delimited_1 == Delimiter::Brace,
    ensures
        ({
            let searched = body_findings(braces, ts, i as nat) + body_findings(
                braces,
                ts[i]->Delimited_2@,
                ts[i]->Delimited_2@.len(),
            );
            &&& searched.len() <= body_findings(braces, ts, ts.len()).len()
            &&& body_findings(braces, ts, ts.len()).take(searched.len() as int) == searched
        }),
{
    let before = body_findings(braces, ts, i as nat);
    let inner = body_findings(braces, ts[i]->Delimited_2@, ts[i]->Delimited_2@.len());
    let upto = body_findings(braces, ts, (i + 1) as nat);
    assert(upto == before + inner);
    lemma_findings_prefix(braces, ts, (i + 1) as nat, ts.len());
}

/// A tree that is neither a brace-delimited group nor an identifier adds no
/// findings: parenthesized, bracketed and invisible groups are not searched,
/// and `!` and other tokens report nothing by themselves.
pub proof fn law_other_trees_add_nothing(
    braces: Map<Seq<char>, Braces>,
    ts: Seq<TokenTree>,
    i: int,
)
    requires
        0 <= i < ts.len(),
        !(ts[i] is Delimited && ts[i]->Delimited_1 == Delimiter::Brace),
        !(ts[i] is Token && ts[i]->Token_0 is Ident),
    ensures
        body_findings(braces, ts, (i + 1) as nat) == body_findings(braces, ts, i as nat),
{
    let prev = body_findings(braces, ts, i as nat);
    assert(body_findings(braces, ts, (i + 1) as nat) =~= prev);
}

/// A body made of a single parenthesized, bracketed or invisible group has
/// no findings, whatever the group holds.
pub proof fn law_non_brace_group_alone_has_no_findings(
    braces: Map<Seq<char>, Braces>,
    span: Span,
    delim: Delimiter,
    inner: Vec<TokenTree>,
)
    requires
        delim != Delimiter::Brace,
    ensures
        body_findings(braces, seq![TokenTree::Delimited(span, delim, inner)], 1).len() == 0,
{
    let ts = seq![TokenTree::Delimited(span, delim, inner)];
    law_other_trees_add_nothing(braces, ts, 0);
}

/// The suggestion for a call `name!args` (the name holding no `!`) is the
/// name, `!`, and the trimmed arguments with their first character replaced
/// by the opening brace and their last by the closing one, every character
/// between them kept; then `;` if asked for. The message names `name!`.
pub proof fn law_suggestion_keeps_arguments(
    name: Seq<char>,
    args: Seq<char>,
    braces: Braces,
    add_semi: bool,
)
    requires
        forall|k: int| 0 <= k < name.len() ==> name[k] != '!',
        trim_seq(args).len() >= 2,
    ensures
        ({
            let t = trim_seq(args);
            let semi = if add_semi {
                seq![';']
            } else {
                Seq::<char>::empty()
            };
            braces_help(name + seq!['!'] + args, braces, add_semi) == Some(
                (
                    "use of irregular braces for `"@ + name + "!` macro"@,
                    "consider writing"@,
                    name + seq!['!'] + t.update(0, braces.0).update(t.len() - 1, braces.1) + semi,
                ),
            )
        }),
{
    let snip = name + seq!['!'] + args;
    let n = name.len() as int;
    assert forall|j: int| 0 <= j < n implies snip[j] != '!' by {
        assert(snip[j] == name[j]);
    }
    assert(snip[n] == '!');
    lemma_find_char_at(snip, '!', 0, n);
    assert(snip.take(n) =~= name);
    assert(snip.skip(n + 1) =~= args);
    let t = trim_seq(args);
    let semi = if add_semi {
        seq![';']
    } else {
        Seq::<char>::empty()
    };
    assert(name + seq!['!', braces.0] + t.subrange(1, t.len() - 1) + seq![braces.1] + semi
        =~= name + seq!['!'] + t.update(0, braces.0).update(t.len() - 1, braces.1) + semi);
}

/// The table of an empty configuration holds exactly the ten well-known
/// macros: `vec` with square brackets and `print`, `println`, `eprint`,
/// `eprintln`, `write`, `writeln`, `format`, `format_args` and `matches`
/// with parentheses. With any configuration, a name that no configured entry
/// names is in the table only if it is one of these ten, with these braces.
pub proof fn law_default_table(conf: Seq<MacroMatcher>, k: Seq<char>)
    requires
        forall|j: int| 0 <= j < conf.len() ==> conf[j].name@ != k,
    ensures
        configured_braces(conf).contains_key(k) <==> (k == "print"@ || k == "println"@ || k
            == "eprint"@ || k == "eprintln"@ || k == "write"@ || k == "writeln"@ || k
            == "format"@ || k == "format_args"@ || k == "vec"@ || k == "matches"@),
        k == "vec"@ ==> configured_braces(conf)[k] == ('[', ']'),
        configured_braces(conf).contains_key(k) && k != "vec"@ ==> configured_braces(conf)[k] == (
            '(',
            ')',
        ),
{
    law_unconfigured_macro_keeps_default(conf, k);
    reveal_strlit("print");
    reveal_strlit("println");
    reveal_strlit("eprint");
    reveal_strlit("eprintln");
    reveal_strlit("write");
    reveal_strlit("writeln");
    reveal_strlit("format");
    reveal_strlit("format_args");
    reveal_strlit("vec");
    reveal_strlit("matches");
    assert("matches"@.len() != "vec"@.len());
}

/// A call written as the macro's name, `!`, some whitespace, then a
/// character `c` is reported, with the macro's configured braces, exactly
/// when the macro is in the table and `c` is one of `{`, `(`, `[` other than
/// the configured opening bracket.
pub proof fn law_call_is_reported_for_other_bracket(
    braces: Map<Seq<char>, Braces>,
    name: Seq<char>,
    ws: Seq<char>,
    c: char,
    tail: Seq<char>,
)
    requires
        forall|k: int| 0 <= k < ws.len() ==> is_white_space(#[trigger] ws[k]),
        !is_white_space(c),
    ensures
        mac_call_braces(braces, name, Some(name + seq!['!'] + ws + seq![c] + tail)) == (if braces.contains_key(name) && (c == '{' || c == '(' || c == '[')
            && c != braces[name].0 {
            Some(braces[name])
        } else {
            None
        }),
{
    let snip = name + seq!['!'] + ws + seq![c] + tail;
    let n = name.len() as int;
    assert(snip.take(n) =~= name);
    let rest = snip.skip(n);
    assert(rest.take(1) =~= seq!['!']);
    let args = rest.skip(1);
    assert(args =~= ws + seq![c] + tail);
    assert forall|j: int| 0 <= j <= ws.len() implies skip_white_space(args, j) == ws.len() by {
        lemma_skip_white_space_run(args, ws.len() as int, j);
    }
    assert(trim_start_seq(args) =~= seq![c] + tail);
}

/// Skipping whitespace from anywhere inside a run of whitespace that ends at
/// `end`, just before a non-whitespace character, stops at `end`.
proof fn lemma_skip_white_space_run(s: Seq<char>, end: int, j: int)
    requires
        0 <= j <= end < s.len(),
        forall|k: int| 0 <= k < end ==> is_white_space(#[trigger] s[k]),
        !is_white_space(s[end]),
    ensures
        skip_white_space(s, j) == end,
    decreases end - j,
{
    if j < end {
        lemma_skip_white_space_run(s, end, j + 1);
    }
}

/// A snippet that does not start with the macro's name followed by `!` is
/// never reported.
pub proof fn law_call_needs_name_and_bang(
    braces: Map<Seq<char>, Braces>,
    name: Seq<char>,
    snip: Seq<char>,
)
    requires
        !has_prefix(snip, name + seq!['!']),
    ensures
        mac_call_braces(braces, name, Some(snip)) is None,
{
    if has_prefix(snip, name) {
        let rest = snip.skip(name.len() as int);
        if has_prefix(rest, seq!['!']) {
            assert(snip.take(name.len() + 1 as int) =~= name + seq!['!']);
        }
    }
}

/// In a macro body, an identifier followed by `!` and a group is reported,
/// spanning from the identifier to the end of the group and with the
/// configured braces, exactly when the macro is in the table and the group
/// has an opening bracket other than the configured one; the findings of the
/// trees before it are kept in front.
pub proof fn law_body_call_is_reported(
    braces: Map<Seq<char>, Braces>,
    ts: Seq<TokenTree>,
    i: int,
    name: String,
    span: Span,
    bang_span: Span,
    group_span: Span,
    delim: Delimiter,
    args: Vec<TokenTree>,
)
    requires
        0 <= i && i + 2 < ts.len(),
        ts[i] == TokenTree::Token(TokenKind::Ident(name), span),
        ts[i + 1] == TokenTree::Token(TokenKind::Bang, bang_span),
        ts[i + 2] == TokenTree::Delimited(group_span, delim, args),
    ensures
        body_findings(braces, ts, (i + 1) as nat) == body_findings(braces, ts, i as nat) + (
        if braces.contains_key(name@) && delim != Delimiter::Invisible && delimiter_open(
            delim,
        ).unwrap() != braces[name@].0 {
            seq![BraceFinding { lo: span.lo, hi: group_span.hi, braces: braces[name@] }]
        } else {
            Seq::<BraceFinding>::empty()
        }),
{
}

/// The source text of a snippet, if there is one.
pub open spec fn snippet_view(snip: Option<&str>) -> Option<Seq<char>> {
    match snip {
        Some(s) => Some(s@),
        None => None,
    }
}

/// Whether `c` opens a bracketed macro argument list.
pub fn open_brace(c: char) -> (res: bool)
    ensures
        res == is_open_brace(c),
{
    c == '{' || c == '(' || c == '['
}

/// The table of expected braces: the defaults with `conf` set on top, and
/// the largest of 11 and the byte lengths of the table's names.
pub fn macro_braces(conf: &[MacroMatcher]) -> (res: (BraceTable, usize))
    ensures
        res.0.wf(),
        res.0@ == configured_braces(conf@),
        is_max_name_len(res.0@.dom(), 11, res.1),
{
    let mut braces = BraceTable::new();
    braces.insert(String::from_str("print"), ('(', ')'));
    braces.insert(String::from_str("println"), ('(', ')'));
    braces.insert(String::from_str("eprint"), ('(', ')'));
    braces.insert(String::from_str("eprintln"), ('(', ')'));
    braces.insert(String::from_str("write"), ('(', ')'));
    braces.insert(String::from_str("writeln"), ('(', ')'));
    braces.insert(String::from_str("format"), ('(', ')'));
    braces.insert(String::from_str("format_args"), ('(', ')'));
    braces.insert(String::from_str("vec"), ('[', ']'));
    braces.insert(String::from_str("matches"), ('(', ')'));
    assert(braces@ == configured_braces(conf@.take(0)));
    // The user's items override the existing ones.
    let mut i: usize = 0;
    while i < conf.len()
        invariant
            i <= conf@.len(),
            braces.wf(),
            braces@ == configured_braces(conf@.take(i as int)),
        decreases conf@.len() - i,
    {
        braces.insert(conf[i].name.clone(), conf[i].braces);
        assert(conf@.take(i + 1).drop_last() =~= conf@.take(i as int));
        i = i + 1;
    }
    assert(conf@.take(conf@.len() as int) =~= conf@);
    let max_len = braces.max_name_len(11);
    (braces, max_len)
}

/// The findings in the token trees `ts` (see `body_findings`).
fn check_ts(macro_braces: &BraceTable, ts: &Vec<TokenTree>) -> (res: Vec<BraceFinding>)
    requires
        macro_braces.wf(),
    ensures
        res@ == body_findings(macro_braces@, ts@, ts@.len()),
    decreases ts@,
{
    let len = ts.len();
    let mut out: Vec<BraceFinding> = Vec::new();
    let mut i: usize = 0;
    while i < len
        invariant
            len == ts@.len(),
            i <= len,
            macro_braces.wf(),
            out@ == body_findings(macro_braces@, ts@, i as nat),
        decreases len - i,
    {
        match &ts[i] {
            TokenTree::Delimited(_, Delimiter::Brace, token_stream) => {
                let mut inner = check_ts(macro_braces, token_stream);
                out.append(&mut inner);
            },
            TokenTree::Token(TokenKind::Ident(tident), span) => {
                if len - i > 2 {
                    match (&ts[i + 1], &ts[i + 2]) {
                        (
                            TokenTree::Token(TokenKind::Bang, _),
                            TokenTree::Delimited(group_span, delim, _),
                        ) => {
                            match open_of(*delim) {
                                Some(old_open_brace) => {
                                    match macro_braces.get(tident.as_str()) {
                                        Some(braces) => {
                                            if old_open_brace != braces.0 {
                                                out.push(
                                                    BraceFinding {
                                                        lo: span.lo,
                                                        hi: group_span.hi,
                                                        braces,
                                                    },
                                                );
                                            }
                                        },
                                        None => {},
                                    }
                                },
                                None => {},
                            }
                        },
                        _ => {},
                    }
                }
            },
            _ => {},
        }
        i = i + 1;
    }
    out
}

/// The brace check, with its table of expected braces.
pub struct MacroBraces {
    macro_braces: (BraceTable, usize),
}

impl View for MacroBraces {
    /// The expected braces by macro name, and the largest of 11 and the
    /// byte lengths of those names.
    type V = (Map<Seq<char>, Braces>, usize);

    closed spec fn view(&self) -> (Map<Seq<char>, Braces>, usize) {
        (self.macro_braces.0@, self.macro_braces.1)
    }
}

impl MacroBraces {
    #[verifier::type_invariant]
    closed spec fn table_wf(self) -> bool {
        self.macro_braces.0.wf()
    }

    /// The check for the configuration `conf`.
    pub fn new(conf: &Conf) -> (res: Self)
        ensures
            res@.0 == configured_braces(conf.standard_macro_braces@),
            is_max_name_len(res@.0.dom(), 11, res@.1),
    {
        Self { macro_braces: macro_braces(conf.standard_macro_braces.as_slice()) }
    }

    /// The braces to report a call of the macro `name` with, given the
    /// source text `snip` of the call from the macro's name on (`None` where
    /// the source is not available); `None` where the call is fine.
    pub fn check_mac(&self, name: &str, snip: Option<&str>) -> (res: Option<Braces>)
        ensures
            res == mac_call_braces(self@.0, name@, snippet_view(snip)),
    {
        proof {
            use_type_invariant(self);
        }
        let braces = match self.macro_braces.0.get(name) {
            Some(braces) => braces,
            None => return None,
        };
        let snip = match snip {
            Some(snip) => snip,
            None => return None,
        };
        let macro_args_str = match strip_prefix(snip, name) {
            Some(rest) => match strip_prefix_char(rest, '!') {
                Some(args) => args,
                None => return None,
            },
            None => return None,
        };
        match first_char(trim_start(macro_args_str)) {
            Some(old_open_brace) => {
                if open_brace(old_open_brace) && old_open_brace != braces.0 {
                    Some(braces)
                } else {
                    None
                }
            },
            None => None,
        }
    }

    /// The macro calls with unexpected brackets in the body `body` of a macro
    /// definition, if it is a `macro_rules!` definition; none otherwise.
    pub fn check_mac_def(&self, macro_rules: bool, body: &Vec<TokenTree>) -> (res: Vec<
        BraceFinding,
    >)
        ensures
            res@ == (if macro_rules {
                body_findings(self@.0, body@, body@.len())
            } else {
                Seq::<BraceFinding>::empty()
            }),
    {
        proof {
            use_type_invariant(self);
        }
        if macro_rules {
            check_ts(&self.macro_braces.0, body)
        } else {
            Vec::new()
        }
    }
}

/// The report for a call with the source text `snip` that is to be written
/// with `braces`, with a `;` after the suggestion if `add_semi`; `None` if
/// `snip` holds no `!`.
pub fn braces_suggestion(snip: &str, braces: Braces, add_semi: bool) -> (res: Option<LintHelp>)
    requires
        split_once_seq(snip@, '!') matches Some((_, rest)) ==> trim_seq(rest).len() >= 2,
    ensures
        res matches Some(h) ==> braces_help(snip@, braces, add_semi) == Some(
            (h.msg@, h.help@, h.sugg@),
        ),
        res is None ==> braces_help(snip@, braces, add_semi) is None,
{
    match split_once_char(snip, '!') {
        None => None,
        Some((macro_name, macro_args_str)) => {
            let macro_args = trim(macro_args_str);
            let n = macro_args.unicode_len();
            // The arguments without their old brackets.
            let inner = macro_args.substring_char(1, n - 1);
            let mut msg = String::from_str("use of irregular braces for `");
            msg.append(macro_name);
            msg.append("!` macro");
            let help = String::from_str("consider writing");
            let mut sugg = String::from_str(macro_name);
            push_char(&mut sugg, '!');
            push_char(&mut sugg, braces.0);
            sugg.append(inner);
            push_char(&mut sugg, braces.1);
            if add_semi {
                push_char(&mut sugg, ';');
            }
            let ghost name = macro_name@;
            assert(sugg@ =~= name + seq!['!', braces.0] + inner@ + seq![braces.1] + (if add_semi {
                seq![';']
            } else {
                Seq::<char>::empty()
            }));
            Some(LintHelp { msg, help, sugg })
        },
    }
}

} // verus!
