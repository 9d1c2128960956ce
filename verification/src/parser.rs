//! Parser for the shell language.
//!
//! Recursive descent over the token stream: simple commands with prefix
//! assignments and redirections, pipelines, `&&`/`||` lists, sequences,
//! and the compound commands (`if`, `while`, `until`, `for`, `case`,
//! subshells, brace groups, function definitions).
//!
//! The grammar is also written down as spec-level functions (`sp_list`
//! and the family it heads); each parse function is proved to succeed,
//! and to consume tokens, exactly as its spec twin says, so `parse`
//! accepts an input if and only if the grammar does.

use vstd::prelude::*;
use crate::ast::{
    CaseArm,
    Command,
    Program,
    Redirection,
    RedirectionKind,
    ShexError,
    SourceMap,
    Span,
    Spanned,
};
use crate::lexer::{Lexer, SpannedToken, Token, token_triples, tokens_spec};
use crate::ast::{position_in, line_starts_spec, ErrView};

verus! {

/// The token kind at `p`, or `Eof` past the end.
fn kind_at(toks: &Vec<SpannedToken>, p: usize) -> (r: Token)
    ensures
        p < toks@.len() ==> r == toks@[p as int].token,
        p >= toks@.len() ==> r is Eof,
{
    if p < toks.len() {
        toks[p].token
    } else {
        Token::Eof
    }
}

/// Whether a token can stand as a word in command position: an argument,
/// a case pattern, or a `for` word.
pub open spec fn word_like(t: Token) -> bool {
    match t {
        Token::Word => true,
        Token::Number => true,
        Token::String => true,
        Token::SimpleParameterExpansion => true,
        Token::ParameterExpansion => true,
        Token::Dash => true,
        Token::Dot => true,
        Token::LeftBracket => true,
        Token::RightBracket => true,
        _ => false,
    }
}

fn is_word_like(t: Token) -> (r: bool)
    ensures
        r == word_like(t),
{
    match t {
        Token::Word => true,
        Token::Number => true,
        Token::String => true,
        Token::SimpleParameterExpansion => true,
        Token::ParameterExpansion => true,
        Token::Dash => true,
        Token::Dot => true,
        Token::LeftBracket => true,
        Token::RightBracket => true,
        _ => false,
    }
}

/// Whether a token opens a redirection.
pub open spec fn redirection_op(t: Token) -> bool {
    match t {
        Token::Less => true,
        Token::Great => true,
        Token::Dgreat => true,
        Token::Dless => true,
        Token::Dlessdash => true,
        Token::Lessand => true,
        Token::Greatand => true,
        Token::Lessgreat => true,
        Token::Clobber => true,
        _ => false,
    }
}

fn is_redirection_op(t: Token) -> (r: bool)
    ensures
        r == redirection_op(t),
{
    match t {
        Token::Less => true,
        Token::Great => true,
        Token::Dgreat => true,
        Token::Dless => true,
        Token::Dlessdash => true,
        Token::Lessand => true,
        Token::Greatand => true,
        Token::Lessgreat => true,
        Token::Clobber => true,
        _ => false,
    }
}

/// Whether a token ends a command list: a keyword or delimiter that a
/// surrounding construct will consume.
pub open spec fn stop_token(t: Token) -> bool {
    match t {
        Token::Then => true,
        Token::Else => true,
        Token::Elif => true,
        Token::Fi => true,
        Token::Do => true,
        Token::Done => true,
        Token::Esac => true,
        Token::Rbrace => true,
        Token::Rparen => true,
        Token::Dsemi => true,
        _ => false,
    }
}

fn is_stop_token(t: Token) -> (r: bool)
    ensures
        r == stop_token(t),
{
    match t {
        Token::Then => true,
        Token::Else => true,
        Token::Elif => true,
        Token::Fi => true,
        Token::Do => true,
        Token::Done => true,
        Token::Esac => true,
        Token::Rbrace => true,
        Token::Rparen => true,
        Token::Dsemi => true,
        _ => false,
    }
}

/// The token kind at `p` of the grammar's token view, `Eof` past the end.
pub open spec fn tk(toks: Seq<SpannedToken>, p: int) -> Token {
    if 0 <= p < toks.len() {
        toks[p].token
    } else {
        Token::Eof
    }
}

/// Where the grammar's redirection production starting at `pos` ends, if
/// it applies: an optional descriptor number, the operator, a target.
pub open spec fn sp_redirection(toks: Seq<SpannedToken>, pos: int) -> Option<int> {
    let len = toks.len() as int;
    if pos >= len || pos < 0 {
        Option::None
    } else {
        // A digit run counts as a descriptor only directly before an
        // operator; otherwise the production fails (position past the
        // end makes the checks below reject).
        let p = if tk(toks, pos) is Number {
            if pos + 1 < len && redirection_op(tk(toks, pos + 1)) {
                pos + 1
            } else {
                len + 1
            }
        } else {
            pos
        };
        if p >= len || !redirection_op(tk(toks, p)) {
            Option::None
        } else if p + 1 >= len {
            Option::None
        } else if tk(toks, p + 1) is Word || tk(toks, p + 1) is Number || tk(toks, p + 1)
            is String {
            Option::Some(p + 2)
        } else {
            Option::None
        }
    }
}

/// The run of assignment words from `pos`: the name/value pairs of the
/// valid ones, and the position after the run.
pub open spec fn sp_assign(toks: Seq<SpannedToken>, pos: int) -> (
    Seq<(Seq<char>, Seq<char>)>,
    int,
)
    decreases toks.len() - pos, 0nat,
{
    if 0 <= pos < toks.len() && tk(toks, pos) is AssignmentWord {
        let rest = sp_assign(toks, pos + 1);
        match crate::string_utils::parse_assignment_spec(toks[pos].text@) {
            Option::Some(pr) => (seq![pr] + rest.0, rest.1),
            Option::None => rest,
        }
    } else {
        (Seq::empty(), pos)
    }
}

/// Where the argument-and-redirection run of a simple command ends, or
/// nothing when a redirection in it is malformed.
pub open spec fn sp_args(toks: Seq<SpannedToken>, pos: int) -> Option<int>
    decreases toks.len() - pos, 1nat,
{
    let len = toks.len() as int;
    if 0 <= pos < len {
        let t = tk(toks, pos);
        let starts_red = redirection_op(t) || (t is Number && pos + 1 < len && redirection_op(
            tk(toks, pos + 1),
        ));
        if starts_red {
            match sp_redirection(toks, pos) {
                Option::Some(p2) => if pos < p2 <= len {
                    sp_args(toks, p2)
                } else {
                    Option::None
                },
                Option::None => Option::None,
            }
        } else if word_like(t) {
            sp_args(toks, pos + 1)
        } else {
            Option::Some(pos)
        }
    } else {
        Option::Some(pos)
    }
}

/// The argument texts the argument-and-redirection run contributes, in
/// order; redirections contribute none.
pub open spec fn sp_arg_texts(toks: Seq<SpannedToken>, pos: int) -> Seq<Seq<char>>
    decreases toks.len() - pos, 1nat,
{
    let len = toks.len() as int;
    if 0 <= pos < len {
        let t = tk(toks, pos);
        let starts_red = redirection_op(t) || (t is Number && pos + 1 < len && redirection_op(
            tk(toks, pos + 1),
        ));
        if starts_red {
            match sp_redirection(toks, pos) {
                Option::Some(p2) => if pos < p2 <= len {
                    sp_arg_texts(toks, p2)
                } else {
                    Seq::empty()
                },
                Option::None => Seq::empty(),
            }
        } else if word_like(t) {
            seq![
                crate::string_utils::token_to_string_spec(toks[pos].token, toks[pos].text@),
            ] + sp_arg_texts(toks, pos + 1)
        } else {
            Seq::empty()
        }
    } else {
        Seq::empty()
    }
}

/// Where the grammar's simple command starting at `pos` ends: prefix
/// assignments, then either a command word with arguments and
/// redirections, or at least one valid bare assignment.
pub open spec fn sp_simple(toks: Seq<SpannedToken>, pos: int) -> Option<int>
    decreases toks.len() - pos, 2nat,
{
    let a = sp_assign(toks, pos);
    let p = a.1;
    if p < toks.len() && tk(toks, p) is Word {
        if pos < p + 1 {
            sp_args(toks, p + 1)
        } else {
            Option::None
        }
    } else {
        if a.0.len() > 0 && p > pos {
            Option::Some(p)
        } else {
            Option::None
        }
    }
}

/// Where a `while`/`until` production starting at `pos` ends:
/// the keyword, a condition list, `do`, a body list, `done`.
pub open spec fn sp_loopcmd(toks: Seq<SpannedToken>, pos: int) -> Option<int>
    decreases toks.len() - pos, 2nat,
{
    let len = toks.len() as int;
    if !(0 <= pos < len) {
        Option::None
    } else {
        match sp_list(toks, pos + 1) {
            Option::None => Option::None,
            Option::Some(p1) => if !(pos < p1 <= len) {
                Option::None
            } else if p1 >= len || !(tk(toks, p1) is Do) {
                Option::None
            } else {
                match sp_list(toks, p1 + 1) {
                    Option::None => Option::None,
                    Option::Some(p2) => if p2 >= len || !(tk(toks, p2) is Done) {
                        Option::None
                    } else {
                        Option::Some(p2 + 1)
                    },
                }
            },
        }
    }
}

/// Where the elif clauses starting at `pos` end: each is `elif`, a
/// condition list, `then`, a body list.
pub open spec fn sp_elifs(toks: Seq<SpannedToken>, pos: int) -> Option<int>
    decreases toks.len() - pos, 3nat,
{
    let len = toks.len() as int;
    if 0 <= pos < len && tk(toks, pos) is Elif {
        match sp_list(toks, pos + 1) {
            Option::None => Option::None,
            Option::Some(q1) => if q1 >= len || q1 < pos || !(tk(toks, q1) is Then) {
                Option::None
            } else {
                match sp_list(toks, q1 + 1) {
                    Option::None => Option::None,
                    Option::Some(q2) => if pos < q2 <= len {
                        sp_elifs(toks, q2)
                    } else {
                        Option::None
                    },
                }
            },
        }
    } else {
        Option::Some(pos)
    }
}

/// End of the run of word tokens from `pos`: the words of a `for` list.
pub open spec fn sp_words_end(toks: Seq<SpannedToken>, pos: int) -> int
    decreases toks.len() - pos, 0nat,
{
    if 0 <= pos < toks.len() && word_like(tk(toks, pos)) {
        sp_words_end(toks, pos + 1)
    } else {
        pos
    }
}

/// End of the `| pattern` tail of a case arm's pattern list from `pos`.
pub open spec fn sp_patterns(toks: Seq<SpannedToken>, pos: int) -> int
    decreases toks.len() - pos, 0nat,
{
    let len = toks.len() as int;
    if 0 <= pos < len && pos + 1 < len && tk(toks, pos) is Pipe && word_like(tk(toks, pos + 1)) {
        sp_patterns(toks, pos + 2)
    } else {
        pos
    }
}

/// Where the case arms starting at `pos` end: the position of `esac`, or
/// nothing when an arm is malformed or `esac` never comes.
pub open spec fn sp_case_arms(toks: Seq<SpannedToken>, pos: int) -> Option<int>
    decreases toks.len() - pos, 3nat,
{
    let len = toks.len() as int;
    if 0 <= pos < len && tk(toks, pos) is Esac {
        Option::Some(pos)
    } else if 0 <= pos < len {
        if !word_like(tk(toks, pos)) {
            Option::None
        } else {
            let q = sp_patterns(toks, pos + 1);
            if q >= len || q < pos || !(tk(toks, q) is Rparen) {
                Option::None
            } else {
                match sp_list(toks, q + 1) {
                    Option::None => Option::None,
                    Option::Some(q2) => {
                        let q3 = if q2 < len && tk(toks, q2) is Dsemi {
                            q2 + 1
                        } else {
                            q2
                        };
                        if pos < q3 <= len {
                            sp_case_arms(toks, q3)
                        } else {
                            Option::None
                        }
                    },
                }
            }
        }
    } else {
        Option::None
    }
}

/// After an `if` head and its elif clauses end at `elifs_end`: the
/// optional `else` list, then `fi`.
pub open spec fn sp_if_tail(toks: Seq<SpannedToken>, pos: int, elifs_end: Option<int>) -> Option<
    int,
>
    decreases toks.len() - pos, 3nat,
{
    let len = toks.len() as int;
    match elifs_end {
        Option::None => Option::None,
        Option::Some(p3) => {
            let after_else: Option<int> = if p3 < len && tk(toks, p3) is Else {
                if p3 < pos {
                    Option::None
                } else {
                    sp_list(toks, p3 + 1)
                }
            } else {
                Option::Some(p3)
            };
            match after_else {
                Option::None => Option::None,
                Option::Some(p4) => if p4 >= len || !(tk(toks, p4) is Fi) {
                    Option::None
                } else {
                    Option::Some(p4 + 1)
                },
            }
        },
    }
}

/// Where the grammar's command production starting at `pos` ends: a
/// compound construct, a function definition, a subshell, a brace group,
/// or a simple command.
pub open spec fn sp_atom(toks: Seq<SpannedToken>, pos: int) -> Option<int>
    decreases toks.len() - pos, 4nat,
{
    let len = toks.len() as int;
    if !(0 <= pos < len) {
        Option::None
    } else {
        match tk(toks, pos) {
            Token::If => match sp_list(toks, pos + 1) {
                Option::None => Option::None,
                Option::Some(p1) => if p1 >= len || p1 < pos || !(tk(toks, p1) is Then) {
                    Option::None
                } else {
                    match sp_list(toks, p1 + 1) {
                        Option::None => Option::None,
                        Option::Some(p2) => if !(pos < p2 <= len) {
                            Option::None
                        } else {
                            sp_if_tail(toks, pos, sp_elifs(toks, p2))
                        },
                    }
                },
            },
            Token::While => sp_loopcmd(toks, pos),
            Token::Until => sp_loopcmd(toks, pos),
            Token::For => {
                if pos + 1 >= len || !(tk(toks, pos + 1) is Word) {
                    Option::None
                } else {
                    let p = if pos + 2 < len && tk(toks, pos + 2) is In {
                        sp_words_end(toks, pos + 3)
                    } else {
                        pos + 2
                    };
                    let p1 = if p < len && tk(toks, p) is Semicolon {
                        p + 1
                    } else {
                        p
                    };
                    if p1 >= len || p1 < pos || !(tk(toks, p1) is Do) {
                        Option::None
                    } else {
                        match sp_list(toks, p1 + 1) {
                            Option::None => Option::None,
                            Option::Some(q) => if q >= len || !(tk(toks, q) is Done) {
                                Option::None
                            } else {
                                Option::Some(q + 1)
                            },
                        }
                    }
                }
            },
            Token::Case => {
                if pos + 1 >= len || !word_like(tk(toks, pos + 1)) {
                    Option::None
                } else if pos + 2 >= len || !(tk(toks, pos + 2) is In) {
                    Option::None
                } else {
                    match sp_case_arms(toks, pos + 3) {
                        Option::None => Option::None,
                        Option::Some(p) => Option::Some(p + 1),
                    }
                }
            },
            Token::Lparen => match sp_list(toks, pos + 1) {
                Option::None => Option::None,
                Option::Some(p) => if p >= len || !(tk(toks, p) is Rparen) {
                    Option::None
                } else {
                    Option::Some(p + 1)
                },
            },
            Token::Lbrace => match sp_list(toks, pos + 1) {
                Option::None => Option::None,
                Option::Some(p) => if p >= len || !(tk(toks, p) is Rbrace) {
                    Option::None
                } else {
                    Option::Some(p + 1)
                },
            },
            Token::Word => {
                if pos + 1 < len && pos + 2 < len && tk(toks, pos + 1) is Lparen && tk(
                    toks,
                    pos + 2,
                ) is Rparen {
                    sp_atom(toks, pos + 3)
                } else {
                    sp_simple(toks, pos)
                }
            },
            Token::AssignmentWord => sp_simple(toks, pos),
            _ => Option::None,
        }
    }
}

/// The `| command` tail of a pipeline from `pos`.
pub open spec fn sp_pipe_tail(toks: Seq<SpannedToken>, pos: int) -> Option<int>
    decreases toks.len() - pos, 5nat,
{
    let len = toks.len() as int;
    if 0 <= pos < len && tk(toks, pos) is Pipe {
        match sp_atom(toks, pos + 1) {
            Option::None => Option::None,
            Option::Some(p2) => if pos < p2 <= len {
                sp_pipe_tail(toks, p2)
            } else {
                Option::None
            },
        }
    } else {
        Option::Some(pos)
    }
}

/// Where the pipeline production starting at `pos` ends.
pub open spec fn sp_pipeline(toks: Seq<SpannedToken>, pos: int) -> Option<int>
    decreases toks.len() - pos, 6nat,
{
    let len = toks.len() as int;
    match sp_atom(toks, pos) {
        Option::None => Option::None,
        Option::Some(p) => if pos < p <= len {
            sp_pipe_tail(toks, p)
        } else {
            Option::None
        },
    }
}

/// The `&& command` / `|| command` tail of a chain from `pos`.
pub open spec fn sp_and_or_tail(toks: Seq<SpannedToken>, pos: int) -> Option<int>
    decreases toks.len() - pos, 7nat,
{
    let len = toks.len() as int;
    if 0 <= pos < len && (tk(toks, pos) is AndIf || tk(toks, pos) is OrIf) {
        match sp_pipeline(toks, pos + 1) {
            Option::None => Option::None,
            Option::Some(p2) => if pos < p2 <= len {
                sp_and_or_tail(toks, p2)
            } else {
                Option::None
            },
        }
    } else {
        Option::Some(pos)
    }
}

/// Where the `&&`/`||` chain starting at `pos` ends.
pub open spec fn sp_and_or(toks: Seq<SpannedToken>, pos: int) -> Option<int>
    decreases toks.len() - pos, 8nat,
{
    let len = toks.len() as int;
    match sp_pipeline(toks, pos) {
        Option::None => Option::None,
        Option::Some(p) => if pos < p <= len {
            sp_and_or_tail(toks, p)
        } else {
            Option::None
        },
    }
}

/// Where a list element starting at `pos` ends: a chain, possibly sent
/// to the background with `&`.
pub open spec fn sp_element(toks: Seq<SpannedToken>, pos: int) -> Option<int>
    decreases toks.len() - pos, 9nat,
{
    let len = toks.len() as int;
    match sp_and_or(toks, pos) {
        Option::None => Option::None,
        Option::Some(p) => if p < len && tk(toks, p) is Ampersand {
            Option::Some(p + 1)
        } else {
            Option::Some(p)
        },
    }
}

/// Where the command list starting at `pos` ends: elements separated by
/// `;`, stopping at a stop token or the end of the tokens.
pub open spec fn sp_list(toks: Seq<SpannedToken>, pos: int) -> Option<int>
    decreases toks.len() - pos, 10nat,
{
    let len = toks.len() as int;
    if !(0 <= pos < len) || stop_token(tk(toks, pos)) {
        Option::Some(pos)
    } else {
        match sp_element(toks, pos) {
            Option::None => Option::None,
            Option::Some(p2) => if !(pos < p2 <= len) {
                Option::None
            } else if p2 < len && tk(toks, p2) is Semicolon {
                sp_list(toks, p2 + 1)
            } else if p2 < len && !stop_token(tk(toks, p2)) {
                Option::None
            } else {
                sp_list(toks, p2)
            },
        }
    }
}

/// The tokens the parser feeds the grammar: the stream with newlines and
/// the end marker dropped.
pub open spec fn filtered_spec(ts: Seq<SpannedToken>) -> Seq<SpannedToken>
    decreases ts.len(),
{
    if ts.len() == 0 {
        Seq::empty()
    } else {
        let pre = filtered_spec(ts.drop_last());
        if !(ts.last().token is Newline) && !(ts.last().token is Eof) {
            pre.push(ts.last())
        } else {
            pre
        }
    }
}

/// Whether the newline-filtered token stream matches the shell grammar:
/// one whole command list covering all of it.
pub open spec fn grammar_accepts(ft: Seq<SpannedToken>) -> bool {
    sp_list(ft, 0) == Option::Some(ft.len() as int)
}

/// The number a digit token denotes, capped to keep the arithmetic in
/// bounds; used for redirection descriptors.
fn parse_fd_number(text: &str) -> (r: i32) {
    let len = text.unicode_len();
    let mut value: i32 = 0;
    let mut i: usize = 0;
    while i < len
        invariant
            len == text@.len(),
            i <= len,
            0 <= value <= 214748364,
        decreases len - i,
    {
        let c = text.get_char(i);
        let u = c as u32;
        if 48 <= u && u <= 57 && value < 21474836 {
            value = value * 10 + ((u - 48) as i32);
        }
        i = i + 1;
    }
    value
}

/// Wrap a parsed list as one command: a single element stands alone, more
/// become a `Sequence`.
fn wrap_list(mut items: Vec<Spanned<Command>>) -> (r: Spanned<Command>) {
    if items.len() == 1 {
        match items.pop() {
            Option::Some(item) => item,
            Option::None => Spanned::new(
                Command::Sequence { commands: Vec::new() },
                Span::dummy(),
            ),
        }
    } else {
        let span = if items.len() > 0 {
            Span::new(items[0].span.start, items[items.len() - 1].span.end)
        } else {
            Span::dummy()
        };
        Spanned::new(Command::Sequence { commands: items }, span)
    }
}

/// Parse one redirection at `pos`, whose first token is `fd` digits or the
/// operator itself.
fn parse_redirection(toks: &Vec<SpannedToken>, pos: usize) -> (r: Result<(Redirection, usize), ()>)
    requires
        pos <= toks@.len(),
    ensures
        r is Ok ==> pos < r->Ok_0.1 <= toks@.len(),
        r is Ok ==> sp_redirection(toks@, pos as int) == Option::Some(r->Ok_0.1 as int),
        r is Err ==> sp_redirection(toks@, pos as int) is None,
    decreases toks@.len() - pos, 0nat,
{
    let len = toks.len();
    if pos >= len {
        return Result::Err(());
    }
    let mut p = pos;
    let fd: Option<i32> = match toks[p].token {
        Token::Number => {
            if p + 1 < len && is_redirection_op(toks[p + 1].token) {
                let n = parse_fd_number(toks[p].text.as_str());
                p = p + 1;
                Option::Some(n)
            } else {
                return Result::Err(());
            }
        },
        _ => Option::None,
    };
    if p >= len || !is_redirection_op(toks[p].token) {
        return Result::Err(());
    }
    let op = toks[p].token;
    if p + 1 >= len {
        return Result::Err(());
    }
    let target_tok = &toks[p + 1];
    let target_ok = match target_tok.token {
        Token::Word => true,
        Token::Number => true,
        Token::String => true,
        _ => false,
    };
    if !target_ok {
        return Result::Err(());
    }
    let target = crate::string_utils::token_to_string(target_tok);
    let kind = match op {
        Token::Less => RedirectionKind::Input,
        Token::Great => RedirectionKind::Output,
        Token::Dgreat => RedirectionKind::Append,
        Token::Dless => RedirectionKind::HereDoc {
            delimiter: target.clone(),
            text: String::new(),
        },
        Token::Dlessdash => RedirectionKind::HereDocDash {
            delimiter: target.clone(),
            text: String::new(),
        },
        Token::Lessand => RedirectionKind::InputDup,
        Token::Greatand => RedirectionKind::OutputDup,
        Token::Lessgreat => RedirectionKind::InputOutput,
        _ => RedirectionKind::Clobber,
    };
    Result::Ok((Redirection { fd, kind, target }, p + 2))
}

/// Parse a simple command or a bare assignment list at `pos`.
fn parse_simple(toks: &Vec<SpannedToken>, pos: usize) -> (r: Result<(Spanned<Command>, usize), ()>)
    requires
        pos <= toks@.len(),
    ensures
        r is Ok ==> pos < r->Ok_0.1 <= toks@.len(),
        r is Ok ==> sp_simple(toks@, pos as int) == Option::Some(r->Ok_0.1 as int),
        r is Err ==> sp_simple(toks@, pos as int) is None,
        r is Ok ==> (match r->Ok_0.0.node {
            Command::Simple { name, args, assignments, .. } => {
                let np = sp_assign(toks@, pos as int).1;
                &&& np < toks@.len()
                &&& name@ == crate::string_utils::token_to_string_spec(
                    toks@[np].token,
                    toks@[np].text@,
                )
                &&& crate::string_utils::pair_views(assignments@) == sp_assign(
                    toks@,
                    pos as int,
                ).0
                &&& crate::string_utils::string_views(args@) == sp_arg_texts(toks@, np + 1)
            },
            Command::Assignment { assignments } => crate::string_utils::pair_views(assignments@)
                == sp_assign(toks@, pos as int).0,
            _ => false,
        }),
    decreases toks@.len() - pos, 0nat,
{
    let len = toks.len();
    let mut p = pos;
    let mut assignments: Vec<(String, String)> = Vec::new();
    while kind_at(toks, p) == Token::AssignmentWord
        invariant
            pos <= p <= len,
            len == toks@.len(),
            sp_assign(toks@, pos as int) == (
                crate::string_utils::pair_views(assignments@) + sp_assign(toks@, p as int).0,
                sp_assign(toks@, p as int).1,
            ),
        decreases len - p,
    {
        let ghost pre = assignments@;
        match crate::string_utils::parse_assignment(toks[p].text.as_str()) {
            Option::Some(pair) => {
                assignments.push(pair);
                proof {
                    assert(crate::string_utils::pair_views(assignments@)
                        =~= crate::string_utils::pair_views(pre).push(
                        (assignments@.last().0@, assignments@.last().1@),
                    ));
                    assert(crate::string_utils::pair_views(pre) + (seq![
                        (assignments@.last().0@, assignments@.last().1@),
                    ] + sp_assign(toks@, p + 1).0) =~= crate::string_utils::pair_views(
                        assignments@,
                    ) + sp_assign(toks@, p + 1).0);
                }
            },
            Option::None => {},
        }
        p = p + 1;
    }
    proof {
        assert(sp_assign(toks@, p as int).0 =~= Seq::<(Seq<char>, Seq<char>)>::empty());
        assert(crate::string_utils::pair_views(assignments@) + Seq::<(
            Seq<char>,
            Seq<char>,
        )>::empty() =~= crate::string_utils::pair_views(assignments@));
        assert(sp_assign(toks@, pos as int) == (
            crate::string_utils::pair_views(assignments@),
            p as int,
        ));
    }
    let has_name = p < len && match toks[p].token {
        Token::Word => true,
        _ => false,
    };
    if !has_name {
        if assignments.len() > 0 && p > pos {
            let span = Span::new(toks[pos].span.start, toks[p - 1].span.end);
            return Result::Ok((Spanned::new(Command::Assignment { assignments }, span), p));
        }
        return Result::Err(());
    }
    let name = crate::string_utils::token_to_string(&toks[p]);
    let start = toks[pos].span.start;
    let mut end = toks[p].span.end;
    let ghost args_start = p + 1;
    p = p + 1;
    let mut args: Vec<String> = Vec::new();
    let mut redirections: Vec<Redirection> = Vec::new();
    let mut scanning = true;
    proof {
        assert(sp_simple(toks@, pos as int) == sp_args(toks@, args_start));
        assert(crate::string_utils::string_views(args@) =~= Seq::<Seq<char>>::empty());
    }
    while scanning && p < len
        invariant
            pos < p <= len,
            len == toks@.len(),
            sp_simple(toks@, pos as int) == sp_args(toks@, args_start),
            sp_args(toks@, args_start) == sp_args(toks@, p as int),
            !scanning ==> sp_args(toks@, p as int) == Option::Some(p as int),
            crate::string_utils::string_views(args@) + sp_arg_texts(toks@, p as int)
                == sp_arg_texts(toks@, args_start),
            !scanning ==> sp_arg_texts(toks@, p as int) == Seq::<Seq<char>>::empty(),
        decreases
                len - p + (if scanning {
                    1int
                } else {
                    0int
                }),
    {
        let t = toks[p].token;
        let starts_redirection = is_redirection_op(t) || (match t {
            Token::Number => p + 1 < len && is_redirection_op(toks[p + 1].token),
            _ => false,
        });
        if starts_redirection {
            match parse_redirection(toks, p) {
                Result::Ok((red, p2)) => {
                    end = toks[p2 - 1].span.end;
                    redirections.push(red);
                    p = p2;
                },
                Result::Err(_) => {
                    return Result::Err(());
                },
            }
        } else if is_word_like(t) {
            let ghost pre_args = args@;
            args.push(crate::string_utils::token_to_string(&toks[p]));
            proof {
                assert(crate::string_utils::string_views(args@)
                    =~= crate::string_utils::string_views(pre_args).push(args@.last()@));
                assert(crate::string_utils::string_views(pre_args) + (seq![args@.last()@]
                    + sp_arg_texts(toks@, p + 1)) =~= crate::string_utils::string_views(args@)
                    + sp_arg_texts(toks@, p + 1));
            }
            end = toks[p].span.end;
            p = p + 1;
        } else {
            scanning = false;
        }
    }
    proof {
        assert(crate::string_utils::string_views(args@) + Seq::<Seq<char>>::empty()
            =~= crate::string_utils::string_views(args@));
    }
    let span = Span::new(start, end);
    Result::Ok((Spanned::new(Command::Simple { name, args, assignments, redirections }, span), p))
}

/// Parse one command: a compound construct, a function definition, a
/// subshell, a brace group, or a simple command.
#[verifier::rlimit(100)]
fn parse_atom(toks: &Vec<SpannedToken>, pos: usize) -> (r: Result<(Spanned<Command>, usize), ()>)
    requires
        pos <= toks@.len(),
    ensures
        r is Ok ==> pos < r->Ok_0.1 <= toks@.len(),
        r is Ok ==> sp_atom(toks@, pos as int) == Option::Some(r->Ok_0.1 as int),
        r is Err ==> sp_atom(toks@, pos as int) is None,
        r is Ok ==> (match tk(toks@, pos as int) {
            Token::If => r->Ok_0.0.node is If,
            Token::While => r->Ok_0.0.node is While,
            Token::Until => r->Ok_0.0.node is Until,
            Token::For => r->Ok_0.0.node is For && r->Ok_0.0.node->For_variable@
                == crate::string_utils::token_to_string_spec(
                toks@[pos + 1].token,
                toks@[pos + 1].text@,
            ),
            Token::Case => r->Ok_0.0.node is Case && r->Ok_0.0.node->Case_word@
                == crate::string_utils::token_to_string_spec(
                toks@[pos + 1].token,
                toks@[pos + 1].text@,
            ),
            Token::Lparen => r->Ok_0.0.node is Subshell,
            Token::Lbrace => r->Ok_0.0.node is BraceGroup,
            Token::Word => if pos + 1 < toks@.len() && pos + 2 < toks@.len() && tk(
                toks@,
                pos + 1,
            ) is Lparen && tk(toks@, pos + 2) is Rparen {
                r->Ok_0.0.node is Function && r->Ok_0.0.node->Function_name@
                    == crate::string_utils::token_to_string_spec(
                    toks@[pos as int].token,
                    toks@[pos as int].text@,
                )
            } else {
                r->Ok_0.0.node is Simple || r->Ok_0.0.node is Assignment
            },
            Token::AssignmentWord => r->Ok_0.0.node is Simple || r->Ok_0.0.node is Assignment,
            _ => true,
        }),
    decreases toks@.len() - pos, 3nat,
{
    let len = toks.len();
    if pos >= len {
        return Result::Err(());
    }
    let start = toks[pos].span.start;
    match toks[pos].token {
        Token::If => {
            let (condition, p1) = match parse_list(toks, pos + 1) {
                Result::Ok(v) => v,
                Result::Err(_) => {
                    return Result::Err(());
                },
            };
            if p1 >= len || !match toks[p1].token {
                Token::Then => true,
                _ => false,
            } {
                return Result::Err(());
            }
            let (then_body, p2) = match parse_list(toks, p1 + 1) {
                Result::Ok(v) => v,
                Result::Err(_) => {
                    return Result::Err(());
                },
            };
            let mut p = p2;
            let mut elif_clauses: Vec<(Spanned<Command>, Vec<Spanned<Command>>)> = Vec::new();
            proof {
                assert(sp_atom(toks@, pos as int) == sp_if_tail(
                    toks@,
                    pos as int,
                    sp_elifs(toks@, p2 as int),
                ));
            }
            while kind_at(toks, p) == Token::Elif
                invariant
                    pos < p <= len,
                    len == toks@.len(),
                    sp_atom(toks@, pos as int) == sp_if_tail(
                        toks@,
                        pos as int,
                        sp_elifs(toks@, p2 as int),
                    ),
                    sp_elifs(toks@, p2 as int) == sp_elifs(toks@, p as int),
                decreases len - p,
            {
                let (econd, q1) = match parse_list(toks, p + 1) {
                    Result::Ok(v) => v,
                    Result::Err(_) => {
                        return Result::Err(());
                    },
                };
                if q1 >= len || !match toks[q1].token {
                    Token::Then => true,
                    _ => false,
                } {
                    return Result::Err(());
                }
                let (ebody, q2) = match parse_list(toks, q1 + 1) {
                    Result::Ok(v) => v,
                    Result::Err(_) => {
                        return Result::Err(());
                    },
                };
                elif_clauses.push((wrap_list(econd), ebody));
                if q2 <= p {
                    return Result::Err(());
                }
                p = q2;
            }
            let else_body: Option<Vec<Spanned<Command>>> = if p < len && match toks[p].token {
                Token::Else => true,
                _ => false,
            } {
                let (ebody, q) = match parse_list(toks, p + 1) {
                    Result::Ok(v) => v,
                    Result::Err(_) => {
                        return Result::Err(());
                    },
                };
                p = q;
                Option::Some(ebody)
            } else {
                Option::None
            };
            if p >= len || !match toks[p].token {
                Token::Fi => true,
                _ => false,
            } {
                return Result::Err(());
            }
            let span = Span::new(start, toks[p].span.end);
            Result::Ok(
                (
                    Spanned::new(
                        Command::If {
                            condition: Box::new(wrap_list(condition)),
                            then_body,
                            elif_clauses,
                            else_body,
                        },
                        span,
                    ),
                    p + 1,
                ),
            )
        },
        Token::While => parse_condition_loop(toks, pos, false),
        Token::Until => parse_condition_loop(toks, pos, true),
        Token::For => {
            if pos + 1 >= len || !match toks[pos + 1].token {
                Token::Word => true,
                _ => false,
            } {
                return Result::Err(());
            }
            let variable = crate::string_utils::token_to_string(&toks[pos + 1]);
            let mut p = pos + 2;
            let words: Option<Vec<String>> = if p < len && match toks[p].token {
                Token::In => true,
                _ => false,
            } {
                p = p + 1;
                let ghost ws_start = p as int;
                let mut ws: Vec<String> = Vec::new();
                while p < len && is_word_like(toks[p].token)
                    invariant
                        pos < p <= len,
                        len == toks@.len(),
                        sp_words_end(toks@, ws_start) == sp_words_end(toks@, p as int),
                    decreases len - p,
                {
                    ws.push(crate::string_utils::token_to_string(&toks[p]));
                    p = p + 1;
                }
                proof {
                    assert(sp_words_end(toks@, ws_start) == p as int);
                }
                Option::Some(ws)
            } else {
                Option::None
            };
            if p < len && match toks[p].token {
                Token::Semicolon => true,
                _ => false,
            } {
                p = p + 1;
            }
            if p >= len || !match toks[p].token {
                Token::Do => true,
                _ => false,
            } {
                return Result::Err(());
            }
            let (body, q) = match parse_list(toks, p + 1) {
                Result::Ok(v) => v,
                Result::Err(_) => {
                    return Result::Err(());
                },
            };
            if q >= len || !match toks[q].token {
                Token::Done => true,
                _ => false,
            } {
                return Result::Err(());
            }
            let span = Span::new(start, toks[q].span.end);
            Result::Ok(
                (Spanned::new(Command::For { variable, words, body }, span), q + 1),
            )
        },
        Token::Case => {
            if pos + 1 >= len || !is_word_like(toks[pos + 1].token) {
                return Result::Err(());
            }
            let word = crate::string_utils::token_to_string(&toks[pos + 1]);
            if pos + 2 >= len || !match toks[pos + 2].token {
                Token::In => true,
                _ => false,
            } {
                return Result::Err(());
            }
            let mut p = pos + 3;
            let mut arms: Vec<CaseArm> = Vec::new();
            proof {
                assert(sp_atom(toks@, pos as int) == (match sp_case_arms(toks@, pos + 3) {
                    Option::None => Option::<int>::None,
                    Option::Some(pe) => Option::Some(pe + 1),
                }));
            }
            while p < len && kind_at(toks, p) != Token::Esac
                invariant
                    pos < p <= len,
                    len == toks@.len(),
                    sp_atom(toks@, pos as int) == (match sp_case_arms(toks@, pos + 3) {
                        Option::None => Option::<int>::None,
                        Option::Some(pe) => Option::Some(pe + 1),
                    }),
                    sp_case_arms(toks@, pos + 3) == sp_case_arms(toks@, p as int),
                decreases len - p,
            {
                let mut patterns: Vec<String> = Vec::new();
                if !is_word_like(toks[p].token) {
                    return Result::Err(());
                }
                patterns.push(crate::string_utils::token_to_string(&toks[p]));
                let mut q = p + 1;
                while q < len && q + 1 < len && kind_at(toks, q) == Token::Pipe && is_word_like(
                    kind_at(toks, q + 1),
                )
                    invariant
                        p < q <= len,
                        len == toks@.len(),
                        sp_patterns(toks@, p + 1) == sp_patterns(toks@, q as int),
                    decreases len - q,
                {
                    patterns.push(crate::string_utils::token_to_string(&toks[q + 1]));
                    q = q + 2;
                }
                proof {
                    assert(sp_patterns(toks@, p + 1) == q as int);
                }
                if q >= len || !match toks[q].token {
                    Token::Rparen => true,
                    _ => false,
                } {
                    return Result::Err(());
                }
                let (commands, q2) = match parse_list(toks, q + 1) {
                    Result::Ok(v) => v,
                    Result::Err(_) => {
                        return Result::Err(());
                    },
                };
                arms.push(CaseArm { patterns, commands });
                let mut q3 = q2;
                if q3 < len && match toks[q3].token {
                    Token::Dsemi => true,
                    _ => false,
                } {
                    q3 = q3 + 1;
                }
                if q3 <= p {
                    return Result::Err(());
                }
                p = q3;
            }
            if p >= len {
                return Result::Err(());
            }
            let span = Span::new(start, toks[p].span.end);
            Result::Ok((Spanned::new(Command::Case { word, arms }, span), p + 1))
        },
        Token::Lparen => {
            let (commands, p) = match parse_list(toks, pos + 1) {
                Result::Ok(v) => v,
                Result::Err(_) => {
                    return Result::Err(());
                },
            };
            if p >= len || !match toks[p].token {
                Token::Rparen => true,
                _ => false,
            } {
                return Result::Err(());
            }
            let span = Span::new(start, toks[p].span.end);
            Result::Ok((Spanned::new(Command::Subshell { commands }, span), p + 1))
        },
        Token::Lbrace => {
            let (commands, p) = match parse_list(toks, pos + 1) {
                Result::Ok(v) => v,
                Result::Err(_) => {
                    return Result::Err(());
                },
            };
            if p >= len || !match toks[p].token {
                Token::Rbrace => true,
                _ => false,
            } {
                return Result::Err(());
            }
            let span = Span::new(start, toks[p].span.end);
            Result::Ok((Spanned::new(Command::BraceGroup { commands }, span), p + 1))
        },
        Token::Word => {
            let is_function = pos + 1 < len && pos + 2 < len && match toks[pos + 1].token {
                Token::Lparen => true,
                _ => false,
            } && match toks[pos + 2].token {
                Token::Rparen => true,
                _ => false,
            };
            if is_function {
                let name = crate::string_utils::token_to_string(&toks[pos]);
                let (body, p) = match parse_atom(toks, pos + 3) {
                    Result::Ok(v) => v,
                    Result::Err(_) => {
                        return Result::Err(());
                    },
                };
                let span = Span::new(start, body.span.end);
                Result::Ok(
                    (
                        Spanned::new(
                            Command::Function {
                                name,
                                body: Box::new(body),
                                redirections: Vec::new(),
                            },
                            span,
                        ),
                        p,
                    ),
                )
            } else {
                parse_simple(toks, pos)
            }
        },
        Token::AssignmentWord => parse_simple(toks, pos),
        _ => Result::Err(()),
    }
}

/// Parse `while`/`until` condition loops: `kw list do list done`.
fn parse_condition_loop(toks: &Vec<SpannedToken>, pos: usize, until: bool) -> (r: Result<
    (Spanned<Command>, usize),
    (),
>)
    requires
        pos < toks@.len(),
    ensures
        r is Ok ==> pos < r->Ok_0.1 <= toks@.len(),
        r is Ok ==> sp_loopcmd(toks@, pos as int) == Option::Some(r->Ok_0.1 as int),
        r is Err ==> sp_loopcmd(toks@, pos as int) is None,
        r is Ok ==> (if until {
            r->Ok_0.0.node is Until
        } else {
            r->Ok_0.0.node is While
        }),
    decreases toks@.len() - pos, 2nat,
{
    let len = toks.len();
    let start = toks[pos].span.start;
    let (condition, p1) = match parse_list(toks, pos + 1) {
        Result::Ok(v) => v,
        Result::Err(_) => {
            return Result::Err(());
        },
    };
    if p1 >= len || !match toks[p1].token {
        Token::Do => true,
        _ => false,
    } {
        return Result::Err(());
    }
    let (body, p2) = match parse_list(toks, p1 + 1) {
        Result::Ok(v) => v,
        Result::Err(_) => {
            return Result::Err(());
        },
    };
    if p2 >= len || !match toks[p2].token {
        Token::Done => true,
        _ => false,
    } {
        return Result::Err(());
    }
    let span = Span::new(start, toks[p2].span.end);
    let node = if until {
        Command::Until { condition: Box::new(wrap_list(condition)), body }
    } else {
        Command::While { condition: Box::new(wrap_list(condition)), body }
    };
    Result::Ok((Spanned::new(node, span), p2 + 1))
}

/// Parse a pipeline: one command, or several joined by `|`.
fn parse_pipeline(toks: &Vec<SpannedToken>, pos: usize) -> (r: Result<
    (Spanned<Command>, usize),
    (),
>)
    requires
        pos <= toks@.len(),
    ensures
        r is Ok ==> pos < r->Ok_0.1 <= toks@.len(),
        r is Ok ==> sp_pipeline(toks@, pos as int) == Option::Some(r->Ok_0.1 as int),
        r is Err ==> sp_pipeline(toks@, pos as int) is None,
    decreases toks@.len() - pos, 4nat,
{
    let len = toks.len();
    let (first, p0) = match parse_atom(toks, pos) {
        Result::Ok(v) => v,
        Result::Err(_) => {
            return Result::Err(());
        },
    };
    if !(p0 < len && match toks[p0].token {
        Token::Pipe => true,
        _ => false,
    }) {
        return Result::Ok((first, p0));
    }
    let start = first.span.start;
    let mut commands: Vec<Spanned<Command>> = Vec::new();
    commands.push(first);
    let mut p = p0;
    proof {
        assert(sp_pipeline(toks@, pos as int) == sp_pipe_tail(toks@, p0 as int));
    }
    while kind_at(toks, p) == Token::Pipe
        invariant
            pos < p <= len,
            len == toks@.len(),
            commands@.len() >= 1,
            sp_pipeline(toks@, pos as int) == sp_pipe_tail(toks@, p0 as int),
            sp_pipe_tail(toks@, p0 as int) == sp_pipe_tail(toks@, p as int),
        decreases len - p,
    {
        let (next, p2) = match parse_atom(toks, p + 1) {
            Result::Ok(v) => v,
            Result::Err(_) => {
                return Result::Err(());
            },
        };
        commands.push(next);
        p = p2;
    }
    let end = commands[commands.len() - 1].span.end;
    Result::Ok(
        (
            Spanned::new(
                Command::Pipeline { commands, redirections: Vec::new() },
                Span::new(start, end),
            ),
            p,
        ),
    )
}

/// Parse `&&`/`||` chains, left associative, same precedence.
fn parse_and_or(toks: &Vec<SpannedToken>, pos: usize) -> (r: Result<(Spanned<Command>, usize), ()>)
    requires
        pos <= toks@.len(),
    ensures
        r is Ok ==> pos < r->Ok_0.1 <= toks@.len(),
        r is Ok ==> sp_and_or(toks@, pos as int) == Option::Some(r->Ok_0.1 as int),
        r is Err ==> sp_and_or(toks@, pos as int) is None,
    decreases toks@.len() - pos, 5nat,
{
    let len = toks.len();
    let (mut left, mut p) = match parse_pipeline(toks, pos) {
        Result::Ok(v) => v,
        Result::Err(_) => {
            return Result::Err(());
        },
    };
    let ghost tail_start = p as int;
    while kind_at(toks, p) == Token::AndIf || kind_at(toks, p) == Token::OrIf
        invariant
            pos < p <= len,
            len == toks@.len(),
            sp_and_or(toks@, pos as int) == sp_and_or_tail(toks@, tail_start),
            sp_and_or_tail(toks@, tail_start) == sp_and_or_tail(toks@, p as int),
        decreases len - p,
    {
        let is_and = match toks[p].token {
            Token::AndIf => true,
            _ => false,
        };
        let (right, p2) = match parse_pipeline(toks, p + 1) {
            Result::Ok(v) => v,
            Result::Err(_) => {
                return Result::Err(());
            },
        };
        let span = Span::new(left.span.start, right.span.end);
        let node = if is_and {
            Command::AndIf { left: Box::new(left), right: Box::new(right) }
        } else {
            Command::OrIf { left: Box::new(left), right: Box::new(right) }
        };
        left = Spanned::new(node, span);
        p = p2;
    }
    Result::Ok((left, p))
}

/// Parse one list element: an `&&`/`||` chain, possibly sent to the
/// background with `&`.
fn parse_element(toks: &Vec<SpannedToken>, pos: usize) -> (r: Result<(Spanned<Command>, usize), ()>)
    requires
        pos <= toks@.len(),
    ensures
        r is Ok ==> pos < r->Ok_0.1 <= toks@.len(),
        r is Ok ==> sp_element(toks@, pos as int) == Option::Some(r->Ok_0.1 as int),
        r is Err ==> sp_element(toks@, pos as int) is None,
    decreases toks@.len() - pos, 6nat,
{
    let len = toks.len();
    let (item, p) = match parse_and_or(toks, pos) {
        Result::Ok(v) => v,
        Result::Err(_) => {
            return Result::Err(());
        },
    };
    if p < len && match toks[p].token {
        Token::Ampersand => true,
        _ => false,
    } {
        let span = Span::new(item.span.start, toks[p].span.end);
        return Result::Ok(
            (Spanned::new(Command::Background { command: Box::new(item) }, span), p + 1),
        );
    }
    Result::Ok((item, p))
}

/// Parse a command list: elements separated by `;`, ending at a stop
/// token or at the end of the input.
fn parse_list(toks: &Vec<SpannedToken>, pos: usize) -> (r: Result<
    (Vec<Spanned<Command>>, usize),
    (),
>)
    requires
        pos <= toks@.len(),
    ensures
        r is Ok ==> pos <= r->Ok_0.1 <= toks@.len(),
        r is Ok ==> sp_list(toks@, pos as int) == Option::Some(r->Ok_0.1 as int),
        r is Err ==> sp_list(toks@, pos as int) is None,
        r is Ok ==> (r->Ok_0.0@.len() == 0 <==> r->Ok_0.1 == pos),
    decreases toks@.len() - pos, 7nat,
{
    let len = toks.len();
    let mut items: Vec<Spanned<Command>> = Vec::new();
    let mut p = pos;
    while p < len && !is_stop_token(toks[p].token)
        invariant
            pos <= p <= len,
            len == toks@.len(),
            sp_list(toks@, pos as int) == sp_list(toks@, p as int),
            items@.len() == 0 <==> p == pos,
        decreases len - p,
    {
        let (item, p2) = match parse_element(toks, p) {
            Result::Ok(v) => v,
            Result::Err(_) => {
                return Result::Err(());
            },
        };
        items.push(item);
        p = p2;
        if p < len && match toks[p].token {
            Token::Semicolon => true,
            _ => false,
        } {
            p = p + 1;
        } else if p < len && !is_stop_token(toks[p].token) {
            return Result::Err(());
        }
    }
    Result::Ok((items, p))
}

/// Combine prefix and suffix tokens into one argument list.
pub fn combine_args(prefix: Vec<SpannedToken>, suffix: Vec<SpannedToken>) -> (r: Vec<String>)
    ensures
        crate::string_utils::string_views(r@) == crate::string_utils::combine_args_spec(
            prefix@,
            suffix@,
        ),
{
    crate::string_utils::combine_args(prefix.as_slice(), suffix.as_slice())
}

/// Collect the `name=value` pairs of the assignment words in `prefix`.
pub fn extract_assignments(prefix: Vec<SpannedToken>) -> (r: Vec<(String, String)>)
    ensures
        crate::string_utils::pair_views(r@) == crate::string_utils::extract_assignments_spec(
            prefix@,
        ),
{
    crate::string_utils::extract_assignments(prefix.as_slice())
}

/// Convert a token to the argument text it stands for.
pub fn token_to_string(token: SpannedToken) -> (r: String)
    ensures
        r@ == crate::string_utils::token_to_string_spec(token.token, token.text@),
{
    crate::string_utils::token_to_string(&token)
}

/// Index of the first error token in a tokenization, if any.
pub open spec fn first_error_spec(ts: Seq<(Token, int, int)>) -> Option<int>
    decreases ts.len(),
{
    if ts.len() == 0 {
        Option::None
    } else if ts[0].0 is Error {
        Option::Some(0)
    } else {
        match first_error_spec(ts.drop_first()) {
            Option::Some(i) => Option::Some(i + 1),
            Option::None => Option::None,
        }
    }
}

/// What `first_error_spec` returns: the first error entry, or none at all.
pub proof fn lemma_first_error(ts: Seq<(Token, int, int)>)
    ensures
        match first_error_spec(ts) {
            Option::Some(i) => 0 <= i < ts.len() && ts[i].0 is Error && forall|j: int|
                0 <= j < i ==> !((#[trigger] ts[j]).0 is Error),
            Option::None => forall|j: int| 0 <= j < ts.len() ==> !((#[trigger] ts[j]).0 is Error),
        },
    decreases ts.len(),
{
    if ts.len() > 0 {
        lemma_first_error(ts.drop_first());
        if !(ts[0].0 is Error) {
            assert forall|j: int|
                1 <= j < ts.len() implies ts.drop_first()[j - 1] == #[trigger] ts[j] by {}
        }
    }
}

/// Holds tokenized input and turns it into a `Program`.
pub struct Parser {
    input: String,
    source_map: SourceMap,
    filename: String,
    tokens: Vec<SpannedToken>,
}

impl Parser {
    /// Create a parser for `input`, reporting errors against `<input>`.
    pub fn new(input: &str) -> (r: Result<Self, ShexError>) {
        Self::new_with_filename(input, "<input>")
    }

    /// Create a parser for `input`, reporting errors against `filename`.
    /// Tokenizes up front.  Succeeds exactly when no character fails the
    /// token grammar; otherwise the error is a syntax error naming the
    /// first offending character, at its span.
    pub fn new_with_filename(input: &str, filename: &str) -> (r: Result<Self, ShexError>)
        ensures
            ({
                let ts = tokens_spec(input@, 0);
                match r {
                    Result::Ok(p) => {
                        &&& first_error_spec(ts) is None
                        &&& p.wf()
                        &&& token_triples(p.toks()) == ts
                        &&& p.input_view() == input@
                        &&& p.filename_view() == filename@
                    },
                    Result::Err(e) => {
                        &&& first_error_spec(ts) is Some
                        &&& ({
                            let k = first_error_spec(ts)->0;
                            e@ == (ErrView::Syntax {
                                message: "Unexpected character: "@ + input@.subrange(
                                    ts[k].1,
                                    ts[k].2,
                                ),
                                span: Span { start: ts[k].1 as usize, end: ts[k].2 as usize },
                                filename: filename@,
                                line: position_in(input@, ts[k].1).line as int,
                                column: position_in(input@, ts[k].1).column as int,
                            })
                        })
                    },
                }
            }),
    {
        let source_map = SourceMap::new(input);
        let mut lexer = Lexer::new(input);
        let tokens = lexer.tokenize();
        let ghost ts = tokens_spec(input@, 0);
        proof {
            lemma_first_error(ts);
        }
        let n = tokens.len();
        let mut i: usize = 0;
        while i < n
            invariant
                n == tokens@.len(),
                source_map.wf(),
                source_map.starts() == line_starts_spec(input@),
                ts == tokens_spec(input@, 0),
                token_triples(tokens@) == ts,
                forall|k: int|
                    0 <= k < tokens@.len() ==> (#[trigger] tokens@[k]).wf_for(input@),
                i <= n,
                forall|j: int| 0 <= j < i ==> !((#[trigger] ts[j]).0 is Error),
            decreases n - i,
        {
            let is_error = match tokens[i].token {
                Token::Error => true,
                _ => false,
            };
            proof {
                assert(ts[i as int] == (
                    tokens@[i as int].token,
                    tokens@[i as int].span.start as int,
                    tokens@[i as int].span.end as int,
                ));
            }
            if is_error {
                proof {
                    lemma_first_error(ts);
                    assert(first_error_spec(ts) == Option::Some(i as int));
                }
                let mut message = String::from_str("Unexpected character: ");
                message.append(tokens[i].text.as_str());
                return Result::Err(
                    ShexError::syntax(message, tokens[i].span, &source_map, filename),
                );
            }
            i = i + 1;
        }
        proof {
            lemma_first_error(ts);
        }
        Result::Ok(
            Self {
                input: String::from_str(input),
                source_map,
                filename: String::from_str(filename),
                tokens,
            },
        )
    }

    /// The token stream the parser holds.
    pub closed spec fn toks(self) -> Seq<SpannedToken> {
        self.tokens@
    }

    /// The input text the parser was built from.
    pub closed spec fn input_view(self) -> Seq<char> {
        self.input@
    }

    /// The file name errors are reported under.
    pub closed spec fn filename_view(self) -> Seq<char> {
        self.filename@
    }

    /// The source map matches the input, and the stored tokens are its
    /// tokenization.
    pub closed spec fn wf(self) -> bool {
        &&& self.source_map.wf()
        &&& self.source_map.starts() == line_starts_spec(self.input@)
        &&& token_triples(self.tokens@) == tokens_spec(self.input@, 0)
        &&& forall|i: int|
            0 <= i < self.tokens@.len() ==> (#[trigger] self.tokens@[i]).wf_for(self.input@)
    }

    /// Parse the input into a program.  Succeeds exactly when the
    /// newline-filtered token stream matches the shell grammar, yielding
    /// at most one top-level command (which may itself be a sequence);
    /// otherwise a syntax error spanning the whole input.
    pub fn parse(&self) -> (r: Result<Program, ShexError>)
        requires
            self.wf(),
        ensures
            ({
                let ft = filtered_spec(self.toks());
                match r {
                    Result::Ok(prog) => {
                        &&& grammar_accepts(ft)
                        &&& prog.commands@.len() <= 1
                        &&& (ft.len() == 0 <==> prog.commands@.len() == 0)
                    },
                    Result::Err(e) => {
                        &&& !grammar_accepts(ft)
                        &&& e@ == (ErrView::Syntax {
                            message: "Parse error: the token sequence fits no rule"@,
                            span: Span {
                                start: 0,
                                end: self.input_view().len() as usize,
                            },
                            filename: self.filename_view(),
                            line: position_in(self.input_view(), 0).line as int,
                            column: position_in(self.input_view(), 0).column as int,
                        })
                    },
                }
            }),
    {
        let mut filtered: Vec<SpannedToken> = Vec::new();
        let n = self.tokens.len();
        let mut i: usize = 0;
        while i < n
            invariant
                n == self.tokens@.len(),
                i <= n,
                filtered@ == filtered_spec(self.toks().subrange(0, i as int)),
            decreases n - i,
        {
            let keep = match self.tokens[i].token {
                Token::Newline => false,
                Token::Eof => false,
                _ => true,
            };
            if keep {
                let tok = &self.tokens[i];
                filtered.push(
                    SpannedToken { token: tok.token, span: tok.span, text: tok.text.clone() },
                );
            }
            proof {
                assert(self.toks().subrange(0, i + 1).drop_last() =~= self.toks().subrange(
                    0,
                    i as int,
                ));
                assert(self.toks().subrange(0, i + 1).last() == self.toks()[i as int]);
            }
            i = i + 1;
        }
        proof {
            assert(self.toks().subrange(0, n as int) =~= self.toks());
        }
        if filtered.len() == 0 {
            return Result::Ok(Program { commands: Vec::new() });
        }
        match parse_list(&filtered, 0) {
            Result::Ok((items, p)) => {
                if p != filtered.len() {
                    return Result::Err(self.parse_error());
                }
                if items.len() == 0 {
                    return Result::Ok(Program { commands: Vec::new() });
                }
                let mut commands: Vec<Spanned<Command>> = Vec::new();
                commands.push(wrap_list(items));
                Result::Ok(Program { commands })
            },
            Result::Err(_) => Result::Err(self.parse_error()),
        }
    }

    fn parse_error(&self) -> (r: ShexError)
        requires
            self.wf(),
        ensures
            r@ == (ErrView::Syntax {
                message: "Parse error: the token sequence fits no rule"@,
                span: Span { start: 0, end: self.input_view().len() as usize },
                filename: self.filename_view(),
                line: position_in(self.input_view(), 0).line as int,
                column: position_in(self.input_view(), 0).column as int,
            }),
    {
        let end = self.input.as_str().unicode_len();
        ShexError::syntax(
            String::from_str("Parse error: the token sequence fits no rule"),
            Span::new(0, end),
            &self.source_map,
            self.filename.as_str(),
        )
    }

    /// The source map built for the input.
    pub fn source_map(&self) -> (r: &SourceMap)
        ensures
            self.wf() ==> r.wf(),
    {
        &self.source_map
    }

    /// The name the input is reported under.
    pub fn filename(&self) -> (r: &str)
        ensures
            r@ == self.filename_view(),
    {
        self.filename.as_str()
    }

    /// The original input text.
    pub fn input(&self) -> (r: &str)
        ensures
            r@ == self.input_view(),
    {
        self.input.as_str()
    }

    /// The token stream, for inspection.
    pub fn tokens(&self) -> (r: &[SpannedToken])
        ensures
            r@ == self.toks(),
    {
        self.tokens.as_slice()
    }
}

} // verus!
