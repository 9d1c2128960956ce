//! The mathematical model of evaluation.
//!
//! A total, spec-level interpreter over the syntax tree: parameter
//! expansion, prefix assignments, the three built-ins, and the exit-status
//! rules of every control-flow construct.  `while`/`until` loops carry a
//! fuel bound mirroring the executable evaluator's iteration cap.  External
//! commands are modeled for a runner that locates none: dispatching any
//! non-built-in name is a command-not-found error.

use vstd::prelude::*;
use crate::ast::{Command, Spanned, Span, CaseArm, ErrView, saturating_inc};
use crate::variable_resolver::{ResView, ReqView, resolve_spec};
use crate::string_utils::{parse_simple_spec, parse_braced_spec, string_views};

verus! {

/// The iteration cap of a `while`/`until` loop: large beyond reach.
pub open spec fn loop_limit() -> nat {
    0xffff_ffff_ffff_ffff
}

/// Spec-level image of an `ExitStatus`.
pub ghost struct SpecStatus {
    pub code: int,
    pub stdout: Seq<char>,
    pub stderr: Seq<char>,
}

/// Code 0 with empty output: the status of a command that did nothing.
pub open spec fn zero_status() -> SpecStatus {
    SpecStatus { code: 0, stdout: Seq::empty(), stderr: Seq::empty() }
}

/// What evaluating a command yields: a status or an error, and the
/// variable bindings afterwards.
pub ghost enum SpecOutcome {
    Done { status: SpecStatus, ctx: Map<Seq<char>, Seq<char>> },
    Failed { err: ErrView, ctx: Map<Seq<char>, Seq<char>> },
}

impl SpecOutcome {
    /// The bindings after evaluation.
    pub open spec fn ctx(self) -> Map<Seq<char>, Seq<char>> {
        match self {
            SpecOutcome::Done { ctx, .. } => ctx,
            SpecOutcome::Failed { ctx, .. } => ctx,
        }
    }
}

/// The position the evaluator reports: it resolves spans against an empty
/// source map, so every offset lands on line 1.
pub open spec fn interp_undef_err(var: Seq<char>, span: Span) -> ErrView {
    ErrView::UndefinedVariable {
        var,
        span,
        filename: "<interpreter>"@,
        line: 1,
        column: saturating_inc(span.start as int),
    }
}

/// A syntax error as the evaluator reports it.
pub open spec fn interp_syntax_err(message: Seq<char>, span: Span) -> ErrView {
    ErrView::Syntax {
        message,
        span,
        filename: "<interpreter>"@,
        line: 1,
        column: saturating_inc(span.start as int),
    }
}

/// A command-not-found error as the evaluator reports it.
pub open spec fn interp_not_found_err(command: Seq<char>, span: Span) -> ErrView {
    ErrView::CommandNotFound {
        command,
        span,
        filename: "<interpreter>"@,
        line: 1,
        column: saturating_inc(span.start as int),
    }
}

/// Expanding one request: a resolved value, or the error the evaluator
/// makes of `Unset` and `Error` resolutions.
pub open spec fn expand_request_spec(req: ReqView, m: Map<Seq<char>, Seq<char>>, span: Span) -> (
    Result<Seq<char>, ErrView>,
    Map<Seq<char>, Seq<char>>,
) {
    let r = resolve_spec(m, req);
    match r.0 {
        ResView::Resolved(v) => (Result::Ok(v), r.1),
        ResView::Unset => (Result::Err(interp_undef_err(req.variable_name, span)), r.1),
        ResView::Error(msg) => (Result::Err(interp_syntax_err(msg, span)), r.1),
    }
}

/// Expanding one argument: a `$name` or `${...}` argument is replaced
/// wholesale by its resolved value; anything else is literal.
pub open spec fn expand_arg_spec(a: Seq<char>, m: Map<Seq<char>, Seq<char>>, span: Span) -> (
    Result<Seq<char>, ErrView>,
    Map<Seq<char>, Seq<char>>,
) {
    match parse_simple_spec(a) {
        Option::Some(req) => expand_request_spec(req, m, span),
        Option::None => match parse_braced_spec(a) {
            Option::Some(req) => expand_request_spec(req, m, span),
            Option::None => (Result::Ok(a), m),
        },
    }
}

/// Expanding an argument list left to right; the first failure stops.
pub open spec fn expand_args_spec(
    args: Seq<Seq<char>>,
    m: Map<Seq<char>, Seq<char>>,
    span: Span,
) -> (Result<Seq<Seq<char>>, ErrView>, Map<Seq<char>, Seq<char>>)
    decreases args.len(),
{
    if args.len() == 0 {
        (Result::Ok(Seq::empty()), m)
    } else {
        let head = expand_arg_spec(args[0], m, span);
        match head.0 {
            Result::Err(e) => (Result::Err(e), head.1),
            Result::Ok(v) => {
                let rest = expand_args_spec(args.drop_first(), head.1, span);
                match rest.0 {
                    Result::Err(e) => (Result::Err(e), rest.1),
                    Result::Ok(vs) => (Result::Ok(seq![v] + vs), rest.1),
                }
            },
        }
    }
}

/// Prefix assignments applied left to right.
pub open spec fn apply_assignments_spec(
    assignments: Seq<(String, String)>,
    m: Map<Seq<char>, Seq<char>>,
) -> Map<Seq<char>, Seq<char>>
    decreases assignments.len(),
{
    if assignments.len() == 0 {
        m
    } else {
        apply_assignments_spec(
            assignments.drop_first(),
            m.insert(assignments[0].0@, assignments[0].1@),
        )
    }
}

/// Arguments joined with single spaces, as `echo` prints them.
pub open spec fn join_spaces(args: Seq<Seq<char>>) -> Seq<char>
    decreases args.len(),
{
    if args.len() == 0 {
        Seq::empty()
    } else if args.len() == 1 {
        args[0]
    } else {
        args[0] + seq![' '] + join_spaces(args.drop_first())
    }
}

/// The three built-in command names.
pub open spec fn is_builtin(name: Seq<char>) -> bool {
    name == "echo"@ || name == "true"@ || name == "false"@
}

/// Every simple command in the tree names a built-in, so evaluation never
/// reaches the process boundary: such commands evaluate per `ceval` under
/// any runner.
pub open spec fn builtins_only(sc: Spanned<Command>) -> bool
    decreases sc, 0nat, 0nat, 0nat,
{
    match sc.node {
        Command::Simple { name, .. } => is_builtin(name@),
        Command::Pipeline { commands, .. } => builtins_only_list(commands@),
        Command::Assignment { .. } => true,
        Command::AndIf { left, right } => builtins_only(*left) && builtins_only(*right),
        Command::OrIf { left, right } => builtins_only(*left) && builtins_only(*right),
        Command::Sequence { commands } => builtins_only_list(commands@),
        Command::Background { command } => builtins_only(*command),
        Command::If { condition, then_body, elif_clauses, else_body } => {
            &&& builtins_only(*condition)
            &&& builtins_only_list(then_body@)
            &&& builtins_only_elifs(elif_clauses@)
            &&& match else_body {
                Option::Some(b) => builtins_only_list(b@),
                Option::None => true,
            }
        },
        Command::While { condition, body } => builtins_only(*condition) && builtins_only_list(
            body@,
        ),
        Command::Until { condition, body } => builtins_only(*condition) && builtins_only_list(
            body@,
        ),
        Command::For { body, .. } => builtins_only_list(body@),
        Command::Case { arms, .. } => builtins_only_arms(arms@),
        Command::Function { .. } => true,
        Command::Subshell { commands } => builtins_only_list(commands@),
        Command::BraceGroup { commands } => builtins_only_list(commands@),
    }
}

/// `builtins_only` over every command of a list.
pub open spec fn builtins_only_list(cmds: Seq<Spanned<Command>>) -> bool
    decreases cmds, 0nat, 0nat, 0nat,
{
    if cmds.len() == 0 {
        true
    } else {
        builtins_only(cmds[0]) && builtins_only_list(cmds.subrange(1, cmds.len() as int))
    }
}

/// `builtins_only` over every case arm's commands.
pub open spec fn builtins_only_arms(arms: Seq<CaseArm>) -> bool
    decreases arms, 0nat, 0nat, 0nat,
{
    if arms.len() == 0 {
        true
    } else {
        builtins_only_list(arms[0].commands@) && builtins_only_arms(
            arms.subrange(1, arms.len() as int),
        )
    }
}

/// `builtins_only` over every elif condition and body.
pub open spec fn builtins_only_elifs(clauses: Seq<(Spanned<Command>, Vec<Spanned<Command>>)>) -> bool
    decreases clauses, 0nat, 0nat, 0nat,
{
    if clauses.len() == 0 {
        true
    } else {
        builtins_only(clauses[0].0) && builtins_only_list(clauses[0].1@) && builtins_only_elifs(
            clauses.subrange(1, clauses.len() as int),
        )
    }
}

/// A case word matches an arm when it equals one of its patterns exactly.
pub open spec fn arm_matches(arm: CaseArm, word: Seq<char>) -> bool {
    exists|i: int| 0 <= i < arm.patterns@.len() && #[trigger] arm.patterns@[i]@ == word
}

/// The outcome of scanning the elif clauses: one was taken, or none.
pub ghost enum ElifOutcome {
    Taken(SpecOutcome),
    NoneMatched(Map<Seq<char>, Seq<char>>),
}

/// One simple command: apply its prefix assignments, expand its
/// arguments, and dispatch a built-in; any other name is not found.
pub open spec fn ceval_simple(
    name: Seq<char>,
    args: Seq<Seq<char>>,
    assignments: Seq<(String, String)>,
    span: Span,
    m: Map<Seq<char>, Seq<char>>,
) -> SpecOutcome {
    let m1 = apply_assignments_spec(assignments, m);
    let expanded = expand_args_spec(args, m1, span);
    match expanded.0 {
        Result::Err(e) => SpecOutcome::Failed { err: e, ctx: expanded.1 },
        Result::Ok(vs) => if name == "echo"@ {
            SpecOutcome::Done {
                status: SpecStatus {
                    code: 0,
                    stdout: join_spaces(vs).push('\n'),
                    stderr: Seq::empty(),
                },
                ctx: expanded.1,
            }
        } else if name == "true"@ {
            SpecOutcome::Done { status: zero_status(), ctx: expanded.1 }
        } else if name == "false"@ {
            SpecOutcome::Done {
                status: SpecStatus { code: 1, stdout: Seq::empty(), stderr: Seq::empty() },
                ctx: expanded.1,
            }
        } else {
            SpecOutcome::Failed { err: interp_not_found_err(name, span), ctx: expanded.1 }
        },
    }
}

/// Evaluate one command against the bindings `m`.
pub open spec fn ceval(sc: Spanned<Command>, m: Map<Seq<char>, Seq<char>>) -> SpecOutcome
    decreases sc, loop_limit() + 1, 0nat, 0nat,
{
    match sc.node {
        Command::Simple { name, args, assignments, .. } => ceval_simple(
            name@,
            string_views(args@),
            assignments@,
            sc.span,
            m,
        ),
        Command::Pipeline { commands, .. } => ceval_list(commands@, m),
        Command::Assignment { assignments } => SpecOutcome::Done {
            status: zero_status(),
            ctx: apply_assignments_spec(assignments@, m),
        },
        Command::AndIf { left, right } => match ceval(*left, m) {
            SpecOutcome::Failed { err, ctx } => SpecOutcome::Failed { err, ctx },
            SpecOutcome::Done { status, ctx } => if status.code == 0 {
                ceval(*right, ctx)
            } else {
                SpecOutcome::Done { status, ctx }
            },
        },
        Command::OrIf { left, right } => match ceval(*left, m) {
            SpecOutcome::Failed { err, ctx } => SpecOutcome::Failed { err, ctx },
            SpecOutcome::Done { status, ctx } => if status.code == 0 {
                SpecOutcome::Done { status, ctx }
            } else {
                ceval(*right, ctx)
            },
        },
        Command::Sequence { commands } => ceval_list(commands@, m),
        Command::Background { command } => match ceval(*command, m) {
            SpecOutcome::Failed { err, ctx } => SpecOutcome::Failed { err, ctx },
            SpecOutcome::Done { ctx, .. } => SpecOutcome::Done { status: zero_status(), ctx },
        },
        Command::If { condition, then_body, elif_clauses, else_body } => {
            match ceval(*condition, m) {
                SpecOutcome::Failed { err, ctx } => SpecOutcome::Failed { err, ctx },
                SpecOutcome::Done { status, ctx } => if status.code == 0 {
                    ceval_list(then_body@, ctx)
                } else {
                    match ceval_elifs(elif_clauses@, ctx) {
                        ElifOutcome::Taken(o) => o,
                        ElifOutcome::NoneMatched(m2) => match else_body {
                            Option::Some(b) => ceval_list(b@, m2),
                            Option::None => SpecOutcome::Done { status: zero_status(), ctx: m2 },
                        },
                    }
                },
            }
        },
        Command::While { .. } => ceval_loop(sc, m, zero_status(), loop_limit()),
        Command::Until { .. } => ceval_loop(sc, m, zero_status(), loop_limit()),
        Command::For { variable, words, body } => {
            let list = match words {
                Option::Some(w) => string_views(w@),
                Option::None => Seq::empty(),
            };
            ceval_for(body@, variable@, list, m, zero_status())
        },
        Command::Case { word, arms } => {
            let expanded = expand_arg_spec(word@, m, Span { start: 0, end: 0 });
            match expanded.0 {
                Result::Err(e) => SpecOutcome::Failed { err: e, ctx: expanded.1 },
                Result::Ok(w) => ceval_case(arms@, w, expanded.1),
            }
        },
        Command::Function { .. } => SpecOutcome::Done { status: zero_status(), ctx: m },
        Command::Subshell { commands } => match ceval_list(commands@, m) {
            SpecOutcome::Done { status, .. } => SpecOutcome::Done { status, ctx: m },
            SpecOutcome::Failed { err, .. } => SpecOutcome::Failed { err, ctx: m },
        },
        Command::BraceGroup { commands } => ceval_list(commands@, m),
    }
}

/// Evaluate a command list in order; the result is the last command's,
/// or a zero status for an empty list.  The first error stops the list.
pub open spec fn ceval_list(cmds: Seq<Spanned<Command>>, m: Map<Seq<char>, Seq<char>>) -> SpecOutcome
    decreases cmds, 0nat, 0nat, 0nat,
{
    if cmds.len() == 0 {
        SpecOutcome::Done { status: zero_status(), ctx: m }
    } else {
        match ceval(cmds[0], m) {
            SpecOutcome::Failed { err, ctx } => SpecOutcome::Failed { err, ctx },
            SpecOutcome::Done { status, ctx } => if cmds.len() == 1 {
                SpecOutcome::Done { status, ctx }
            } else {
                ceval_list(cmds.subrange(1, cmds.len() as int), ctx)
            },
        }
    }
}

/// One `while`/`until` loop with `fuel` iterations left: re-evaluate the
/// condition, run the body while it holds (`while`) or fails (`until`),
/// and return the last body result.  Exhausted fuel ends the loop.
pub open spec fn ceval_loop(
    sc: Spanned<Command>,
    m: Map<Seq<char>, Seq<char>>,
    last: SpecStatus,
    fuel: nat,
) -> SpecOutcome
    decreases sc, fuel, 1nat, 0nat,
{
    match sc.node {
        Command::While { condition, body } => {
            if fuel == 0 {
                SpecOutcome::Done { status: last, ctx: m }
            } else {
                match ceval(*condition, m) {
                    SpecOutcome::Failed { err, ctx } => SpecOutcome::Failed { err, ctx },
                    SpecOutcome::Done { status, ctx } => if status.code != 0 {
                        SpecOutcome::Done { status: last, ctx }
                    } else {
                        match ceval_list(body@, ctx) {
                            SpecOutcome::Failed { err, ctx } => SpecOutcome::Failed { err, ctx },
                            SpecOutcome::Done { status, ctx } => ceval_loop(
                                sc,
                                ctx,
                                status,
                                (fuel - 1) as nat,
                            ),
                        }
                    },
                }
            }
        },
        Command::Until { condition, body } => {
            if fuel == 0 {
                SpecOutcome::Done { status: last, ctx: m }
            } else {
                match ceval(*condition, m) {
                    SpecOutcome::Failed { err, ctx } => SpecOutcome::Failed { err, ctx },
                    SpecOutcome::Done { status, ctx } => if status.code == 0 {
                        SpecOutcome::Done { status: last, ctx }
                    } else {
                        match ceval_list(body@, ctx) {
                            SpecOutcome::Failed { err, ctx } => SpecOutcome::Failed { err, ctx },
                            SpecOutcome::Done { status, ctx } => ceval_loop(
                                sc,
                                ctx,
                                status,
                                (fuel - 1) as nat,
                            ),
                        }
                    },
                }
            }
        },
        _ => SpecOutcome::Done { status: last, ctx: m },
    }
}

/// One `for` loop: bind the variable to each word in order and run the
/// body; the result is the last body result, or `last` if no words remain.
pub open spec fn ceval_for(
    body: Seq<Spanned<Command>>,
    variable: Seq<char>,
    words: Seq<Seq<char>>,
    m: Map<Seq<char>, Seq<char>>,
    last: SpecStatus,
) -> SpecOutcome
    decreases body, words.len(), 1nat, 0nat,
{
    if words.len() == 0 {
        SpecOutcome::Done { status: last, ctx: m }
    } else {
        let m1 = m.insert(variable, words[0]);
        match ceval_list(body, m1) {
            SpecOutcome::Failed { err, ctx } => SpecOutcome::Failed { err, ctx },
            SpecOutcome::Done { status, ctx } => ceval_for(
                body,
                variable,
                words.drop_first(),
                ctx,
                status,
            ),
        }
    }
}

/// Scan the case arms in order; the first whose pattern list contains the
/// word exactly runs its commands.  No match is a zero status.
pub open spec fn ceval_case(
    arms: Seq<CaseArm>,
    word: Seq<char>,
    m: Map<Seq<char>, Seq<char>>,
) -> SpecOutcome
    decreases arms, 0nat, 0nat, 0nat,
{
    if arms.len() == 0 {
        SpecOutcome::Done { status: zero_status(), ctx: m }
    } else if arm_matches(arms[0], word) {
        ceval_list(arms[0].commands@, m)
    } else {
        ceval_case(arms.subrange(1, arms.len() as int), word, m)
    }
}

/// Scan elif clauses in order, evaluating each condition until one
/// succeeds; its body's outcome is the `if`'s.
pub open spec fn ceval_elifs(
    clauses: Seq<(Spanned<Command>, Vec<Spanned<Command>>)>,
    m: Map<Seq<char>, Seq<char>>,
) -> ElifOutcome
    decreases clauses, 0nat, 0nat, 0nat,
{
    if clauses.len() == 0 {
        ElifOutcome::NoneMatched(m)
    } else {
        match ceval(clauses[0].0, m) {
            SpecOutcome::Failed { err, ctx } => ElifOutcome::Taken(
                SpecOutcome::Failed { err, ctx },
            ),
            SpecOutcome::Done { status, ctx } => if status.code == 0 {
                ElifOutcome::Taken(ceval_list(clauses[0].1@, ctx))
            } else {
                ceval_elifs(clauses.subrange(1, clauses.len() as int), ctx)
            },
        }
    }
}

/// Run a program's top-level commands in order, stopping at the first
/// non-zero exit status or error; the result is the last status reached.
pub open spec fn ceval_program(
    cmds: Seq<Spanned<Command>>,
    m: Map<Seq<char>, Seq<char>>,
) -> SpecOutcome
    decreases cmds.len(),
{
    if cmds.len() == 0 {
        SpecOutcome::Done { status: zero_status(), ctx: m }
    } else {
        match ceval(cmds[0], m) {
            SpecOutcome::Failed { err, ctx } => SpecOutcome::Failed { err, ctx },
            SpecOutcome::Done { status, ctx } => if status.code != 0 || cmds.len() == 1 {
                SpecOutcome::Done { status, ctx }
            } else {
                ceval_program(cmds.drop_first(), ctx)
            },
        }
    }
}

} // verus!
