//! The tree-walking evaluator.
//!
//! Walks the syntax tree, applies parameter expansion against the variable
//! scope, dispatches the built-ins, and implements the exit-status rules of
//! every control-flow construct.  Each evaluation step is proved equal to
//! the spec-level interpreter in `semantics` whenever the command runner
//! locates no external command, and also — under any runner at all — for
//! every command tree that names only built-ins.  With a real runner the
//! evaluator hands non-built-in commands to it; the scope after a simple
//! command, the handling of expansion errors, and the pass-through of the
//! runner's reply (`dispatch_run_outcome`) are proved unconditionally.

use vstd::prelude::*;
use crate::ast::{
    Command,
    Program,
    ShexError,
    SourceMap,
    Span,
    Spanned,
    CaseArm,
    Redirection,
    RedirectionKind,
    line_starts_spec,
    saturating_inc,
};
use crate::semantics::{
    SpecStatus,
    SpecOutcome,
    ElifOutcome,
    ceval,
    ceval_simple,
    ceval_list,
    ceval_loop,
    ceval_for,
    ceval_case,
    ceval_elifs,
    ceval_program,
    expand_arg_spec,
    expand_args_spec,
    expand_request_spec,
    apply_assignments_spec,
    join_spaces,
    zero_status,
    loop_limit,
    is_builtin,
    builtins_only,
    builtins_only_list,
    builtins_only_arms,
    builtins_only_elifs,
};
use crate::string_utils::{
    parse_simple_parameter_expansion,
    parse_parameter_expansion,
    string_views,
};
use crate::variable_resolver::{
    VariableContext,
    ExpansionRequest,
    ResolutionResult,
    resolve_expansion,
    str_eq,
};

verus! {

/// The result of evaluating one command: an exit code and the captured
/// output streams.
#[derive(Debug)]
pub struct ExitStatus {
    pub code: i32,
    pub stdout: String,
    pub stderr: String,
}

impl View for ExitStatus {
    type V = SpecStatus;

    open spec fn view(&self) -> SpecStatus {
        SpecStatus { code: self.code as int, stdout: self.stdout@, stderr: self.stderr@ }
    }
}

/// An evaluation result together with the bindings it left behind, in the
/// shape the spec-level interpreter speaks.
pub open spec fn outcome_of(r: Result<ExitStatus, ShexError>, m: Map<Seq<char>, Seq<char>>) -> SpecOutcome {
    match r {
        Result::Ok(st) => SpecOutcome::Done { status: st@, ctx: m },
        Result::Err(e) => SpecOutcome::Failed { err: e@, ctx: m },
    }
}

/// What running an external command came to.
#[derive(Debug)]
pub enum RunOutcome {
    /// The command could not be spawned.
    NotFound,
    /// A redirection target could not be opened.
    RedirectionFailed { message: String },
    /// The process ran to completion.
    Completed { code: i32, stdout: String, stderr: String },
}

/// The process boundary: spawns an external command with its expanded
/// arguments and redirections and waits for it.  A runner that locates no
/// external command (`external_free`) reports every name as not found;
/// the evaluator's contracts are exact for such a runner.
pub trait CommandRunner {
    /// Whether this runner locates no external command at all.
    spec fn external_free(&self) -> bool;

    /// Run `name` with `args`, applying `redirections` to its streams.
    fn run(&mut self, name: &String, args: &Vec<String>, redirections: &Vec<Redirection>) -> (r:
        RunOutcome)
        ensures
            final(self).external_free() == old(self).external_free(),
            old(self).external_free() ==> r is NotFound,
    ;
}

/// The runner of a pure evaluation: every external command is not found.
pub struct BuiltinOnlyRunner {}

impl CommandRunner for BuiltinOnlyRunner {
    open spec fn external_free(&self) -> bool {
        true
    }

    fn run(&mut self, name: &String, args: &Vec<String>, redirections: &Vec<Redirection>) -> (r:
        RunOutcome) {
        RunOutcome::NotFound
    }
}

/// Whether the evaluator captures a command's standard output: only when
/// no redirection already claims it.
pub open spec fn wants_stdout_capture(reds: Seq<Redirection>) -> bool {
    reds.len() == 0 || !(exists|i: int|
        0 <= i < reds.len() && (#[trigger] reds[i].kind is Output || reds[i].kind is Append
            || reds[i].kind is Clobber))
}

/// Whether the evaluator captures a command's standard error: only when no
/// duplication redirection claims descriptor 2.
pub open spec fn wants_stderr_capture(reds: Seq<Redirection>) -> bool {
    reds.len() == 0 || !(exists|i: int|
        0 <= i < reds.len() && (#[trigger] reds[i].kind is OutputDup) && reds[i].fd == Option::Some(
            2i32,
        ))
}

/// Decide whether standard output defaults to a captured pipe.
pub fn stdout_should_capture(redirections: &Vec<Redirection>) -> (r: bool)
    ensures
        r == wants_stdout_capture(redirections@),
{
    let n = redirections.len();
    if n == 0 {
        return true;
    }
    let mut i: usize = 0;
    while i < n
        invariant
            n == redirections@.len(),
            i <= n,
            forall|j: int|
                0 <= j < i ==> !(#[trigger] redirections@[j].kind is Output
                    || redirections@[j].kind is Append || redirections@[j].kind is Clobber),
        decreases n - i,
    {
        match redirections[i].kind {
            RedirectionKind::Output => {
                return false;
            },
            RedirectionKind::Append => {
                return false;
            },
            RedirectionKind::Clobber => {
                return false;
            },
            _ => {},
        }
        i = i + 1;
    }
    true
}

/// Decide whether standard error defaults to a captured pipe.
pub fn stderr_should_capture(redirections: &Vec<Redirection>) -> (r: bool)
    ensures
        r == wants_stderr_capture(redirections@),
{
    let n = redirections.len();
    if n == 0 {
        return true;
    }
    let mut i: usize = 0;
    while i < n
        invariant
            n == redirections@.len(),
            i <= n,
            forall|j: int|
                0 <= j < i ==> !((#[trigger] redirections@[j].kind is OutputDup)
                    && redirections@[j].fd == Option::Some(2i32)),
        decreases n - i,
    {
        let red = &redirections[i];
        let is_dup = match red.kind {
            RedirectionKind::OutputDup => true,
            _ => false,
        };
        let is_two = match red.fd {
            Option::Some(fd) => fd == 2,
            Option::None => false,
        };
        if is_dup && is_two {
            return false;
        }
        i = i + 1;
    }
    true
}

/// Turn the process boundary's reply into the command's result: a
/// completed process's code and streams are passed through unchanged (a
/// non-zero exit code is ordinary data, never an error), a failed spawn
/// is a command-not-found error at the command's span, and a failed
/// redirection is a syntax error.
pub fn dispatch_run_outcome(outcome: RunOutcome, name: &String, span: Span) -> (r: Result<
    ExitStatus,
    ShexError,
>)
    ensures
        match outcome {
            RunOutcome::Completed { code, stdout, stderr } => r matches Result::Ok(st)
                && st.code == code && st.stdout == stdout && st.stderr == stderr,
            RunOutcome::NotFound => r matches Result::Err(e) && e@ == crate::semantics::interp_not_found_err(
                name@,
                span,
            ),
            RunOutcome::RedirectionFailed { message } => r matches Result::Err(e) && e@
                == crate::semantics::interp_syntax_err(message@, Span { start: 0, end: 0 }),
        },
{
    match outcome {
        RunOutcome::NotFound => {
            let source_map = SourceMap::new("");
            proof {
                lemma_interp_position(source_map, span.start as int);
            }
            Result::Err(
                ShexError::command_not_found(name.clone(), span, &source_map, "<interpreter>"),
            )
        },
        RunOutcome::RedirectionFailed { message } => {
            let source_map = SourceMap::new("");
            proof {
                lemma_interp_position(source_map, 0);
            }
            Result::Err(ShexError::syntax(message, Span::dummy(), &source_map, "<interpreter>"))
        },
        RunOutcome::Completed { code, stdout, stderr } => {
            Result::Ok(ExitStatus { code, stdout, stderr })
        },
    }
}

/// Positions resolved against an empty source map land on line 1, at the
/// column just past the offset.
proof fn lemma_interp_position(sm: SourceMap, off: int)
    requires
        sm.starts() == line_starts_spec(""@),
        off >= 0,
    ensures
        sm.position_spec(off).line == 1,
        sm.position_spec(off).column == saturating_inc(off),
{
    reveal_strlit("");
    assert(""@.len() == 0);
    assert(sm.starts() =~= seq![0usize]);
}

/// The tree-walking interpreter: a variable scope and the last exit code.
pub struct Interpreter {
    pub variable_context: VariableContext,
    pub exit_code: i32,
}

impl Interpreter {
    /// The scope chain is well formed.
    pub closed spec fn inv(self) -> bool {
        self.variable_context.wf()
    }

    /// The bindings visible to commands.
    pub closed spec fn ctx(self) -> Map<Seq<char>, Seq<char>> {
        self.variable_context@
    }

    /// The exit code stored by the last `execute`.
    pub closed spec fn stored_code(self) -> int {
        self.exit_code as int
    }

    pub fn new() -> (r: Self)
        ensures
            r.inv(),
            r.ctx() == Map::<Seq<char>, Seq<char>>::empty(),
            r.stored_code() == 0,
    {
        Self { variable_context: VariableContext::new(), exit_code: 0 }
    }

    /// The interpreter's invariant and bindings are those of its variable
    /// context: callers may move between the two views.
    pub proof fn lemma_context_view(self)
        ensures
            self.inv() == self.variable_context.wf(),
            self.ctx() == self.variable_context@,
    {
    }

    /// The exit code of the last executed program.
    pub fn exit_code(&self) -> (r: i32)
        ensures
            r as int == self.stored_code(),
    {
        self.exit_code
    }

    /// Apply `name=value` pairs to the current scope, in order.
    fn apply_assignments(&mut self, assignments: &Vec<(String, String)>)
        requires
            old(self).inv(),
        ensures
            final(self).inv(),
            final(self).ctx() == apply_assignments_spec(assignments@, old(self).ctx()),
    {
        let n = assignments.len();
        proof {
            assert(assignments@.subrange(0, n as int) =~= assignments@);
        }
        let mut i: usize = 0;
        while i < n
            invariant
                self.inv(),
                n == assignments@.len(),
                i <= n,
                apply_assignments_spec(
                    assignments@.subrange(i as int, n as int),
                    self.ctx(),
                ) == apply_assignments_spec(assignments@, old(self).ctx()),
            decreases n - i,
        {
            let pair = &assignments[i];
            proof {
                assert(assignments@.subrange(i as int, n as int)[0] == assignments@[i as int]);
                assert(assignments@.subrange(i as int, n as int).drop_first()
                    =~= assignments@.subrange(i + 1, n as int));
            }
            self.variable_context.set(pair.0.clone(), pair.1.clone());
            i = i + 1;
        }
        proof {
            assert(assignments@.subrange(n as int, n as int).len() == 0);
        }
    }

    /// Resolve one parsed expansion request, turning `Unset` into an
    /// undefined-variable error and `Error` into a syntax error.
    fn expand_parsed_request(&mut self, request: &ExpansionRequest, span: Span) -> (r: Result<
        String,
        ShexError,
    >)
        requires
            old(self).inv(),
        ensures
            final(self).inv(),
            ({
                let e = expand_request_spec(request@, old(self).ctx(), span);
                &&& e.1 == final(self).ctx()
                &&& match r {
                    Result::Ok(s) => e.0 == Result::<Seq<char>, crate::ast::ErrView>::Ok(s@),
                    Result::Err(err) => e.0 == Result::<Seq<char>, crate::ast::ErrView>::Err(
                        err@,
                    ),
                }
            }),
    {
        let resolved = resolve_expansion(&mut self.variable_context, request);
        match resolved {
            ResolutionResult::Resolved(value) => Result::Ok(value),
            ResolutionResult::Unset => {
                let source_map = SourceMap::new("");
                proof {
                    lemma_interp_position(source_map, span.start as int);
                }
                Result::Err(
                    ShexError::undefined_variable(
                        request.variable_name.clone(),
                        span,
                        &source_map,
                        "<interpreter>",
                    ),
                )
            },
            ResolutionResult::Error(msg) => {
                let source_map = SourceMap::new("");
                proof {
                    lemma_interp_position(source_map, span.start as int);
                }
                Result::Err(ShexError::syntax(msg, span, &source_map, "<interpreter>"))
            },
        }
    }

    /// Expand one argument: a `$name` or `${...}` argument is replaced by
    /// its resolved value, anything else is returned as written.
    fn expand_single_argument(&mut self, arg: &String, span: Span) -> (r: Result<String, ShexError>)
        requires
            old(self).inv(),
        ensures
            final(self).inv(),
            ({
                let e = expand_arg_spec(arg@, old(self).ctx(), span);
                &&& e.1 == final(self).ctx()
                &&& match r {
                    Result::Ok(s) => e.0 == Result::<Seq<char>, crate::ast::ErrView>::Ok(s@),
                    Result::Err(err) => e.0 == Result::<Seq<char>, crate::ast::ErrView>::Err(
                        err@,
                    ),
                }
            }),
    {
        match parse_simple_parameter_expansion(arg.as_str()) {
            Option::Some(request) => self.expand_parsed_request(&request, span),
            Option::None => {
                match parse_parameter_expansion(arg.as_str()) {
                    Option::Some(request) => self.expand_parsed_request(&request, span),
                    Option::None => Result::Ok(arg.clone()),
                }
            },
        }
    }

    /// Expand every argument left to right; the first failure aborts.
    fn expand_arguments(&mut self, args: &Vec<String>, span: Span) -> (r: Result<
        Vec<String>,
        ShexError,
    >)
        requires
            old(self).inv(),
        ensures
            final(self).inv(),
            ({
                let e = expand_args_spec(string_views(args@), old(self).ctx(), span);
                match r {
                    Result::Ok(vs) => e == (
                        Result::<Seq<Seq<char>>, crate::ast::ErrView>::Ok(string_views(vs@)),
                        final(self).ctx(),
                    ),
                    Result::Err(err) => e == (
                        Result::<Seq<Seq<char>>, crate::ast::ErrView>::Err(err@),
                        final(self).ctx(),
                    ),
                }
            }),
    {
        let n = args.len();
        proof {
            assert(string_views(args@).subrange(0, n as int) =~= string_views(args@));
            assert(string_views(Seq::<String>::empty()) =~= Seq::<Seq<char>>::empty());
        }
        let mut out: Vec<String> = Vec::new();
        let mut i: usize = 0;
        while i < n
            invariant
                self.inv(),
                n == args@.len(),
                i <= n,
                ({
                    let rest = expand_args_spec(
                        string_views(args@).subrange(i as int, n as int),
                        self.ctx(),
                        span,
                    );
                    let total = expand_args_spec(string_views(args@), old(self).ctx(), span);
                    match rest.0 {
                        Result::Ok(vs) => total == (
                            Result::<Seq<Seq<char>>, crate::ast::ErrView>::Ok(
                                string_views(out@) + vs,
                            ),
                            rest.1,
                        ),
                        Result::Err(e) => total == (
                            Result::<Seq<Seq<char>>, crate::ast::ErrView>::Err(e),
                            rest.1,
                        ),
                    }
                }),
            decreases n - i,
        {
            let ghost pre_ctx = self.ctx();
            let ghost remaining = string_views(args@).subrange(i as int, n as int);
            proof {
                assert(remaining[0] == args@[i as int]@);
                assert(remaining.drop_first() =~= string_views(args@).subrange(i + 1, n as int));
            }
            match self.expand_single_argument(&args[i], span) {
                Result::Ok(v) => {
                    let ghost pre_out = out@;
                    out.push(v);
                    proof {
                        assert(string_views(out@) =~= string_views(pre_out).push(
                            out@.last()@,
                        ));
                        let rest2 = expand_args_spec(
                            string_views(args@).subrange(i + 1, n as int),
                            self.ctx(),
                            span,
                        );
                        if rest2.0 is Ok {
                            assert(string_views(pre_out) + (seq![out@.last()@]
                                + rest2.0->Ok_0) =~= string_views(out@) + rest2.0->Ok_0);
                        }
                    }
                },
                Result::Err(e) => {
                    return Result::Err(e);
                },
            }
            i = i + 1;
        }
        proof {
            assert(string_views(args@).subrange(n as int, n as int).len() == 0);
            assert(string_views(out@) + Seq::<Seq<char>>::empty() =~= string_views(out@));
        }
        Result::Ok(out)
    }

    /// Run one simple command: assignments, expansion, built-in dispatch,
    /// and the runner for everything else.
    fn execute_simple_command<R: CommandRunner>(
        &mut self,
        runner: &mut R,
        name: &String,
        args: &Vec<String>,
        assignments: &Vec<(String, String)>,
        redirections: &Vec<Redirection>,
        span: Span,
    ) -> (r: Result<ExitStatus, ShexError>)
        requires
            old(self).inv(),
        ensures
            final(self).inv(),
            final(runner).external_free() == old(runner).external_free(),
            old(runner).external_free() ==> ceval_simple(
                name@,
                string_views(args@),
                assignments@,
                span,
                old(self).ctx(),
            ) == outcome_of(r, final(self).ctx()),
            is_builtin(name@) ==> ceval_simple(
                name@,
                string_views(args@),
                assignments@,
                span,
                old(self).ctx(),
            ) == outcome_of(r, final(self).ctx()),
            final(self).ctx() == expand_args_spec(
                string_views(args@),
                apply_assignments_spec(assignments@, old(self).ctx()),
                span,
            ).1,
            expand_args_spec(
                string_views(args@),
                apply_assignments_spec(assignments@, old(self).ctx()),
                span,
            ).0 matches Result::Err(e) ==> r matches Result::Err(re) && re@ == e,
    {
        self.apply_assignments(assignments);
        let expanded = match self.expand_arguments(args, span) {
            Result::Ok(v) => v,
            Result::Err(e) => {
                return Result::Err(e);
            },
        };
        if str_eq(name.as_str(), "echo") {
            let mut out = join_args(&expanded, 0);
            out.append("\n");
            proof {
                reveal_strlit("\n");
                assert(string_views(expanded@).subrange(0, expanded@.len() as int)
                    =~= string_views(expanded@));
                assert(out@ =~= join_spaces(string_views(expanded@)).push('\n'));
            }
            Result::Ok(ExitStatus { code: 0, stdout: out, stderr: String::new() })
        } else if str_eq(name.as_str(), "true") {
            Result::Ok(ExitStatus { code: 0, stdout: String::new(), stderr: String::new() })
        } else if str_eq(name.as_str(), "false") {
            Result::Ok(ExitStatus { code: 1, stdout: String::new(), stderr: String::new() })
        } else {
            let reply = runner.run(name, &expanded, redirections);
            dispatch_run_outcome(reply, name, span)
        }
    }

    /// Evaluate one command node.
    #[verifier::rlimit(80)]
    fn execute_command<R: CommandRunner>(
        &mut self,
        runner: &mut R,
        command: &Spanned<Command>,
    ) -> (r: Result<ExitStatus, ShexError>)
        requires
            old(self).inv(),
        ensures
            final(self).inv(),
            final(runner).external_free() == old(runner).external_free(),
            old(runner).external_free() ==> ceval(*command, old(self).ctx()) == outcome_of(
                r,
                final(self).ctx(),
            ),
            builtins_only(*command) ==> ceval(*command, old(self).ctx()) == outcome_of(
                r,
                final(self).ctx(),
            ),
        decreases command, loop_limit() + 1, 0nat, 0nat,
    {
        match &command.node {
            Command::Simple { name, args, assignments, redirections } => {
                self.execute_simple_command(runner, name, args, assignments, redirections, command.span)
            },
            Command::Pipeline { commands, .. } => {
                proof {
                    assert(commands@.subrange(0, commands@.len() as int) =~= commands@);
                }
                self.execute_list(runner, commands, 0)
            },
            Command::Assignment { assignments } => {
                self.apply_assignments(assignments);
                Result::Ok(ExitStatus { code: 0, stdout: String::new(), stderr: String::new() })
            },
            Command::AndIf { left, right } => {
                match self.execute_command(runner, &**left) {
                    Result::Err(e) => Result::Err(e),
                    Result::Ok(st) => {
                        if st.code == 0 {
                            self.execute_command(runner, &**right)
                        } else {
                            Result::Ok(st)
                        }
                    },
                }
            },
            Command::OrIf { left, right } => {
                match self.execute_command(runner, &**left) {
                    Result::Err(e) => Result::Err(e),
                    Result::Ok(st) => {
                        if st.code == 0 {
                            Result::Ok(st)
                        } else {
                            self.execute_command(runner, &**right)
                        }
                    },
                }
            },
            Command::Sequence { commands } => {
                proof {
                    assert(commands@.subrange(0, commands@.len() as int) =~= commands@);
                }
                self.execute_list(runner, commands, 0)
            },
            Command::Background { command: inner } => {
                match self.execute_command(runner, &**inner) {
                    Result::Err(e) => Result::Err(e),
                    Result::Ok(_) => Result::Ok(
                        ExitStatus { code: 0, stdout: String::new(), stderr: String::new() },
                    ),
                }
            },
            Command::If { condition, then_body, elif_clauses, else_body } => {
                match self.execute_command(runner, &**condition) {
                    Result::Err(e) => Result::Err(e),
                    Result::Ok(st) => {
                        if st.code == 0 {
                            proof {
                                assert(then_body@.subrange(0, then_body@.len() as int)
                                    =~= then_body@);
                            }
                            self.execute_list(runner, then_body, 0)
                        } else {
                            proof {
                                assert(elif_clauses@.subrange(0, elif_clauses@.len() as int)
                                    =~= elif_clauses@);
                            }
                            match self.execute_elifs(runner, elif_clauses, 0) {
                                Result::Err(e) => Result::Err(e),
                                Result::Ok(Option::Some(taken)) => Result::Ok(taken),
                                Result::Ok(Option::None) => {
                                    match else_body {
                                        Option::Some(b) => {
                                            proof {
                                                assert(b@.subrange(0, b@.len() as int) =~= b@);
                                            }
                                            self.execute_list(runner, b, 0)
                                        },
                                        Option::None => Result::Ok(
                                            ExitStatus {
                                                code: 0,
                                                stdout: String::new(),
                                                stderr: String::new(),
                                            },
                                        ),
                                    }
                                },
                            }
                        }
                    },
                }
            },
            Command::While { .. } => self.execute_loop(runner, command),
            Command::Until { .. } => self.execute_loop(runner, command),
            Command::For { variable, words, body } => {
                match words {
                    Option::Some(w) => {
                        let zero = ExitStatus {
                            code: 0,
                            stdout: String::new(),
                            stderr: String::new(),
                        };
                        proof {
                            assert(zero@ == zero_status());
                            assert(string_views(w@).subrange(0, w@.len() as int) =~= string_views(
                                w@,
                            ));
                        }
                        let r = self.execute_for(runner, variable, w, body, 0, zero);
                        proof {
                            if old(runner).external_free() {
                                assert(ceval(*command, old(self).ctx()) == ceval_for(
                                    body@,
                                    variable@,
                                    string_views(w@),
                                    old(self).ctx(),
                                    zero_status(),
                                ));
                            }
                        }
                        r
                    },
                    Option::None => {
                        let r = Result::<ExitStatus, ShexError>::Ok(
                            ExitStatus { code: 0, stdout: String::new(), stderr: String::new() },
                        );
                        proof {
                            if old(runner).external_free() {
                                assert(ceval(*command, old(self).ctx()) == ceval_for(
                                    body@,
                                    variable@,
                                    Seq::empty(),
                                    old(self).ctx(),
                                    zero_status(),
                                ));
                            }
                        }
                        r
                    },
                }
            },
            Command::Case { word, arms } => {
                match self.expand_single_argument(word, Span::dummy()) {
                    Result::Err(e) => Result::Err(e),
                    Result::Ok(expanded) => {
                        proof {
                            assert(arms@.subrange(0, arms@.len() as int) =~= arms@);
                        }
                        self.execute_case(runner, arms, &expanded, 0)
                    },
                }
            },
            Command::Function { .. } => Result::Ok(
                ExitStatus { code: 0, stdout: String::new(), stderr: String::new() },
            ),
            Command::Subshell { commands } => {
                let mut sub = Interpreter {
                    variable_context: self.variable_context.duplicate(),
                    exit_code: self.exit_code,
                };
                proof {
                    assert(commands@.subrange(0, commands@.len() as int) =~= commands@);
                }
                match sub.execute_list(runner, commands, 0) {
                    Result::Ok(st) => Result::Ok(st),
                    Result::Err(e) => Result::Err(e),
                }
            },
            Command::BraceGroup { commands } => {
                proof {
                    assert(commands@.subrange(0, commands@.len() as int) =~= commands@);
                }
                self.execute_list(runner, commands, 0)
            },
        }
    }

    /// Evaluate the commands of a list from index `i` on; the result is
    /// the last command's, or a zero status when none remain.
    fn execute_list<R: CommandRunner>(
        &mut self,
        runner: &mut R,
        cmds: &Vec<Spanned<Command>>,
        i: usize,
    ) -> (r: Result<ExitStatus, ShexError>)
        requires
            old(self).inv(),
            i <= cmds@.len(),
        ensures
            final(self).inv(),
            final(runner).external_free() == old(runner).external_free(),
            old(runner).external_free() ==> ceval_list(
                cmds@.subrange(i as int, cmds@.len() as int),
                old(self).ctx(),
            ) == outcome_of(r, final(self).ctx()),
            builtins_only_list(cmds@.subrange(i as int, cmds@.len() as int)) ==> ceval_list(
                cmds@.subrange(i as int, cmds@.len() as int),
                old(self).ctx(),
            ) == outcome_of(r, final(self).ctx()),
        decreases cmds@, 0nat, cmds@.len() - i, 0nat,
    {
        let n = cmds.len();
        if i == n {
            return Result::Ok(ExitStatus { code: 0, stdout: String::new(), stderr: String::new() });
        }
        proof {
            assert(cmds@.subrange(i as int, n as int)[0] == cmds@[i as int]);
            assert(cmds@.subrange(i as int, n as int).subrange(
                1,
                cmds@.subrange(i as int, n as int).len() as int,
            ) =~= cmds@.subrange(i + 1, n as int));
        }
        match self.execute_command(runner, &cmds[i]) {
            Result::Err(e) => Result::Err(e),
            Result::Ok(st) => {
                if i + 1 == n {
                    Result::Ok(st)
                } else {
                    self.execute_list(runner, cmds, i + 1)
                }
            },
        }
    }

    /// Run a `while`/`until` loop node, re-evaluating its condition before
    /// each pass, up to the iteration cap.
    fn execute_loop<R: CommandRunner>(
        &mut self,
        runner: &mut R,
        sc: &Spanned<Command>,
    ) -> (r: Result<ExitStatus, ShexError>)
        requires
            old(self).inv(),
            sc.node is While || sc.node is Until,
        ensures
            final(self).inv(),
            final(runner).external_free() == old(runner).external_free(),
            old(runner).external_free() ==> ceval_loop(
                *sc,
                old(self).ctx(),
                zero_status(),
                loop_limit(),
            ) == outcome_of(r, final(self).ctx()),
            builtins_only(*sc) ==> ceval_loop(
                *sc,
                old(self).ctx(),
                zero_status(),
                loop_limit(),
            ) == outcome_of(r, final(self).ctx()),
        decreases sc, 0nat, 0nat, 0nat,
    {
        let is_until = match &sc.node {
            Command::Until { .. } => true,
            _ => false,
        };
        let (condition, body): (&Box<Spanned<Command>>, &Vec<Spanned<Command>>) = match &sc.node {
            Command::While { condition, body } => (condition, body),
            Command::Until { condition, body } => (condition, body),
            _ => {
                proof {
                    assert(false);
                }
                return Result::Ok(
                    ExitStatus { code: 0, stdout: String::new(), stderr: String::new() },
                );
            },
        };
        let mut last = ExitStatus { code: 0, stdout: String::new(), stderr: String::new() };
        let mut fuel: u64 = 0xffff_ffff_ffff_ffff;
        let ghost was_free = runner.external_free();
        let ghost m0 = self.ctx();
        proof {
            assert(last@ == zero_status());
        }
        loop
            invariant
                self.inv(),
                was_free == old(runner).external_free(),
                m0 == old(self).ctx(),
                runner.external_free() == was_free,
                sc.node is While || sc.node is Until,
                sc.node is While ==> sc.node->While_condition == *condition && sc.node->While_body
                    == *body,
                sc.node is Until ==> sc.node->Until_condition == *condition && sc.node->Until_body
                    == *body,
                is_until == (sc.node is Until),
                was_free ==> ceval_loop(*sc, self.ctx(), last@, fuel as nat) == ceval_loop(
                    *sc,
                    m0,
                    zero_status(),
                    loop_limit(),
                ),
                builtins_only(*sc) ==> ceval_loop(*sc, self.ctx(), last@, fuel as nat)
                    == ceval_loop(*sc, m0, zero_status(), loop_limit()),
            decreases fuel,
        {
            if fuel == 0 {
                return Result::Ok(last);
            }
            let cond_result = match self.execute_command(runner, condition) {
                Result::Ok(c) => c,
                Result::Err(e) => {
                    return Result::Err(e);
                },
            };
            let stop = if is_until {
                cond_result.code == 0
            } else {
                cond_result.code != 0
            };
            if stop {
                return Result::Ok(last);
            }
            match self.execute_list(runner, body, 0) {
                Result::Ok(st) => {
                    proof {
                        assert(body@.subrange(0, body@.len() as int) =~= body@);
                    }
                    last = st;
                },
                Result::Err(e) => {
                    proof {
                        assert(body@.subrange(0, body@.len() as int) =~= body@);
                    }
                    return Result::Err(e);
                },
            }
            fuel = fuel - 1;
        }
    }

    /// Run a `for` loop body once per remaining word, binding the loop
    /// variable each time.
    fn execute_for<R: CommandRunner>(
        &mut self,
        runner: &mut R,
        variable: &String,
        words: &Vec<String>,
        body: &Vec<Spanned<Command>>,
        widx: usize,
        last: ExitStatus,
    ) -> (r: Result<ExitStatus, ShexError>)
        requires
            old(self).inv(),
            widx <= words@.len(),
        ensures
            final(self).inv(),
            final(runner).external_free() == old(runner).external_free(),
            old(runner).external_free() ==> ceval_for(
                body@,
                variable@,
                string_views(words@).subrange(widx as int, words@.len() as int),
                old(self).ctx(),
                last@,
            ) == outcome_of(r, final(self).ctx()),
            builtins_only_list(body@) ==> ceval_for(
                body@,
                variable@,
                string_views(words@).subrange(widx as int, words@.len() as int),
                old(self).ctx(),
                last@,
            ) == outcome_of(r, final(self).ctx()),
        decreases body@, 1nat, words@.len() - widx, 0nat,
    {
        let n = words.len();
        if widx == n {
            return Result::Ok(last);
        }
        proof {
            assert(string_views(words@).subrange(widx as int, n as int)[0]
                == words@[widx as int]@);
            assert(string_views(words@).subrange(widx as int, n as int).drop_first()
                =~= string_views(words@).subrange(widx + 1, n as int));
            assert(body@.subrange(0, body@.len() as int) =~= body@);
        }
        self.variable_context.set(variable.clone(), words[widx].clone());
        match self.execute_list(runner, body, 0) {
            Result::Err(e) => Result::Err(e),
            Result::Ok(st) => self.execute_for(runner, variable, words, body, widx + 1, st),
        }
    }

    /// Whether a case pattern matches a word: exact equality.
    pub fn pattern_matches(&self, pattern: &str, word: &str) -> (r: bool)
        ensures
            r == (pattern@ == word@),
    {
        str_eq(pattern, word)
    }

    /// Scan case arms from `aidx` on; the first whose patterns contain the
    /// word runs its commands.
    fn execute_case<R: CommandRunner>(
        &mut self,
        runner: &mut R,
        arms: &Vec<CaseArm>,
        word: &String,
        aidx: usize,
    ) -> (r: Result<ExitStatus, ShexError>)
        requires
            old(self).inv(),
            aidx <= arms@.len(),
        ensures
            final(self).inv(),
            final(runner).external_free() == old(runner).external_free(),
            old(runner).external_free() ==> ceval_case(
                arms@.subrange(aidx as int, arms@.len() as int),
                word@,
                old(self).ctx(),
            ) == outcome_of(r, final(self).ctx()),
            builtins_only_arms(arms@.subrange(aidx as int, arms@.len() as int)) ==> ceval_case(
                arms@.subrange(aidx as int, arms@.len() as int),
                word@,
                old(self).ctx(),
            ) == outcome_of(r, final(self).ctx()),
        decreases arms@, 0nat, arms@.len() - aidx, 0nat,
    {
        let n = arms.len();
        if aidx == n {
            return Result::Ok(ExitStatus { code: 0, stdout: String::new(), stderr: String::new() });
        }
        proof {
            assert(arms@.subrange(aidx as int, n as int)[0] == arms@[aidx as int]);
            assert(arms@.subrange(aidx as int, n as int).subrange(
                1,
                arms@.subrange(aidx as int, n as int).len() as int,
            ) =~= arms@.subrange(aidx + 1, n as int));
        }
        let arm = &arms[aidx];
        let m = arm.patterns.len();
        let mut j: usize = 0;
        let mut matched = false;
        while j < m && !matched
            invariant
                m == arm.patterns@.len(),
                j <= m,
                arm == &arms@[aidx as int],
                !matched ==> forall|k: int| 0 <= k < j ==> arm.patterns@[k]@ != word@,
                matched ==> j >= 1 && arm.patterns@[j - 1]@ == word@,
            decreases m - j,
        {
            if self.pattern_matches(arm.patterns[j].as_str(), word.as_str()) {
                matched = true;
            }
            j = j + 1;
        }
        if matched {
            proof {
                assert(crate::semantics::arm_matches(arms@[aidx as int], word@));
                assert(arm.commands@.subrange(0, arm.commands@.len() as int) =~= arm.commands@);
            }
            self.execute_list(runner, &arm.commands, 0)
        } else {
            proof {
                assert(!crate::semantics::arm_matches(arms@[aidx as int], word@));
            }
            self.execute_case(runner, arms, word, aidx + 1)
        }
    }

    /// Scan elif clauses from `i` on, running the body of the first whose
    /// condition succeeds; `None` means none matched.
    fn execute_elifs<R: CommandRunner>(
        &mut self,
        runner: &mut R,
        clauses: &Vec<(Spanned<Command>, Vec<Spanned<Command>>)>,
        i: usize,
    ) -> (r: Result<Option<ExitStatus>, ShexError>)
        requires
            old(self).inv(),
            i <= clauses@.len(),
        ensures
            final(self).inv(),
            final(runner).external_free() == old(runner).external_free(),
            (old(runner).external_free() || builtins_only_elifs(
                clauses@.subrange(i as int, clauses@.len() as int),
            )) ==> ({
                let eo = ceval_elifs(
                    clauses@.subrange(i as int, clauses@.len() as int),
                    old(self).ctx(),
                );
                match r {
                    Result::Ok(Option::Some(st)) => eo == ElifOutcome::Taken(
                        SpecOutcome::Done { status: st@, ctx: final(self).ctx() },
                    ),
                    Result::Ok(Option::None) => eo == ElifOutcome::NoneMatched(final(self).ctx()),
                    Result::Err(e) => eo == ElifOutcome::Taken(
                        SpecOutcome::Failed { err: e@, ctx: final(self).ctx() },
                    ),
                }
            }),
        decreases clauses@, 0nat, clauses@.len() - i, 0nat,
    {
        let n = clauses.len();
        if i == n {
            return Result::Ok(Option::None);
        }
        proof {
            assert(clauses@.subrange(i as int, n as int)[0] == clauses@[i as int]);
            assert(clauses@.subrange(i as int, n as int).subrange(
                1,
                clauses@.subrange(i as int, n as int).len() as int,
            ) =~= clauses@.subrange(i + 1, n as int));
        }
        let clause = &clauses[i];
        match self.execute_command(runner, &clause.0) {
            Result::Err(e) => Result::Err(e),
            Result::Ok(st) => {
                if st.code == 0 {
                    proof {
                        assert(clause.1@.subrange(0, clause.1@.len() as int) =~= clause.1@);
                    }
                    match self.execute_list(runner, &clause.1, 0) {
                        Result::Err(e) => Result::Err(e),
                        Result::Ok(body_st) => Result::Ok(Option::Some(body_st)),
                    }
                } else {
                    self.execute_elifs(runner, clauses, i + 1)
                }
            },
        }
    }

    /// Run the top-level commands from `i` on, stopping at the first
    /// non-zero exit status.
    fn execute_program_from<R: CommandRunner>(
        &mut self,
        runner: &mut R,
        cmds: &Vec<Spanned<Command>>,
        i: usize,
    ) -> (r: Result<ExitStatus, ShexError>)
        requires
            old(self).inv(),
            i <= cmds@.len(),
        ensures
            final(self).inv(),
            final(runner).external_free() == old(runner).external_free(),
            old(runner).external_free() ==> ceval_program(
                cmds@.subrange(i as int, cmds@.len() as int),
                old(self).ctx(),
            ) == outcome_of(r, final(self).ctx()),
            builtins_only_list(cmds@.subrange(i as int, cmds@.len() as int)) ==> ceval_program(
                cmds@.subrange(i as int, cmds@.len() as int),
                old(self).ctx(),
            ) == outcome_of(r, final(self).ctx()),
        decreases cmds@.len() - i,
    {
        let n = cmds.len();
        if i == n {
            return Result::Ok(ExitStatus { code: 0, stdout: String::new(), stderr: String::new() });
        }
        proof {
            assert(cmds@.subrange(i as int, n as int)[0] == cmds@[i as int]);
            assert(cmds@.subrange(i as int, n as int).drop_first() =~= cmds@.subrange(
                i + 1,
                n as int,
            ));
        }
        match self.execute_command(runner, &cmds[i]) {
            Result::Err(e) => Result::Err(e),
            Result::Ok(st) => {
                if st.code != 0 {
                    Result::Ok(st)
                } else if i + 1 == n {
                    Result::Ok(st)
                } else {
                    self.execute_program_from(runner, cmds, i + 1)
                }
            },
        }
    }

    /// Execute a program with `runner` at the process boundary, stopping
    /// at the first non-zero exit status, and store the final exit code.
    pub fn execute_with<R: CommandRunner>(&mut self, runner: &mut R, program: Program) -> (r: Result<
        ExitStatus,
        ShexError,
    >)
        requires
            old(self).inv(),
        ensures
            final(self).inv(),
            final(runner).external_free() == old(runner).external_free(),
            old(runner).external_free() ==> ceval_program(program.commands@, old(self).ctx())
                == outcome_of(r, final(self).ctx()),
            builtins_only_list(program.commands@) ==> ceval_program(
                program.commands@,
                old(self).ctx(),
            ) == outcome_of(r, final(self).ctx()),
            match r {
                Result::Ok(st) => final(self).stored_code() == st@.code,
                Result::Err(_) => true,
            },
    {
        proof {
            assert(program.commands@.subrange(0, program.commands@.len() as int)
                =~= program.commands@);
        }
        let r = self.execute_program_from(runner, &program.commands, 0);
        match r {
            Result::Ok(st) => {
                self.exit_code = st.code;
                Result::Ok(st)
            },
            Result::Err(e) => Result::Err(e),
        }
    }

    /// Execute a program with built-ins only: every external command is
    /// reported as not found, and the result is exactly the spec-level
    /// interpreter's outcome.
    pub fn execute(&mut self, program: Program) -> (r: Result<ExitStatus, ShexError>)
        requires
            old(self).inv(),
        ensures
            final(self).inv(),
            ceval_program(program.commands@, old(self).ctx()) == outcome_of(
                r,
                final(self).ctx(),
            ),
            match r {
                Result::Ok(st) => final(self).stored_code() == st@.code,
                Result::Err(_) => true,
            },
    {
        let mut runner = BuiltinOnlyRunner {  };
        self.execute_with(&mut runner, program)
    }
}

/// The arguments from `i` on, joined with single spaces.
fn join_args(args: &Vec<String>, i: usize) -> (r: String)
    requires
        i <= args@.len(),
    ensures
        r@ == join_spaces(string_views(args@).subrange(i as int, args@.len() as int)),
    decreases args@.len() - i,
{
    let n = args.len();
    let ghost remaining = string_views(args@).subrange(i as int, n as int);
    if i == n {
        String::new()
    } else if i + 1 == n {
        proof {
            assert(remaining[0] == args@[i as int]@);
        }
        args[i].clone()
    } else {
        let mut s = args[i].clone();
        s.append(" ");
        let rest = join_args(args, i + 1);
        s.append(rest.as_str());
        proof {
            reveal_strlit(" ");
            assert(remaining[0] == args@[i as int]@);
            assert(remaining.drop_first() =~= string_views(args@).subrange(i + 1, n as int));
            assert(" "@ =~= seq![' ']);
            assert(s@ =~= remaining[0] + seq![' '] + join_spaces(remaining.drop_first()));
        }
        s
    }
}

} // verus!
