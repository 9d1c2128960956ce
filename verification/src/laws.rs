//! The laws of the expansion algebra and of control flow, stated and
//! proved against the spec-level interpreter.

use vstd::prelude::*;
use crate::ast::{Command, Spanned, Span};
use crate::variable_resolver::{ExpansionMode, ReqView, ResView, resolve_spec};
use crate::semantics::{
    SpecStatus,
    SpecOutcome,
    ceval,
    ceval_list,
    expand_request_spec,
    interp_undef_err,
};

verus! {

/// The request `$name` / `${name}` (they resolve alike).
pub open spec fn normal_req(name: Seq<char>) -> ReqView {
    ReqView {
        variable_name: name,
        mode: ExpansionMode::Normal,
        parameter: Option::None,
        check_unset: false,
    }
}

/// The request `${name:-d}` (colon) or `${name-d}` (bare).
pub open spec fn default_req(name: Seq<char>, d: Seq<char>, colon: bool) -> ReqView {
    ReqView {
        variable_name: name,
        mode: ExpansionMode::DefaultValue,
        parameter: Option::Some(d),
        check_unset: colon,
    }
}

/// The request `${name:=d}` (colon) or `${name=d}` (bare).
pub open spec fn assign_req(name: Seq<char>, d: Seq<char>, colon: bool) -> ReqView {
    ReqView {
        variable_name: name,
        mode: ExpansionMode::AssignDefault,
        parameter: Option::Some(d),
        check_unset: colon,
    }
}

/// The request `${name:?}`: error if unset or null, with no message.
pub open spec fn error_req(name: Seq<char>) -> ReqView {
    ReqView {
        variable_name: name,
        mode: ExpansionMode::ErrorIfUnset,
        parameter: Option::None,
        check_unset: true,
    }
}

/// The request `${name:+a}`.
pub open spec fn alt_req(name: Seq<char>, a: Seq<char>) -> ReqView {
    ReqView {
        variable_name: name,
        mode: ExpansionMode::AlternativeValue,
        parameter: Option::Some(a),
        check_unset: true,
    }
}

/// For a variable set to a non-empty value, every plain, default and
/// assign form yields that value, and none changes the bindings.
pub proof fn law_set_nonempty_expansions(
    m: Map<Seq<char>, Seq<char>>,
    name: Seq<char>,
    d: Seq<char>,
)
    requires
        m.contains_key(name),
        m[name].len() > 0,
    ensures
        resolve_spec(m, normal_req(name)) == (ResView::Resolved(m[name]), m),
        resolve_spec(m, default_req(name, d, true)) == (ResView::Resolved(m[name]), m),
        resolve_spec(m, default_req(name, d, false)) == (ResView::Resolved(m[name]), m),
        resolve_spec(m, assign_req(name, d, true)) == (ResView::Resolved(m[name]), m),
        resolve_spec(m, assign_req(name, d, false)) == (ResView::Resolved(m[name]), m),
{
}

/// For an unset variable: the plain forms report it unset (the evaluator
/// turns that into an undefined-variable error); the default forms yield
/// the default without binding it; the assign forms yield the default and
/// bind it; `${v:?}` is an error naming the variable; `${v:+a}` is empty.
pub proof fn law_unset_expansions(m: Map<Seq<char>, Seq<char>>, name: Seq<char>, d: Seq<char>, span: Span)
    requires
        !m.contains_key(name),
    ensures
        resolve_spec(m, normal_req(name)) == (ResView::Unset, m),
        expand_request_spec(normal_req(name), m, span).0 == Result::<
            Seq<char>,
            crate::ast::ErrView,
        >::Err(interp_undef_err(name, span)),
        resolve_spec(m, default_req(name, d, true)) == (ResView::Resolved(d), m),
        resolve_spec(m, default_req(name, d, false)) == (ResView::Resolved(d), m),
        resolve_spec(m, assign_req(name, d, true)) == (ResView::Resolved(d), m.insert(name, d)),
        resolve_spec(m, assign_req(name, d, false)) == (ResView::Resolved(d), m.insert(name, d)),
        m.insert(name, d)[name] == d,
        resolve_spec(m, error_req(name)) == (
            ResView::Error(name + ": parameter null or not set"@),
            m,
        ),
        resolve_spec(m, alt_req(name, d)) == (ResView::Resolved(Seq::<char>::empty()), m),
{
}

/// For a variable set to the empty string: the bare default form keeps
/// the empty value, while the colon form treats null as unset and yields
/// the default.
pub proof fn law_null_default_forms(m: Map<Seq<char>, Seq<char>>, name: Seq<char>, d: Seq<char>)
    requires
        m.contains_key(name),
        m[name].len() == 0,
    ensures
        resolve_spec(m, default_req(name, d, false)) == (
            ResView::Resolved(Seq::<char>::empty()),
            m,
        ),
        resolve_spec(m, default_req(name, d, true)) == (ResView::Resolved(d), m),
{
    assert(m[name] =~= Seq::<char>::empty());
}

/// Assigning a default is idempotent: resolving the same `${v:=d}` form
/// again, after the bindings it produced, returns the same value and
/// leaves the bindings exactly as they were.
pub proof fn law_assign_default_idempotent(
    m: Map<Seq<char>, Seq<char>>,
    name: Seq<char>,
    d: Seq<char>,
    colon: bool,
)
    ensures
        ({
            let first = resolve_spec(m, assign_req(name, d, colon));
            resolve_spec(first.1, assign_req(name, d, colon)) == first
        }),
{
    let req = assign_req(name, d, colon);
    let first = resolve_spec(m, req);
    if !(m.contains_key(name) && (m[name].len() > 0 || !colon)) {
        assert(first.1 == m.insert(name, d));
        if first.1.contains_key(name) && (first.1[name].len() > 0 || !colon) {
        } else {
            assert(first.1.insert(name, d) =~= first.1);
        }
    }
}

/// Short-circuiting `&&`: when the left side fails, its result is the
/// whole command's result, whatever stands on the right.
pub proof fn law_and_if_short_circuit(
    left: Box<Spanned<Command>>,
    right: Box<Spanned<Command>>,
    span: Span,
    m: Map<Seq<char>, Seq<char>>,
    st: SpecStatus,
    m1: Map<Seq<char>, Seq<char>>,
)
    requires
        ceval(*left, m) == (SpecOutcome::Done { status: st, ctx: m1 }),
        st.code != 0,
    ensures
        ceval(Spanned { node: Command::AndIf { left, right }, span }, m) == (SpecOutcome::Done {
            status: st,
            ctx: m1,
        }),
{
}

/// Short-circuiting `||`: when the left side succeeds, its result is the
/// whole command's result, whatever stands on the right.
pub proof fn law_or_if_short_circuit(
    left: Box<Spanned<Command>>,
    right: Box<Spanned<Command>>,
    span: Span,
    m: Map<Seq<char>, Seq<char>>,
    st: SpecStatus,
    m1: Map<Seq<char>, Seq<char>>,
)
    requires
        ceval(*left, m) == (SpecOutcome::Done { status: st, ctx: m1 }),
        st.code == 0,
    ensures
        ceval(Spanned { node: Command::OrIf { left, right }, span }, m) == (SpecOutcome::Done {
            status: st,
            ctx: m1,
        }),
{
}

/// A three-command sequence runs all three and returns the third's
/// result, whatever the exit codes of the first two.
pub proof fn law_sequence_returns_last(
    a: Spanned<Command>,
    b: Spanned<Command>,
    c: Spanned<Command>,
    span: Span,
    m: Map<Seq<char>, Seq<char>>,
    sa: SpecStatus,
    ma: Map<Seq<char>, Seq<char>>,
    sb: SpecStatus,
    mb: Map<Seq<char>, Seq<char>>,
    sc_: SpecStatus,
    mc: Map<Seq<char>, Seq<char>>,
    cmds: Vec<Spanned<Command>>,
)
    requires
        cmds@ == seq![a, b, c],
        ceval(a, m) == (SpecOutcome::Done { status: sa, ctx: ma }),
        ceval(b, ma) == (SpecOutcome::Done { status: sb, ctx: mb }),
        ceval(c, mb) == (SpecOutcome::Done { status: sc_, ctx: mc }),
    ensures
        ceval(Spanned { node: Command::Sequence { commands: cmds }, span }, m) == (
        SpecOutcome::Done { status: sc_, ctx: mc }),
{
    let s = cmds@;
    assert(s.len() == 3);
    assert(s[0] == a);
    assert(s.subrange(1, 3)[0] == b);
    assert(s.subrange(1, 3).subrange(1, 2) =~= s.subrange(2, 3));
    assert(s.subrange(2, 3)[0] == c);
    assert(ceval_list(s.subrange(2, 3), mb) == (SpecOutcome::Done { status: sc_, ctx: mc }));
    assert(ceval_list(s.subrange(1, 3), ma) == (SpecOutcome::Done { status: sc_, ctx: mc }));
    assert(ceval_list(s, m) == (SpecOutcome::Done { status: sc_, ctx: mc }));
}

/// A subshell's variable assignments are invisible afterwards: whatever
/// its commands do, the bindings after the subshell are the bindings
/// before it.
pub proof fn law_subshell_keeps_scope(
    commands: Vec<Spanned<Command>>,
    span: Span,
    m: Map<Seq<char>, Seq<char>>,
)
    ensures
        ceval(Spanned { node: Command::Subshell { commands }, span }, m).ctx() == m,
{
}

/// A brace group runs in the caller's own scope: its outcome, bindings
/// included, is exactly that of running its command list in place.
pub proof fn law_brace_group_shares_scope(
    commands: Vec<Spanned<Command>>,
    span: Span,
    m: Map<Seq<char>, Seq<char>>,
)
    ensures
        ceval(Spanned { node: Command::BraceGroup { commands }, span }, m) == ceval_list(
            commands@,
            m,
        ),
{
}

} // verus!
