//! Text processing for the parser: quote removal, assignment words, and
//! the two parameter-expansion shapes `$name` and `${...}`.

use vstd::prelude::*;
use crate::lexer::{SpannedToken, Token, is_name_start, is_name_char};
use crate::variable_resolver::{ExpansionMode, ExpansionRequest, ReqView};

verus! {

/// A valid POSIX variable name: a letter or underscore, then letters,
/// digits or underscores.
pub open spec fn valid_var_name(s: Seq<char>) -> bool {
    s.len() > 0 && is_name_start(s[0]) && forall|i: int|
        1 <= i < s.len() ==> is_name_char(#[trigger] s[i])
}

/// Whether `c` occurs in `cs`.
pub open spec fn char_in(cs: Seq<char>, c: char) -> bool {
    exists|i: int| 0 <= i < cs.len() && cs[i] == c
}

/// Index of the first character of `s` that occurs in `cs`.
pub open spec fn find_any_spec(s: Seq<char>, cs: Seq<char>) -> Option<int>
    decreases s.len(),
{
    if s.len() == 0 {
        Option::None
    } else if char_in(cs, s[0]) {
        Option::Some(0)
    } else {
        match find_any_spec(s.drop_first(), cs) {
            Option::Some(i) => Option::Some(i + 1),
            Option::None => Option::None,
        }
    }
}

/// What `find_any_spec` returns: the first hit, or nothing anywhere.
pub proof fn lemma_find_any(s: Seq<char>, cs: Seq<char>)
    ensures
        match find_any_spec(s, cs) {
            Option::Some(i) => 0 <= i < s.len() && char_in(cs, s[i]) && forall|j: int|
                0 <= j < i ==> !char_in(cs, #[trigger] s[j]),
            Option::None => forall|j: int| 0 <= j < s.len() ==> !char_in(cs, #[trigger] s[j]),
        },
    decreases s.len(),
{
    if s.len() > 0 {
        lemma_find_any(s.drop_first(), cs);
        if !char_in(cs, s[0]) {
            assert forall|j: int|
                1 <= j < s.len() implies s.drop_first()[j - 1] == #[trigger] s[j] by {}
        }
    }
}

fn ch_in(cs: &[char], c: char) -> (r: bool)
    ensures
        r == char_in(cs@, c),
{
    let n = cs.len();
    let mut i: usize = 0;
    while i < n
        invariant
            n == cs@.len(),
            i <= n,
            forall|j: int| 0 <= j < i ==> cs@[j] != c,
        decreases n - i,
    {
        if cs[i] == c {
            return true;
        }
        i = i + 1;
    }
    false
}

/// Index of the first character of `s` found in `chars`.
pub fn find_any(s: &str, chars: &[char]) -> (r: Option<usize>)
    ensures
        match r {
            Option::Some(i) => find_any_spec(s@, chars@) == Option::Some(i as int),
            Option::None => find_any_spec(s@, chars@) is None,
        },
{
    let len = s.unicode_len();
    let mut i: usize = 0;
    while i < len
        invariant
            len == s@.len(),
            i <= len,
            forall|j: int| 0 <= j < i ==> !char_in(chars@, #[trigger] s@[j]),
        decreases len - i,
    {
        if ch_in(chars, s.get_char(i)) {
            proof {
                lemma_find_any(s@, chars@);
            }
            return Option::Some(i);
        }
        i = i + 1;
    }
    proof {
        lemma_find_any(s@, chars@);
    }
    Option::None
}

/// Whether `name` is a valid POSIX variable name.
pub fn is_valid_variable_name(name: &str) -> (r: bool)
    ensures
        r == valid_var_name(name@),
{
    let len = name.unicode_len();
    if len == 0 {
        return false;
    }
    let first = name.get_char(0);
    let u = first as u32;
    if !((97 <= u && u <= 122) || (65 <= u && u <= 90) || u == 95) {
        return false;
    }
    let mut i: usize = 1;
    while i < len
        invariant
            len == name@.len(),
            1 <= i <= len,
            is_name_start(name@[0]),
            forall|j: int| 1 <= j < i ==> is_name_char(#[trigger] name@[j]),
        decreases len - i,
    {
        let c = name.get_char(i);
        let v = c as u32;
        if !((97 <= v && v <= 122) || (65 <= v && v <= 90) || v == 95 || (48 <= v && v <= 57)) {
            return false;
        }
        i = i + 1;
    }
    true
}

/// The text with one pair of matching outer quotes removed.
pub open spec fn remove_quotes_spec(s: Seq<char>) -> Seq<char> {
    if s.len() < 2 {
        s
    } else if (s[0] == '"' && s.last() == '"') || (s[0] == '\'' && s.last() == '\'') {
        s.subrange(1, s.len() - 1)
    } else {
        s
    }
}

/// Remove matching surrounding quotes, single or double, if both are there.
pub fn remove_quotes(text: &str) -> (r: String)
    ensures
        r@ == remove_quotes_spec(text@),
{
    let len = text.unicode_len();
    if len < 2 {
        return String::from_str(text);
    }
    let first = text.get_char(0);
    let last = text.get_char(len - 1);
    if (first == '"' && last == '"') || (first == '\'' && last == '\'') {
        String::from_str(text.substring_char(1, len - 1))
    } else {
        String::from_str(text)
    }
}

/// What a token contributes as an argument: string literals lose their
/// quotes, everything else keeps its text.
pub open spec fn token_to_string_spec(t: Token, text: Seq<char>) -> Seq<char> {
    if t is String {
        remove_quotes_spec(text)
    } else {
        text
    }
}

/// Convert a token to the argument text it stands for.
pub fn token_to_string(token: &SpannedToken) -> (r: String)
    ensures
        r@ == token_to_string_spec(token.token, token.text@),
{
    match token.token {
        Token::String => remove_quotes(token.text.as_str()),
        _ => token.text.clone(),
    }
}

/// The name/value split of an assignment word, if the name is valid.
pub open spec fn parse_assignment_spec(s: Seq<char>) -> Option<(Seq<char>, Seq<char>)> {
    match find_any_spec(s, seq!['=']) {
        Option::Some(eq) => if valid_var_name(s.subrange(0, eq)) {
            Option::Some((s.subrange(0, eq), s.subrange(eq + 1, s.len() as int)))
        } else {
            Option::None
        },
        Option::None => Option::None,
    }
}

/// Split `name=value` at the first `=`; the name must be a valid variable
/// name.
pub fn parse_assignment(text: &str) -> (r: Option<(String, String)>)
    ensures
        match r {
            Option::Some(p) => parse_assignment_spec(text@) == Option::Some((p.0@, p.1@)),
            Option::None => parse_assignment_spec(text@) is None,
        },
{
    let eq_chars: [char; 1] = ['='];
    proof {
        assert(eq_chars@ =~= seq!['=']);
    }
    match find_any(text, &eq_chars) {
        Option::Some(eq) => {
            proof {
                lemma_find_any(text@, eq_chars@);
            }
            let name = text.substring_char(0, eq);
            if is_valid_variable_name(name) {
                let len = text.unicode_len();
                let value = text.substring_char(eq + 1, len);
                Option::Some((String::from_str(name), String::from_str(value)))
            } else {
                Option::None
            }
        },
        Option::None => Option::None,
    }
}

/// The assignment pairs of a token list, in order.
pub open spec fn extract_assignments_spec(toks: Seq<SpannedToken>) -> Seq<(Seq<char>, Seq<char>)>
    decreases toks.len(),
{
    if toks.len() == 0 {
        Seq::empty()
    } else {
        let pre = extract_assignments_spec(toks.drop_last());
        let t = toks.last();
        if t.token is AssignmentWord {
            match parse_assignment_spec(t.text@) {
                Option::Some(p) => pre.push(p),
                Option::None => pre,
            }
        } else {
            pre
        }
    }
}

/// The views of a list of string pairs.
pub open spec fn pair_views(s: Seq<(String, String)>) -> Seq<(Seq<char>, Seq<char>)> {
    s.map_values(|p: (String, String)| (p.0@, p.1@))
}

/// Collect the `name=value` pairs of the assignment words in `tokens`.
pub fn extract_assignments(tokens: &[SpannedToken]) -> (r: Vec<(String, String)>)
    ensures
        pair_views(r@) == extract_assignments_spec(tokens@),
{
    let n = tokens.len();
    let mut out: Vec<(String, String)> = Vec::new();
    let mut i: usize = 0;
    while i < n
        invariant
            n == tokens@.len(),
            i <= n,
            pair_views(out@) == extract_assignments_spec(tokens@.subrange(0, i as int)),
        decreases n - i,
    {
        let tok = &tokens[i];
        let is_assign = match tok.token {
            Token::AssignmentWord => true,
            _ => false,
        };
        if is_assign {
            match parse_assignment(tok.text.as_str()) {
                Option::Some(p) => {
                    let ghost pre = out@;
                    out.push(p);
                    proof {
                        assert(pair_views(out@) =~= pair_views(pre).push(
                            (out@.last().0@, out@.last().1@),
                        ));
                    }
                },
                Option::None => {},
            }
        }
        proof {
            assert(tokens@.subrange(0, i + 1).drop_last() =~= tokens@.subrange(0, i as int));
            assert(tokens@.subrange(0, i + 1).last() == tokens@[i as int]);
        }
        i = i + 1;
    }
    proof {
        assert(tokens@.subrange(0, n as int) =~= tokens@);
    }
    out
}

/// The argument texts of a token list: every non-assignment token,
/// converted to its argument text, in order.
pub open spec fn extract_arguments_spec(toks: Seq<SpannedToken>) -> Seq<Seq<char>>
    decreases toks.len(),
{
    if toks.len() == 0 {
        Seq::empty()
    } else {
        let pre = extract_arguments_spec(toks.drop_last());
        let t = toks.last();
        if t.token is AssignmentWord {
            pre
        } else {
            pre.push(token_to_string_spec(t.token, t.text@))
        }
    }
}

/// The views of a list of strings.
pub open spec fn string_views(s: Seq<String>) -> Seq<Seq<char>> {
    s.map_values(|x: String| x@)
}

/// Collect the argument texts of the non-assignment tokens in `tokens`.
pub fn extract_arguments(tokens: &[SpannedToken]) -> (r: Vec<String>)
    ensures
        string_views(r@) == extract_arguments_spec(tokens@),
{
    let n = tokens.len();
    let mut out: Vec<String> = Vec::new();
    let mut i: usize = 0;
    while i < n
        invariant
            n == tokens@.len(),
            i <= n,
            string_views(out@) == extract_arguments_spec(tokens@.subrange(0, i as int)),
        decreases n - i,
    {
        let tok = &tokens[i];
        let is_assign = match tok.token {
            Token::AssignmentWord => true,
            _ => false,
        };
        if !is_assign {
            let ghost pre = out@;
            let text = token_to_string(tok);
            out.push(text);
            proof {
                assert(string_views(out@) =~= string_views(pre).push(out@.last()@));
            }
        }
        proof {
            assert(tokens@.subrange(0, i + 1).drop_last() =~= tokens@.subrange(0, i as int));
            assert(tokens@.subrange(0, i + 1).last() == tokens@[i as int]);
        }
        i = i + 1;
    }
    proof {
        assert(tokens@.subrange(0, n as int) =~= tokens@);
    }
    out
}

/// The arguments of a prefix and a suffix token list together.
pub open spec fn combine_args_spec(prefix: Seq<SpannedToken>, suffix: Seq<SpannedToken>) -> Seq<
    Seq<char>,
> {
    extract_arguments_spec(prefix) + extract_arguments_spec(suffix)
}

/// Combine prefix and suffix tokens into one argument list, dropping
/// assignment words.
pub fn combine_args(prefix: &[SpannedToken], suffix: &[SpannedToken]) -> (r: Vec<String>)
    ensures
        string_views(r@) == combine_args_spec(prefix@, suffix@),
{
    let mut args = extract_arguments(prefix);
    let mut rest = extract_arguments(suffix);
    let ghost a0 = args@;
    let ghost r0 = rest@;
    args.append(&mut rest);
    proof {
        assert(string_views(args@) =~= string_views(a0) + string_views(r0));
    }
    args
}

/// The expansion request of a `$name` argument, if it has that exact shape.
pub open spec fn parse_simple_spec(s: Seq<char>) -> Option<ReqView> {
    if s.len() > 1 && s[0] == '$' && valid_var_name(s.subrange(1, s.len() as int)) {
        Option::Some(
            ReqView {
                variable_name: s.subrange(1, s.len() as int),
                mode: ExpansionMode::Normal,
                parameter: Option::None,
                check_unset: false,
            },
        )
    } else {
        Option::None
    }
}

/// Parse a `$name` argument into an expansion request.
pub fn parse_simple_parameter_expansion(text: &str) -> (r: Option<ExpansionRequest>)
    ensures
        match r {
            Option::Some(req) => parse_simple_spec(text@) == Option::Some(req@),
            Option::None => parse_simple_spec(text@) is None,
        },
{
    let len = text.unicode_len();
    if len > 1 && text.get_char(0) == '$' {
        let var_name = text.substring_char(1, len);
        if is_valid_variable_name(var_name) {
            return Option::Some(ExpansionRequest::simple(String::from_str(var_name)));
        }
    }
    Option::None
}

/// The expansion request of a braced `${...}` argument, if well formed:
/// `${name}`, the colon forms `${name:-d}`, `${name:=d}`, `${name:?m}`,
/// `${name:+a}`, and their bare-operator forms.
pub open spec fn parse_braced_spec(s: Seq<char>) -> Option<ReqView> {
    if s.len() < 3 || s[0] != '$' || s[1] != '{' || s.last() != '}' {
        Option::None
    } else {
        let inner = s.subrange(2, s.len() - 1);
        match find_any_spec(inner, seq![':']) {
            Option::Some(colon) => parse_colon_form(
                inner.subrange(0, colon),
                inner.subrange(colon + 1, inner.len() as int),
            ),
            Option::None => match find_any_spec(inner, seq!['-', '=', '?', '+']) {
                Option::Some(op) => parse_bare_form(
                    inner.subrange(0, op),
                    inner[op],
                    inner.subrange(op + 1, inner.len() as int),
                ),
                Option::None => if valid_var_name(inner) {
                    Option::Some(
                        ReqView {
                            variable_name: inner,
                            mode: ExpansionMode::Normal,
                            parameter: Option::None,
                            check_unset: false,
                        },
                    )
                } else {
                    Option::None
                },
            },
        }
    }
}

/// The request of a colon form `${name:Xrest}`, where `X` picks the mode.
pub open spec fn parse_colon_form(name: Seq<char>, rest: Seq<char>) -> Option<ReqView> {
    if !valid_var_name(name) || rest.len() == 0 {
        Option::None
    } else if rest[0] == '-' {
        Option::Some(
            ReqView {
                variable_name: name,
                mode: ExpansionMode::DefaultValue,
                parameter: Option::Some(rest.drop_first()),
                check_unset: true,
            },
        )
    } else if rest[0] == '=' {
        Option::Some(
            ReqView {
                variable_name: name,
                mode: ExpansionMode::AssignDefault,
                parameter: Option::Some(rest.drop_first()),
                check_unset: true,
            },
        )
    } else if rest[0] == '?' {
        Option::Some(
            ReqView {
                variable_name: name,
                mode: ExpansionMode::ErrorIfUnset,
                parameter: if rest.len() > 1 {
                    Option::Some(rest.drop_first())
                } else {
                    Option::None
                },
                check_unset: true,
            },
        )
    } else if rest[0] == '+' {
        Option::Some(
            ReqView {
                variable_name: name,
                mode: ExpansionMode::AlternativeValue,
                parameter: Option::Some(rest.drop_first()),
                check_unset: true,
            },
        )
    } else {
        Option::None
    }
}

/// The request of a bare-operator form `${nameXrest}`.
pub open spec fn parse_bare_form(name: Seq<char>, op: char, rest: Seq<char>) -> Option<ReqView> {
    if !valid_var_name(name) {
        Option::None
    } else if op == '-' {
        Option::Some(
            ReqView {
                variable_name: name,
                mode: ExpansionMode::DefaultValue,
                parameter: Option::Some(rest),
                check_unset: false,
            },
        )
    } else if op == '=' {
        Option::Some(
            ReqView {
                variable_name: name,
                mode: ExpansionMode::AssignDefault,
                parameter: Option::Some(rest),
                check_unset: false,
            },
        )
    } else if op == '?' {
        Option::Some(
            ReqView {
                variable_name: name,
                mode: ExpansionMode::ErrorIfUnset,
                parameter: if rest.len() == 0 {
                    Option::None
                } else {
                    Option::Some(rest)
                },
                check_unset: false,
            },
        )
    } else if op == '+' {
        Option::Some(
            ReqView {
                variable_name: name,
                mode: ExpansionMode::AlternativeValue,
                parameter: Option::Some(rest),
                check_unset: false,
            },
        )
    } else {
        Option::None
    }
}

/// Parse a `${...}` argument into an expansion request, covering all the
/// POSIX parameter-expansion modes.
pub fn parse_parameter_expansion(text: &str) -> (r: Option<ExpansionRequest>)
    ensures
        match r {
            Option::Some(req) => parse_braced_spec(text@) == Option::Some(req@),
            Option::None => parse_braced_spec(text@) is None,
        },
{
    let len = text.unicode_len();
    if len < 3 || text.get_char(0) != '$' || text.get_char(1) != '{' || text.get_char(len - 1)
        != '}' {
        return Option::None;
    }
    let inner = text.substring_char(2, len - 1);
    let inner_len = len - 3;
    proof {
        assert(inner@.len() == inner_len);
    }
    let colon_chars: [char; 1] = [':'];
    proof {
        assert(colon_chars@ =~= seq![':']);
    }
    match find_any(inner, &colon_chars) {
        Option::Some(colon) => {
            proof {
                lemma_find_any(inner@, colon_chars@);
            }
            let var_name = inner.substring_char(0, colon);
            let rest = inner.substring_char(colon + 1, inner_len);
            if !is_valid_variable_name(var_name) {
                return Option::None;
            }
            let rest_len = inner_len - (colon + 1);
            if rest_len == 0 {
                return Option::None;
            }
            let opc = rest.get_char(0);
            let tail = rest.substring_char(1, rest_len);
            proof {
                assert(rest@.drop_first() =~= tail@);
            }
            if opc == '-' {
                Option::Some(
                    ExpansionRequest {
                        variable_name: String::from_str(var_name),
                        mode: ExpansionMode::DefaultValue,
                        parameter: Option::Some(String::from_str(tail)),
                        check_unset: true,
                    },
                )
            } else if opc == '=' {
                Option::Some(
                    ExpansionRequest {
                        variable_name: String::from_str(var_name),
                        mode: ExpansionMode::AssignDefault,
                        parameter: Option::Some(String::from_str(tail)),
                        check_unset: true,
                    },
                )
            } else if opc == '?' {
                let message = if rest_len > 1 {
                    Option::Some(String::from_str(tail))
                } else {
                    Option::None
                };
                Option::Some(
                    ExpansionRequest {
                        variable_name: String::from_str(var_name),
                        mode: ExpansionMode::ErrorIfUnset,
                        parameter: message,
                        check_unset: true,
                    },
                )
            } else if opc == '+' {
                Option::Some(
                    ExpansionRequest {
                        variable_name: String::from_str(var_name),
                        mode: ExpansionMode::AlternativeValue,
                        parameter: Option::Some(String::from_str(tail)),
                        check_unset: true,
                    },
                )
            } else {
                Option::None
            }
        },
        Option::None => {
            let op_chars: [char; 4] = ['-', '=', '?', '+'];
            proof {
                assert(op_chars@ =~= seq!['-', '=', '?', '+']);
            }
            match find_any(inner, &op_chars) {
                Option::Some(op) => {
                    proof {
                        lemma_find_any(inner@, op_chars@);
                    }
                    let var_name = inner.substring_char(0, op);
                    let opc = inner.get_char(op);
                    let rest = inner.substring_char(op + 1, inner_len);
                    if !is_valid_variable_name(var_name) {
                        return Option::None;
                    }
                    let rest_len = inner_len - (op + 1);
                    if opc == '-' {
                        Option::Some(
                            ExpansionRequest {
                                variable_name: String::from_str(var_name),
                                mode: ExpansionMode::DefaultValue,
                                parameter: Option::Some(String::from_str(rest)),
                                check_unset: false,
                            },
                        )
                    } else if opc == '=' {
                        Option::Some(
                            ExpansionRequest {
                                variable_name: String::from_str(var_name),
                                mode: ExpansionMode::AssignDefault,
                                parameter: Option::Some(String::from_str(rest)),
                                check_unset: false,
                            },
                        )
                    } else if opc == '?' {
                        let message = if rest_len == 0 {
                            Option::None
                        } else {
                            Option::Some(String::from_str(rest))
                        };
                        Option::Some(
                            ExpansionRequest {
                                variable_name: String::from_str(var_name),
                                mode: ExpansionMode::ErrorIfUnset,
                                parameter: message,
                                check_unset: false,
                            },
                        )
                    } else {
                        Option::Some(
                            ExpansionRequest {
                                variable_name: String::from_str(var_name),
                                mode: ExpansionMode::AlternativeValue,
                                parameter: Option::Some(String::from_str(rest)),
                                check_unset: false,
                            },
                        )
                    }
                },
                Option::None => {
                    if is_valid_variable_name(inner) {
                        Option::Some(ExpansionRequest::simple(String::from_str(inner)))
                    } else {
                        Option::None
                    }
                },
            }
        },
    }
}

} // verus!
