//! Variable scopes and parameter-expansion resolution.
//!
//! A scope is a chain of name-to-value tables: lookups search the local
//! table first and then the parent chain, while writes always go to the
//! local table, so a child shadows and never mutates its parent.

use vstd::prelude::*;

verus! {

/// The mapping described by an association list, later entries winning.
pub open spec fn pairs_map(s: Seq<(String, String)>) -> Map<Seq<char>, Seq<char>>
    decreases s.len(),
{
    if s.len() == 0 {
        Map::empty()
    } else {
        pairs_map(s.drop_last()).insert(s.last().0@, s.last().1@)
    }
}

/// No two entries bind the same name.
pub open spec fn unique_keys(s: Seq<(String, String)>) -> bool {
    forall|i: int, j: int| 0 <= i < j < s.len() ==> s[i].0@ != s[j].0@
}

proof fn lemma_pairs_map_domain(s: Seq<(String, String)>, k: Seq<char>)
    ensures
        pairs_map(s).contains_key(k) <==> exists|i: int| 0 <= i < s.len() && s[i].0@ == k,
    decreases s.len(),
{
    if s.len() > 0 {
        lemma_pairs_map_domain(s.drop_last(), k);
        if pairs_map(s).contains_key(k) {
            if s.last().0@ != k {
                let i = choose|i: int| 0 <= i < s.drop_last().len() && s.drop_last()[i].0@ == k;
                assert(s[i].0@ == k);
            }
        }
        if exists|i: int| 0 <= i < s.len() && s[i].0@ == k {
            let i = choose|i: int| 0 <= i < s.len() && s[i].0@ == k;
            if i < s.len() - 1 {
                assert(s.drop_last()[i].0@ == k);
            }
        }
    }
}

proof fn lemma_pairs_map_get(s: Seq<(String, String)>, i: int)
    requires
        unique_keys(s),
        0 <= i < s.len(),
    ensures
        pairs_map(s).contains_key(s[i].0@),
        pairs_map(s)[s[i].0@] == s[i].1@,
    decreases s.len(),
{
    if i < s.len() - 1 {
        lemma_pairs_map_get(s.drop_last(), i);
        assert(s.drop_last()[i] == s[i]);
    }
}

proof fn lemma_pairs_map_remove(s: Seq<(String, String)>, i: int)
    requires
        unique_keys(s),
        0 <= i < s.len(),
    ensures
        pairs_map(s.remove(i)) == pairs_map(s).remove(s[i].0@),
    decreases s.len(),
{
    let k = s[i].0@;
    if i == s.len() - 1 {
        assert(s.remove(i) =~= s.drop_last());
        lemma_pairs_map_domain(s.drop_last(), k);
        assert(!pairs_map(s.drop_last()).contains_key(k));
        assert(pairs_map(s.drop_last()) =~= pairs_map(s).remove(k));
    } else {
        lemma_pairs_map_remove(s.drop_last(), i);
        assert(s.remove(i).drop_last() =~= s.drop_last().remove(i));
        assert(s.remove(i).last() == s.last());
        assert(pairs_map(s.remove(i)) == pairs_map(s.drop_last().remove(i)).insert(
            s.last().0@,
            s.last().1@,
        ));
        assert(pairs_map(s).remove(k) =~= pairs_map(s.drop_last()).remove(k).insert(
            s.last().0@,
            s.last().1@,
        ));
    }
}

/// A chain of variable tables: local bindings plus an optional parent scope.
#[derive(Debug)]
pub struct VariableContext {
    variables: Vec<(String, String)>,
    parent: Option<Box<VariableContext>>,
}

impl View for VariableContext {
    type V = Map<Seq<char>, Seq<char>>;

    closed spec fn view(&self) -> Map<Seq<char>, Seq<char>> {
        self.visible()
    }
}

impl VariableContext {
    /// All bindings visible from this scope, local ones shadowing the parent.
    pub closed spec fn visible(self) -> Map<Seq<char>, Seq<char>>
        decreases self,
    {
        match self.parent {
            Option::None => pairs_map(self.variables@),
            Option::Some(p) => p.visible().union_prefer_right(pairs_map(self.variables@)),
        }
    }

    /// The bindings of the local table alone.
    pub closed spec fn locals(self) -> Map<Seq<char>, Seq<char>> {
        pairs_map(self.variables@)
    }

    /// Every table in the chain binds each name at most once.
    pub closed spec fn wf(self) -> bool
        decreases self,
    {
        unique_keys(self.variables@) && match self.parent {
            Option::None => true,
            Option::Some(p) => p.wf(),
        }
    }

    /// Create a new empty variable context.
    pub fn new() -> (r: Self)
        ensures
            r@ == Map::<Seq<char>, Seq<char>>::empty(),
            r.locals() == Map::<Seq<char>, Seq<char>>::empty(),
            r.wf(),
    {
        Self { variables: Vec::new(), parent: Option::None }
    }

    /// Create a context whose lookups fall back to `parent`.
    pub fn with_parent(parent: VariableContext) -> (r: Self)
        ensures
            r@ == parent@,
            r.locals() == Map::<Seq<char>, Seq<char>>::empty(),
            r.wf() == parent.wf(),
    {
        let r = Self { variables: Vec::new(), parent: Option::Some(Box::new(parent)) };
        proof {
            assert(r@ =~= parent@);
        }
        r
    }

    /// Index of the local entry that binds `name`, if any.
    fn find_local(&self, name: &str) -> (r: Option<usize>)
        ensures
            match r {
                Option::Some(i) => i < self.variables@.len() && self.variables@[i as int].0@
                    == name@,
                Option::None => forall|j: int|
                    0 <= j < self.variables@.len() ==> self.variables@[j].0@ != name@,
            },
    {
        let n = self.variables.len();
        let mut i: usize = 0;
        while i < n
            invariant
                n == self.variables@.len(),
                i <= n,
                forall|j: int| 0 <= j < i ==> self.variables@[j].0@ != name@,
            decreases n - i,
        {
            if str_eq(self.variables[i].0.as_str(), name) {
                return Option::Some(i);
            }
            i = i + 1;
        }
        Option::None
    }

    /// Bind `name` to `value` in the local table.
    pub fn set(&mut self, name: String, value: String)
        requires
            old(self).wf(),
        ensures
            final(self).wf(),
            final(self)@ == old(self)@.insert(name@, value@),
            final(self).locals() == old(self).locals().insert(name@, value@),
    {
        if let Option::Some(i) = self.find_local(name.as_str()) {
            proof {
                lemma_pairs_map_remove(self.variables@, i as int);
            }
            let ghost pre = self.variables@;
            self.variables.remove(i);
            proof {
                assert forall|a: int, b: int|
                    0 <= a < b < self.variables@.len() implies self.variables@[a].0@
                    != self.variables@[b].0@ by {
                    let a0: int = if a < i as int {
                        a
                    } else {
                        a + 1
                    };
                    let b0: int = if b < i as int {
                        b
                    } else {
                        b + 1
                    };
                    assert(pre[a0] == self.variables@[a] && pre[b0] == self.variables@[b]);
                }
                assert(pairs_map(self.variables@) =~= old(self).locals().remove(name@));
            }
        }
        let ghost trimmed = self.variables@;
        proof {
            assert(pairs_map(trimmed).remove(name@) =~= old(self).locals().remove(name@));
        }
        self.variables.push((name, value));
        proof {
            assert(self.variables@.drop_last() =~= trimmed);
            assert(self.locals() =~= old(self).locals().insert(name@, value@));
            assert(self@ =~= old(self)@.insert(name@, value@));
        }
    }

    /// Look `name` up, local table first, then the parent chain.
    pub fn get(&self, name: &str) -> (r: Option<&String>)
        requires
            self.wf(),
        ensures
            match r {
                Option::Some(v) => self@.contains_key(name@) && v@ == self@[name@],
                Option::None => !self@.contains_key(name@),
            },
        decreases self,
    {
        match self.find_local(name) {
            Option::Some(i) => {
                proof {
                    lemma_pairs_map_get(self.variables@, i as int);
                }
                let pair = &self.variables[i];
                Option::Some(&pair.1)
            },
            Option::None => {
                proof {
                    lemma_pairs_map_domain(self.variables@, name@);
                }
                match &self.parent {
                    Option::Some(p) => p.get(name),
                    Option::None => Option::None,
                }
            },
        }
    }

    /// Whether `name` is bound in any scope of the chain.
    pub fn contains(&self, name: &str) -> (r: bool)
        requires
            self.wf(),
        ensures
            r == self@.contains_key(name@),
    {
        self.get(name).is_some()
    }

    /// The names visible from this scope, sorted and without duplicates.
    pub fn all_names(&self) -> (r: Vec<String>)
        requires
            self.wf(),
        ensures
            sorted_names(r@),
            forall|i: int, j: int| 0 <= i < j < r@.len() ==> r@[i]@ != r@[j]@,
            forall|i: int| 0 <= i < r@.len() ==> self@.contains_key(#[trigger] r@[i]@),
            forall|k: Seq<char>| self@.contains_key(k) ==> has_name(r@, k),
        decreases self,
    {
        let mut names: Vec<String> = Vec::new();
        let n = self.variables.len();
        let mut i: usize = 0;
        while i < n
            invariant
                self.wf(),
                n == self.variables@.len(),
                i <= n,
                names@.len() == i,
                forall|j: int| 0 <= j < i ==> names@[j]@ == self.variables@[j].0@,
            decreases n - i,
        {
            let pair = &self.variables[i];
            names.push(pair.0.clone());
            i = i + 1;
        }
        proof {
            assert forall|k: Seq<char>| self.locals().contains_key(k) implies has_name(
                names@,
                k,
            ) by {
                lemma_pairs_map_domain(self.variables@, k);
                let j = choose|j: int| 0 <= j < self.variables@.len() && self.variables@[j].0@
                    == k;
                assert(names@[j]@ == k);
            }
            assert forall|j: int| 0 <= j < names@.len() implies self@.contains_key(
                names@[j]@,
            ) by {
                lemma_pairs_map_get(self.variables@, j);
            }
        }
        match &self.parent {
            Option::Some(p) => {
                let parent_names = p.all_names();
                proof {
                    assert(self@ =~= p@.union_prefer_right(self.locals()));
                }
                let m = parent_names.len();
                let mut j: usize = 0;
                while j < m
                    invariant
                        self.wf(),
                        self@ == p@.union_prefer_right(self.locals()),
                        m == parent_names@.len(),
                        j <= m,
                        forall|a: int, b: int|
                            0 <= a < b < names@.len() ==> names@[a]@ != names@[b]@,
                        forall|a: int| 0 <= a < names@.len() ==> self@.contains_key(names@[a]@),
                        forall|k: Seq<char>|
                            #[trigger] self.locals().contains_key(k) ==> has_name(names@, k),
                        forall|b: int|
                            0 <= b < j ==> has_name(names@, #[trigger] parent_names@[b]@),
                        forall|a: int|
                            0 <= a < names@.len() ==> self.locals().contains_key(
                                #[trigger] names@[a]@,
                            ) || has_name(parent_names@, names@[a]@),
                        forall|a: int, b: int|
                            0 <= a < b < parent_names@.len() ==> parent_names@[a]@
                                != parent_names@[b]@,
                        forall|b: int|
                            0 <= b < m ==> p@.contains_key(#[trigger] parent_names@[b]@),
                    decreases m - j,
                {
                    let name = &parent_names[j];
                    if !contains_name(&names, name.as_str()) {
                        let ghost pre_names = names@;
                        names.push(name.clone());
                        proof {
                            assert(names@[names@.len() - 1]@ == parent_names@[j as int]@);
                            assert forall|k: Seq<char>| has_name(pre_names, k) implies has_name(
                                names@,
                                k,
                            ) by {
                                let a = choose|a: int|
                                    0 <= a < pre_names.len() && #[trigger] pre_names[a]@ == k;
                                assert(names@[a]@ == k);
                            }
                            assert(has_name(parent_names@, names@[names@.len() - 1]@));
                        }
                    }
                    j = j + 1;
                }
                proof {
                    assert(self@ =~= p@.union_prefer_right(self.locals()));
                    assert forall|k: Seq<char>| self@.contains_key(k) implies has_name(
                        names@,
                        k,
                    ) by {
                        if self.locals().contains_key(k) {
                        } else {
                            assert(p@.contains_key(k));
                            assert(has_name(parent_names@, k));
                            let b = choose|b: int|
                                0 <= b < parent_names@.len() && #[trigger] parent_names@[b]@
                                    == k;
                            assert(has_name(names@, parent_names@[b]@));
                        }
                    }
                }
            },
            Option::None => {
                proof {
                    assert(self@ =~= self.locals());
                }
            },
        }
        let sorted = sort_names(names);
        proof {
            assert forall|i2: int| 0 <= i2 < sorted@.len() implies self@.contains_key(
                #[trigger] sorted@[i2]@,
            ) by {
                assert(has_name(sorted@, sorted@[i2]@));
                assert(has_name(names@, sorted@[i2]@));
                let a = choose|a: int| 0 <= a < names@.len() && #[trigger] names@[a]@
                    == sorted@[i2]@;
                assert(self@.contains_key(names@[a]@));
            }
            assert forall|k: Seq<char>| self@.contains_key(k) implies has_name(sorted@, k) by {
                assert(has_name(names@, k));
            }
        }
        sorted
    }

    /// Copy the other context's local bindings into this scope's local table.
    pub fn import_from(&mut self, other: &VariableContext)
        requires
            old(self).wf(),
        ensures
            final(self).wf(),
            final(self)@ == old(self)@.union_prefer_right(other.locals()),
            final(self).locals() == old(self).locals().union_prefer_right(other.locals()),
    {
        let n = other.variables.len();
        let mut i: usize = 0;
        while i < n
            invariant
                self.wf(),
                n == other.variables@.len(),
                i <= n,
                self@ == old(self)@.union_prefer_right(
                    pairs_map(other.variables@.subrange(0, i as int)),
                ),
                self.locals() == old(self).locals().union_prefer_right(
                    pairs_map(other.variables@.subrange(0, i as int)),
                ),
            decreases n - i,
        {
            let pair = &other.variables[i];
            let ghost prefix = other.variables@.subrange(0, i as int);
            self.set(pair.0.clone(), pair.1.clone());
            proof {
                assert(other.variables@.subrange(0, i + 1).drop_last() =~= prefix);
                assert(self@ =~= old(self)@.union_prefer_right(
                    pairs_map(other.variables@.subrange(0, i + 1)),
                ));
                assert(self.locals() =~= old(self).locals().union_prefer_right(
                    pairs_map(other.variables@.subrange(0, i + 1)),
                ));
            }
            i = i + 1;
        }
        proof {
            assert(other.variables@.subrange(0, n as int) =~= other.variables@);
        }
    }

    /// The bindings of the local table alone, as name/value pairs.
    pub fn current_variables(&self) -> (r: Vec<(String, String)>)
        ensures
            pairs_map(r@) == self.locals(),
            r@.len() == self.locals_len(),
    {
        let n = self.variables.len();
        let mut out: Vec<(String, String)> = Vec::new();
        let mut i: usize = 0;
        while i < n
            invariant
                n == self.variables@.len(),
                i <= n,
                out@ =~= self.variables@.subrange(0, i as int),
            decreases n - i,
        {
            let pair = &self.variables[i];
            out.push((pair.0.clone(), pair.1.clone()));
            proof {
                assert(out@ =~= self.variables@.subrange(0, i + 1));
            }
            i = i + 1;
        }
        proof {
            assert(out@ =~= self.variables@);
        }
        out
    }

    /// The number of local bindings.
    pub closed spec fn locals_len(self) -> nat {
        self.variables@.len()
    }

    /// A deep copy of the whole scope chain.
    pub fn duplicate(&self) -> (r: Self)
        ensures
            r@ == self@,
            r.locals() == self.locals(),
            r.wf() == self.wf(),
        decreases self,
    {
        let n = self.variables.len();
        let mut vars: Vec<(String, String)> = Vec::new();
        let mut i: usize = 0;
        while i < n
            invariant
                n == self.variables@.len(),
                i <= n,
                vars@ =~= self.variables@.subrange(0, i as int),
            decreases n - i,
        {
            let pair = &self.variables[i];
            vars.push((pair.0.clone(), pair.1.clone()));
            proof {
                assert(vars@ =~= self.variables@.subrange(0, i + 1));
            }
            i = i + 1;
        }
        proof {
            assert(vars@ =~= self.variables@);
        }
        let parent = match &self.parent {
            Option::Some(p) => Option::Some(Box::new(p.duplicate())),
            Option::None => Option::None,
        };
        Self { variables: vars, parent }
    }
}

/// How a parameter expansion treats an unset or null variable.
#[derive(Debug, Clone, Copy, PartialEq, Eq, Structural)]
pub enum ExpansionMode {
    /// `$var` or `${var}`
    Normal,
    /// `${var:-default}`
    DefaultValue,
    /// `${var:=default}`
    AssignDefault,
    /// `${var:?message}`
    ErrorIfUnset,
    /// `${var:+value}`
    AlternativeValue,
}

/// Spec-level image of an `ExpansionRequest`.
pub ghost struct ReqView {
    pub variable_name: Seq<char>,
    pub mode: ExpansionMode,
    pub parameter: Option<Seq<char>>,
    pub check_unset: bool,
}

/// One parameter expansion to resolve against a scope.
#[derive(Debug, Clone)]
pub struct ExpansionRequest {
    /// Variable to expand.
    pub variable_name: String,
    /// Expansion mode.
    pub mode: ExpansionMode,
    /// The word after the operator, for the modes that take one.
    pub parameter: Option<String>,
    /// True for the colon forms, which treat a null value like an unset one.
    pub check_unset: bool,
}

impl View for ExpansionRequest {
    type V = ReqView;

    open spec fn view(&self) -> ReqView {
        ReqView {
            variable_name: self.variable_name@,
            mode: self.mode,
            parameter: match self.parameter {
                Option::Some(ref p) => Option::Some(p@),
                Option::None => Option::None,
            },
            check_unset: self.check_unset,
        }
    }
}

impl ExpansionRequest {
    /// Create a plain `$var` expansion request.
    pub fn simple(variable_name: String) -> (r: Self)
        ensures
            r@ == (ReqView {
                variable_name: variable_name@,
                mode: ExpansionMode::Normal,
                parameter: Option::None,
                check_unset: false,
            }),
    {
        Self {
            variable_name,
            mode: ExpansionMode::Normal,
            parameter: Option::None,
            check_unset: false,
        }
    }

    /// Create a `${var-default}` expansion request.
    pub fn with_default(variable_name: String, default_value: String) -> (r: Self)
        ensures
            r@ == (ReqView {
                variable_name: variable_name@,
                mode: ExpansionMode::DefaultValue,
                parameter: Option::Some(default_value@),
                check_unset: false,
            }),
    {
        Self {
            variable_name,
            mode: ExpansionMode::DefaultValue,
            parameter: Option::Some(default_value),
            check_unset: false,
        }
    }
}

/// Spec-level image of a `ResolutionResult`.
pub ghost enum ResView {
    Resolved(Seq<char>),
    Unset,
    Error(Seq<char>),
}

/// The outcome of resolving one expansion request.
#[derive(Debug, Clone)]
pub enum ResolutionResult {
    /// The expansion produced this text.
    Resolved(String),
    /// The variable is unset and the mode gives no substitute.
    Unset,
    /// The expansion is an error, with its message.
    Error(String),
}

impl View for ResolutionResult {
    type V = ResView;

    open spec fn view(&self) -> ResView {
        match self {
            ResolutionResult::Resolved(s) => ResView::Resolved(s@),
            ResolutionResult::Unset => ResView::Unset,
            ResolutionResult::Error(s) => ResView::Error(s@),
        }
    }
}

/// The variable has a usable value: it is set, and, for the colon forms,
/// it is non-null.
pub open spec fn has_usable_value(m: Map<Seq<char>, Seq<char>>, req: ReqView) -> bool {
    m.contains_key(req.variable_name) && (m[req.variable_name].len() > 0 || !req.check_unset)
}

/// What resolving `req` against the bindings `m` yields, and the bindings
/// afterwards: only `AssignDefault` ever changes them.
pub open spec fn resolve_spec(m: Map<Seq<char>, Seq<char>>, req: ReqView) -> (ResView, Map<
    Seq<char>,
    Seq<char>,
>) {
    match req.mode {
        ExpansionMode::Normal => if m.contains_key(req.variable_name) {
            (ResView::Resolved(m[req.variable_name]), m)
        } else {
            (ResView::Unset, m)
        },
        ExpansionMode::DefaultValue => if has_usable_value(m, req) {
            (ResView::Resolved(m[req.variable_name]), m)
        } else {
            match req.parameter {
                Option::Some(d) => (ResView::Resolved(d), m),
                Option::None => (
                    ResView::Error("Default value expansion requires parameter"@),
                    m,
                ),
            }
        },
        ExpansionMode::AssignDefault => if has_usable_value(m, req) {
            (ResView::Resolved(m[req.variable_name]), m)
        } else {
            match req.parameter {
                Option::Some(d) => (ResView::Resolved(d), m.insert(req.variable_name, d)),
                Option::None => (
                    ResView::Error("Assign default expansion requires parameter"@),
                    m,
                ),
            }
        },
        ExpansionMode::ErrorIfUnset => if has_usable_value(m, req) {
            (ResView::Resolved(m[req.variable_name]), m)
        } else {
            match req.parameter {
                Option::Some(msg) => (ResView::Error(msg), m),
                Option::None => (
                    ResView::Error(req.variable_name + ": parameter null or not set"@),
                    m,
                ),
            }
        },
        ExpansionMode::AlternativeValue => if has_usable_value(m, req) {
            match req.parameter {
                Option::Some(alt) => (ResView::Resolved(alt), m),
                Option::None => (ResView::Resolved(Seq::empty()), m),
            }
        } else {
            (ResView::Resolved(Seq::empty()), m)
        },
    }
}

/// Resolve one expansion request against a scope, following the POSIX
/// parameter-expansion rules; `AssignDefault` writes the default back.
pub fn resolve_expansion(context: &mut VariableContext, request: &ExpansionRequest) -> (r:
    ResolutionResult)
    requires
        old(context).wf(),
    ensures
        final(context).wf(),
        r@ == resolve_spec(old(context)@, request@).0,
        final(context)@ == resolve_spec(old(context)@, request@).1,
{
    let looked: Option<String> = match context.get(request.variable_name.as_str()) {
        Option::Some(v) => Option::Some(v.clone()),
        Option::None => Option::None,
    };
    match request.mode {
        ExpansionMode::Normal => match looked {
            Option::Some(value) => ResolutionResult::Resolved(value),
            Option::None => ResolutionResult::Unset,
        },
        ExpansionMode::DefaultValue => match looked {
            Option::Some(value) if value.unicode_len() > 0 || !request.check_unset => {
                ResolutionResult::Resolved(value)
            },
            _ => match &request.parameter {
                Option::Some(default) => ResolutionResult::Resolved(default.clone()),
                Option::None => ResolutionResult::Error(
                    String::from_str("Default value expansion requires parameter"),
                ),
            },
        },
        ExpansionMode::AssignDefault => match looked {
            Option::Some(value) if value.unicode_len() > 0 || !request.check_unset => {
                ResolutionResult::Resolved(value)
            },
            _ => match &request.parameter {
                Option::Some(default) => {
                    context.set(request.variable_name.clone(), default.clone());
                    ResolutionResult::Resolved(default.clone())
                },
                Option::None => ResolutionResult::Error(
                    String::from_str("Assign default expansion requires parameter"),
                ),
            },
        },
        ExpansionMode::ErrorIfUnset => match looked {
            Option::Some(value) if value.unicode_len() > 0 || !request.check_unset => {
                ResolutionResult::Resolved(value)
            },
            _ => match &request.parameter {
                Option::Some(msg) => ResolutionResult::Error(msg.clone()),
                Option::None => {
                    let mut m = request.variable_name.clone();
                    m.append(": parameter null or not set");
                    ResolutionResult::Error(m)
                },
            },
        },
        ExpansionMode::AlternativeValue => match looked {
            Option::Some(value) if value.unicode_len() > 0 || !request.check_unset => {
                match &request.parameter {
                    Option::Some(alt) => ResolutionResult::Resolved(alt.clone()),
                    Option::None => ResolutionResult::Resolved(String::new()),
                }
            },
            _ => ResolutionResult::Resolved(String::new()),
        },
    }
}

/// Lexicographic order on character sequences.
pub open spec fn chars_le(a: Seq<char>, b: Seq<char>) -> bool
    decreases a.len(),
{
    if a.len() == 0 {
        true
    } else if b.len() == 0 {
        false
    } else if (a[0] as u32) == (b[0] as u32) {
        chars_le(a.drop_first(), b.drop_first())
    } else {
        (a[0] as u32) < (b[0] as u32)
    }
}

/// Whether some element of `s` has exactly the characters `k`.
pub open spec fn has_name(s: Seq<String>, k: Seq<char>) -> bool {
    exists|i: int| 0 <= i < s.len() && #[trigger] s[i]@ == k
}

/// Ascending under the lexicographic order.
pub open spec fn sorted_names(s: Seq<String>) -> bool {
    forall|i: int, j: int| 0 <= i < j < s.len() ==> chars_le(#[trigger] s[i]@, #[trigger] s[j]@)
}

pub proof fn lemma_chars_le_total(a: Seq<char>, b: Seq<char>)
    ensures
        chars_le(a, b) || chars_le(b, a),
    decreases a.len(),
{
    if a.len() > 0 && b.len() > 0 && (a[0] as u32) == (b[0] as u32) {
        lemma_chars_le_total(a.drop_first(), b.drop_first());
    }
}

pub proof fn lemma_chars_le_trans(a: Seq<char>, b: Seq<char>, c: Seq<char>)
    requires
        chars_le(a, b),
        chars_le(b, c),
    ensures
        chars_le(a, c),
    decreases a.len(),
{
    if a.len() > 0 && b.len() > 0 && c.len() > 0 {
        if (a[0] as u32) == (b[0] as u32) && (b[0] as u32) == (c[0] as u32) {
            lemma_chars_le_trans(a.drop_first(), b.drop_first(), c.drop_first());
        }
    }
}

/// Whether some element of `names` has the characters of `name`.
fn contains_name(names: &Vec<String>, name: &str) -> (r: bool)
    ensures
        r == has_name(names@, name@),
{
    let n = names.len();
    let mut i: usize = 0;
    while i < n
        invariant
            n == names@.len(),
            i <= n,
            forall|j: int| 0 <= j < i ==> names@[j]@ != name@,
        decreases n - i,
    {
        if str_eq(names[i].as_str(), name) {
            return true;
        }
        i = i + 1;
    }
    false
}

/// Character-for-character lexicographic comparison, from position `i` on.
fn str_le_from(a: &str, b: &str, i: usize) -> (r: bool)
    requires
        i <= a@.len(),
        i <= b@.len(),
    ensures
        r == chars_le(a@.skip(i as int), b@.skip(i as int)),
    decreases a@.len() - i,
{
    if i == a.unicode_len() {
        true
    } else if i == b.unicode_len() {
        proof {
            assert(b@.skip(i as int).len() == 0);
            assert(a@.skip(i as int).len() > 0);
        }
        false
    } else {
        let ca = a.get_char(i);
        let cb = b.get_char(i);
        proof {
            assert(a@.skip(i as int)[0] == a@[i as int]);
            assert(b@.skip(i as int)[0] == b@[i as int]);
        }
        if (ca as u32) == (cb as u32) {
            let r = str_le_from(a, b, i + 1);
            proof {
                assert(a@.skip(i as int).drop_first() =~= a@.skip(i + 1));
                assert(b@.skip(i as int).drop_first() =~= b@.skip(i + 1));
            }
            r
        } else {
            (ca as u32) < (cb as u32)
        }
    }
}

/// Whether `a` comes at or before `b` in lexicographic order.
fn str_le(a: &str, b: &str) -> (r: bool)
    ensures
        r == chars_le(a@, b@),
{
    let r = str_le_from(a, b, 0);
    proof {
        assert(a@.skip(0) =~= a@);
        assert(b@.skip(0) =~= b@);
    }
    r
}

/// Sort names lexicographically by insertion, keeping exactly the same names.
fn sort_names(v: Vec<String>) -> (r: Vec<String>)
    requires
        forall|i: int, j: int| 0 <= i < j < v@.len() ==> v@[i]@ != v@[j]@,
    ensures
        sorted_names(r@),
        forall|i: int, j: int| 0 <= i < j < r@.len() ==> r@[i]@ != r@[j]@,
        forall|k: Seq<char>| #[trigger] has_name(r@, k) <==> has_name(v@, k),
{
    let n = v.len();
    let mut out: Vec<String> = Vec::new();
    let mut i: usize = 0;
    while i < n
        invariant
            n == v@.len(),
            i <= n,
            out@.len() == i,
            sorted_names(out@),
            forall|a: int, b: int| 0 <= a < b < v@.len() ==> v@[a]@ != v@[b]@,
            forall|a: int, b: int| 0 <= a < b < out@.len() ==> out@[a]@ != out@[b]@,
            forall|k: Seq<char>|
                #![trigger has_name(out@, k)]
                #![trigger has_name(v@.subrange(0, i as int), k)]
                has_name(out@, k) <==> has_name(v@.subrange(0, i as int), k),
        decreases n - i,
    {
        let item = v[i].clone();
        let m = out.len();
        let mut pos: usize = 0;
        while pos < m && !str_le(item.as_str(), out[pos].as_str())
            invariant
                m == out@.len(),
                pos <= m,
                item@ == v@[i as int]@,
                forall|a: int| 0 <= a < pos ==> !chars_le(item@, #[trigger] out@[a]@),
            decreases m - pos,
        {
            pos = pos + 1;
        }
        let ghost pre = out@;
        out.insert(pos, item);
        proof {
            assert(out@ =~= pre.insert(pos as int, v@[i as int]));
            assert forall|a: int, b: int| 0 <= a < b < out@.len() implies chars_le(
                #[trigger] out@[a]@,
                #[trigger] out@[b]@,
            ) by {
                let pa: int = if a < pos as int {
                    a
                } else {
                    a - 1
                };
                let pb: int = if b < pos as int {
                    b
                } else {
                    b - 1
                };
                if a == pos as int {
                    assert(out@[b] == pre[pb]);
                    if pb == pos as int {
                        assert(chars_le(v@[i as int]@, out@[b]@));
                    } else {
                        lemma_chars_le_trans(v@[i as int]@, pre[pos as int]@, pre[pb]@);
                    }
                } else if b == pos as int {
                    assert(out@[a] == pre[pa]);
                    lemma_chars_le_total(v@[i as int]@, pre[pa]@);
                } else {
                    assert(out@[a] == pre[pa] && out@[b] == pre[pb]);
                }
            }
            assert forall|k: Seq<char>| #[trigger] has_name(out@, k) implies has_name(
                v@.subrange(0, i + 1),
                k,
            ) by {
                let a = choose|a: int| 0 <= a < out@.len() && #[trigger] out@[a]@ == k;
                if a == pos as int {
                    assert(v@.subrange(0, i + 1)[i as int]@ == k);
                } else {
                    let pa: int = if a < pos as int {
                        a
                    } else {
                        a - 1
                    };
                    assert(pre[pa]@ == k);
                    assert(has_name(pre, k));
                    assert(has_name(v@.subrange(0, i as int), k));
                    let c = choose|c: int|
                        0 <= c < i && #[trigger] v@.subrange(0, i as int)[c]@ == k;
                    assert(v@.subrange(0, i + 1)[c]@ == k);
                }
            }
            assert forall|k: Seq<char>| #[trigger] has_name(v@.subrange(0, i + 1), k) implies
                has_name(out@, k) by {
                let a = choose|a: int| 0 <= a < i + 1 && #[trigger] v@.subrange(0, i + 1)[a]@
                    == k;
                if a == i as int {
                    assert(out@[pos as int]@ == k);
                } else {
                    assert(v@.subrange(0, i as int)[a]@ == k);
                    assert(has_name(v@.subrange(0, i as int), k));
                    assert(has_name(pre, k));
                    let b = choose|b: int| 0 <= b < pre.len() && #[trigger] pre[b]@ == k;
                    let nb: int = if b < pos as int {
                        b
                    } else {
                        b + 1
                    };
                    assert(out@[nb]@ == k);
                }
            }
            assert forall|a: int, b: int| 0 <= a < b < out@.len() implies out@[a]@ != out@[b]@ by {
                if a == pos as int || b == pos as int {
                    let other: int = if a == pos as int {
                        b
                    } else {
                        a
                    };
                    let po: int = if other < pos as int {
                        other
                    } else {
                        other - 1
                    };
                    assert(out@[other] == pre[po]);
                    if out@[a]@ == out@[b]@ {
                        assert(pre[po]@ == v@[i as int]@);
                        assert(has_name(pre, v@[i as int]@));
                        assert(has_name(v@.subrange(0, i as int), v@[i as int]@));
                        let c = choose|c: int|
                            0 <= c < i && #[trigger] v@.subrange(0, i as int)[c]@
                                == v@[i as int]@;
                        assert(v@[c]@ == v@[i as int]@);
                    }
                } else {
                    let pa: int = if a < pos as int {
                        a
                    } else {
                        a - 1
                    };
                    let pb: int = if b < pos as int {
                        b
                    } else {
                        b - 1
                    };
                    assert(out@[a] == pre[pa] && out@[b] == pre[pb]);
                }
            }
        }
        i = i + 1;
    }
    proof {
        assert(v@.subrange(0, n as int) =~= v@);
    }
    out
}

/// Character-for-character string equality.
pub fn str_eq(a: &str, b: &str) -> (r: bool)
    ensures
        r == (a@ == b@),
{
    let la = a.unicode_len();
    let lb = b.unicode_len();
    if la != lb {
        return false;
    }
    let mut i: usize = 0;
    while i < la
        invariant
            la == a@.len(),
            la == b@.len(),
            i <= la,
            forall|j: int| 0 <= j < i ==> a@[j] == b@[j],
        decreases la - i,
    {
        if a.get_char(i) != b.get_char(i) {
            return false;
        }
        i = i + 1;
    }
    proof {
        assert(a@ =~= b@);
    }
    true
}

} // verus!
