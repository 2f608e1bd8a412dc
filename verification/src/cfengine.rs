//! The textual backend: walks every resource/state pair and emits one named
//! bundle per state, each statement lowered to one or more ordered, guarded
//! promises.
use vstd::prelude::*;
use crate::cfstrings::{
    contains_char,
    escape,
    i64_to_string,
    join,
    paren,
    quoted,
    spec_escape,
    spec_i64_str,
    spec_join,
    spec_u64_str,
    u64_to_string,
};
use crate::cfstrings::{eq_ignore_ascii_case, spec_eq_ignore_ascii_case};
use crate::error::Error;
use crate::ir::{
    spec_assoc_get,
    assoc_bind,
    assoc_get,
    meta_get,
    EnumExpression,
    InterpolatedElement,
    MetaValue,
    ParameterDef,
    ResourceDef,
    StateDeclaration,
    Statement,
    Token,
    Value,
    IR,
};

verus! {

/// The ghost mirror of one bundle's generation state.
#[verifier::ext_equal]
pub struct GenCtx {
    /// Guards already rendered for the current case, in source order.
    pub cases: Seq<Seq<char>>,
    /// Per-variable class prefix, for local outcome variables.
    pub var_prefixes: Map<Seq<char>, Seq<char>>,
    /// Next free numeric suffix for each prefix.
    pub prefixes: Map<Seq<char>, u32>,
    /// Once a return statement is lowered, every later guard is conjoined
    /// with this condition.
    pub return_condition: Option<Seq<char>>,
}

/// The map described by an association list in which the first binding wins.
pub open spec fn assoc_map<V: View>(m: Seq<(String, V)>) -> Map<Seq<char>, V::V> {
    Map::new(
        |k: Seq<char>| spec_assoc_get(m, k) is Some,
        |k: Seq<char>| spec_assoc_get(m, k)->0@,
    )
}

/// The per-bundle generation context of the textual backend: created fresh
/// for each resource/state pair, mutated statement by statement, and never
/// carried over to the next pair.
#[derive(Debug)]
pub struct CFEngine {
    /// Already formatted guards of the current case group.
    pub current_cases: Vec<String>,
    /// Enum local variables matched with class prefixes.
    pub var_prefixes: Vec<(String, String)>,
    /// Already used class prefixes.
    pub prefixes: Vec<(String, u32)>,
    /// Condition conjoined to every later guard once a return was lowered.
    pub return_condition: Option<String>,
}

impl View for CFEngine {
    type V = GenCtx;

    open spec fn view(&self) -> GenCtx {
        GenCtx {
            cases: self.current_cases@.map_values(|s: String| s@),
            var_prefixes: assoc_map(self.var_prefixes@),
            prefixes: assoc_map(self.prefixes@),
            return_condition: match self.return_condition {
                Some(s) => Some(s@),
                None => None,
            },
        }
    }
}

/// The empty generation context.
pub open spec fn spec_fresh_ctx() -> GenCtx {
    GenCtx {
        cases: Seq::empty(),
        var_prefixes: Map::empty(),
        prefixes: Map::empty(),
        return_condition: None,
    }
}

/// One guarded action of a generated bundle.
#[derive(Clone, Debug)]
pub enum Promise {
    /// Invocation of another bundle, optionally guarded.
    Usebundle { bundle: String, parameters: Vec<String>, condition: Option<String> },
    /// A literal string variable definition.
    StringVar { name: String, value: String },
}

/// The ghost mirror of a promise.
#[verifier::ext_equal]
pub enum PromiseV {
    Usebundle { bundle: Seq<char>, parameters: Seq<Seq<char>>, condition: Option<Seq<char>> },
    StringVar { name: Seq<char>, value: Seq<char> },
}

impl View for Promise {
    type V = PromiseV;

    open spec fn view(&self) -> PromiseV {
        match self {
            Promise::Usebundle { bundle, parameters, condition } => PromiseV::Usebundle {
                bundle: bundle@,
                parameters: parameters@.map_values(|p: String| p@),
                condition: match condition {
                    Some(c) => Some(c@),
                    None => None,
                },
            },
            Promise::StringVar { name, value } => PromiseV::StringVar {
                name: name@,
                value: value@,
            },
        }
    }
}

/// Why a lowering step failed.
pub enum ErrKind {
    /// An explicitly unimplemented shape was reached.
    Unimplemented,
    /// A class prefix was read before any allocation bound it.
    Unbound,
}

/// The outcome of rendering one piece of text.
pub enum TextOut {
    Done(Seq<char>),
    Fail(ErrKind),
}

/// The error kind a fatal `Error` value falls under, if one of the two that
/// lowering can raise.
pub open spec fn err_kind_of(e: Error) -> Option<ErrKind> {
    match e {
        Error::Unimplemented(_) => Some(ErrKind::Unimplemented),
        Error::Internal(_) => Some(ErrKind::Unbound),
        _ => None,
    }
}

/// `s` parenthesized when it holds an OR marker, unchanged otherwise.
pub open spec fn spec_wrap_or(s: Seq<char>) -> Seq<char> {
    if s.contains('|') {
        "("@ + s + ")"@
    } else {
        s
    }
}

/// `s` parenthesized when it holds an OR or AND marker, unchanged otherwise.
pub open spec fn spec_wrap_and_or(s: Seq<char>) -> Seq<char> {
    if s.contains('|') || s.contains('.') {
        "("@ + s + ")"@
    } else {
        s
    }
}

/// The guard text an enum expression lowers to, under the guards already
/// seen (for default arms) and the allocated class prefixes; pure otherwise.
pub open spec fn spec_format_case_expr(gc: IR, e: EnumExpression, ctx: GenCtx) -> TextOut
    decreases e,
{
    match e {
        EnumExpression::And(e1, e2) => match spec_format_case_expr(gc, *e1, ctx) {
            TextOut::Done(l) => match spec_format_case_expr(gc, *e2, ctx) {
                TextOut::Done(r) => TextOut::Done(spec_wrap_or(l) + "."@ + spec_wrap_or(r)),
                f => f,
            },
            f => f,
        },
        EnumExpression::Or(e1, e2) => match spec_format_case_expr(gc, *e1, ctx) {
            TextOut::Done(l) => match spec_format_case_expr(gc, *e2, ctx) {
                TextOut::Done(r) => TextOut::Done(l + "|"@ + r),
                f => f,
            },
            f => f,
        },
        EnumExpression::Not(e1) => match spec_format_case_expr(gc, *e1, ctx) {
            TextOut::Done(i) => TextOut::Done("!"@ + spec_wrap_and_or(i)),
            f => f,
        },
        EnumExpression::Compare(var, en, item) => {
            if spec_assoc_get(gc.enum_list.globals@, en.fragment@) == Some(true) {
                TextOut::Done(item.fragment@)
            } else {
                if ctx.var_prefixes.contains_key(var.fragment@) {
                    TextOut::Done(
                        ctx.var_prefixes[var.fragment@] + "_"@ + en.fragment@ + "_"@
                            + item.fragment@,
                    )
                } else {
                    TextOut::Fail(ErrKind::Unbound)
                }
            }
        },
        EnumExpression::RangeCompare(_, _, _, _) => TextOut::Fail(ErrKind::Unimplemented),
        EnumExpression::Default(_) => {
            if ctx.cases.len() == 0 {
                TextOut::Done("any"@)
            } else {
                TextOut::Done("!("@ + spec_join(ctx.cases, "|"@) + ")"@)
            }
        },
        EnumExpression::NoDefault(_) => TextOut::Done(Seq::empty()),
    }
}

impl CFEngine {
    /// A fresh generation context.
    pub fn new() -> (r: Self)
        ensures
            r@ == spec_fresh_ctx(),
    {
        let r = CFEngine {
            current_cases: Vec::new(),
            var_prefixes: Vec::new(),
            prefixes: Vec::new(),
            return_condition: None,
        };
        proof {
            assert(r@ =~~= spec_fresh_ctx());
        }
        r
    }

    /// Allocates the next local variable name for `prefix`: the first
    /// allocation yields `prefix1`, each later one counts up (saturating at
    /// the counter's maximum).
    pub fn new_var(&mut self, prefix: &str)
        ensures
            final(self)@ == spec_new_var(old(self)@, prefix@),
    {
        let id: u32 = match assoc_get(&self.prefixes, prefix) {
            None => 1,
            Some(m) => if *m == u32::MAX {
                u32::MAX
            } else {
                *m + 1
            },
        };
        assoc_bind(&mut self.prefixes, prefix, id);
        let mut var = String::from_str(prefix);
        let suffix = u64_to_string(id as u64);
        var.append(suffix.as_str());
        assoc_bind(&mut self.var_prefixes, prefix, var);
        proof {
            assert(assoc_map(self.prefixes@) =~= old(self)@.prefixes.insert(
                prefix@,
                spec_next_id(old(self)@, prefix@),
            ));
            assert(assoc_map(self.var_prefixes@) =~= old(self)@.var_prefixes.insert(
                prefix@,
                prefix@ + spec_u64_str(spec_next_id(old(self)@, prefix@) as int),
            ));
            assert(final(self)@ =~~= spec_new_var(old(self)@, prefix@));
        }
    }

    /// Empties the list of guards seen, at the start of a case group.
    pub fn reset_cases(&mut self)
        ensures
            final(self)@ == (GenCtx { cases: Seq::empty(), ..old(self)@ }),
    {
        self.current_cases = Vec::new();
        proof {
            assert(final(self)@ =~~= GenCtx { cases: Seq::empty(), ..old(self)@ });
        }
    }

    /// Returns the context to its fresh state, between two resource/state
    /// pairs: nothing leaks into the next bundle's generation.
    pub fn reset_context(&mut self)
        ensures
            final(self)@ == spec_fresh_ctx(),
    {
        self.current_cases = Vec::new();
        self.var_prefixes = Vec::new();
        self.prefixes = Vec::new();
        self.return_condition = None;
        proof {
            assert(final(self)@ =~~= spec_fresh_ctx());
        }
    }

    /// Conjoins the accumulated return condition, if any, onto a guard.
    pub fn format_class(&self, class: &str) -> (r: String)
        ensures
            r@ == spec_format_class(self@, class@),
    {
        match &self.return_condition {
            None => String::from_str(class),
            Some(c) => {
                let mut r = paren(c.as_str());
                r.append(".");
                let wrapped = paren(class);
                r.append(wrapped.as_str());
                r
            },
        }
    }

    /// Lowers one enum expression to its guard text. Pure but for reading
    /// the guards seen so far and the allocated prefixes.
    pub fn format_case_expr(&self, gc: &IR, case: &EnumExpression) -> (r: Result<String, Error>)
        ensures
            match spec_format_case_expr(*gc, *case, self@) {
                TextOut::Done(s) => r is Ok && r->Ok_0@ == s,
                TextOut::Fail(k) => r is Err && err_kind_of(r->Err_0) == Some(k),
            },
        decreases *case,
    {
        match case {
            EnumExpression::And(e1, e2) => {
                let l = match self.format_case_expr(gc, e1) {
                    Ok(s) => s,
                    Err(e) => {
                        return Err(e);
                    },
                };
                let r = match self.format_case_expr(gc, e2) {
                    Ok(s) => s,
                    Err(e) => {
                        return Err(e);
                    },
                };
                let mut out = if contains_char(l.as_str(), '|') {
                    paren(l.as_str())
                } else {
                    l
                };
                out.append(".");
                let rr = if contains_char(r.as_str(), '|') {
                    paren(r.as_str())
                } else {
                    r
                };
                out.append(rr.as_str());
                Ok(out)
            },
            EnumExpression::Or(e1, e2) => {
                let l = match self.format_case_expr(gc, e1) {
                    Ok(s) => s,
                    Err(e) => {
                        return Err(e);
                    },
                };
                let r = match self.format_case_expr(gc, e2) {
                    Ok(s) => s,
                    Err(e) => {
                        return Err(e);
                    },
                };
                let mut out = l;
                out.append("|");
                out.append(r.as_str());
                Ok(out)
            },
            EnumExpression::Not(e1) => {
                let i = match self.format_case_expr(gc, e1) {
                    Ok(s) => s,
                    Err(e) => {
                        return Err(e);
                    },
                };
                let mut out = String::from_str("!");
                let wrapped = if contains_char(i.as_str(), '|') || contains_char(
                    i.as_str(),
                    '.',
                ) {
                    paren(i.as_str())
                } else {
                    i
                };
                out.append(wrapped.as_str());
                Ok(out)
            },
            EnumExpression::Compare(var, en, item) => {
                let is_global = gc.enum_list.enum_is_global(en.fragment());
                if let Some(true) = is_global {
                    Ok(String::from_str(item.fragment()))
                } else {
                    match assoc_get(&self.var_prefixes, var.fragment()) {
                        Some(p) => {
                            let mut out = p.clone();
                            out.append("_");
                            out.append(en.fragment());
                            out.append("_");
                            out.append(item.fragment());
                            Ok(out)
                        },
                        None => Err(
                            Error::Internal(
                                String::from_str("class prefix read before allocation"),
                            ),
                        ),
                    }
                }
            },
            EnumExpression::RangeCompare(_, _, _, _) => Err(
                Error::Unimplemented(String::from_str("range comparison in enum expression")),
            ),
            EnumExpression::Default(_) => {
                if self.current_cases.len() == 0 {
                    Ok(String::from_str("any"))
                } else {
                    let mut out = String::from_str("!(");
                    let joined = join(&self.current_cases, "|");
                    out.append(joined.as_str());
                    out.append(")");
                    Ok(out)
                }
            },
            EnumExpression::NoDefault(_) => Ok(String::new()),
        }
    }

    /// Renders one value, escaping interpolation fragments; `string_delim`
    /// wraps string-like values in double quotes.
    pub fn value_to_string(&self, value: &Value, string_delim: bool) -> (r: Result<
        String,
        Error,
    >)
        ensures
            match spec_value_to_string(*value, string_delim) {
                TextOut::Done(s) => r is Ok && r->Ok_0@ == s,
                TextOut::Fail(k) => r is Err && err_kind_of(r->Err_0) == Some(k),
            },
        decreases *value, 0int, 0int,
    {
        let delim = if string_delim {
            "\""
        } else {
            ""
        };
        proof {
            reveal_strlit("");
            assert(""@ =~= Seq::<char>::empty());
        }
        match value {
            Value::String(s) => {
                let mut r = String::from_str(delim);
                let body = render_interp(&s.data);
                r.append(body.as_str());
                r.append(delim);
                Ok(r)
            },
            Value::Integer(_, n) => Ok(i64_to_string(*n)),
            Value::Boolean(_, b) => Ok(
                if *b {
                    String::from_str("true")
                } else {
                    String::from_str("false")
                },
            ),
            Value::EnumExpression(_) => Err(
                Error::Unimplemented(String::from_str("enum expression as a value")),
            ),
            Value::List(l) => {
                let parts = match self.values_to_strings(l, 0) {
                    Ok(p) => p,
                    Err(e) => {
                        return Err(e);
                    },
                };
                let mut r = String::from_str("[ ");
                let joined = join(&parts, ",");
                r.append(joined.as_str());
                r.append(" ]");
                Ok(r)
            },
            Value::Struct(s) => {
                let parts = match self.struct_to_strings(s, 0) {
                    Ok(p) => p,
                    Err(e) => {
                        return Err(e);
                    },
                };
                let mut r = String::from_str("{ ");
                let joined = join(&parts, ",");
                r.append(joined.as_str());
                r.append(" }");
                Ok(r)
            },
            Value::Variable(t) => {
                let mut r = String::from_str(delim);
                r.append("${");
                r.append(t.fragment());
                r.append("}");
                r.append(delim);
                Ok(r)
            },
        }
    }

    /// Renders every element of a list, each in quoted form.
    fn values_to_strings(&self, l: &Vec<Value>, i: usize) -> (r: Result<Vec<String>, Error>)
        requires
            i <= l@.len(),
        ensures
            match spec_values(l@, i as int) {
                ListOut::Done(parts) => r is Ok && r->Ok_0@.map_values(|p: String| p@)
                    == parts,
                ListOut::Fail(k) => r is Err && err_kind_of(r->Err_0) == Some(k),
            },
        decreases l@, l@.len() - i, 1int,
    {
        if i >= l.len() {
            let r: Vec<String> = Vec::new();
            proof {
                assert(r@.map_values(|p: String| p@) =~= Seq::<Seq<char>>::empty());
            }
            Ok(r)
        } else {
            let head = match self.value_to_string(&l[i], true) {
                Ok(s) => s,
                Err(e) => {
                    return Err(e);
                },
            };
            let mut rest = match self.values_to_strings(l, i + 1) {
                Ok(p) => p,
                Err(e) => {
                    return Err(e);
                },
            };
            let ghost rest_snap = rest@;
            let mut out: Vec<String> = Vec::new();
            out.push(head);
            out.append(&mut rest);
            proof {
                assert(out@.map_values(|p: String| p@) =~= seq![out@[0]@]
                    + rest_snap.map_values(|p: String| p@));
            }
            Ok(out)
        }
    }

    /// Renders every entry of a struct as a quoted key and its value.
    fn struct_to_strings(&self, s: &Vec<(String, Value)>, i: usize) -> (r: Result<
        Vec<String>,
        Error,
    >)
        requires
            i <= s@.len(),
        ensures
            match spec_struct_entries(s@, i as int) {
                ListOut::Done(parts) => r is Ok && r->Ok_0@.map_values(|p: String| p@)
                    == parts,
                ListOut::Fail(k) => r is Err && err_kind_of(r->Err_0) == Some(k),
            },
        decreases s@, s@.len() - i, 1int,
    {
        if i >= s.len() {
            let r: Vec<String> = Vec::new();
            proof {
                assert(r@.map_values(|p: String| p@) =~= Seq::<Seq<char>>::empty());
            }
            Ok(r)
        } else {
            let val = match self.value_to_string(&s[i].1, true) {
                Ok(v) => v,
                Err(e) => {
                    return Err(e);
                },
            };
            let mut entry = quoted(s[i].0.as_str());
            entry.append(":");
            entry.append(val.as_str());
            let mut rest = match self.struct_to_strings(s, i + 1) {
                Ok(p) => p,
                Err(e) => {
                    return Err(e);
                },
            };
            let ghost rest_snap = rest@;
            let mut out: Vec<String> = Vec::new();
            out.push(entry);
            out.append(&mut rest);
            proof {
                assert(out@.map_values(|p: String| p@) =~= seq![out@[0]@]
                    + rest_snap.map_values(|p: String| p@));
            }
            Ok(out)
        }
    }
}

impl CFEngine {
    /// Lowers one statement under the guard `in_class` to its ordered
    /// promises, updating the generation context.
    pub fn format_statement(&mut self, gc: &IR, st: &Statement, in_class: String) -> (r: Result<
        Vec<Promise>,
        Error,
    >)
        ensures
            match spec_format_statement(*gc, old(self)@, *st, in_class@) {
                StmtsOut::Done(c, p) => r is Ok && final(self)@ == c && r->Ok_0@.map_values(
                    |x: Promise| x@,
                ) == p,
                StmtsOut::Fail(k, c) => r is Err && err_kind_of(r->Err_0) == Some(k) && final(self)@ == c,
            },
        decreases *st, 0int, 0int,
    {
        let ghost expected = spec_format_statement(*gc, self@, *st, in_class@);
        match st {
            Statement::StateDeclaration(sd) => {
                if let Some(var) = &sd.outcome {
                    self.new_var(var.as_str());
                }
                let component: String = match meta_get(&sd.metadata, "component") {
                    Some(MetaValue::Str(s)) => s.clone(),
                    _ => String::from_str("any"),
                };
                let mut params = match self.values_to_strings(&sd.resource_params, 0) {
                    Ok(p) => p,
                    Err(e) => {
                        return Err(e);
                    },
                };
                let mut params2 = match self.values_to_strings(&sd.state_params, 0) {
                    Ok(p) => p,
                    Err(e) => {
                        return Err(e);
                    },
                };
                let ghost params_snap = params@;
                let ghost params2_snap = params2@;
                params.append(&mut params2);
                proof {
                    assert(params@.map_values(|s: String| s@) =~= params_snap.map_values(
                        |s: String| s@,
                    ) + params2_snap.map_values(|s: String| s@));
                }
                let class = self.format_class(in_class.as_str());
                let state_param: String = if sd.resource_params.len() > 0 {
                    match self.value_to_string(&sd.resource_params[0], false) {
                        Ok(s) => s,
                        Err(_) => String::new(),
                    }
                } else {
                    String::new()
                };
                let mut mrc_params: Vec<String> = Vec::new();
                mrc_params.push(quoted(component.as_str()));
                mrc_params.push(quoted(state_param.as_str()));
                let mrc = Promise::Usebundle {
                    bundle: String::from_str("_method_reporting_context"),
                    parameters: mrc_params,
                    condition: Some(class.clone()),
                };
                let mut method_bundle = String::from_str(sd.resource.fragment());
                method_bundle.append("_");
                method_bundle.append(sd.state.fragment());
                let method = Promise::Usebundle {
                    bundle: method_bundle,
                    parameters: params,
                    condition: Some(class),
                };
                let mut out: Vec<Promise> = Vec::new();
                out.push(mrc);
                out.push(method);
                proof {
                    assert(out@.map_values(|x: Promise| x@) =~~= expected->Done_1);
                }
                Ok(out)
            },
            Statement::Case(_, arms) => {
                self.reset_cases();
                self.format_case_arms(gc, arms, 0)
            },
            Statement::Fail(msg) => {
                let s = match self.value_to_string(msg, false) {
                    Ok(s) => s,
                    Err(e) => {
                        return Err(e);
                    },
                };
                let mut ps: Vec<String> = Vec::new();
                ps.push(s);
                let mut out: Vec<Promise> = Vec::new();
                out.push(
                    Promise::Usebundle {
                        bundle: String::from_str("ncf_fail"),
                        parameters: ps,
                        condition: None,
                    },
                );
                proof {
                    assert(out@.map_values(|x: Promise| x@) =~~= expected->Done_1);
                }
                Ok(out)
            },
            Statement::Log(msg) => {
                let s = match self.value_to_string(msg, false) {
                    Ok(s) => s,
                    Err(e) => {
                        return Err(e);
                    },
                };
                let mut ps: Vec<String> = Vec::new();
                ps.push(s);
                let mut out: Vec<Promise> = Vec::new();
                out.push(
                    Promise::Usebundle {
                        bundle: String::from_str("ncf_log"),
                        parameters: ps,
                        condition: None,
                    },
                );
                proof {
                    assert(out@.map_values(|x: Promise| x@) =~~= expected->Done_1);
                }
                Ok(out)
            },
            Statement::Return(outcome) => {
                let rc: String = if self.current_cases.len() == 0 {
                    String::from_str("!any")
                } else {
                    let mut t = String::from_str("!(");
                    t.append(self.current_cases[self.current_cases.len() - 1].as_str());
                    t.append(")");
                    t
                };
                self.return_condition = Some(rc);
                proof {
                    assert(final(self)@ =~~= (GenCtx {
                        return_condition: Some(spec_return_condition(old(self)@)),
                        ..old(self)@
                    }));
                }
                let bundle: &str = if eq_ignore_ascii_case(outcome.fragment(), "kept") {
                    "success"
                } else if eq_ignore_ascii_case(outcome.fragment(), "repaired") {
                    "repaired"
                } else {
                    "error"
                };
                let mut out: Vec<Promise> = Vec::new();
                out.push(
                    Promise::Usebundle {
                        bundle: String::from_str(bundle),
                        parameters: Vec::new(),
                        condition: None,
                    },
                );
                proof {
                    assert(out@.map_values(|x: Promise| x@) =~~= expected->Done_1);
                }
                Ok(out)
            },
            Statement::VariableDefinition(_) => {
                let out: Vec<Promise> = Vec::new();
                proof {
                    assert(out@.map_values(|x: Promise| x@) =~~= Seq::<PromiseV>::empty());
                }
                Ok(out)
            },
            Statement::ConditionVariableDefinition(_) => {
                let out: Vec<Promise> = Vec::new();
                proof {
                    assert(out@.map_values(|x: Promise| x@) =~~= Seq::<PromiseV>::empty());
                }
                Ok(out)
            },
            Statement::Noop => {
                let out: Vec<Promise> = Vec::new();
                proof {
                    assert(out@.map_values(|x: Promise| x@) =~~= Seq::<PromiseV>::empty());
                }
                Ok(out)
            },
        }
    }

    /// Generates the output files of one compilation run: one or more named
    /// bundles per file, keyed by the originating source file name. Returns
    /// the files to write as name/content pairs; writing them is the
    /// caller's business. The generation context is left fresh.
    pub fn generate(
        &mut self,
        gc: &IR,
        source_file: Option<&str>,
        dest_file: Option<&str>,
        technique_metadata: bool,
    ) -> (r: Result<Vec<(String, String)>, Error>)
        requires
            source_file is Some ==> dest_file is Some,
        ensures
            match spec_generate(
                *gc,
                opt_str_view(source_file),
                opt_str_view(dest_file),
                technique_metadata,
            ) {
                GenOut::Done(fs) => r is Ok && files_view(r->Ok_0@) == fs,
                GenOut::Fail(k) => r is Err && err_kind_of(r->Err_0) == Some(k),
                GenOut::NoDest => r is Err && r->Err_0 is User,
            },
            final(self)@ == spec_fresh_ctx(),
    {
        let ghost osrc = opt_str_view(source_file);
        let ghost odst = opt_str_view(dest_file);
        let mut files: Vec<(String, String)> = Vec::new();
        let mut i: usize = 0;
        proof {
            assert(files_view(files@) =~= Seq::<(Seq<char>, Seq<char>)>::empty());
        }
        while i < gc.resources.len()
            invariant
                i <= gc.resources@.len(),
                osrc == opt_str_view(source_file),
                odst == opt_str_view(dest_file),
                source_file is Some ==> dest_file is Some,
                spec_gen_resources(*gc, 0, osrc, odst, technique_metadata, Seq::empty())
                    == spec_gen_resources(
                    *gc,
                    i as int,
                    osrc,
                    odst,
                    technique_metadata,
                    files_view(files@),
                ),
            decreases gc.resources@.len() - i,
        {
            let res = &gc.resources[i].1;
            let ghost rname = gc.resources@[i as int].0.fragment@;
            let mut j: usize = 0;
            while j < res.states.len()
                invariant
                    i < gc.resources@.len(),
                    j <= res.states@.len(),
                    res == &gc.resources@[i as int].1,
                    rname == gc.resources@[i as int].0.fragment@,
                    osrc == opt_str_view(source_file),
                    odst == opt_str_view(dest_file),
                    source_file is Some ==> dest_file is Some,
                    spec_gen_resources(*gc, 0, osrc, odst, technique_metadata, Seq::empty())
                        == spec_gen_resume(
                        *gc,
                        i as int,
                        j as int,
                        osrc,
                        odst,
                        technique_metadata,
                        files_view(files@),
                    ),
                decreases res.states@.len() - j,
            {
                let stk = &res.states[j].0;
                let state = &res.states[j].1;
                match get_dest_file(source_file, stk.file(), dest_file) {
                    None => {},
                    Some(file_to_create) => {
                        self.reset_context();
                        let mut bundle_name = String::from_str(gc.resources[i].0.fragment());
                        bundle_name.append("_");
                        bundle_name.append(stk.fragment());
                        let mut params = param_names(&res.parameters);
                        let mut params2 = param_names(&state.parameters);
                        let ghost params_snap = params@;
                        let ghost params2_snap = params2@;
                        params.append(&mut params2);
                        proof {
                            assert(params@.map_values(|s: String| s@)
                                =~= params_snap.map_values(|s: String| s@)
                                + params2_snap.map_values(|s: String| s@));
                        }
                        let mut bundle = Bundle::agent(bundle_name, params);
                        bundle.add_promise(
                            Promise::StringVar {
                                name: String::from_str("resources_dir"),
                                value: String::from_str("${this.promise_dirname}/resources"),
                            },
                        );
                        let any = String::from_str("any");
                        let proms = match self.format_stmts(gc, &state.statements, 0, &any) {
                            Ok(p) => p,
                            Err(e) => {
                                self.reset_context();
                                return Err(e);
                            },
                        };
                        let ghost proms_view = proms@.map_values(|x: Promise| x@);
                        let ghost bundle0 = bundle@;
                        let mut proms_mut = proms;
                        bundle.promises.append(&mut proms_mut);
                        proof {
                            assert(bundle@.promises =~= bundle0.promises + proms_view);
                            assert(bundle@ =~~= (BundleV {
                                promises: bundle0.promises + proms_view,
                                ..bundle0
                            }));
                        }
                        let content = if technique_metadata {
                            let n = extract_meta(&res.metadata, "name");
                            let v = extract_meta(&res.metadata, "version");
                            technique_text(n.as_str(), v.as_str(), &bundle)
                        } else {
                            bundle_text(&bundle)
                        };
                        files_add(&mut files, file_to_create, content);
                    },
                }
                j = j + 1;
            }
            i = i + 1;
        }
        self.reset_context();
        if files.len() == 0 {
            match dest_file {
                Some(f) => {
                    let mut v: Vec<(String, String)> = Vec::new();
                    v.push((String::from_str(f), String::new()));
                    proof {
                        assert(files_view(v@) =~~= seq![(f@, Seq::<char>::empty())]);
                    }
                    Ok(v)
                },
                None => Err(Error::User(String::from_str("No file to create"))),
            }
        } else {
            Ok(files)
        }
    }

    /// Lowers a case's arms from `j` on.
    fn format_case_arms(
        &mut self,
        gc: &IR,
        arms: &Vec<(EnumExpression, Vec<Statement>)>,
        j: usize,
    ) -> (r: Result<Vec<Promise>, Error>)
        requires
            j <= arms@.len(),
        ensures
            match spec_format_arms(*gc, old(self)@, arms@, j as int) {
                StmtsOut::Done(c, p) => r is Ok && final(self)@ == c && r->Ok_0@.map_values(
                    |x: Promise| x@,
                ) == p,
                StmtsOut::Fail(k, c) => r is Err && err_kind_of(r->Err_0) == Some(k) && final(self)@ == c,
            },
        decreases arms@, arms@.len() - j, 0int,
    {
        if j >= arms.len() {
            let out: Vec<Promise> = Vec::new();
            proof {
                assert(out@.map_values(|x: Promise| x@) =~~= Seq::<PromiseV>::empty());
            }
            Ok(out)
        } else {
            let guard = match self.format_case_expr(gc, &arms[j].0) {
                Ok(g) => g,
                Err(e) => {
                    return Err(e);
                },
            };
            self.current_cases.push(guard.clone());
            proof {
                assert(self@ =~~= (GenCtx { cases: old(self)@.cases.push(guard@), ..old(self)@ }));
            }
            let mut p1 = match self.format_stmts(gc, &arms[j].1, 0, &guard) {
                Ok(p) => p,
                Err(e) => {
                    return Err(e);
                },
            };
            let mut p2 = match self.format_case_arms(gc, arms, j + 1) {
                Ok(p) => p,
                Err(e) => {
                    return Err(e);
                },
            };
            let ghost p1_snap = p1@;
            let ghost p2_snap = p2@;
            p1.append(&mut p2);
            proof {
                assert(p1@.map_values(|x: Promise| x@) =~= p1_snap.map_values(|x: Promise| x@)
                    + p2_snap.map_values(|x: Promise| x@));
            }
            Ok(p1)
        }
    }

    /// Lowers a statement sequence from `i` on, all under one guard.
    fn format_stmts(
        &mut self,
        gc: &IR,
        stmts: &Vec<Statement>,
        i: usize,
        in_class: &String,
    ) -> (r: Result<Vec<Promise>, Error>)
        requires
            i <= stmts@.len(),
        ensures
            match spec_format_stmts(*gc, old(self)@, stmts@, i as int, in_class@) {
                StmtsOut::Done(c, p) => r is Ok && final(self)@ == c && r->Ok_0@.map_values(
                    |x: Promise| x@,
                ) == p,
                StmtsOut::Fail(k, c) => r is Err && err_kind_of(r->Err_0) == Some(k) && final(self)@ == c,
            },
        decreases stmts@, stmts@.len() - i, 1int,
    {
        if i >= stmts.len() {
            let out: Vec<Promise> = Vec::new();
            proof {
                assert(out@.map_values(|x: Promise| x@) =~~= Seq::<PromiseV>::empty());
            }
            Ok(out)
        } else {
            let mut p1 = match self.format_statement(gc, &stmts[i], in_class.clone()) {
                Ok(p) => p,
                Err(e) => {
                    return Err(e);
                },
            };
            let mut p2 = match self.format_stmts(gc, stmts, i + 1, in_class) {
                Ok(p) => p,
                Err(e) => {
                    return Err(e);
                },
            };
            let ghost p1_snap = p1@;
            let ghost p2_snap = p2@;
            p1.append(&mut p2);
            proof {
                assert(p1@.map_values(|x: Promise| x@) =~= p1_snap.map_values(|x: Promise| x@)
                    + p2_snap.map_values(|x: Promise| x@));
            }
            Ok(p1)
        }
    }
}

/// The rendering of a metadata value: like a value of the language, but
/// total, since metadata holds no enum expressions.
pub open spec fn spec_meta_str(v: MetaValue, delim: bool) -> Seq<char>
    decreases v, 0int,
{
    let d: Seq<char> = if delim {
        "\""@
    } else {
        Seq::empty()
    };
    match v {
        MetaValue::Str(s) => d + spec_escape(s@) + d,
        MetaValue::Int(n) => spec_i64_str(n as int),
        MetaValue::Bool(b) => if b {
            "true"@
        } else {
            "false"@
        },
        MetaValue::List(l) => "[ "@ + spec_join(spec_meta_list(l@, 0), ","@) + " ]"@,
        MetaValue::Table(t) => "{ "@ + spec_join(spec_meta_table(t@, 0), ","@) + " }"@,
    }
}

/// The renderings of a metadata list's elements from `i` on.
pub open spec fn spec_meta_list(l: Seq<MetaValue>, i: int) -> Seq<Seq<char>>
    decreases l, l.len() - i,
{
    if 0 <= i < l.len() {
        seq![spec_meta_str(l[i], true)] + spec_meta_list(l, i + 1)
    } else {
        Seq::empty()
    }
}

/// The renderings of a metadata table's entries from `i` on.
pub open spec fn spec_meta_table(t: Seq<(String, MetaValue)>, i: int) -> Seq<Seq<char>>
    decreases t, t.len() - i,
{
    if 0 <= i < t.len() {
        seq!["\""@ + t[i].0@ + "\""@ + ":"@ + spec_meta_str(t[i].1, true)] + spec_meta_table(
            t,
            i + 1,
        )
    } else {
        Seq::empty()
    }
}

/// Renders one metadata value.
pub fn meta_to_string(v: &MetaValue, delim: bool) -> (r: String)
    ensures
        r@ == spec_meta_str(*v, delim),
    decreases *v, 0int,
{
    let d = if delim {
        "\""
    } else {
        ""
    };
    proof {
        reveal_strlit("");
        assert(""@ =~= Seq::<char>::empty());
    }
    match v {
        MetaValue::Str(s) => {
            let mut r = String::from_str(d);
            let e = escape(s.as_str());
            r.append(e.as_str());
            r.append(d);
            r
        },
        MetaValue::Int(n) => i64_to_string(*n),
        MetaValue::Bool(b) => if *b {
            String::from_str("true")
        } else {
            String::from_str("false")
        },
        MetaValue::List(l) => {
            let parts = meta_list_strings(l, 0);
            let mut r = String::from_str("[ ");
            let joined = join(&parts, ",");
            r.append(joined.as_str());
            r.append(" ]");
            r
        },
        MetaValue::Table(t) => {
            let parts = meta_table_strings(t, 0);
            let mut r = String::from_str("{ ");
            let joined = join(&parts, ",");
            r.append(joined.as_str());
            r.append(" }");
            r
        },
    }
}

/// Renders a metadata list's elements from `i` on.
fn meta_list_strings(l: &Vec<MetaValue>, i: usize) -> (r: Vec<String>)
    requires
        i <= l@.len(),
    ensures
        r@.map_values(|p: String| p@) == spec_meta_list(l@, i as int),
    decreases l@, l@.len() - i,
{
    if i >= l.len() {
        let r: Vec<String> = Vec::new();
        proof {
            assert(r@.map_values(|p: String| p@) =~= Seq::<Seq<char>>::empty());
        }
        r
    } else {
        let head = meta_to_string(&l[i], true);
        let mut rest = meta_list_strings(l, i + 1);
        let ghost rest_snap = rest@;
        let mut out: Vec<String> = Vec::new();
        out.push(head);
        out.append(&mut rest);
        proof {
            assert(out@.map_values(|p: String| p@) =~= seq![out@[0]@] + rest_snap.map_values(
                |p: String| p@,
            ));
        }
        out
    }
}

/// Renders a metadata table's entries from `i` on.
fn meta_table_strings(t: &Vec<(String, MetaValue)>, i: usize) -> (r: Vec<String>)
    requires
        i <= t@.len(),
    ensures
        r@.map_values(|p: String| p@) == spec_meta_table(t@, i as int),
    decreases t@, t@.len() - i,
{
    if i >= t.len() {
        let r: Vec<String> = Vec::new();
        proof {
            assert(r@.map_values(|p: String| p@) =~= Seq::<Seq<char>>::empty());
        }
        r
    } else {
        let val = meta_to_string(&t[i].1, true);
        let mut entry = quoted(t[i].0.as_str());
        entry.append(":");
        entry.append(val.as_str());
        let mut rest = meta_table_strings(t, i + 1);
        let ghost rest_snap = rest@;
        let mut out: Vec<String> = Vec::new();
        out.push(entry);
        out.append(&mut rest);
        proof {
            assert(out@.map_values(|p: String| p@) =~= seq![out@[0]@] + rest_snap.map_values(
                |p: String| p@,
            ));
        }
        out
    }
}

/// A metadata field rendered for the technique header: `unknown` when the
/// field is absent.
pub open spec fn spec_extract(meta: Seq<(String, MetaValue)>, key: Seq<char>) -> Seq<char> {
    match spec_assoc_get(meta, key) {
        Some(v) => spec_meta_str(v, false),
        None => "unknown"@,
    }
}

/// Renders a metadata field for the technique header.
pub fn extract_meta(meta: &crate::ir::Metadata, key: &str) -> (r: String)
    ensures
        r@ == spec_extract(meta@, key@),
{
    match meta_get(meta, key) {
        Some(v) => meta_to_string(v, false),
        None => String::from_str("unknown"),
    }
}

/// The index of the last slash of `p`, or minus one when it has none.
pub open spec fn spec_last_slash(p: Seq<char>) -> int
    decreases p.len(),
{
    if p.len() == 0 {
        -1
    } else if p.last() == '/' {
        p.len() - 1
    } else {
        spec_last_slash(p.drop_last())
    }
}

/// The file-name part of a path: everything after its last slash.
pub open spec fn spec_file_name(p: Seq<char>) -> Seq<char> {
    p.subrange(spec_last_slash(p) + 1, p.len() as int)
}

proof fn lemma_last_slash_bounds(p: Seq<char>)
    ensures
        -1 <= spec_last_slash(p) < p.len(),
    decreases p.len(),
{
    if p.len() > 0 && p.last() != '/' {
        lemma_last_slash_bounds(p.drop_last());
    }
}

/// The file-name part of a path string.
pub fn file_name_of(p: &str) -> (r: &str)
    ensures
        r@ == spec_file_name(p@),
{
    let len = p.unicode_len();
    let mut i: usize = len;
    proof {
        assert(p@.take(len as int) =~= p@);
    }
    while i > 0
        invariant
            len == p@.len(),
            i <= len,
            spec_last_slash(p@) == spec_last_slash(p@.take(i as int)),
        decreases i,
    {
        proof {
            assert(p@.take(i as int).last() == p@[i as int - 1]);
            assert(p@.take(i as int).drop_last() =~= p@.take(i as int - 1));
        }
        if p.get_char(i - 1) == '/' {
            proof {
                lemma_last_slash_bounds(p@);
            }
            return p.substring_char(i, len);
        }
        i = i - 1;
    }
    proof {
        assert(p@.take(0) =~= Seq::<char>::empty());
        lemma_last_slash_bounds(p@);
    }
    p.substring_char(0, len)
}

/// Where one state's bundle goes: no file when the compile request names a
/// source file whose name differs from the statement's origin; the requested
/// destination when it matches; the origin itself when no source was named.
pub fn get_dest_file(input: Option<&str>, cur_file: &str, output: Option<&str>) -> (r: Option<
    String,
>)
    requires
        input is Some ==> output is Some,
    ensures
        match input {
            Some(p) => if spec_file_name(p@) == cur_file@ {
                r is Some && r->0@ == output->0@
            } else {
                r is None
            },
            None => r is Some && r->0@ == cur_file@,
        },
{
    match input {
        Some(p) => {
            let fname = file_name_of(p);
            if crate::cfstrings::str_eq(fname, cur_file) {
                match output {
                    Some(o) => Some(String::from_str(o)),
                    None => None,
                }
            } else {
                None
            }
        },
        None => Some(String::from_str(cur_file)),
    }
}

/// The generated files as name/content pairs.
pub open spec fn files_view(m: Seq<(String, String)>) -> Seq<(Seq<char>, Seq<char>)> {
    m.map_values(|p: (String, String)| (p.0@, p.1@))
}

/// Adds one bundle's text under its file name: appended to the file's
/// content when the name is already present, a fresh entry otherwise.
pub open spec fn spec_files_add(
    m: Seq<(Seq<char>, Seq<char>)>,
    name: Seq<char>,
    content: Seq<char>,
) -> Seq<(Seq<char>, Seq<char>)>
    decreases m.len(),
{
    if m.len() == 0 {
        seq![(name, content)]
    } else if m[0].0 == name {
        seq![(m[0].0, m[0].1 + content)] + m.skip(1)
    } else {
        seq![m[0]] + spec_files_add(m.skip(1), name, content)
    }
}

/// Records one file's content, appending when the name already exists.
pub fn files_add(files: &mut Vec<(String, String)>, name: String, content: String)
    ensures
        files_view(final(files)@) == spec_files_add(files_view(old(files)@), name@, content@),
{
    let ghost m0 = files_view(files@);
    let mut i: usize = 0;
    proof {
        assert(m0.skip(0) =~= m0);
        assert(m0 == files_view(old(files)@));
    }
    while i < files.len()
        invariant
            i <= files@.len(),
            m0 == files_view(files@),
            m0 == files_view(old(files)@),
            m0.len() == files@.len(),
            spec_files_add(m0, name@, content@) =~= m0.take(i as int) + spec_files_add(
                m0.skip(i as int),
                name@,
                content@,
            ),
        decreases files@.len() - i,
    {
        proof {
            assert(m0.skip(i as int)[0] == m0[i as int]);
            assert(m0.skip(i as int).skip(1) =~= m0.skip(i as int + 1));
            assert(m0.take(i as int).push(m0[i as int]) =~= m0.take(i as int + 1));
        }
        if crate::cfstrings::str_eq(files[i].0.as_str(), name.as_str()) {
            let (n, mut c) = files.remove(i);
            c.append(content.as_str());
            files.insert(i, (n, c));
            proof {
                assert(files_view(files@) =~= m0.take(i as int) + (seq![
                    (m0[i as int].0, m0[i as int].1 + content@),
                ] + m0.skip(i as int + 1)));
                assert(m0[i as int].0 == name@);
                assert(spec_files_add(m0.skip(i as int), name@, content@) =~~= seq![
                    (m0[i as int].0, m0[i as int].1 + content@),
                ] + m0.skip(i as int + 1));
                assert(files_view(files@) =~~= spec_files_add(m0, name@, content@));
                assert(m0 == files_view(old(files)@));
                assert(files_view(files@) =~~= spec_files_add(
                    files_view(old(files)@),
                    name@,
                    content@,
                ));
            }
            return ;
        }
        i = i + 1;
    }
    proof {
        assert(m0.skip(files@.len() as int) =~= Seq::<(Seq<char>, Seq<char>)>::empty());
        assert(m0.take(files@.len() as int) =~= m0);
    }
    files.push((name, content));
    proof {
        assert(files_view(files@) =~= m0 + seq![(name@, content@)]);
        assert(m0 + spec_files_add(Seq::<(Seq<char>, Seq<char>)>::empty(), name@, content@)
            =~= m0 + seq![(name@, content@)]);
    }
}

/// The declared parameter names of a resource or state, in order.
pub open spec fn spec_param_names(ps: Seq<ParameterDef>) -> Seq<Seq<char>> {
    ps.map_values(|p: ParameterDef| p.name.fragment@)
}

/// Collects the declared parameter names of a resource or state.
pub fn param_names(ps: &Vec<ParameterDef>) -> (r: Vec<String>)
    ensures
        r@.map_values(|s: String| s@) == spec_param_names(ps@),
{
    let mut r: Vec<String> = Vec::new();
    let mut k: usize = 0;
    while k < ps.len()
        invariant
            k <= ps@.len(),
            r@.map_values(|s: String| s@) == spec_param_names(ps@.take(k as int)),
        decreases ps@.len() - k,
    {
        r.push(String::from_str(ps[k].name.fragment()));
        proof {
            assert(r@.map_values(|s: String| s@) =~= spec_param_names(ps@.take(k as int)).push(
                ps@[k as int].name.fragment@,
            ));
            assert(spec_param_names(ps@.take(k as int + 1)) =~= spec_param_names(
                ps@.take(k as int),
            ).push(ps@[k as int].name.fragment@));
        }
        k = k + 1;
    }
    proof {
        assert(ps@.take(ps@.len() as int) =~= ps@);
    }
    r
}

/// An optional string's text.
pub open spec fn opt_str_view(o: Option<&str>) -> Option<Seq<char>> {
    match o {
        Some(s) => Some(s@),
        None => None,
    }
}

/// The outcome of a whole generation run.
pub enum GenOut {
    /// The files to write, as name/content pairs.
    Done(Seq<(Seq<char>, Seq<char>)>),
    /// A statement or expression failed to lower.
    Fail(ErrKind),
    /// No bundle was produced and no destination was named: a user error.
    NoDest,
}

/// Walks one resource's states from `j` on, accumulating generated files.
pub open spec fn spec_gen_states(
    gc: IR,
    rname: Seq<char>,
    res: ResourceDef,
    j: int,
    src: Option<Seq<char>>,
    dst: Option<Seq<char>>,
    tm: bool,
    files: Seq<(Seq<char>, Seq<char>)>,
) -> GenOut
    decreases res.states@.len() - j,
{
    if 0 <= j < res.states@.len() {
        let stk = res.states@[j].0;
        let state = res.states@[j].1;
        let dest: Option<Seq<char>> = match src {
            Some(p) => if spec_file_name(p) == stk.file@ {
                Some(dst->0)
            } else {
                None
            },
            None => Some(stk.file@),
        };
        match dest {
            None => spec_gen_states(gc, rname, res, j + 1, src, dst, tm, files),
            Some(fname) => match spec_format_stmts(
                gc,
                spec_fresh_ctx(),
                state.statements@,
                0,
                "any"@,
            ) {
                StmtsOut::Fail(k, _) => GenOut::Fail(k),
                StmtsOut::Done(_, proms) => {
                    let b = BundleV {
                        name: rname + "_"@ + stk.fragment@,
                        parameters: spec_param_names(res.parameters@) + spec_param_names(
                            state.parameters@,
                        ),
                        promises: seq![
                            PromiseV::StringVar {
                                name: "resources_dir"@,
                                value: "${this.promise_dirname}/resources"@,
                            },
                        ] + proms,
                    };
                    let content = if tm {
                        spec_technique_text(
                            spec_extract(res.metadata@, "name"@),
                            spec_extract(res.metadata@, "version"@),
                            b,
                        )
                    } else {
                        spec_bundle_text(b)
                    };
                    spec_gen_states(
                        gc,
                        rname,
                        res,
                        j + 1,
                        src,
                        dst,
                        tm,
                        spec_files_add(files, fname, content),
                    )
                },
            },
        }
    } else {
        GenOut::Done(files)
    }
}

/// Walks the resources from `i` on, accumulating generated files.
pub open spec fn spec_gen_resources(
    gc: IR,
    i: int,
    src: Option<Seq<char>>,
    dst: Option<Seq<char>>,
    tm: bool,
    files: Seq<(Seq<char>, Seq<char>)>,
) -> GenOut
    decreases gc.resources@.len() - i,
{
    if 0 <= i < gc.resources@.len() {
        match spec_gen_states(
            gc,
            gc.resources@[i].0.fragment@,
            gc.resources@[i].1,
            0,
            src,
            dst,
            tm,
            files,
        ) {
            GenOut::Done(f2) => spec_gen_resources(gc, i + 1, src, dst, tm, f2),
            f => f,
        }
    } else {
        GenOut::Done(files)
    }
}

/// The rest of a generation run that stands at resource `i`, state `j`,
/// with `files` accumulated.
pub open spec fn spec_gen_resume(
    gc: IR,
    i: int,
    j: int,
    src: Option<Seq<char>>,
    dst: Option<Seq<char>>,
    tm: bool,
    files: Seq<(Seq<char>, Seq<char>)>,
) -> GenOut {
    if 0 <= i < gc.resources@.len() {
        match spec_gen_states(
            gc,
            gc.resources@[i].0.fragment@,
            gc.resources@[i].1,
            j,
            src,
            dst,
            tm,
            files,
        ) {
            GenOut::Done(f2) => spec_gen_resources(gc, i + 1, src, dst, tm, f2),
            f => f,
        }
    } else {
        GenOut::Done(files)
    }
}

/// A whole generation run: every resource/state pair whose origin matches
/// the request contributes one bundle, batched per output file; a run that
/// discovers no bundle still yields one empty destination file, unless no
/// destination was named, which is a user error.
pub open spec fn spec_generate(
    gc: IR,
    src: Option<Seq<char>>,
    dst: Option<Seq<char>>,
    tm: bool,
) -> GenOut {
    match spec_gen_resources(gc, 0, src, dst, tm, Seq::empty()) {
        GenOut::Done(files) => if files.len() == 0 {
            match dst {
                Some(d) => GenOut::Done(seq![(d, Seq::<char>::empty())]),
                None => GenOut::NoDest,
            }
        } else {
            GenOut::Done(files)
        },
        f => f,
    }
}

/// One interpolation fragment's rendering: static text escaped, a variable
/// reference rendered directly.
pub open spec fn spec_interp_elem(e: InterpolatedElement) -> Seq<char> {
    match e {
        InterpolatedElement::Static(s) => spec_escape(s@),
        InterpolatedElement::Variable(v) => "${"@ + v@ + "}"@,
    }
}

/// The rendering of an interpolated string's fragments from `i` on.
pub open spec fn spec_interp(data: Seq<InterpolatedElement>, i: int) -> Seq<char>
    decreases data.len() - i,
{
    if 0 <= i < data.len() {
        spec_interp_elem(data[i]) + spec_interp(data, i + 1)
    } else {
        Seq::empty()
    }
}

/// Renders an interpolated string's fragments.
fn render_interp(data: &Vec<InterpolatedElement>) -> (r: String)
    ensures
        r@ == spec_interp(data@, 0),
{
    let mut r = String::new();
    let mut i: usize = 0;
    while i < data.len()
        invariant
            i <= data@.len(),
            r@ + spec_interp(data@, i as int) == spec_interp(data@, 0),
        decreases data@.len() - i,
    {
        match &data[i] {
            InterpolatedElement::Static(s) => {
                let e = escape(s.as_str());
                r.append(e.as_str());
            },
            InterpolatedElement::Variable(v) => {
                r.append("${");
                r.append(v.as_str());
                r.append("}");
            },
        }
        i = i + 1;
    }
    r
}

/// The outcome of rendering a list of text pieces.
pub enum ListOut {
    Done(Seq<Seq<char>>),
    Fail(ErrKind),
}

/// The rendering a value lowers to in the textual backend: strings escaped
/// fragment by fragment, numbers and booleans as literals, lists and structs
/// recursively, a variable as a direct reference; an enum expression as a
/// value is explicitly unimplemented.
pub open spec fn spec_value_to_string(v: Value, delim: bool) -> TextOut
    decreases v, 0int, 0int,
{
    let d: Seq<char> = if delim {
        "\""@
    } else {
        Seq::empty()
    };
    match v {
        Value::String(s) => TextOut::Done(d + spec_interp(s.data@, 0) + d),
        Value::Integer(_, n) => TextOut::Done(spec_i64_str(n as int)),
        Value::Boolean(_, b) => TextOut::Done(
            if b {
                "true"@
            } else {
                "false"@
            },
        ),
        Value::EnumExpression(_) => TextOut::Fail(ErrKind::Unimplemented),
        Value::List(l) => match spec_values(l@, 0) {
            ListOut::Done(parts) => TextOut::Done("[ "@ + spec_join(parts, ","@) + " ]"@),
            ListOut::Fail(k) => TextOut::Fail(k),
        },
        Value::Struct(s) => match spec_struct_entries(s@, 0) {
            ListOut::Done(parts) => TextOut::Done("{ "@ + spec_join(parts, ","@) + " }"@),
            ListOut::Fail(k) => TextOut::Fail(k),
        },
        Value::Variable(t) => TextOut::Done(d + "${"@ + t.fragment@ + "}"@ + d),
    }
}

/// The renderings of a list's elements from `i` on, each in quoted form.
pub open spec fn spec_values(l: Seq<Value>, i: int) -> ListOut
    decreases l, l.len() - i, 1int,
{
    if 0 <= i < l.len() {
        match spec_value_to_string(l[i], true) {
            TextOut::Done(s) => match spec_values(l, i + 1) {
                ListOut::Done(rest) => ListOut::Done(seq![s] + rest),
                f => f,
            },
            TextOut::Fail(k) => ListOut::Fail(k),
        }
    } else {
        ListOut::Done(Seq::empty())
    }
}

/// A named, ordered group of guarded promises: one bundle of the generated
/// output, corresponding to one resource/state pair.
#[derive(Debug)]
pub struct Bundle {
    pub name: String,
    pub parameters: Vec<String>,
    pub promises: Vec<Promise>,
}

/// The ghost mirror of a bundle.
#[verifier::ext_equal]
pub struct BundleV {
    pub name: Seq<char>,
    pub parameters: Seq<Seq<char>>,
    pub promises: Seq<PromiseV>,
}

impl View for Bundle {
    type V = BundleV;

    open spec fn view(&self) -> BundleV {
        BundleV {
            name: self.name@,
            parameters: self.parameters@.map_values(|p: String| p@),
            promises: self.promises@.map_values(|p: Promise| p@),
        }
    }
}

impl Bundle {
    /// An agent bundle with no promises yet.
    pub fn agent(name: String, parameters: Vec<String>) -> (r: Bundle)
        ensures
            r@ == (BundleV {
                name: name@,
                parameters: parameters@.map_values(|p: String| p@),
                promises: Seq::empty(),
            }),
    {
        let r = Bundle { name, parameters, promises: Vec::new() };
        proof {
            assert(r@.promises =~= Seq::<PromiseV>::empty());
        }
        r
    }

    /// Appends one promise; order is preserved in the rendered output.
    pub fn add_promise(&mut self, p: Promise)
        ensures
            final(self)@ == (BundleV { promises: old(self)@.promises.push(p@), ..old(self)@ }),
    {
        self.promises.push(p);
        proof {
            assert(final(self)@.promises =~= old(self)@.promises.push(p@));
            assert(final(self)@ =~~= (BundleV {
                promises: old(self)@.promises.push(p@),
                ..old(self)@
            }));
        }
    }
}

/// The textual form of one promise.
pub open spec fn spec_promise_text(p: PromiseV) -> Seq<char> {
    match p {
        PromiseV::StringVar { name, value } => "    \""@ + name + "\" string => \""@ + value
            + "\";\n"@,
        PromiseV::Usebundle { bundle, parameters, condition } => {
            let call = "    \""@ + bundle + "\" usebundle => "@ + bundle + "("@ + spec_join(
                parameters,
                ", "@,
            ) + ")"@;
            match condition {
                None => call + ";\n"@,
                Some(c) => call + ", if => \""@ + c + "\";\n"@,
            }
        },
    }
}

/// The concatenated textual form of promises from `i` on.
pub open spec fn spec_promises_text(ps: Seq<PromiseV>, i: int) -> Seq<char>
    decreases ps.len() - i,
{
    if 0 <= i < ps.len() {
        spec_promise_text(ps[i]) + spec_promises_text(ps, i + 1)
    } else {
        Seq::empty()
    }
}

/// The textual form of one bundle.
pub open spec fn spec_bundle_text(b: BundleV) -> Seq<char> {
    "bundle agent "@ + b.name + "("@ + spec_join(b.parameters, ", "@)
        + ")\n{\n  methods:\n"@ + spec_promises_text(b.promises, 0) + "}\n"@
}

/// The textual form of a bundle wrapped with its technique metadata header.
pub open spec fn spec_technique_text(name: Seq<char>, version: Seq<char>, b: BundleV) -> Seq<
    char,
> {
    "# @name "@ + name + "\n# @version "@ + version + "\n"@ + spec_bundle_text(b)
}

/// Renders one promise.
pub fn promise_text(p: &Promise) -> (r: String)
    ensures
        r@ == spec_promise_text(p@),
{
    match p {
        Promise::StringVar { name, value } => {
            let mut r = String::from_str("    \"");
            r.append(name.as_str());
            r.append("\" string => \"");
            r.append(value.as_str());
            r.append("\";\n");
            r
        },
        Promise::Usebundle { bundle, parameters, condition } => {
            let mut r = String::from_str("    \"");
            r.append(bundle.as_str());
            r.append("\" usebundle => ");
            r.append(bundle.as_str());
            r.append("(");
            let joined = join(parameters, ", ");
            r.append(joined.as_str());
            r.append(")");
            match condition {
                None => {
                    r.append(";\n");
                },
                Some(c) => {
                    r.append(", if => \"");
                    r.append(c.as_str());
                    r.append("\";\n");
                },
            }
            r
        },
    }
}

/// Renders one bundle.
pub fn bundle_text(b: &Bundle) -> (r: String)
    ensures
        r@ == spec_bundle_text(b@),
{
    let mut r = String::from_str("bundle agent ");
    r.append(b.name.as_str());
    r.append("(");
    let joined = join(&b.parameters, ", ");
    r.append(joined.as_str());
    r.append(")\n{\n  methods:\n");
    let ghost ps = b@.promises;
    let mut i: usize = 0;
    while i < b.promises.len()
        invariant
            ps == b@.promises,
            i <= b.promises@.len(),
            ps.len() == b.promises@.len(),
            r@ + spec_promises_text(ps, i as int) + "}\n"@ == spec_bundle_text(b@),
        decreases b.promises@.len() - i,
    {
        let t = promise_text(&b.promises[i]);
        r.append(t.as_str());
        i = i + 1;
    }
    r.append("}\n");
    r
}

/// Renders one bundle wrapped with its technique metadata header.
pub fn technique_text(name: &str, version: &str, b: &Bundle) -> (r: String)
    ensures
        r@ == spec_technique_text(name@, version@, b@),
{
    let mut r = String::from_str("# @name ");
    r.append(name);
    r.append("\n# @version ");
    r.append(version);
    r.append("\n");
    let bt = bundle_text(b);
    r.append(bt.as_str());
    r
}

/// The outcome of lowering statements: the context afterwards and the
/// promises emitted, or the failure kind with the context at that point.
pub enum StmtsOut {
    Done(GenCtx, Seq<PromiseV>),
    Fail(ErrKind, GenCtx),
}

/// The component label of a state declaration: its `component` metadata
/// when that is a string, `any` otherwise.
pub open spec fn spec_component(metadata: Seq<(String, MetaValue)>) -> Seq<char> {
    match spec_assoc_get(metadata, "component"@) {
        Some(MetaValue::Str(s)) => s@,
        _ => "any"@,
    }
}

/// The best-effort primary parameter of a state declaration: its first
/// resource parameter rendered without quotes, empty when there is none or
/// when rendering it fails.
pub open spec fn spec_state_param(sd: StateDeclaration) -> Seq<char> {
    if sd.resource_params@.len() > 0 {
        match spec_value_to_string(sd.resource_params@[0], false) {
            TextOut::Done(s) => s,
            TextOut::Fail(_) => Seq::empty(),
        }
    } else {
        Seq::empty()
    }
}

/// The renderings of a state declaration's resource and state parameters,
/// in order, each quoted.
pub open spec fn spec_sd_params(sd: StateDeclaration) -> ListOut {
    match spec_values(sd.resource_params@, 0) {
        ListOut::Done(p1) => match spec_values(sd.state_params@, 0) {
            ListOut::Done(p2) => ListOut::Done(p1 + p2),
            f => f,
        },
        f => f,
    }
}

/// The bundle a return statement's outcome maps to: the two known keywords
/// compared ignoring ASCII case, anything else the error action.
pub open spec fn spec_return_bundle(outcome: Seq<char>) -> Seq<char> {
    if spec_eq_ignore_ascii_case(outcome, "kept"@) {
        "success"@
    } else if spec_eq_ignore_ascii_case(outcome, "repaired"@) {
        "repaired"@
    } else {
        "error"@
    }
}

/// The return condition a return statement sets: the negation of the last
/// guard seen in the enclosing case chain, or a never-true guard when none
/// was seen (nothing after an unconditional return may run).
pub open spec fn spec_return_condition(ctx: GenCtx) -> Seq<char> {
    if ctx.cases.len() == 0 {
        "!any"@
    } else {
        "!("@ + ctx.cases.last() + ")"@
    }
}

/// What lowering one statement under the guard `in_class` produces, and how
/// it changes the generation context.
pub open spec fn spec_format_statement(gc: IR, ctx: GenCtx, st: Statement, in_class: Seq<char>)
    -> StmtsOut
    decreases st, 0int, 0int,
{
    match st {
        Statement::StateDeclaration(sd) => {
            let ctx1 = match sd.outcome {
                Some(var) => spec_new_var(ctx, var@),
                None => ctx,
            };
            match spec_sd_params(sd) {
                ListOut::Done(params) => {
                    let class = spec_format_class(ctx1, in_class);
                    StmtsOut::Done(
                        ctx1,
                        seq![
                            PromiseV::Usebundle {
                                bundle: "_method_reporting_context"@,
                                parameters: seq![
                                    "\""@ + spec_component(sd.metadata@) + "\""@,
                                    "\""@ + spec_state_param(sd) + "\""@,
                                ],
                                condition: Some(class),
                            },
                            PromiseV::Usebundle {
                                bundle: sd.resource.fragment@ + "_"@ + sd.state.fragment@,
                                parameters: params,
                                condition: Some(class),
                            },
                        ],
                    )
                },
                ListOut::Fail(k) => StmtsOut::Fail(k, ctx1),
            }
        },
        Statement::Case(_, arms) => spec_format_arms(
            gc,
            GenCtx { cases: Seq::empty(), ..ctx },
            arms@,
            0,
        ),
        Statement::Fail(msg) => match spec_value_to_string(msg, false) {
            TextOut::Done(s) => StmtsOut::Done(
                ctx,
                seq![
                    PromiseV::Usebundle {
                        bundle: "ncf_fail"@,
                        parameters: seq![s],
                        condition: None,
                    },
                ],
            ),
            TextOut::Fail(k) => StmtsOut::Fail(k, ctx),
        },
        Statement::Log(msg) => match spec_value_to_string(msg, false) {
            TextOut::Done(s) => StmtsOut::Done(
                ctx,
                seq![
                    PromiseV::Usebundle {
                        bundle: "ncf_log"@,
                        parameters: seq![s],
                        condition: None,
                    },
                ],
            ),
            TextOut::Fail(k) => StmtsOut::Fail(k, ctx),
        },
        Statement::Return(outcome) => StmtsOut::Done(
            GenCtx { return_condition: Some(spec_return_condition(ctx)), ..ctx },
            seq![
                PromiseV::Usebundle {
                    bundle: spec_return_bundle(outcome.fragment@),
                    parameters: Seq::empty(),
                    condition: None,
                },
            ],
        ),
        Statement::VariableDefinition(_) => StmtsOut::Done(ctx, Seq::empty()),
        Statement::ConditionVariableDefinition(_) => StmtsOut::Done(ctx, Seq::empty()),
        Statement::Noop => StmtsOut::Done(ctx, Seq::empty()),
    }
}

/// Lowering of a case's arms from `j` on: each arm's guard is rendered,
/// appended to the guards seen, and its statements lowered under it.
pub open spec fn spec_format_arms(
    gc: IR,
    ctx: GenCtx,
    arms: Seq<(EnumExpression, Vec<Statement>)>,
    j: int,
) -> StmtsOut
    decreases arms, arms.len() - j, 0int,
{
    if 0 <= j < arms.len() {
        match spec_format_case_expr(gc, arms[j].0, ctx) {
            TextOut::Done(g) => {
                let ctx1 = GenCtx { cases: ctx.cases.push(g), ..ctx };
                match spec_format_stmts(gc, ctx1, arms[j].1@, 0, g) {
                    StmtsOut::Done(ctx2, p1) => match spec_format_arms(gc, ctx2, arms, j + 1) {
                        StmtsOut::Done(ctx3, p2) => StmtsOut::Done(ctx3, p1 + p2),
                        f => f,
                    },
                    f => f,
                }
            },
            TextOut::Fail(k) => StmtsOut::Fail(k, ctx),
        }
    } else {
        StmtsOut::Done(ctx, Seq::empty())
    }
}

/// Lowering of a statement sequence from `i` on, all under one guard,
/// threading the context statement by statement.
pub open spec fn spec_format_stmts(
    gc: IR,
    ctx: GenCtx,
    stmts: Seq<Statement>,
    i: int,
    in_class: Seq<char>,
) -> StmtsOut
    decreases stmts, stmts.len() - i, 1int,
{
    if 0 <= i < stmts.len() {
        match spec_format_statement(gc, ctx, stmts[i], in_class) {
            StmtsOut::Done(c1, p1) => match spec_format_stmts(gc, c1, stmts, i + 1, in_class) {
                StmtsOut::Done(c2, p2) => StmtsOut::Done(c2, p1 + p2),
                f => f,
            },
            f => f,
        }
    } else {
        StmtsOut::Done(ctx, Seq::empty())
    }
}

/// The renderings of a struct's entries from `i` on, as quoted key-value
/// pairs.
pub open spec fn spec_struct_entries(s: Seq<(String, Value)>, i: int) -> ListOut
    decreases s, s.len() - i, 1int,
{
    if 0 <= i < s.len() {
        match spec_value_to_string(s[i].1, true) {
            TextOut::Done(v) => match spec_struct_entries(s, i + 1) {
                ListOut::Done(rest) => ListOut::Done(
                    seq!["\""@ + s[i].0@ + "\""@ + ":"@ + v] + rest,
                ),
                f => f,
            },
            TextOut::Fail(k) => ListOut::Fail(k),
        }
    } else {
        ListOut::Done(Seq::empty())
    }
}

/// Whether an enum expression contains no default arm marker, so that its
/// guard cannot depend on the guards seen before it.
pub open spec fn spec_no_default(e: EnumExpression) -> bool
    decreases e,
{
    match e {
        EnumExpression::And(e1, e2) => spec_no_default(*e1) && spec_no_default(*e2),
        EnumExpression::Or(e1, e2) => spec_no_default(*e1) && spec_no_default(*e2),
        EnumExpression::Not(e1) => spec_no_default(*e1),
        EnumExpression::Compare(_, _, _) => true,
        EnumExpression::RangeCompare(_, _, _, _) => true,
        EnumExpression::Default(_) => false,
        EnumExpression::NoDefault(_) => true,
    }
}

/// An expression without a default arm marker lowers the same under any
/// guards seen so far: only the allocated prefixes matter.
pub proof fn lemma_expr_ignores_cases(gc: IR, e: EnumExpression, ctx1: GenCtx, ctx2: GenCtx)
    requires
        spec_no_default(e),
        ctx1.var_prefixes == ctx2.var_prefixes,
    ensures
        spec_format_case_expr(gc, e, ctx1) == spec_format_case_expr(gc, e, ctx2),
    decreases e,
{
    match e {
        EnumExpression::And(e1, e2) => {
            lemma_expr_ignores_cases(gc, *e1, ctx1, ctx2);
            lemma_expr_ignores_cases(gc, *e2, ctx1, ctx2);
        },
        EnumExpression::Or(e1, e2) => {
            lemma_expr_ignores_cases(gc, *e1, ctx1, ctx2);
            lemma_expr_ignores_cases(gc, *e2, ctx1, ctx2);
        },
        EnumExpression::Not(e1) => {
            lemma_expr_ignores_cases(gc, *e1, ctx1, ctx2);
        },
        _ => {},
    }
}

/// Default lowering is order-dependent. With arms evaluated in source
/// order, a default arm standing after arms whose guards were `ga` and
/// `gb` renders the negated disjunction of exactly those guards; a default
/// arm standing first renders the match-everything guard, and the guard of
/// an arm after it (one without its own default marker) is unaffected by
/// the default having been recorded first.
pub proof fn lemma_default_order_dependent(
    gc: IR,
    ctx0: GenCtx,
    a: EnumExpression,
    b: EnumExpression,
    d: Token,
    ga: Seq<char>,
    gb: Seq<char>,
)
    requires
        ctx0.cases.len() == 0,
        spec_format_case_expr(gc, a, ctx0) == TextOut::Done(ga),
        spec_format_case_expr(
            gc,
            b,
            GenCtx { cases: ctx0.cases.push(ga), ..ctx0 },
        ) == TextOut::Done(gb),
        spec_no_default(a),
    ensures
        spec_format_case_expr(
            gc,
            EnumExpression::Default(d),
            GenCtx { cases: ctx0.cases.push(ga).push(gb), ..ctx0 },
        ) == TextOut::Done("!("@ + ga + "|"@ + gb + ")"@),
        spec_format_case_expr(gc, EnumExpression::Default(d), ctx0) == TextOut::Done("any"@),
        spec_format_case_expr(
            gc,
            a,
            GenCtx { cases: ctx0.cases.push("any"@), ..ctx0 },
        ) == TextOut::Done(ga),
{
    let cases2 = ctx0.cases.push(ga).push(gb);
    assert(cases2.len() == 2);
    assert(cases2.drop_last() =~= seq![ga]);
    assert(cases2.last() == gb);
    assert(spec_join(cases2, "|"@) == spec_join(seq![ga], "|"@) + "|"@ + gb);
    assert(spec_join(seq![ga], "|"@) == ga);
    assert("!("@ + spec_join(cases2, "|"@) + ")"@ =~= "!("@ + ga + "|"@ + gb + ")"@);
    lemma_expr_ignores_cases(
        gc,
        a,
        GenCtx { cases: ctx0.cases.push("any"@), ..ctx0 },
        ctx0,
    );
}

/// Escaping leaves a fragment without backslashes, quotes or dollar signs
/// exactly as it is.
pub proof fn lemma_escape_plain(s: Seq<char>)
    requires
        forall|i: int| 0 <= i < s.len() ==> s[i] != '\\' && s[i] != '"' && s[i] != '$',
    ensures
        crate::cfstrings::spec_escape(s) == s,
    decreases s.len(),
{
    if s.len() > 0 {
        lemma_escape_plain(s.skip(1));
        assert(seq![s[0]] + s.skip(1) =~= s);
    }
}

/// Round trip for a minimal state: a single log statement lowers to exactly
/// one promise, whose message is the escaped literal; when the literal
/// holds none of the escaped characters, the message is the literal itself.
pub proof fn lemma_log_roundtrip(gc: IR, ctx: GenCtx, lit: String, msg: Value)
    requires
        msg is String,
        msg->String_0.data@ == seq![InterpolatedElement::Static(lit)],
    ensures
        spec_format_statement(gc, ctx, Statement::Log(msg), "any"@) == StmtsOut::Done(
            ctx,
            seq![
                PromiseV::Usebundle {
                    bundle: "ncf_log"@,
                    parameters: seq![crate::cfstrings::spec_escape(lit@)],
                    condition: None,
                },
            ],
        ),
        (forall|i: int|
            0 <= i < lit@.len() ==> lit@[i] != '\\' && lit@[i] != '"' && lit@[i] != '$')
            ==> spec_format_statement(gc, ctx, Statement::Log(msg), "any"@) == StmtsOut::Done(
            ctx,
            seq![
                PromiseV::Usebundle {
                    bundle: "ncf_log"@,
                    parameters: seq![lit@],
                    condition: None,
                },
            ],
        ),
{
    let data = msg->String_0.data;
    assert(data@.len() == 1);
    assert(data@[0] == InterpolatedElement::Static(lit));
    assert(spec_interp(data@, 1) == Seq::<char>::empty());
    assert(spec_interp(data@, 0) == crate::cfstrings::spec_escape(lit@) + Seq::<char>::empty());
    assert(spec_value_to_string(msg, false) == TextOut::Done(
        Seq::<char>::empty() + spec_interp(data@, 0) + Seq::<char>::empty(),
    ));
    assert(Seq::<char>::empty() + spec_interp(data@, 0) + Seq::<char>::empty()
        =~= crate::cfstrings::spec_escape(lit@));
    if forall|i: int|
        0 <= i < lit@.len() ==> lit@[i] != '\\' && lit@[i] != '"' && lit@[i] != '$' {
        lemma_escape_plain(lit@);
    }
}

proof fn lemma_stmts_shift(
    gc: IR,
    ctx: GenCtx,
    s1: Seq<Statement>,
    s2: Seq<Statement>,
    j: int,
    c: Seq<char>,
)
    requires
        0 <= j <= s2.len(),
    ensures
        spec_format_stmts(gc, ctx, s1 + s2, s1.len() + j, c) == spec_format_stmts(
            gc,
            ctx,
            s2,
            j,
            c,
        ),
    decreases s2.len() - j,
{
    if j < s2.len() {
        assert((s1 + s2)[s1.len() + j] == s2[j]);
        match spec_format_statement(gc, ctx, s2[j], c) {
            StmtsOut::Done(c1, _) => {
                lemma_stmts_shift(gc, c1, s1, s2, j + 1, c);
            },
            StmtsOut::Fail(_, _) => {},
        }
    }
}

/// Lowering a statement sequence composes: the promises of `s1 + s2` are
/// the promises of `s1` followed by those of `s2` lowered from the context
/// `s1` left behind, and a failure in either part is the whole's failure.
pub proof fn lemma_stmts_append(
    gc: IR,
    ctx: GenCtx,
    s1: Seq<Statement>,
    s2: Seq<Statement>,
    i: int,
    c: Seq<char>,
)
    requires
        0 <= i <= s1.len(),
    ensures
        match spec_format_stmts(gc, ctx, s1, i, c) {
            StmtsOut::Done(c1, p1) => spec_format_stmts(gc, ctx, s1 + s2, i, c) == (match
                spec_format_stmts(gc, c1, s2, 0, c) {
                StmtsOut::Done(c2, p2) => StmtsOut::Done(c2, p1 + p2),
                f => f,
            }),
            StmtsOut::Fail(k, cf) => spec_format_stmts(gc, ctx, s1 + s2, i, c)
                == StmtsOut::Fail(k, cf),
        },
    decreases s1.len() - i,
{
    if i == s1.len() {
        lemma_stmts_shift(gc, ctx, s1, s2, 0, c);
        match spec_format_stmts(gc, ctx, s2, 0, c) {
            StmtsOut::Done(c2, p2) => {
                assert(Seq::<PromiseV>::empty() + p2 =~= p2);
            },
            StmtsOut::Fail(_, _) => {},
        }
    } else {
        assert((s1 + s2)[i] == s1[i]);
        match spec_format_statement(gc, ctx, s1[i], c) {
            StmtsOut::Done(c1, p1) => {
                lemma_stmts_append(gc, c1, s1, s2, i + 1, c);
                match spec_format_stmts(gc, c1, s1, i + 1, c) {
                    StmtsOut::Done(cm, pm) => {
                        match spec_format_stmts(gc, cm, s2, 0, c) {
                            StmtsOut::Done(c2, p2) => {
                                assert(p1 + (pm + p2) =~= (p1 + pm) + p2);
                            },
                            StmtsOut::Fail(_, _) => {},
                        }
                    },
                    StmtsOut::Fail(_, _) => {},
                }
            },
            StmtsOut::Fail(_, _) => {},
        }
    }
}

/// A return statement standing last leaves every earlier statement's
/// promises exactly as they were: the terminal action is appended after
/// them, and only the context's return condition changes.
pub proof fn lemma_return_last_leaves_earlier(
    gc: IR,
    ctx: GenCtx,
    stmts: Seq<Statement>,
    tok: Token,
    c: Seq<char>,
)
    ensures
        match spec_format_stmts(gc, ctx, stmts, 0, c) {
            StmtsOut::Done(c1, p1) => spec_format_stmts(
                gc,
                ctx,
                stmts.push(Statement::Return(tok)),
                0,
                c,
            ) == StmtsOut::Done(
                GenCtx { return_condition: Some(spec_return_condition(c1)), ..c1 },
                p1 + seq![
                    PromiseV::Usebundle {
                        bundle: spec_return_bundle(tok.fragment@),
                        parameters: Seq::empty(),
                        condition: None,
                    },
                ],
            ),
            StmtsOut::Fail(_, _) => true,
        },
{
    assert(stmts.push(Statement::Return(tok)) =~= stmts + seq![Statement::Return(tok)]);
    lemma_stmts_append(gc, ctx, stmts, seq![Statement::Return(tok)], 0, c);
    match spec_format_stmts(gc, ctx, stmts, 0, c) {
        StmtsOut::Done(c1, p1) => {
            let single = seq![Statement::Return(tok)];
            assert(single[0] == Statement::Return(tok));
            let ret_out = spec_format_statement(gc, c1, Statement::Return(tok), c);
            assert(spec_format_stmts(gc, ret_out->Done_0, single, 1, c) == StmtsOut::Done(
                ret_out->Done_0,
                Seq::<PromiseV>::empty(),
            ));
            assert(ret_out->Done_1 + Seq::<PromiseV>::empty() =~= ret_out->Done_1);
        },
        StmtsOut::Fail(_, _) => {},
    }
}

/// Whether a statement holds no return statement, not even inside a case
/// arm.
pub open spec fn spec_no_return_stmt(st: Statement) -> bool
    decreases st, 0int, 0int,
{
    match st {
        Statement::Return(_) => false,
        Statement::Case(_, arms) => spec_no_return_arms(arms@, 0),
        _ => true,
    }
}

/// Whether no arm from `j` on holds a return statement.
pub open spec fn spec_no_return_arms(arms: Seq<(EnumExpression, Vec<Statement>)>, j: int) -> bool
    decreases arms, arms.len() - j, 0int,
{
    if 0 <= j < arms.len() {
        spec_no_return_stmts(arms[j].1@, 0) && spec_no_return_arms(arms, j + 1)
    } else {
        true
    }
}

/// Whether no statement from `i` on holds a return statement.
pub open spec fn spec_no_return_stmts(stmts: Seq<Statement>, i: int) -> bool
    decreases stmts, stmts.len() - i, 1int,
{
    if 0 <= i < stmts.len() {
        spec_no_return_stmt(stmts[i]) && spec_no_return_stmts(stmts, i + 1)
    } else {
        true
    }
}

/// Whether a promise's guard, if it has one, carries the conjunction with
/// the return condition `rc`.
pub open spec fn spec_guarded_by(p: PromiseV, rc: Seq<char>) -> bool {
    match p {
        PromiseV::Usebundle { condition: Some(cond), .. } => exists|cls: Seq<char>|
            cond == "("@ + rc + ")"@ + "."@ + "("@ + cls + ")"@,
        _ => true,
    }
}

proof fn lemma_rc_guards_stmt(gc: IR, ctx: GenCtx, st: Statement, c: Seq<char>, rc: Seq<char>)
    requires
        ctx.return_condition == Some(rc),
        spec_no_return_stmt(st),
    ensures
        ({
            let out = spec_format_statement(gc, ctx, st, c);
            out is Done ==> out->Done_0.return_condition == Some(rc) && forall|k: int|
                0 <= k < out->Done_1.len() ==> spec_guarded_by(#[trigger] out->Done_1[k], rc)
        }),
    decreases st, 0int, 0int,
{
    match st {
        Statement::StateDeclaration(sd) => {
            let ctx1 = match sd.outcome {
                Some(var) => spec_new_var(ctx, var@),
                None => ctx,
            };
            assert(ctx1.return_condition == Some(rc));
            let class = spec_format_class(ctx1, c);
            assert(class == "("@ + rc + ")"@ + "."@ + "("@ + c + ")"@);
            let out = spec_format_statement(gc, ctx, st, c);
            if out is Done {
                assert forall|k: int| 0 <= k < out->Done_1.len() implies spec_guarded_by(
                    #[trigger] out->Done_1[k],
                    rc,
                ) by {
                    assert(exists|cls: Seq<char>|
                        class == "("@ + rc + ")"@ + "."@ + "("@ + cls + ")"@);
                }
            }
        },
        Statement::Case(_, arms) => {
            lemma_rc_guards_arms(gc, GenCtx { cases: Seq::empty(), ..ctx }, arms@, 0, rc);
        },
        _ => {},
    }
}

proof fn lemma_rc_guards_arms(
    gc: IR,
    ctx: GenCtx,
    arms: Seq<(EnumExpression, Vec<Statement>)>,
    j: int,
    rc: Seq<char>,
)
    requires
        ctx.return_condition == Some(rc),
        spec_no_return_arms(arms, j),
    ensures
        ({
            let out = spec_format_arms(gc, ctx, arms, j);
            out is Done ==> out->Done_0.return_condition == Some(rc) && forall|k: int|
                0 <= k < out->Done_1.len() ==> spec_guarded_by(#[trigger] out->Done_1[k], rc)
        }),
    decreases arms, arms.len() - j, 0int,
{
    if 0 <= j < arms.len() {
        match spec_format_case_expr(gc, arms[j].0, ctx) {
            TextOut::Done(g) => {
                let ctx1 = GenCtx { cases: ctx.cases.push(g), ..ctx };
                lemma_rc_guards_stmts(gc, ctx1, arms[j].1@, 0, g, rc);
                match spec_format_stmts(gc, ctx1, arms[j].1@, 0, g) {
                    StmtsOut::Done(ctx2, p1) => {
                        lemma_rc_guards_arms(gc, ctx2, arms, j + 1, rc);
                    },
                    StmtsOut::Fail(_, _) => {},
                }
            },
            TextOut::Fail(_) => {},
        }
    }
}

proof fn lemma_rc_guards_stmts(
    gc: IR,
    ctx: GenCtx,
    stmts: Seq<Statement>,
    i: int,
    c: Seq<char>,
    rc: Seq<char>,
)
    requires
        ctx.return_condition == Some(rc),
        spec_no_return_stmts(stmts, i),
    ensures
        ({
            let out = spec_format_stmts(gc, ctx, stmts, i, c);
            out is Done ==> out->Done_0.return_condition == Some(rc) && forall|k: int|
                0 <= k < out->Done_1.len() ==> spec_guarded_by(#[trigger] out->Done_1[k], rc)
        }),
    decreases stmts, stmts.len() - i, 1int,
{
    if 0 <= i < stmts.len() {
        lemma_rc_guards_stmt(gc, ctx, stmts[i], c, rc);
        match spec_format_statement(gc, ctx, stmts[i], c) {
            StmtsOut::Done(c1, p1) => {
                lemma_rc_guards_stmts(gc, c1, stmts, i + 1, c, rc);
            },
            StmtsOut::Fail(_, _) => {},
        }
    }
}

/// A return statement sets the accumulated return condition to the
/// negation of the last guard seen, and every promise lowered afterward in
/// the same state, including ones in other case arms, that carries a guard
/// at all carries that condition conjoined onto its own class, as long as
/// no further return statement replaces it.
pub proof fn lemma_return_shortcircuits(
    gc: IR,
    ctx: GenCtx,
    tok: Token,
    post: Seq<Statement>,
    in_class: Seq<char>,
)
    requires
        spec_no_return_stmts(post, 0),
    ensures
        spec_format_statement(gc, ctx, Statement::Return(tok), in_class) == StmtsOut::Done(
            GenCtx { return_condition: Some(spec_return_condition(ctx)), ..ctx },
            seq![
                PromiseV::Usebundle {
                    bundle: spec_return_bundle(tok.fragment@),
                    parameters: Seq::empty(),
                    condition: None,
                },
            ],
        ),
        ({
            let after = spec_format_stmts(
                gc,
                GenCtx { return_condition: Some(spec_return_condition(ctx)), ..ctx },
                post,
                0,
                in_class,
            );
            after is Done ==> forall|k: int|
                0 <= k < after->Done_1.len() ==> spec_guarded_by(
                    #[trigger] after->Done_1[k],
                    spec_return_condition(ctx),
                )
        }),
{
    lemma_rc_guards_stmts(
        gc,
        GenCtx { return_condition: Some(spec_return_condition(ctx)), ..ctx },
        post,
        0,
        in_class,
        spec_return_condition(ctx),
    );
}

/// The next numeric suffix `new_var` allocates for `prefix`.
pub open spec fn spec_next_id(ctx: GenCtx, prefix: Seq<char>) -> u32 {
    if ctx.prefixes.contains_key(prefix) {
        if ctx.prefixes[prefix] == u32::MAX {
            u32::MAX
        } else {
            (ctx.prefixes[prefix] + 1) as u32
        }
    } else {
        1u32
    }
}

/// The context after allocating a local variable name for `prefix`.
pub open spec fn spec_new_var(ctx: GenCtx, prefix: Seq<char>) -> GenCtx {
    GenCtx {
        prefixes: ctx.prefixes.insert(prefix, spec_next_id(ctx, prefix)),
        var_prefixes: ctx.var_prefixes.insert(
            prefix,
            prefix + spec_u64_str(spec_next_id(ctx, prefix) as int),
        ),
        ..ctx
    }
}

/// A guard with the accumulated return condition conjoined, once a return
/// statement was lowered in the same state.
pub open spec fn spec_format_class(ctx: GenCtx, class: Seq<char>) -> Seq<char> {
    match ctx.return_condition {
        None => class,
        Some(c) => "("@ + c + ")"@ + "."@ + "("@ + class + ")"@,
    }
}

} // verus!
