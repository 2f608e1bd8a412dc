//! The structured backend: converts one fully-resolved semantic tree into a
//! single declarative technique document describing the same state machine.
use vstd::prelude::*;
use crate::cfengine::{err_kind_of, spec_wrap_and_or, spec_wrap_or, ErrKind, TextOut};
use crate::cfstrings::{contains_char, i64_to_string, join, paren, spec_i64_str, spec_join, str_eq};
use crate::error::{Error, ErrorV};
use crate::ir::{
    spec_assoc_get,
    spec_item_name,
    meta_get,
    EnumExpression,
    InterpolatedElement,
    MetaValue,
    ResourceDef,
    StateDef,
    Statement,
    Token,
    Value,
    IR,
};

verus! {

/// One interpolated parameter of a technique: its id, display name and
/// description, drawn from the resource's metadata.
#[derive(Clone, Debug)]
pub struct InterpolatedParameter {
    pub id: String,
    pub name: String,
    pub description: String,
}

/// The ghost mirror of an interpolated parameter.
#[verifier::ext_equal]
pub struct InterpolatedParameterV {
    pub id: Seq<char>,
    pub name: Seq<char>,
    pub description: Seq<char>,
}

impl View for InterpolatedParameter {
    type V = InterpolatedParameterV;

    open spec fn view(&self) -> InterpolatedParameterV {
        InterpolatedParameterV { id: self.id@, name: self.name@, description: self.description@ }
    }
}

/// One resolved parameter of a method call.
#[derive(Clone, Debug)]
pub struct Parameter {
    pub name: String,
    pub value: String,
}

/// The ghost mirror of a method-call parameter.
#[verifier::ext_equal]
pub struct ParameterV {
    pub name: Seq<char>,
    pub value: Seq<char>,
}

impl View for Parameter {
    type V = ParameterV;

    open spec fn view(&self) -> ParameterV {
        ParameterV { name: self.name@, value: self.value@ }
    }
}

impl Parameter {
    pub fn new(name: &str, value: &str) -> (r: Parameter)
        ensures
            r@ == (ParameterV { name: name@, value: value@ }),
    {
        Parameter { name: String::from_str(name), value: String::from_str(value) }
    }
}

/// One guarded invocation of the structured backend's output.
#[derive(Clone, Debug)]
pub struct MethodCall {
    pub method_name: String,
    pub condition: String,
    pub parameters: Vec<Parameter>,
    pub component: Option<String>,
}

/// The ghost mirror of a method call.
#[verifier::ext_equal]
pub struct MethodCallV {
    pub method_name: Seq<char>,
    pub condition: Seq<char>,
    pub parameters: Seq<ParameterV>,
    pub component: Option<Seq<char>>,
}

impl View for MethodCall {
    type V = MethodCallV;

    open spec fn view(&self) -> MethodCallV {
        MethodCallV {
            method_name: self.method_name@,
            condition: self.condition@,
            parameters: self.parameters@.map_values(|p: Parameter| p@),
            component: match self.component {
                Some(c) => Some(c@),
                None => None,
            },
        }
    }
}

/// A structured version number.
#[derive(Clone, Copy, PartialEq, Eq, Structural, Debug)]
pub struct Version {
    pub major: u64,
    pub minor: u64,
}

/// Whether `c` is a decimal digit.
pub open spec fn spec_is_digit(c: char) -> bool {
    48 <= c as int <= 57
}

/// The decimal value of the digit string `s`.
pub open spec fn spec_dec_val(s: Seq<char>) -> int
    decreases s.len(),
{
    if s.len() == 0 {
        0
    } else {
        spec_dec_val(s.drop_last()) * 10 + (s.last() as int - 48)
    }
}

/// Whether `s` is a non-empty string of decimal digits.
pub open spec fn spec_all_digits(s: Seq<char>) -> bool {
    s.len() > 0 && forall|i: int| 0 <= i < s.len() ==> spec_is_digit(s[i])
}

/// The position of the first dot of `s` at or after `i`, or the length.
pub open spec fn spec_first_dot_from(s: Seq<char>, i: int) -> int
    decreases s.len() - i,
{
    if 0 <= i < s.len() {
        if s[i] == '.' {
            i
        } else {
            spec_first_dot_from(s, i + 1)
        }
    } else {
        s.len() as int
    }
}

/// A version string parses iff it is two non-empty digit strings joined by
/// one dot, each fitting the counter width.
pub open spec fn spec_parse_version(s: Seq<char>) -> Option<Version> {
    let d = spec_first_dot_from(s, 0);
    if d < s.len() {
        let maj = s.take(d);
        let min = s.skip(d + 1);
        if spec_all_digits(maj) && spec_all_digits(min) && spec_dec_val(maj) <= u64::MAX
            && spec_dec_val(min) <= u64::MAX {
            Some(Version { major: spec_dec_val(maj) as u64, minor: spec_dec_val(min) as u64 })
        } else {
            None
        }
    } else {
        None
    }
}

proof fn lemma_dec_val_nonneg(s: Seq<char>)
    requires
        forall|i: int| 0 <= i < s.len() ==> spec_is_digit(s[i]),
    ensures
        spec_dec_val(s) >= 0,
    decreases s.len(),
{
    if s.len() > 0 {
        lemma_dec_val_nonneg(s.drop_last());
    }
}

proof fn lemma_dec_val_prefix(s: Seq<char>, i: int)
    requires
        0 <= i <= s.len(),
        forall|k: int| 0 <= k < s.len() ==> spec_is_digit(s[k]),
    ensures
        spec_dec_val(s.take(i)) <= spec_dec_val(s),
    decreases s.len(),
{
    if i == s.len() {
        assert(s.take(i) =~= s);
    } else {
        assert(s.take(i) =~= s.drop_last().take(i));
        lemma_dec_val_prefix(s.drop_last(), i);
        lemma_dec_val_nonneg(s.drop_last());
    }
}

/// Parses the character range `from..to` of `s` as a decimal number.
fn parse_dec(s: &str, from: usize, to: usize) -> (r: Option<u64>)
    requires
        from <= to <= s@.len(),
    ensures
        ({
            let seg = s@.subrange(from as int, to as int);
            match r {
                Some(v) => spec_all_digits(seg) && v == spec_dec_val(seg) && spec_dec_val(seg)
                    <= u64::MAX,
                None => !(spec_all_digits(seg) && spec_dec_val(seg) <= u64::MAX),
            }
        }),
{
    let ghost seg = s@.subrange(from as int, to as int);
    if from >= to {
        return None;
    }
    let mut acc: u64 = 0;
    let mut i: usize = from;
    proof {
        assert(s@.subrange(from as int, from as int) =~= Seq::<char>::empty());
    }
    while i < to
        invariant
            from <= i <= to <= s@.len(),
            seg == s@.subrange(from as int, to as int),
            acc == spec_dec_val(s@.subrange(from as int, i as int)),
            forall|k: int| from <= k < i ==> spec_is_digit(s@[k]),
        decreases to - i,
    {
        let c = s.get_char(i);
        let cv = c as u32;
        proof {
            assert(seg[i - from] == s@[i as int]);
        }
        if cv < 48 || cv > 57 {
            assert(!spec_is_digit(seg[i - from]));
            return None;
        }
        let d: u64 = (cv - 48) as u64;
        proof {
            assert(s@.subrange(from as int, i as int + 1).drop_last() =~= s@.subrange(
                from as int,
                i as int,
            ));
            assert(s@.subrange(from as int, i as int + 1).last() == s@[i as int]);
        }
        if acc > 1844674407370955161u64 || (acc == 1844674407370955161u64 && d > 5) {
            proof {
                assert(spec_dec_val(s@.subrange(from as int, i as int + 1)) > u64::MAX);
                if spec_all_digits(seg) {
                    lemma_dec_val_prefix(seg, i + 1 - from);
                    assert(seg.take(i + 1 - from) =~= s@.subrange(from as int, i as int + 1));
                }
            }
            return None;
        }
        acc = acc * 10 + d;
        i = i + 1;
    }
    proof {
        assert(s@.subrange(from as int, to as int) =~= seg);
        assert(forall|k: int| 0 <= k < seg.len() ==> spec_is_digit(#[trigger] seg[k]));
    }
    Some(acc)
}

impl Version {
    /// Parses `major.minor`; anything else is an invalid version.
    pub fn from_str(s: &str) -> (r: Result<Version, Error>)
        ensures
            match spec_parse_version(s@) {
                Some(v) => r is Ok && r->Ok_0 == v,
                None => r is Err && r->Err_0@ == ErrorV::InvalidVersion(s@),
            },
    {
        let len = s.unicode_len();
        let mut i: usize = 0;
        while i < len
            invariant
                len == s@.len(),
                i <= len,
                spec_first_dot_from(s@, 0) == spec_first_dot_from(s@, i as int),
            decreases len - i,
        {
            if s.get_char(i) == '.' {
                let maj = match parse_dec(s, 0, i) {
                    Some(v) => v,
                    None => {
                        proof {
                            assert(s@.take(i as int) =~= s@.subrange(0, i as int));
                        }
                        return Err(Error::InvalidVersion(String::from_str(s)));
                    },
                };
                let min = match parse_dec(s, i + 1, len) {
                    Some(v) => v,
                    None => {
                        proof {
                            assert(s@.skip(i as int + 1) =~= s@.subrange(
                                i as int + 1,
                                len as int,
                            ));
                        }
                        return Err(Error::InvalidVersion(String::from_str(s)));
                    },
                };
                proof {
                    assert(s@.take(i as int) =~= s@.subrange(0, i as int));
                    assert(s@.skip(i as int + 1) =~= s@.subrange(i as int + 1, len as int));
                }
                return Ok(Version { major: maj, minor: min });
            }
            i = i + 1;
        }
        Err(Error::InvalidVersion(String::from_str(s)))
    }
}

/// The whole declarative document of one technique.
#[derive(Debug)]
pub struct Technique {
    /// The document's kind tag.
    pub kind: String,
    /// The document schema version.
    pub version: u64,
    pub data: TechniqueData,
}

/// The data object of a technique document.
#[derive(Debug)]
pub struct TechniqueData {
    pub bundle_name: String,
    pub description: String,
    pub name: String,
    pub version: Version,
    pub category: String,
    pub interpolated_parameters: Vec<InterpolatedParameter>,
    pub method_calls: Vec<MethodCall>,
}

/// The ghost mirror of a technique's data object.
#[verifier::ext_equal]
pub struct TechniqueDataV {
    pub bundle_name: Seq<char>,
    pub description: Seq<char>,
    pub name: Seq<char>,
    pub version: Version,
    pub category: Seq<char>,
    pub interpolated_parameters: Seq<InterpolatedParameterV>,
    pub method_calls: Seq<MethodCallV>,
}

/// The ghost mirror of a technique document.
#[verifier::ext_equal]
pub struct TechniqueV {
    pub kind: Seq<char>,
    pub version: u64,
    pub data: TechniqueDataV,
}

impl View for TechniqueData {
    type V = TechniqueDataV;

    open spec fn view(&self) -> TechniqueDataV {
        TechniqueDataV {
            bundle_name: self.bundle_name@,
            description: self.description@,
            name: self.name@,
            version: self.version,
            category: self.category@,
            interpolated_parameters: self.interpolated_parameters@.map_values(
                |p: InterpolatedParameter| p@,
            ),
            method_calls: self.method_calls@.map_values(|m: MethodCall| m@),
        }
    }
}

impl View for Technique {
    type V = TechniqueV;

    open spec fn view(&self) -> TechniqueV {
        TechniqueV { kind: self.kind@, version: self.version, data: self.data@ }
    }
}

/// What reading one string field of a metadata table yields.
pub open spec fn spec_meta_string(m: Seq<(String, MetaValue)>, field: Seq<char>) -> Result<
    Seq<char>,
    ErrorV,
> {
    match spec_assoc_get(m, field) {
        Some(MetaValue::Str(s)) => Ok(s@),
        Some(_) => Err(ErrorV::WrongMetadataShape(field)),
        None => Err(ErrorV::MissingMetadata(field)),
    }
}

/// Reads one required string field of a metadata table: absence and any
/// non-string shape are distinct fatal errors.
pub fn extract_meta_string(m: &crate::ir::Metadata, field: &str) -> (r: Result<String, Error>)
    ensures
        match spec_meta_string(m@, field@) {
            Ok(s) => r is Ok && r->Ok_0@ == s,
            Err(e) => r is Err && r->Err_0@ == e,
        },
{
    match meta_get(m, field) {
        Some(MetaValue::Str(s)) => Ok(s.clone()),
        Some(_) => Err(Error::WrongMetadataShape { field: String::from_str(field) }),
        None => Err(Error::MissingMetadata { field: String::from_str(field) }),
    }
}

/// The rendering of an interpolated string for the structured backend:
/// static fragments kept as they are, variable fragments as references.
pub open spec fn spec_interp_raw(data: Seq<InterpolatedElement>, i: int) -> Seq<char>
    decreases data.len() - i,
{
    if 0 <= i < data.len() {
        (match data[i] {
            InterpolatedElement::Static(s) => s@,
            InterpolatedElement::Variable(v) => "${"@ + v@ + "}"@,
        }) + spec_interp_raw(data, i + 1)
    } else {
        Seq::empty()
    }
}

/// Renders an interpolated string without escaping.
fn render_interp_raw(data: &Vec<InterpolatedElement>) -> (r: String)
    ensures
        r@ == spec_interp_raw(data@, 0),
{
    let mut r = String::new();
    let mut i: usize = 0;
    while i < data.len()
        invariant
            i <= data@.len(),
            r@ + spec_interp_raw(data@, i as int) == spec_interp_raw(data@, 0),
        decreases data@.len() - i,
    {
        match &data[i] {
            InterpolatedElement::Static(s) => {
                r.append(s.as_str());
            },
            InterpolatedElement::Variable(v) => {
                r.append("${");
                r.append(v.as_str());
                r.append("}");
            },
        }
        i = i + 1;
    }
    r
}

/// The last statement-local variable definition of `name` among the first
/// `k` statements, if any.
pub open spec fn spec_local_var(stmts: Seq<Statement>, k: int, name: Seq<char>) -> Option<Value>
    decreases k,
{
    if 0 < k <= stmts.len() {
        match stmts[k - 1] {
            Statement::VariableDefinition(vd) => if vd.name.fragment@ == name {
                Some(vd.value)
            } else {
                spec_local_var(stmts, k - 1, name)
            },
            _ => spec_local_var(stmts, k - 1, name),
        }
    } else {
        None
    }
}

/// The last definition of `name` among the first `k` entries of a variable
/// definition list, if any.
pub open spec fn spec_defs_var(defs: Seq<crate::ir::VariableDefinition>, k: int, name: Seq<char>)
    -> Option<Value>
    decreases k,
{
    if 0 < k <= defs.len() {
        if defs[k - 1].name.fragment@ == name {
            Some(defs[k - 1].value)
        } else {
            spec_defs_var(defs, k - 1, name)
        }
    } else {
        None
    }
}

/// The value a variable reference resolves to: variables defined earlier in
/// the same statement sequence first, then the owning resource's, then the
/// global ones.
pub open spec fn spec_lookup_var(
    ir: IR,
    res: ResourceDef,
    state: StateDef,
    visible: int,
    name: Seq<char>,
) -> Option<Value> {
    match spec_local_var(state.statements@, visible, name) {
        Some(v) => Some(v),
        None => match spec_defs_var(
            res.variable_definitions@,
            res.variable_definitions@.len() as int,
            name,
        ) {
            Some(v) => Some(v),
            None => spec_defs_var(
                ir.variable_definitions@,
                ir.variable_definitions@.len() as int,
                name,
            ),
        },
    }
}

/// Resolves a variable reference through the three scopes.
fn lookup_var<'a>(
    ir: &'a IR,
    res: &'a ResourceDef,
    state: &'a StateDef,
    visible: usize,
    name: &str,
) -> (r: Option<&'a Value>)
    requires
        visible <= state.statements@.len(),
    ensures
        match r {
            Some(v) => spec_lookup_var(*ir, *res, *state, visible as int, name@) == Some(*v),
            None => spec_lookup_var(*ir, *res, *state, visible as int, name@) is None,
        },
{
    let mut k: usize = visible;
    while k > 0
        invariant
            k <= state.statements@.len(),
            spec_local_var(state.statements@, visible as int, name@) == spec_local_var(
                state.statements@,
                k as int,
                name@,
            ),
        decreases k,
    {
        k = k - 1;
        if let Statement::VariableDefinition(vd) = &state.statements[k] {
            if str_eq(vd.name.fragment(), name) {
                return Some(&vd.value);
            }
        }
    }
    let mut k2: usize = res.variable_definitions.len();
    while k2 > 0
        invariant
            k2 <= res.variable_definitions@.len(),
            spec_local_var(state.statements@, visible as int, name@) is None,
            spec_defs_var(
                res.variable_definitions@,
                res.variable_definitions@.len() as int,
                name@,
            ) == spec_defs_var(res.variable_definitions@, k2 as int, name@),
        decreases k2,
    {
        k2 = k2 - 1;
        if str_eq(res.variable_definitions[k2].name.fragment(), name) {
            return Some(&res.variable_definitions[k2].value);
        }
    }
    let mut k3: usize = ir.variable_definitions.len();
    while k3 > 0
        invariant
            k3 <= ir.variable_definitions@.len(),
            spec_local_var(state.statements@, visible as int, name@) is None,
            spec_defs_var(
                res.variable_definitions@,
                res.variable_definitions@.len() as int,
                name@,
            ) is None,
            spec_defs_var(
                ir.variable_definitions@,
                ir.variable_definitions@.len() as int,
                name@,
            ) == spec_defs_var(ir.variable_definitions@, k3 as int, name@),
        decreases k3,
    {
        k3 = k3 - 1;
        if str_eq(ir.variable_definitions[k3].name.fragment(), name) {
            return Some(&ir.variable_definitions[k3].value);
        }
    }
    None
}

/// The warning recorded for a variable reference that resolves to nothing.
pub open spec fn spec_warn_msg(name: Seq<char>) -> Seq<char> {
    "The variable "@ + name
        + " isn't recognized by rudderc, so we can't guarantee it will be defined when evaluated"@
}

fn make_warning(name: &str) -> (r: String)
    ensures
        r@ == spec_warn_msg(name@),
{
    let mut r = String::from_str("The variable ");
    r.append(name);
    r.append(
        " isn't recognized by rudderc, so we can't guarantee it will be defined when evaluated",
    );
    r
}

/// The resolution fuel for one state: enough lookups to follow any acyclic
/// chain of definitions through the three scopes (saturating at the counter
/// width).
pub open spec fn spec_fuel(ir: IR, res: ResourceDef, state: StateDef) -> nat {
    let sum = res.variable_definitions@.len() + ir.variable_definitions@.len()
        + state.statements@.len() + 1;
    if sum > u64::MAX {
        u64::MAX as nat
    } else {
        sum as nat
    }
}

fn fuel_for(ir: &IR, res: &ResourceDef, state: &StateDef) -> (r: u64)
    ensures
        r == spec_fuel(*ir, *res, *state),
{
    let a: u64 = res.variable_definitions.len() as u64;
    let b: u64 = ir.variable_definitions.len() as u64;
    let c: u64 = state.statements.len() as u64;
    let ab: u64 = if a <= u64::MAX - b {
        a + b
    } else {
        u64::MAX
    };
    let abc: u64 = if ab <= u64::MAX - c {
        ab + c
    } else {
        u64::MAX
    };
    if abc <= u64::MAX - 1 {
        abc + 1
    } else {
        u64::MAX
    }
}

/// A rendering outcome together with the warnings it recorded.
pub struct TRes {
    pub out: Result<Seq<char>, ErrKind>,
    pub warns: Seq<Seq<char>>,
}

/// A list-rendering outcome together with the warnings it recorded.
pub struct TListRes {
    pub out: Result<Seq<Seq<char>>, ErrKind>,
    pub warns: Seq<Seq<char>>,
}

/// The rendering of a value in the structured backend: strings kept raw,
/// variables resolved through the scopes with `fuel` bounding chains of
/// definitions; an unresolved reference degrades to a placeholder plus a
/// warning, never a hard failure. Structs and enum expressions as values
/// are explicitly unimplemented.
pub open spec fn spec_tech_value(
    ir: IR,
    res: ResourceDef,
    state: StateDef,
    visible: int,
    v: Value,
    delim: bool,
    fuel: nat,
) -> TRes
    decreases fuel, v, 0int,
{
    let d: Seq<char> = if delim {
        "\""@
    } else {
        Seq::empty()
    };
    match v {
        Value::String(s) => TRes {
            out: Ok(d + spec_interp_raw(s.data@, 0) + d),
            warns: Seq::empty(),
        },
        Value::Integer(_, n) => TRes { out: Ok(spec_i64_str(n as int)), warns: Seq::empty() },
        Value::Boolean(_, b) => TRes {
            out: Ok(
                if b {
                    "true"@
                } else {
                    "false"@
                },
            ),
            warns: Seq::empty(),
        },
        Value::EnumExpression(_) => TRes {
            out: Err(ErrKind::Unimplemented),
            warns: Seq::empty(),
        },
        Value::Struct(_) => TRes { out: Err(ErrKind::Unimplemented), warns: Seq::empty() },
        Value::List(l) => {
            let inner = spec_tech_values(ir, res, state, visible, l@, 0, fuel);
            match inner.out {
                Ok(parts) => TRes {
                    out: Ok("[ "@ + spec_join(parts, ","@) + " ]"@),
                    warns: inner.warns,
                },
                Err(k) => TRes { out: Err(k), warns: inner.warns },
            }
        },
        Value::Variable(t) => {
            let placeholder = d + "${"@ + t.fragment@ + "}"@ + d;
            if fuel == 0 {
                TRes { out: Ok(placeholder), warns: seq![spec_warn_msg(t.fragment@)] }
            } else {
                match spec_lookup_var(ir, res, state, visible, t.fragment@) {
                    Some(v2) => {
                        let inner = spec_tech_value(
                            ir,
                            res,
                            state,
                            visible,
                            v2,
                            delim,
                            (fuel - 1) as nat,
                        );
                        match inner.out {
                            Ok(s) => TRes { out: Ok(s), warns: inner.warns },
                            Err(_) => TRes {
                                out: Ok(placeholder),
                                warns: inner.warns + seq![spec_warn_msg(t.fragment@)],
                            },
                        }
                    },
                    None => TRes {
                        out: Ok(placeholder),
                        warns: seq![spec_warn_msg(t.fragment@)],
                    },
                }
            }
        },
    }
}

/// The renderings of a list's elements from `i` on, for the structured
/// backend, with the warnings they record.
pub open spec fn spec_tech_values(
    ir: IR,
    res: ResourceDef,
    state: StateDef,
    visible: int,
    l: Seq<Value>,
    i: int,
    fuel: nat,
) -> TListRes
    decreases fuel, l, l.len() - i,
{
    if 0 <= i < l.len() {
        let head = spec_tech_value(ir, res, state, visible, l[i], true, fuel);
        match head.out {
            Ok(s) => {
                let rest = spec_tech_values(ir, res, state, visible, l, i + 1, fuel);
                match rest.out {
                    Ok(parts) => TListRes {
                        out: Ok(seq![s] + parts),
                        warns: head.warns + rest.warns,
                    },
                    Err(k) => TListRes { out: Err(k), warns: head.warns + rest.warns },
                }
            },
            Err(k) => TListRes { out: Err(k), warns: head.warns },
        }
    } else {
        TListRes { out: Ok(Seq::empty()), warns: Seq::empty() }
    }
}

/// Renders one value for the structured backend, resolving variable
/// references; warnings recorded along the way are appended to `warnings`.
pub fn value_to_string(
    ir: &IR,
    res: &ResourceDef,
    state: &StateDef,
    visible: usize,
    value: &Value,
    string_delim: bool,
    fuel: u64,
    warnings: &mut Vec<String>,
) -> (r: Result<String, Error>)
    requires
        visible <= state.statements@.len(),
    ensures
        ({
            let s = spec_tech_value(
                *ir,
                *res,
                *state,
                visible as int,
                *value,
                string_delim,
                fuel as nat,
            );
            (match s.out {
                Ok(t) => r is Ok && r->Ok_0@ == t,
                Err(k) => r is Err && err_kind_of(r->Err_0) == Some(k),
            }) && final(warnings)@.map_values(|w: String| w@) == old(warnings)@.map_values(
                |w: String| w@,
            ) + s.warns
        }),
    decreases fuel, *value, 0int,
{
    let ghost w0 = warnings@.map_values(|w: String| w@);
    let delim = if string_delim {
        "\""
    } else {
        ""
    };
    proof {
        reveal_strlit("");
        assert(""@ =~= Seq::<char>::empty());
        assert(w0 + Seq::<Seq<char>>::empty() =~= w0);
    }
    match value {
        Value::String(s) => {
            let mut r = String::from_str(delim);
            let body = render_interp_raw(&s.data);
            r.append(body.as_str());
            r.append(delim);
            Ok(r)
        },
        Value::Integer(_, n) => Ok(i64_to_string(*n)),
        Value::Boolean(_, b) => Ok(
            if *b {
                String::from_str("true")
            } else {
                String::from_str("false")
            },
        ),
        Value::EnumExpression(_) => Err(
            Error::Unimplemented(String::from_str("enum expression as a value")),
        ),
        Value::Struct(_) => Err(
            Error::Unimplemented(String::from_str("struct as a technique value")),
        ),
        Value::List(l) => {
            let parts = match tech_values_to_strings(
                ir,
                res,
                state,
                visible,
                l,
                0,
                fuel,
                warnings,
            ) {
                Ok(p) => p,
                Err(e) => {
                    return Err(e);
                },
            };
            let mut r = String::from_str("[ ");
            let joined = join(&parts, ",");
            r.append(joined.as_str());
            r.append(" ]");
            Ok(r)
        },
        Value::Variable(t) => {
            if fuel == 0 {
                let w = make_warning(t.fragment());
                warnings.push(w);
                proof {
                    assert(final(warnings)@.map_values(|w: String| w@) =~= w0 + seq![
                        spec_warn_msg(t.fragment@),
                    ]);
                }
                let mut r = String::from_str(delim);
                r.append("${");
                r.append(t.fragment());
                r.append("}");
                r.append(delim);
                Ok(r)
            } else {
                match lookup_var(ir, res, state, visible, t.fragment()) {
                    Some(v2) => {
                        match value_to_string(
                            ir,
                            res,
                            state,
                            visible,
                            v2,
                            string_delim,
                            fuel - 1,
                            warnings,
                        ) {
                            Ok(s) => Ok(s),
                            Err(_) => {
                                let ghost w1 = warnings@.map_values(|w: String| w@);
                                let w = make_warning(t.fragment());
                                warnings.push(w);
                                proof {
                                    assert(final(warnings)@.map_values(|w: String| w@) =~= w1
                                        + seq![spec_warn_msg(t.fragment@)]);
                                }
                                let mut r = String::from_str(delim);
                                r.append("${");
                                r.append(t.fragment());
                                r.append("}");
                                r.append(delim);
                                Ok(r)
                            },
                        }
                    },
                    None => {
                        let w = make_warning(t.fragment());
                        warnings.push(w);
                        proof {
                            assert(final(warnings)@.map_values(|w: String| w@) =~= w0 + seq![
                                spec_warn_msg(t.fragment@),
                            ]);
                        }
                        let mut r = String::from_str(delim);
                        r.append("${");
                        r.append(t.fragment());
                        r.append("}");
                        r.append(delim);
                        Ok(r)
                    },
                }
            }
        },
    }
}

/// Renders a list's elements from `i` on for the structured backend.
fn tech_values_to_strings(
    ir: &IR,
    res: &ResourceDef,
    state: &StateDef,
    visible: usize,
    l: &Vec<Value>,
    i: usize,
    fuel: u64,
    warnings: &mut Vec<String>,
) -> (r: Result<Vec<String>, Error>)
    requires
        visible <= state.statements@.len(),
        i <= l@.len(),
    ensures
        ({
            let s = spec_tech_values(
                *ir,
                *res,
                *state,
                visible as int,
                l@,
                i as int,
                fuel as nat,
            );
            (match s.out {
                Ok(parts) => r is Ok && r->Ok_0@.map_values(|p: String| p@) == parts,
                Err(k) => r is Err && err_kind_of(r->Err_0) == Some(k),
            }) && final(warnings)@.map_values(|w: String| w@) == old(warnings)@.map_values(
                |w: String| w@,
            ) + s.warns
        }),
    decreases fuel, l@, l@.len() - i,
{
    let ghost w0 = warnings@.map_values(|w: String| w@);
    if i >= l.len() {
        let r: Vec<String> = Vec::new();
        proof {
            assert(r@.map_values(|p: String| p@) =~= Seq::<Seq<char>>::empty());
            assert(w0 + Seq::<Seq<char>>::empty() =~= w0);
        }
        Ok(r)
    } else {
        let head = match value_to_string(ir, res, state, visible, &l[i], true, fuel, warnings) {
            Ok(s) => s,
            Err(e) => {
                return Err(e);
            },
        };
        let mut rest = match tech_values_to_strings(
            ir,
            res,
            state,
            visible,
            l,
            i + 1,
            fuel,
            warnings,
        ) {
            Ok(p) => p,
            Err(e) => {
                proof {
                    let s1 = spec_tech_value(
                        *ir,
                        *res,
                        *state,
                        visible as int,
                        l@[i as int],
                        true,
                        fuel as nat,
                    );
                    let s2 = spec_tech_values(
                        *ir,
                        *res,
                        *state,
                        visible as int,
                        l@,
                        i as int + 1,
                        fuel as nat,
                    );
                    assert(final(warnings)@.map_values(|w: String| w@) =~= w0 + (s1.warns
                        + s2.warns));
                }
                return Err(e);
            },
        };
        let ghost rest_snap = rest@;
        let mut out: Vec<String> = Vec::new();
        out.push(head);
        out.append(&mut rest);
        proof {
            let s1 = spec_tech_value(
                *ir,
                *res,
                *state,
                visible as int,
                l@[i as int],
                true,
                fuel as nat,
            );
            let s2 = spec_tech_values(
                *ir,
                *res,
                *state,
                visible as int,
                l@,
                i as int + 1,
                fuel as nat,
            );
            assert(out@.map_values(|p: String| p@) =~= seq![out@[0]@] + rest_snap.map_values(
                |p: String| p@,
            ));
            assert(final(warnings)@.map_values(|w: String| w@) =~= w0 + (s1.warns + s2.warns));
        }
        Ok(out)
    }
}

/// The guard text an enum expression lowers to in the structured backend:
/// like the textual backend's algebra, but global enum items go through the
/// registry's translation, and a foreign boolean variable bound to `true`
/// renders as the bare variable name.
pub open spec fn spec_format_expr(ir: IR, e: EnumExpression) -> TextOut
    decreases e,
{
    match e {
        EnumExpression::And(e1, e2) => match spec_format_expr(ir, *e1) {
            TextOut::Done(l) => match spec_format_expr(ir, *e2) {
                TextOut::Done(r) => TextOut::Done(spec_wrap_or(l) + "."@ + spec_wrap_or(r)),
                f => f,
            },
            f => f,
        },
        EnumExpression::Or(e1, e2) => match spec_format_expr(ir, *e1) {
            TextOut::Done(l) => match spec_format_expr(ir, *e2) {
                TextOut::Done(r) => TextOut::Done(l + "|"@ + r),
                f => f,
            },
            f => f,
        },
        EnumExpression::Not(e1) => match spec_format_expr(ir, *e1) {
            TextOut::Done(i) => TextOut::Done("!"@ + spec_wrap_and_or(i)),
            f => f,
        },
        EnumExpression::Compare(var, tree, item) => {
            if spec_assoc_get(ir.enum_list.globals@, var.fragment@) == Some(true) {
                TextOut::Done(spec_item_name(ir.enum_list, item.fragment@))
            } else if tree.fragment@ == "boolean"@ && item.fragment@ == "true"@ {
                TextOut::Done(var.fragment@)
            } else {
                TextOut::Done(
                    var.fragment@ + "_${report_data.canonified_directive_id}_"@
                        + item.fragment@,
                )
            }
        },
        EnumExpression::RangeCompare(_, _, _, _) => TextOut::Fail(ErrKind::Unimplemented),
        EnumExpression::Default(_) => TextOut::Done("any"@),
        EnumExpression::NoDefault(_) => TextOut::Done(Seq::empty()),
    }
}

/// Lowers one enum expression to its guard text for the structured backend.
pub fn format_expr(ir: &IR, expr: &EnumExpression) -> (r: Result<String, Error>)
    ensures
        match spec_format_expr(*ir, *expr) {
            TextOut::Done(s) => r is Ok && r->Ok_0@ == s,
            TextOut::Fail(k) => r is Err && err_kind_of(r->Err_0) == Some(k),
        },
    decreases *expr,
{
    match expr {
        EnumExpression::And(e1, e2) => {
            let l = match format_expr(ir, e1) {
                Ok(s) => s,
                Err(e) => {
                    return Err(e);
                },
            };
            let r = match format_expr(ir, e2) {
                Ok(s) => s,
                Err(e) => {
                    return Err(e);
                },
            };
            let mut out = if contains_char(l.as_str(), '|') {
                paren(l.as_str())
            } else {
                l
            };
            out.append(".");
            let rr = if contains_char(r.as_str(), '|') {
                paren(r.as_str())
            } else {
                r
            };
            out.append(rr.as_str());
            Ok(out)
        },
        EnumExpression::Or(e1, e2) => {
            let l = match format_expr(ir, e1) {
                Ok(s) => s,
                Err(e) => {
                    return Err(e);
                },
            };
            let r = match format_expr(ir, e2) {
                Ok(s) => s,
                Err(e) => {
                    return Err(e);
                },
            };
            let mut out = l;
            out.append("|");
            out.append(r.as_str());
            Ok(out)
        },
        EnumExpression::Not(e1) => {
            let i = match format_expr(ir, e1) {
                Ok(s) => s,
                Err(e) => {
                    return Err(e);
                },
            };
            let mut out = String::from_str("!");
            let wrapped = if contains_char(i.as_str(), '|') || contains_char(i.as_str(), '.') {
                paren(i.as_str())
            } else {
                i
            };
            out.append(wrapped.as_str());
            Ok(out)
        },
        EnumExpression::Compare(var, tree, item) => {
            let is_global = ir.enum_list.enum_is_global(var.fragment());
            if let Some(true) = is_global {
                Ok(ir.enum_list.get_cfengine_item_name(var.fragment(), item.fragment()))
            } else if str_eq(tree.fragment(), "boolean") && str_eq(item.fragment(), "true") {
                Ok(String::from_str(var.fragment()))
            } else {
                let mut out = String::from_str(var.fragment());
                out.append("_${report_data.canonified_directive_id}_");
                out.append(item.fragment());
                Ok(out)
            }
        },
        EnumExpression::RangeCompare(_, _, _, _) => Err(
            Error::Unimplemented(String::from_str("range comparison in enum expression")),
        ),
        EnumExpression::Default(_) => Ok(String::from_str("any")),
        EnumExpression::NoDefault(_) => Ok(String::new()),
    }
}

/// How a conversion step failed: a lowering failure known by kind, or an
/// exactly-known structural error.
pub enum TFail {
    Kind(ErrKind),
    Exact(ErrorV),
}

/// Whether an exec error matches a conversion failure.
pub open spec fn tfail_matches(e: Error, f: TFail) -> bool {
    match f {
        TFail::Kind(k) => err_kind_of(e) == Some(k),
        TFail::Exact(ev) => e@ == ev,
    }
}

/// A parameter-list outcome together with the warnings it recorded.
pub struct ParamsRes {
    pub out: Result<Seq<ParameterV>, TFail>,
    pub warns: Seq<Seq<char>>,
}

/// A method-call-list outcome together with the warnings it recorded.
pub struct MCRes {
    pub out: Result<Seq<MethodCallV>, TFail>,
    pub warns: Seq<Seq<char>>,
}

/// The first resource definition bound to `name` from `i` on.
pub open spec fn spec_find_resource(rs: Seq<(Token, ResourceDef)>, name: Seq<char>, i: int)
    -> Option<ResourceDef>
    decreases rs.len() - i,
{
    if 0 <= i < rs.len() {
        if rs[i].0.fragment@ == name {
            Some(rs[i].1)
        } else {
            spec_find_resource(rs, name, i + 1)
        }
    } else {
        None
    }
}

/// The first state definition bound to `name` from `i` on.
pub open spec fn spec_find_state(ss: Seq<(Token, StateDef)>, name: Seq<char>, i: int) -> Option<
    StateDef,
>
    decreases ss.len() - i,
{
    if 0 <= i < ss.len() {
        if ss[i].0.fragment@ == name {
            Some(ss[i].1)
        } else {
            spec_find_state(ss, name, i + 1)
        }
    } else {
        None
    }
}

/// Finds the resource definition a state declaration invokes.
fn find_resource<'a>(ir: &'a IR, name: &str) -> (r: Option<&'a ResourceDef>)
    ensures
        match r {
            Some(d) => spec_find_resource(ir.resources@, name@, 0) == Some(*d),
            None => spec_find_resource(ir.resources@, name@, 0) is None,
        },
{
    let mut i: usize = 0;
    while i < ir.resources.len()
        invariant
            i <= ir.resources@.len(),
            spec_find_resource(ir.resources@, name@, 0) == spec_find_resource(
                ir.resources@,
                name@,
                i as int,
            ),
        decreases ir.resources@.len() - i,
    {
        if str_eq(ir.resources[i].0.fragment(), name) {
            return Some(&ir.resources[i].1);
        }
        i = i + 1;
    }
    None
}

/// Finds the state definition a state declaration invokes.
fn find_state<'a>(rdef: &'a ResourceDef, name: &str) -> (r: Option<&'a StateDef>)
    ensures
        match r {
            Some(d) => spec_find_state(rdef.states@, name@, 0) == Some(*d),
            None => spec_find_state(rdef.states@, name@, 0) is None,
        },
{
    let mut i: usize = 0;
    while i < rdef.states.len()
        invariant
            i <= rdef.states@.len(),
            spec_find_state(rdef.states@, name@, 0) == spec_find_state(
                rdef.states@,
                name@,
                i as int,
            ),
        decreases rdef.states@.len() - i,
    {
        if str_eq(rdef.states[i].0.fragment(), name) {
            return Some(&rdef.states[i].1);
        }
        i = i + 1;
    }
    None
}

/// Pairs declared parameter names with rendered argument values, from `k`
/// on.
pub open spec fn spec_zip_params(
    ir: IR,
    res: ResourceDef,
    state: StateDef,
    visible: int,
    names: Seq<crate::ir::ParameterDef>,
    values: Seq<Value>,
    k: int,
    fuel: nat,
) -> ParamsRes
    decreases values.len() - k,
{
    if 0 <= k < values.len() && k < names.len() {
        let head = spec_tech_value(ir, res, state, visible, values[k], false, fuel);
        match head.out {
            Ok(s) => {
                let rest = spec_zip_params(ir, res, state, visible, names, values, k + 1, fuel);
                match rest.out {
                    Ok(ps) => ParamsRes {
                        out: Ok(
                            seq![ParameterV { name: names[k].name.fragment@, value: s }] + ps,
                        ),
                        warns: head.warns + rest.warns,
                    },
                    Err(f) => ParamsRes { out: Err(f), warns: head.warns + rest.warns },
                }
            },
            Err(kk) => ParamsRes { out: Err(TFail::Kind(kk)), warns: head.warns },
        }
    } else {
        ParamsRes { out: Ok(Seq::empty()), warns: Seq::empty() }
    }
}

/// Renders the parameter pairs from `k` on.
fn zip_params(
    ir: &IR,
    res: &ResourceDef,
    state: &StateDef,
    visible: usize,
    names: &Vec<crate::ir::ParameterDef>,
    values: &Vec<Value>,
    k: usize,
    fuel: u64,
    warnings: &mut Vec<String>,
) -> (r: Result<Vec<Parameter>, Error>)
    requires
        visible <= state.statements@.len(),
        k <= values@.len(),
        names@.len() == values@.len(),
    ensures
        ({
            let s = spec_zip_params(
                *ir,
                *res,
                *state,
                visible as int,
                names@,
                values@,
                k as int,
                fuel as nat,
            );
            (match s.out {
                Ok(ps) => r is Ok && r->Ok_0@.map_values(|p: Parameter| p@) == ps,
                Err(f) => r is Err && tfail_matches(r->Err_0, f),
            }) && final(warnings)@.map_values(|w: String| w@) == old(warnings)@.map_values(
                |w: String| w@,
            ) + s.warns
        }),
    decreases values@.len() - k,
{
    let ghost w0 = warnings@.map_values(|w: String| w@);
    if k >= values.len() {
        let r: Vec<Parameter> = Vec::new();
        proof {
            assert(r@.map_values(|p: Parameter| p@) =~= Seq::<ParameterV>::empty());
            assert(w0 + Seq::<Seq<char>>::empty() =~= w0);
        }
        Ok(r)
    } else {
        let v = match value_to_string(ir, res, state, visible, &values[k], false, fuel, warnings)
            {
            Ok(s) => s,
            Err(e) => {
                return Err(e);
            },
        };
        let head = Parameter { name: String::from_str(names[k].name.fragment()), value: v };
        let mut rest = match zip_params(
            ir,
            res,
            state,
            visible,
            names,
            values,
            k + 1,
            fuel,
            warnings,
        ) {
            Ok(p) => p,
            Err(e) => {
                proof {
                    let s1 = spec_tech_value(
                        *ir,
                        *res,
                        *state,
                        visible as int,
                        values@[k as int],
                        false,
                        fuel as nat,
                    );
                    let s2 = spec_zip_params(
                        *ir,
                        *res,
                        *state,
                        visible as int,
                        names@,
                        values@,
                        k as int + 1,
                        fuel as nat,
                    );
                    assert(final(warnings)@.map_values(|w: String| w@) =~= w0 + (s1.warns
                        + s2.warns));
                }
                return Err(e);
            },
        };
        let ghost rest_snap = rest@;
        let mut out: Vec<Parameter> = Vec::new();
        out.push(head);
        out.append(&mut rest);
        proof {
            let s1 = spec_tech_value(
                *ir,
                *res,
                *state,
                visible as int,
                values@[k as int],
                false,
                fuel as nat,
            );
            let s2 = spec_zip_params(
                *ir,
                *res,
                *state,
                visible as int,
                names@,
                values@,
                k as int + 1,
                fuel as nat,
            );
            assert(out@.map_values(|p: Parameter| p@) =~= seq![out@[0]@] + rest_snap.map_values(
                |p: Parameter| p@,
            ));
            assert(final(warnings)@.map_values(|w: String| w@) =~= w0 + (s1.warns + s2.warns));
        }
        Ok(out)
    }
}

/// The resolved parameters of one invocation: the invoked resource and
/// state must exist in the tree with matching parameter counts, or the
/// tree's invariant is broken.
pub open spec fn spec_fetch_params(
    ir: IR,
    res: ResourceDef,
    state: StateDef,
    visible: int,
    rtok: Token,
    stok: Token,
    rparams: Seq<Value>,
    sparams: Seq<Value>,
) -> ParamsRes {
    match spec_find_resource(ir.resources@, rtok.fragment@, 0) {
        None => ParamsRes {
            out: Err(
                TFail::Exact(ErrorV::Internal("unknown resource in state declaration"@)),
            ),
            warns: Seq::empty(),
        },
        Some(rdef) => match spec_find_state(rdef.states@, stok.fragment@, 0) {
            None => ParamsRes {
                out: Err(
                    TFail::Exact(ErrorV::Internal("unknown state in state declaration"@)),
                ),
                warns: Seq::empty(),
            },
            Some(sdef) => {
                if rdef.parameters@.len() != rparams.len() || sdef.parameters@.len()
                    != sparams.len() {
                    ParamsRes {
                        out: Err(
                            TFail::Exact(
                                ErrorV::Internal(
                                    "parameter count mismatch in state declaration"@,
                                ),
                            ),
                        ),
                        warns: Seq::empty(),
                    }
                } else {
                    let fuel = spec_fuel(ir, res, state);
                    let p1 = spec_zip_params(
                        ir,
                        res,
                        state,
                        visible,
                        rdef.parameters@,
                        rparams,
                        0,
                        fuel,
                    );
                    match p1.out {
                        Ok(ps1) => {
                            let p2 = spec_zip_params(
                                ir,
                                res,
                                state,
                                visible,
                                sdef.parameters@,
                                sparams,
                                0,
                                fuel,
                            );
                            match p2.out {
                                Ok(ps2) => ParamsRes {
                                    out: Ok(ps1 + ps2),
                                    warns: p1.warns + p2.warns,
                                },
                                Err(f) => ParamsRes {
                                    out: Err(f),
                                    warns: p1.warns + p2.warns,
                                },
                            }
                        },
                        Err(f) => ParamsRes { out: Err(f), warns: p1.warns },
                    }
                }
            },
        },
    }
}

/// Pairs an invocation's arguments with the invoked state's declared
/// parameter names, resolving each value.
pub fn fetch_method_parameters(
    ir: &IR,
    res: &ResourceDef,
    state: &StateDef,
    visible: usize,
    rtok: &Token,
    stok: &Token,
    rparams: &Vec<Value>,
    sparams: &Vec<Value>,
    warnings: &mut Vec<String>,
) -> (r: Result<Vec<Parameter>, Error>)
    requires
        visible <= state.statements@.len(),
    ensures
        ({
            let s = spec_fetch_params(
                *ir,
                *res,
                *state,
                visible as int,
                *rtok,
                *stok,
                rparams@,
                sparams@,
            );
            (match s.out {
                Ok(ps) => r is Ok && r->Ok_0@.map_values(|p: Parameter| p@) == ps,
                Err(f) => r is Err && tfail_matches(r->Err_0, f),
            }) && final(warnings)@.map_values(|w: String| w@) == old(warnings)@.map_values(
                |w: String| w@,
            ) + s.warns
        }),
{
    let ghost w0 = warnings@.map_values(|w: String| w@);
    proof {
        assert(w0 + Seq::<Seq<char>>::empty() =~= w0);
    }
    let rdef = match find_resource(ir, rtok.fragment()) {
        Some(d) => d,
        None => {
            return Err(Error::Internal(String::from_str(
                "unknown resource in state declaration",
            )));
        },
    };
    let sdef = match find_state(rdef, stok.fragment()) {
        Some(d) => d,
        None => {
            return Err(Error::Internal(String::from_str(
                "unknown state in state declaration",
            )));
        },
    };
    if rdef.parameters.len() != rparams.len() || sdef.parameters.len() != sparams.len() {
        return Err(Error::Internal(String::from_str(
            "parameter count mismatch in state declaration",
        )));
    }
    let fuel = fuel_for(ir, res, state);
    let mut p1 = match zip_params(ir, res, state, visible, &rdef.parameters, rparams, 0, fuel,
        warnings) {
        Ok(p) => p,
        Err(e) => {
            return Err(e);
        },
    };
    let mut p2 = match zip_params(ir, res, state, visible, &sdef.parameters, sparams, 0, fuel,
        warnings) {
        Ok(p) => p,
        Err(e) => {
            proof {
                let fuelg = spec_fuel(*ir, *res, *state);
                let s1 = spec_zip_params(
                    *ir,
                    *res,
                    *state,
                    visible as int,
                    rdef.parameters@,
                    rparams@,
                    0,
                    fuelg,
                );
                let s2 = spec_zip_params(
                    *ir,
                    *res,
                    *state,
                    visible as int,
                    sdef.parameters@,
                    sparams@,
                    0,
                    fuelg,
                );
                assert(final(warnings)@.map_values(|w: String| w@) =~= w0 + (s1.warns
                    + s2.warns));
            }
            return Err(e);
        },
    };
    let ghost p1_snap = p1@;
    let ghost p2_snap = p2@;
    p1.append(&mut p2);
    proof {
        let fuelg = spec_fuel(*ir, *res, *state);
        let s1 = spec_zip_params(
            *ir,
            *res,
            *state,
            visible as int,
            rdef.parameters@,
            rparams@,
            0,
            fuelg,
        );
        let s2 = spec_zip_params(
            *ir,
            *res,
            *state,
            visible as int,
            sdef.parameters@,
            sparams@,
            0,
            fuelg,
        );
        assert(p1@.map_values(|p: Parameter| p@) =~= p1_snap.map_values(|p: Parameter| p@)
            + p2_snap.map_values(|p: Parameter| p@));
        assert(final(warnings)@.map_values(|w: String| w@) =~= w0 + (s1.warns + s2.warns));
    }
    Ok(p1)
}

/// The component label of a statement for the structured backend: absent,
/// a string, or a fatal shape error.
pub open spec fn spec_component_opt(metadata: Seq<(String, MetaValue)>) -> Result<
    Option<Seq<char>>,
    ErrorV,
> {
    match spec_assoc_get(metadata, "component"@) {
        None => Ok(None),
        Some(MetaValue::Str(c)) => Ok(Some(c@)),
        Some(_) => Err(ErrorV::WrongMetadataShape("component"@)),
    }
}

fn component_opt(metadata: &crate::ir::Metadata) -> (r: Result<Option<String>, Error>)
    ensures
        match spec_component_opt(metadata@) {
            Ok(None) => r is Ok && r->Ok_0 is None,
            Ok(Some(c)) => r is Ok && r->Ok_0 is Some && r->Ok_0->0@ == c,
            Err(e) => r is Err && r->Err_0@ == e,
        },
{
    match meta_get(metadata, "component") {
        None => Ok(None),
        Some(MetaValue::Str(c)) => Ok(Some(c.clone())),
        Some(_) => Err(Error::WrongMetadataShape { field: String::from_str("component") }),
    }
}

/// The method calls one statement flattens to in the structured backend,
/// under a guard condition: an invocation becomes one call with resolved
/// parameters, a case is flattened arm by arm with each arm's own guard,
/// and everything else contributes nothing.
pub open spec fn spec_stmt_mc(
    ir: IR,
    res: ResourceDef,
    state: StateDef,
    visible: int,
    stmt: Statement,
    condition: Seq<char>,
) -> MCRes
    decreases stmt, 0int, 0int,
{
    match stmt {
        Statement::ConditionVariableDefinition(s) => {
            let fetched = spec_fetch_params(
                ir,
                res,
                state,
                visible,
                s.resource,
                s.state,
                s.resource_params@,
                s.state_params@,
            );
            match fetched.out {
                Err(f) => MCRes { out: Err(f), warns: fetched.warns },
                Ok(ps) => match spec_component_opt(s.metadata@) {
                    Err(e) => MCRes { out: Err(TFail::Exact(e)), warns: fetched.warns },
                    Ok(comp) => MCRes {
                        out: Ok(
                            seq![
                                MethodCallV {
                                    method_name: s.resource.fragment@ + "_"@
                                        + s.state.fragment@,
                                    condition: condition,
                                    parameters: ps,
                                    component: comp,
                                },
                            ],
                        ),
                        warns: fetched.warns,
                    },
                },
            }
        },
        Statement::StateDeclaration(s) => {
            let base = s.resource.fragment@ + "_"@ + s.state.fragment@;
            let method_name: Seq<char> = match spec_assoc_get(s.metadata@, "method_alias"@) {
                Some(MetaValue::Str(a)) => a@,
                _ => base,
            };
            let fetched = spec_fetch_params(
                ir,
                res,
                state,
                visible,
                s.resource,
                s.state,
                s.resource_params@,
                s.state_params@,
            );
            match fetched.out {
                Err(f) => MCRes { out: Err(f), warns: fetched.warns },
                Ok(ps) => {
                    let ps2: Seq<ParameterV> = if method_name == "variable_string_escaped"@ {
                        seq![
                            ParameterV {
                                name: "variable_name"@,
                                value: spec_join(
                                    ps.map_values(|p: ParameterV| p.value),
                                    "."@,
                                ),
                            },
                        ]
                    } else {
                        ps
                    };
                    match spec_component_opt(s.metadata@) {
                        Err(e) => MCRes { out: Err(TFail::Exact(e)), warns: fetched.warns },
                        Ok(comp) => MCRes {
                            out: Ok(
                                seq![
                                    MethodCallV {
                                        method_name: method_name,
                                        condition: condition,
                                        parameters: ps2,
                                        component: comp,
                                    },
                                ],
                            ),
                            warns: fetched.warns,
                        },
                    }
                },
            }
        },
        Statement::Case(_, arms) => spec_case_arms_mc(ir, res, state, arms@, 0),
        _ => MCRes { out: Ok(Seq::empty()), warns: Seq::empty() },
    }
}

/// The method calls a case's arms flatten to, from `j` on; each arm's
/// statements are tagged with that arm's guard text.
pub open spec fn spec_case_arms_mc(
    ir: IR,
    res: ResourceDef,
    state: StateDef,
    arms: Seq<(EnumExpression, Vec<Statement>)>,
    j: int,
) -> MCRes
    decreases arms, arms.len() - j, 0int,
{
    if 0 <= j < arms.len() {
        match spec_format_expr(ir, arms[j].0) {
            TextOut::Fail(k) => MCRes { out: Err(TFail::Kind(k)), warns: Seq::empty() },
            TextOut::Done(g) => {
                let m1 = spec_stmts_mc(ir, res, state, arms[j].1@, 0, g);
                match m1.out {
                    Err(f) => MCRes { out: Err(f), warns: m1.warns },
                    Ok(calls1) => {
                        let m2 = spec_case_arms_mc(ir, res, state, arms, j + 1);
                        match m2.out {
                            Err(f) => MCRes { out: Err(f), warns: m1.warns + m2.warns },
                            Ok(calls2) => MCRes {
                                out: Ok(calls1 + calls2),
                                warns: m1.warns + m2.warns,
                            },
                        }
                    },
                }
            },
        }
    } else {
        MCRes { out: Ok(Seq::empty()), warns: Seq::empty() }
    }
}

/// The method calls a nested statement sequence flattens to, from `i` on;
/// nested statements see every top-level variable definition.
pub open spec fn spec_stmts_mc(
    ir: IR,
    res: ResourceDef,
    state: StateDef,
    stmts: Seq<Statement>,
    i: int,
    condition: Seq<char>,
) -> MCRes
    decreases stmts, stmts.len() - i, 1int,
{
    if 0 <= i < stmts.len() {
        let m1 = spec_stmt_mc(
            ir,
            res,
            state,
            state.statements@.len() as int,
            stmts[i],
            condition,
        );
        match m1.out {
            Err(f) => MCRes { out: Err(f), warns: m1.warns },
            Ok(calls1) => {
                let m2 = spec_stmts_mc(ir, res, state, stmts, i + 1, condition);
                match m2.out {
                    Err(f) => MCRes { out: Err(f), warns: m1.warns + m2.warns },
                    Ok(calls2) => MCRes { out: Ok(calls1 + calls2), warns: m1.warns + m2.warns },
                }
            },
        }
    } else {
        MCRes { out: Ok(Seq::empty()), warns: Seq::empty() }
    }
}

/// Flattens one statement into the method calls of the structured backend.
/// `visible` is how many top-level statements stand before it; nested
/// statements of a case see them all.
pub fn statement_to_method_call(
    ir: &IR,
    res: &ResourceDef,
    state: &StateDef,
    visible: usize,
    stmt: &Statement,
    condition: &str,
    warnings: &mut Vec<String>,
) -> (r: Result<Vec<MethodCall>, Error>)
    requires
        visible <= state.statements@.len(),
    ensures
        ({
            let s = spec_stmt_mc(*ir, *res, *state, visible as int, *stmt, condition@);
            (match s.out {
                Ok(calls) => r is Ok && r->Ok_0@.map_values(|m: MethodCall| m@) == calls,
                Err(f) => r is Err && tfail_matches(r->Err_0, f),
            }) && final(warnings)@.map_values(|w: String| w@) == old(warnings)@.map_values(
                |w: String| w@,
            ) + s.warns
        }),
    decreases *stmt, 0int, 0int,
{
    let ghost w0 = warnings@.map_values(|w: String| w@);
    proof {
        assert(w0 + Seq::<Seq<char>>::empty() =~= w0);
    }
    match stmt {
        Statement::ConditionVariableDefinition(s) => {
            let params = match fetch_method_parameters(
                ir,
                res,
                state,
                visible,
                &s.resource,
                &s.state,
                &s.resource_params,
                &s.state_params,
                warnings,
            ) {
                Ok(p) => p,
                Err(e) => {
                    return Err(e);
                },
            };
            let comp = match component_opt(&s.metadata) {
                Ok(c) => c,
                Err(e) => {
                    return Err(e);
                },
            };
            let mut method_name = String::from_str(s.resource.fragment());
            method_name.append("_");
            method_name.append(s.state.fragment());
            let mut out: Vec<MethodCall> = Vec::new();
            out.push(
                MethodCall {
                    method_name,
                    condition: String::from_str(condition),
                    parameters: params,
                    component: comp,
                },
            );
            proof {
                let sp = spec_stmt_mc(*ir, *res, *state, visible as int, *stmt, condition@);
                assert(out@.map_values(|m: MethodCall| m@) =~~= sp.out->Ok_0);
            }
            Ok(out)
        },
        Statement::StateDeclaration(s) => {
            let mut base = String::from_str(s.resource.fragment());
            base.append("_");
            base.append(s.state.fragment());
            let method_name: String = match meta_get(&s.metadata, "method_alias") {
                Some(MetaValue::Str(a)) => a.clone(),
                _ => base,
            };
            let params = match fetch_method_parameters(
                ir,
                res,
                state,
                visible,
                &s.resource,
                &s.state,
                &s.resource_params,
                &s.state_params,
                warnings,
            ) {
                Ok(p) => p,
                Err(e) => {
                    return Err(e);
                },
            };
            let params2: Vec<Parameter> = if str_eq(
                method_name.as_str(),
                "variable_string_escaped",
            ) {
                let mut values: Vec<String> = Vec::new();
                let mut k: usize = 0;
                while k < params.len()
                    invariant
                        k <= params@.len(),
                        values@.len() == k,
                        forall|j: int| 0 <= j < k ==> #[trigger] values@[j]@
                            == params@[j].value@,
                    decreases params@.len() - k,
                {
                    values.push(params[k].value.clone());
                    k = k + 1;
                }
                proof {
                    let all = params@.map_values(|p: Parameter| p@).map_values(
                        |p: ParameterV| p.value,
                    );
                    assert forall|j: int| 0 <= j < all.len() implies values@.map_values(
                        |v: String| v@,
                    )[j] == all[j] by {
                        assert(params@.map_values(|p: Parameter| p@)[j] == params@[j]@);
                        assert(values@[j]@ == params@[j].value@);
                    }
                    assert(values@.map_values(|v: String| v@) =~= all);
                }
                let joined = join(&values, ".");
                let mut v2: Vec<Parameter> = Vec::new();
                v2.push(Parameter { name: String::from_str("variable_name"), value: joined });
                v2
            } else {
                params
            };
            let comp = match component_opt(&s.metadata) {
                Ok(c) => c,
                Err(e) => {
                    return Err(e);
                },
            };
            let mut out: Vec<MethodCall> = Vec::new();
            out.push(
                MethodCall {
                    method_name,
                    condition: String::from_str(condition),
                    parameters: params2,
                    component: comp,
                },
            );
            proof {
                let sp = spec_stmt_mc(*ir, *res, *state, visible as int, *stmt, condition@);
                assert(out@.map_values(|m: MethodCall| m@) =~~= sp.out->Ok_0);
            }
            Ok(out)
        },
        Statement::Case(_, arms) => case_arms_to_method_calls(ir, res, state, arms, 0, warnings),
        _ => {
            let out: Vec<MethodCall> = Vec::new();
            proof {
                assert(out@.map_values(|m: MethodCall| m@) =~= Seq::<MethodCallV>::empty());
            }
            Ok(out)
        },
    }
}

/// Flattens a case's arms from `j` on.
fn case_arms_to_method_calls(
    ir: &IR,
    res: &ResourceDef,
    state: &StateDef,
    arms: &Vec<(EnumExpression, Vec<Statement>)>,
    j: usize,
    warnings: &mut Vec<String>,
) -> (r: Result<Vec<MethodCall>, Error>)
    requires
        j <= arms@.len(),
    ensures
        ({
            let s = spec_case_arms_mc(*ir, *res, *state, arms@, j as int);
            (match s.out {
                Ok(calls) => r is Ok && r->Ok_0@.map_values(|m: MethodCall| m@) == calls,
                Err(f) => r is Err && tfail_matches(r->Err_0, f),
            }) && final(warnings)@.map_values(|w: String| w@) == old(warnings)@.map_values(
                |w: String| w@,
            ) + s.warns
        }),
    decreases arms@, arms@.len() - j, 0int,
{
    let ghost w0 = warnings@.map_values(|w: String| w@);
    if j >= arms.len() {
        let out: Vec<MethodCall> = Vec::new();
        proof {
            assert(out@.map_values(|m: MethodCall| m@) =~= Seq::<MethodCallV>::empty());
            assert(w0 + Seq::<Seq<char>>::empty() =~= w0);
        }
        return Ok(out);
    }
    let g = match format_expr(ir, &arms[j].0) {
        Ok(g) => g,
        Err(e) => {
            proof {
                assert(w0 + Seq::<Seq<char>>::empty() =~= w0);
            }
            return Err(e);
        },
    };
    let mut m1 = match stmts_to_method_calls(ir, res, state, &arms[j].1, 0, &g, warnings) {
        Ok(m) => m,
        Err(e) => {
            return Err(e);
        },
    };
    let mut m2 = match case_arms_to_method_calls(ir, res, state, arms, j + 1, warnings) {
        Ok(m) => m,
        Err(e) => {
            proof {
                let s1 = spec_stmts_mc(*ir, *res, *state, arms@[j as int].1@, 0, g@);
                let s2 = spec_case_arms_mc(*ir, *res, *state, arms@, j as int + 1);
                assert(final(warnings)@.map_values(|w: String| w@) =~= w0 + (s1.warns
                    + s2.warns));
            }
            return Err(e);
        },
    };
    let ghost m1_snap = m1@;
    let ghost m2_snap = m2@;
    m1.append(&mut m2);
    proof {
        let s1 = spec_stmts_mc(*ir, *res, *state, arms@[j as int].1@, 0, g@);
        let s2 = spec_case_arms_mc(*ir, *res, *state, arms@, j as int + 1);
        assert(m1@.map_values(|m: MethodCall| m@) =~= m1_snap.map_values(|m: MethodCall| m@)
            + m2_snap.map_values(|m: MethodCall| m@));
        assert(final(warnings)@.map_values(|w: String| w@) =~= w0 + (s1.warns + s2.warns));
    }
    Ok(m1)
}

/// Flattens a nested statement sequence from `i` on.
fn stmts_to_method_calls(
    ir: &IR,
    res: &ResourceDef,
    state: &StateDef,
    stmts: &Vec<Statement>,
    i: usize,
    condition: &String,
    warnings: &mut Vec<String>,
) -> (r: Result<Vec<MethodCall>, Error>)
    requires
        i <= stmts@.len(),
    ensures
        ({
            let s = spec_stmts_mc(*ir, *res, *state, stmts@, i as int, condition@);
            (match s.out {
                Ok(calls) => r is Ok && r->Ok_0@.map_values(|m: MethodCall| m@) == calls,
                Err(f) => r is Err && tfail_matches(r->Err_0, f),
            }) && final(warnings)@.map_values(|w: String| w@) == old(warnings)@.map_values(
                |w: String| w@,
            ) + s.warns
        }),
    decreases stmts@, stmts@.len() - i, 1int,
{
    let ghost w0 = warnings@.map_values(|w: String| w@);
    if i >= stmts.len() {
        let out: Vec<MethodCall> = Vec::new();
        proof {
            assert(out@.map_values(|m: MethodCall| m@) =~= Seq::<MethodCallV>::empty());
            assert(w0 + Seq::<Seq<char>>::empty() =~= w0);
        }
        return Ok(out);
    }
    let all_visible = state.statements.len();
    let mut m1 = match statement_to_method_call(
        ir,
        res,
        state,
        all_visible,
        &stmts[i],
        condition.as_str(),
        warnings,
    ) {
        Ok(m) => m,
        Err(e) => {
            return Err(e);
        },
    };
    let mut m2 = match stmts_to_method_calls(ir, res, state, stmts, i + 1, condition, warnings)
        {
        Ok(m) => m,
        Err(e) => {
            proof {
                let s1 = spec_stmt_mc(
                    *ir,
                    *res,
                    *state,
                    state.statements@.len() as int,
                    stmts@[i as int],
                    condition@,
                );
                let s2 = spec_stmts_mc(*ir, *res, *state, stmts@, i as int + 1, condition@);
                assert(final(warnings)@.map_values(|w: String| w@) =~= w0 + (s1.warns
                    + s2.warns));
            }
            return Err(e);
        },
    };
    let ghost m1_snap = m1@;
    let ghost m2_snap = m2@;
    m1.append(&mut m2);
    proof {
        let s1 = spec_stmt_mc(
            *ir,
            *res,
            *state,
            state.statements@.len() as int,
            stmts@[i as int],
            condition@,
        );
        let s2 = spec_stmts_mc(*ir, *res, *state, stmts@, i as int + 1, condition@);
        assert(m1@.map_values(|m: MethodCall| m@) =~= m1_snap.map_values(|m: MethodCall| m@)
            + m2_snap.map_values(|m: MethodCall| m@));
        assert(final(warnings)@.map_values(|w: String| w@) =~= w0 + (s1.warns + s2.warns));
    }
    Ok(m1)
}

/// Whether a resource belongs to the standard library rather than to the
/// technique being converted.
pub open spec fn spec_is_lib(res: ResourceDef) -> bool {
    match spec_assoc_get(res.metadata@, "library"@) {
        Some(MetaValue::Str(s)) => s@ == "std"@,
        _ => false,
    }
}

/// How many non-library resources stand at or after `i`.
pub open spec fn spec_count_nonlib(rs: Seq<(Token, ResourceDef)>, i: int) -> int
    decreases rs.len() - i,
{
    if 0 <= i < rs.len() {
        (if spec_is_lib(rs[i].1) {
            0int
        } else {
            1int
        }) + spec_count_nonlib(rs, i + 1)
    } else {
        0
    }
}

/// The index of the first non-library resource at or after `i`, or the
/// length.
pub open spec fn spec_first_nonlib(rs: Seq<(Token, ResourceDef)>, i: int) -> int
    decreases rs.len() - i,
{
    if 0 <= i < rs.len() {
        if spec_is_lib(rs[i].1) {
            spec_first_nonlib(rs, i + 1)
        } else {
            i
        }
    } else {
        rs.len() as int
    }
}

fn is_lib(res: &ResourceDef) -> (r: bool)
    ensures
        r == spec_is_lib(*res),
{
    match meta_get(&res.metadata, "library") {
        Some(MetaValue::Str(s)) => str_eq(s.as_str(), "std"),
        _ => false,
    }
}

/// The interpolated parameters read from the `parameters` metadata array,
/// from `i` on: each entry must be a table with string `id`, `name` and
/// `description` fields.
pub open spec fn spec_iparams(l: Seq<MetaValue>, i: int) -> Result<
    Seq<InterpolatedParameterV>,
    ErrorV,
>
    decreases l.len() - i,
{
    if 0 <= i < l.len() {
        match l[i] {
            MetaValue::Table(t) => match spec_meta_string(t@, "id"@) {
                Err(e) => Err(e),
                Ok(id) => match spec_meta_string(t@, "name"@) {
                    Err(e) => Err(e),
                    Ok(name) => match spec_meta_string(t@, "description"@) {
                        Err(e) => Err(e),
                        Ok(description) => match spec_iparams(l, i + 1) {
                            Err(e) => Err(e),
                            Ok(rest) => Ok(
                                seq![InterpolatedParameterV { id, name, description }] + rest,
                            ),
                        },
                    },
                },
            },
            _ => Err(ErrorV::WrongMetadataShape("parameters"@)),
        }
    } else {
        Ok(Seq::empty())
    }
}

/// Reads the interpolated parameters from `i` on.
fn iparams(l: &Vec<MetaValue>, i: usize) -> (r: Result<Vec<InterpolatedParameter>, Error>)
    requires
        i <= l@.len(),
    ensures
        match spec_iparams(l@, i as int) {
            Ok(ps) => r is Ok && r->Ok_0@.map_values(|p: InterpolatedParameter| p@) == ps,
            Err(e) => r is Err && r->Err_0@ == e,
        },
    decreases l@.len() - i,
{
    if i >= l.len() {
        let r: Vec<InterpolatedParameter> = Vec::new();
        proof {
            assert(r@.map_values(|p: InterpolatedParameter| p@)
                =~= Seq::<InterpolatedParameterV>::empty());
        }
        return Ok(r);
    }
    match &l[i] {
        MetaValue::Table(t) => {
            let id = match extract_meta_string(t, "id") {
                Ok(s) => s,
                Err(e) => {
                    return Err(e);
                },
            };
            let name = match extract_meta_string(t, "name") {
                Ok(s) => s,
                Err(e) => {
                    return Err(e);
                },
            };
            let description = match extract_meta_string(t, "description") {
                Ok(s) => s,
                Err(e) => {
                    return Err(e);
                },
            };
            let mut rest = match iparams(l, i + 1) {
                Ok(p) => p,
                Err(e) => {
                    return Err(e);
                },
            };
            let ghost rest_snap = rest@;
            let mut out: Vec<InterpolatedParameter> = Vec::new();
            out.push(InterpolatedParameter { id, name, description });
            out.append(&mut rest);
            proof {
                assert(out@.map_values(|p: InterpolatedParameter| p@) =~= seq![out@[0]@]
                    + rest_snap.map_values(|p: InterpolatedParameter| p@));
            }
            Ok(out)
        },
        _ => Err(Error::WrongMetadataShape { field: String::from_str("parameters") }),
    }
}

/// The method calls of one state's top-level statements from `i` on; the
/// statement at position `i` sees the `i` definitions before it.
pub open spec fn spec_state_mc(ir: IR, res: ResourceDef, state: StateDef, i: int) -> MCRes
    decreases state.statements@.len() - i,
{
    if 0 <= i < state.statements@.len() {
        let m1 = spec_stmt_mc(ir, res, state, i, state.statements@[i], "any"@);
        match m1.out {
            Err(f) => MCRes { out: Err(f), warns: m1.warns },
            Ok(calls1) => {
                let m2 = spec_state_mc(ir, res, state, i + 1);
                match m2.out {
                    Err(f) => MCRes { out: Err(f), warns: m1.warns + m2.warns },
                    Ok(calls2) => MCRes { out: Ok(calls1 + calls2), warns: m1.warns + m2.warns },
                }
            },
        }
    } else {
        MCRes { out: Ok(Seq::empty()), warns: Seq::empty() }
    }
}

/// The method calls of a resource's states from `j` on, in state order.
pub open spec fn spec_states_mc(ir: IR, res: ResourceDef, j: int) -> MCRes
    decreases res.states@.len() - j,
{
    if 0 <= j < res.states@.len() {
        let m1 = spec_state_mc(ir, res, res.states@[j].1, 0);
        match m1.out {
            Err(f) => MCRes { out: Err(f), warns: m1.warns },
            Ok(calls1) => {
                let m2 = spec_states_mc(ir, res, j + 1);
                match m2.out {
                    Err(f) => MCRes { out: Err(f), warns: m1.warns + m2.warns },
                    Ok(calls2) => MCRes { out: Ok(calls1 + calls2), warns: m1.warns + m2.warns },
                }
            },
        }
    } else {
        MCRes { out: Ok(Seq::empty()), warns: Seq::empty() }
    }
}

/// Flattens one state's top-level statements from `i` on.
fn state_to_method_calls(
    ir: &IR,
    res: &ResourceDef,
    state: &StateDef,
    i: usize,
    warnings: &mut Vec<String>,
) -> (r: Result<Vec<MethodCall>, Error>)
    requires
        i <= state.statements@.len(),
    ensures
        ({
            let s = spec_state_mc(*ir, *res, *state, i as int);
            (match s.out {
                Ok(calls) => r is Ok && r->Ok_0@.map_values(|m: MethodCall| m@) == calls,
                Err(f) => r is Err && tfail_matches(r->Err_0, f),
            }) && final(warnings)@.map_values(|w: String| w@) == old(warnings)@.map_values(
                |w: String| w@,
            ) + s.warns
        }),
    decreases state.statements@.len() - i,
{
    let ghost w0 = warnings@.map_values(|w: String| w@);
    if i >= state.statements.len() {
        let out: Vec<MethodCall> = Vec::new();
        proof {
            assert(out@.map_values(|m: MethodCall| m@) =~= Seq::<MethodCallV>::empty());
            assert(w0 + Seq::<Seq<char>>::empty() =~= w0);
        }
        return Ok(out);
    }
    let any = String::from_str("any");
    let mut m1 = match statement_to_method_call(
        ir,
        res,
        state,
        i,
        &state.statements[i],
        any.as_str(),
        warnings,
    ) {
        Ok(m) => m,
        Err(e) => {
            return Err(e);
        },
    };
    let mut m2 = match state_to_method_calls(ir, res, state, i + 1, warnings) {
        Ok(m) => m,
        Err(e) => {
            proof {
                let s1 = spec_stmt_mc(
                    *ir,
                    *res,
                    *state,
                    i as int,
                    state.statements@[i as int],
                    "any"@,
                );
                let s2 = spec_state_mc(*ir, *res, *state, i as int + 1);
                assert(final(warnings)@.map_values(|w: String| w@) =~= w0 + (s1.warns
                    + s2.warns));
            }
            return Err(e);
        },
    };
    let ghost m1_snap = m1@;
    let ghost m2_snap = m2@;
    m1.append(&mut m2);
    proof {
        let s1 = spec_stmt_mc(*ir, *res, *state, i as int, state.statements@[i as int], "any"@);
        let s2 = spec_state_mc(*ir, *res, *state, i as int + 1);
        assert(m1@.map_values(|m: MethodCall| m@) =~= m1_snap.map_values(|m: MethodCall| m@)
            + m2_snap.map_values(|m: MethodCall| m@));
        assert(final(warnings)@.map_values(|w: String| w@) =~= w0 + (s1.warns + s2.warns));
    }
    Ok(m1)
}

/// Flattens a resource's states from `j` on.
fn states_to_method_calls(ir: &IR, res: &ResourceDef, j: usize, warnings: &mut Vec<String>) -> (r:
    Result<Vec<MethodCall>, Error>)
    requires
        j <= res.states@.len(),
    ensures
        ({
            let s = spec_states_mc(*ir, *res, j as int);
            (match s.out {
                Ok(calls) => r is Ok && r->Ok_0@.map_values(|m: MethodCall| m@) == calls,
                Err(f) => r is Err && tfail_matches(r->Err_0, f),
            }) && final(warnings)@.map_values(|w: String| w@) == old(warnings)@.map_values(
                |w: String| w@,
            ) + s.warns
        }),
    decreases res.states@.len() - j,
{
    let ghost w0 = warnings@.map_values(|w: String| w@);
    if j >= res.states.len() {
        let out: Vec<MethodCall> = Vec::new();
        proof {
            assert(out@.map_values(|m: MethodCall| m@) =~= Seq::<MethodCallV>::empty());
            assert(w0 + Seq::<Seq<char>>::empty() =~= w0);
        }
        return Ok(out);
    }
    let mut m1 = match state_to_method_calls(ir, res, &res.states[j].1, 0, warnings) {
        Ok(m) => m,
        Err(e) => {
            return Err(e);
        },
    };
    let mut m2 = match states_to_method_calls(ir, res, j + 1, warnings) {
        Ok(m) => m,
        Err(e) => {
            proof {
                let s1 = spec_state_mc(*ir, *res, res.states@[j as int].1, 0);
                let s2 = spec_states_mc(*ir, *res, j as int + 1);
                assert(final(warnings)@.map_values(|w: String| w@) =~= w0 + (s1.warns
                    + s2.warns));
            }
            return Err(e);
        },
    };
    let ghost m1_snap = m1@;
    let ghost m2_snap = m2@;
    m1.append(&mut m2);
    proof {
        let s1 = spec_state_mc(*ir, *res, res.states@[j as int].1, 0);
        let s2 = spec_states_mc(*ir, *res, j as int + 1);
        assert(m1@.map_values(|m: MethodCall| m@) =~= m1_snap.map_values(|m: MethodCall| m@)
            + m2_snap.map_values(|m: MethodCall| m@));
        assert(final(warnings)@.map_values(|w: String| w@) =~= w0 + (s1.warns + s2.warns));
    }
    Ok(m1)
}

/// A conversion outcome together with the warnings it recorded.
pub struct TechRes {
    pub out: Result<TechniqueV, TFail>,
    pub warns: Seq<Seq<char>>,
}

/// The technique document a semantic tree converts to. Exactly one
/// non-library resource must define the technique; its metadata must carry
/// the parameter array and the scalar description, name, version and
/// category fields, the version parsing as `major.minor`.
pub open spec fn spec_from_ir(ir: IR) -> TechRes {
    let rs = ir.resources@;
    let count = spec_count_nonlib(rs, 0);
    if count != 1 {
        TechRes {
            out: Err(TFail::Exact(ErrorV::TechniqueResourceCount(count))),
            warns: Seq::empty(),
        }
    } else {
        let res = rs[spec_first_nonlib(rs, 0)].1;
        match spec_assoc_get(res.metadata@, "parameters"@) {
            None => TechRes {
                out: Err(TFail::Exact(ErrorV::MissingMetadata("parameters"@))),
                warns: Seq::empty(),
            },
            Some(MetaValue::List(l)) => match spec_iparams(l@, 0) {
                Err(e) => TechRes { out: Err(TFail::Exact(e)), warns: Seq::empty() },
                Ok(ips) => {
                    let mc = spec_states_mc(ir, res, 0);
                    match mc.out {
                        Err(f) => TechRes { out: Err(f), warns: mc.warns },
                        Ok(calls) => match spec_meta_string(res.metadata@, "description"@) {
                            Err(e) => TechRes {
                                out: Err(TFail::Exact(e)),
                                warns: mc.warns,
                            },
                            Ok(description) => match spec_meta_string(res.metadata@, "name"@) {
                                Err(e) => TechRes {
                                    out: Err(TFail::Exact(e)),
                                    warns: mc.warns,
                                },
                                Ok(name) => match spec_meta_string(res.metadata@, "version"@) {
                                    Err(e) => TechRes {
                                        out: Err(TFail::Exact(e)),
                                        warns: mc.warns,
                                    },
                                    Ok(vs) => match spec_parse_version(vs) {
                                        None => TechRes {
                                            out: Err(
                                                TFail::Exact(ErrorV::InvalidVersion(vs)),
                                            ),
                                            warns: mc.warns,
                                        },
                                        Some(ver) => match spec_meta_string(
                                            res.metadata@,
                                            "category"@,
                                        ) {
                                            Err(e) => TechRes {
                                                out: Err(TFail::Exact(e)),
                                                warns: mc.warns,
                                            },
                                            Ok(category) => TechRes {
                                                out: Ok(
                                                    TechniqueV {
                                                        kind: "ncf_technique"@,
                                                        version: 2,
                                                        data: TechniqueDataV {
                                                            bundle_name: res.name@,
                                                            description,
                                                            name,
                                                            version: ver,
                                                            category,
                                                            interpolated_parameters: ips,
                                                            method_calls: calls,
                                                        },
                                                    },
                                                ),
                                                warns: mc.warns,
                                            },
                                        },
                                    },
                                },
                            },
                        },
                    }
                },
            },
            Some(_) => TechRes {
                out: Err(TFail::Exact(ErrorV::WrongMetadataShape("parameters"@))),
                warns: Seq::empty(),
            },
        }
    }
}

impl Technique {
    /// Converts one fully-resolved tree into its technique document.
    /// Resolution warnings recorded along the way are appended to
    /// `warnings`; a missing or ill-shaped required metadata field, a
    /// resource count other than one, and an unparsable version are each a
    /// distinct fatal error, and no partial document is returned.
    pub fn from_ir(ir: &IR, warnings: &mut Vec<String>) -> (r: Result<Technique, Error>)
        ensures
            ({
                let s = spec_from_ir(*ir);
                (match s.out {
                    Ok(t) => r is Ok && r->Ok_0@ == t,
                    Err(f) => r is Err && tfail_matches(r->Err_0, f),
                }) && final(warnings)@.map_values(|w: String| w@) == old(warnings)@.map_values(
                    |w: String| w@,
                ) + s.warns
            }),
    {
        let ghost w0 = warnings@.map_values(|w: String| w@);
        proof {
            assert(w0 + Seq::<Seq<char>>::empty() =~= w0);
        }
        let mut count: usize = 0;
        let mut first: usize = ir.resources.len();
        let mut i: usize = 0;
        while i < ir.resources.len()
            invariant
                i <= ir.resources@.len(),
                count <= i,
                spec_count_nonlib(ir.resources@, 0) == count + spec_count_nonlib(
                    ir.resources@,
                    i as int,
                ),
                first <= ir.resources@.len(),
                count > 0 ==> first < i,
                if first < i {
                    spec_first_nonlib(ir.resources@, 0) == first as int
                } else {
                    first == ir.resources@.len() && spec_first_nonlib(ir.resources@, 0)
                        == spec_first_nonlib(ir.resources@, i as int)
                },
            decreases ir.resources@.len() - i,
        {
            if !is_lib(&ir.resources[i].1) {
                count = count + 1;
                if first >= ir.resources.len() {
                    first = i;
                }
            }
            i = i + 1;
        }
        if count != 1 {
            return Err(Error::TechniqueResourceCount { count });
        }
        let res = &ir.resources[first].1;
        let plist = match meta_get(&res.metadata, "parameters") {
            None => {
                return Err(Error::MissingMetadata { field: String::from_str("parameters") });
            },
            Some(MetaValue::List(l)) => l,
            Some(_) => {
                return Err(
                    Error::WrongMetadataShape { field: String::from_str("parameters") },
                );
            },
        };
        let ips = match iparams(plist, 0) {
            Ok(p) => p,
            Err(e) => {
                return Err(e);
            },
        };
        let calls = match states_to_method_calls(ir, res, 0, warnings) {
            Ok(c) => c,
            Err(e) => {
                return Err(e);
            },
        };
        let description = match extract_meta_string(&res.metadata, "description") {
            Ok(s) => s,
            Err(e) => {
                return Err(e);
            },
        };
        let name = match extract_meta_string(&res.metadata, "name") {
            Ok(s) => s,
            Err(e) => {
                return Err(e);
            },
        };
        let vs = match extract_meta_string(&res.metadata, "version") {
            Ok(s) => s,
            Err(e) => {
                return Err(e);
            },
        };
        let version = match Version::from_str(vs.as_str()) {
            Ok(v) => v,
            Err(e) => {
                return Err(e);
            },
        };
        let category = match extract_meta_string(&res.metadata, "category") {
            Ok(s) => s,
            Err(e) => {
                return Err(e);
            },
        };
        let t = Technique {
            kind: String::from_str("ncf_technique"),
            version: 2,
            data: TechniqueData {
                bundle_name: res.name.clone(),
                description,
                name,
                version,
                category,
                interpolated_parameters: ips,
                method_calls: calls,
            },
        };
        proof {
            let s = spec_from_ir(*ir);
            assert(t@ =~~= s.out->Ok_0);
        }
        Ok(t)
    }
}

/// An unresolved variable reference degrades to an interpolation
/// placeholder carrying the raw variable name, plus a recorded warning;
/// it is never a hard failure.
pub proof fn lemma_unresolved_variable_placeholder(
    ir: IR,
    res: ResourceDef,
    state: StateDef,
    visible: int,
    x: Token,
    fuel: nat,
)
    requires
        spec_lookup_var(ir, res, state, visible, x.fragment@) is None,
    ensures
        spec_tech_value(ir, res, state, visible, Value::Variable(x), false, fuel) == (TRes {
            out: Ok("${"@ + x.fragment@ + "}"@),
            warns: seq![spec_warn_msg(x.fragment@)],
        }),
{
    let d = Seq::<char>::empty();
    assert(d + "${"@ + x.fragment@ + "}"@ + d =~= "${"@ + x.fragment@ + "}"@);
}

/// A state declaration whose single argument is an unresolved variable
/// reference still produces exactly one method call; its parameter value
/// is the placeholder for the variable, and the warning is recorded.
pub proof fn lemma_unresolved_variable_still_calls(
    ir: IR,
    res: ResourceDef,
    state: StateDef,
    visible: int,
    sd: crate::ir::StateDeclaration,
    x: Token,
    rdef: ResourceDef,
    sdef: StateDef,
    comp: Option<Seq<char>>,
    condition: Seq<char>,
)
    requires
        spec_find_resource(ir.resources@, sd.resource.fragment@, 0) == Some(rdef),
        spec_find_state(rdef.states@, sd.state.fragment@, 0) == Some(sdef),
        rdef.parameters@.len() == 1,
        sd.resource_params@ == seq![Value::Variable(x)],
        sdef.parameters@.len() == 0,
        sd.state_params@.len() == 0,
        spec_lookup_var(ir, res, state, visible, x.fragment@) is None,
        spec_assoc_get(sd.metadata@, "method_alias"@) is None,
        spec_component_opt(sd.metadata@) == Ok::<Option<Seq<char>>, ErrorV>(comp),
        sd.resource.fragment@ + "_"@ + sd.state.fragment@ != "variable_string_escaped"@,
    ensures
        spec_stmt_mc(
            ir,
            res,
            state,
            visible,
            Statement::StateDeclaration(sd),
            condition,
        ) == (MCRes {
            out: Ok(
                seq![
                    MethodCallV {
                        method_name: sd.resource.fragment@ + "_"@ + sd.state.fragment@,
                        condition: condition,
                        parameters: seq![
                            ParameterV {
                                name: rdef.parameters@[0].name.fragment@,
                                value: "${"@ + x.fragment@ + "}"@,
                            },
                        ],
                        component: comp,
                    },
                ],
            ),
            warns: seq![spec_warn_msg(x.fragment@)],
        }),
{
    let fuel = spec_fuel(ir, res, state);
    lemma_unresolved_variable_placeholder(ir, res, state, visible, x, fuel);
    let z1 = spec_zip_params(
        ir,
        res,
        state,
        visible,
        rdef.parameters@,
        sd.resource_params@,
        0,
        fuel,
    );
    assert(sd.resource_params@[0] == Value::Variable(x));
    let z1rest = spec_zip_params(
        ir,
        res,
        state,
        visible,
        rdef.parameters@,
        sd.resource_params@,
        1,
        fuel,
    );
    assert(z1rest.out == Ok::<Seq<ParameterV>, TFail>(Seq::empty()));
    let p0 = ParameterV {
        name: rdef.parameters@[0].name.fragment@,
        value: "${"@ + x.fragment@ + "}"@,
    };
    assert(z1.out == Ok::<Seq<ParameterV>, TFail>(seq![p0] + Seq::empty()));
    assert(seq![p0] + Seq::<ParameterV>::empty() =~= seq![p0]);
    let z2 = spec_zip_params(
        ir,
        res,
        state,
        visible,
        sdef.parameters@,
        sd.state_params@,
        0,
        fuel,
    );
    assert(z2.out == Ok::<Seq<ParameterV>, TFail>(Seq::empty()));
    let fetched = spec_fetch_params(
        ir,
        res,
        state,
        visible,
        sd.resource,
        sd.state,
        sd.resource_params@,
        sd.state_params@,
    );
    assert(seq![p0] + Seq::<ParameterV>::empty() =~= seq![p0]);
    assert(fetched.out == Ok::<Seq<ParameterV>, TFail>(seq![p0]));
    assert(seq![spec_warn_msg(x.fragment@)] + Seq::<Seq<char>>::empty() + Seq::<
        Seq<char>,
    >::empty() =~= seq![spec_warn_msg(x.fragment@)]);
    assert(fetched.warns =~= seq![spec_warn_msg(x.fragment@)]);
}

/// A metadata object missing the required parameter array makes the whole
/// conversion fail for that resource: no partial document is emitted.
pub proof fn lemma_missing_parameters_fails(ir: IR)
    requires
        spec_count_nonlib(ir.resources@, 0) == 1,
        spec_assoc_get(
            ir.resources@[spec_first_nonlib(ir.resources@, 0)].1.metadata@,
            "parameters"@,
        ) is None,
    ensures
        spec_from_ir(ir).out == Err::<TechniqueV, TFail>(
            TFail::Exact(ErrorV::MissingMetadata("parameters"@)),
        ),
{
}

} // verus!
