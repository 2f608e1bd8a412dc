//! The semantic tree: resources, states, statements, enum expressions,
//! values, variables and metadata, fully resolved and immutable once built.
//! Generators only read it.
use vstd::prelude::*;
use crate::cfstrings::str_eq;

verus! {

/// A syntactic element's back-reference to its source: the originating file
/// name and the text fragment itself. Used for diagnostics and output-file
/// matching; never for code generation decisions.
#[derive(Clone, Debug)]
pub struct Token {
    pub file: String,
    pub fragment: String,
}

impl Token {
    pub fn new(file: &str, fragment: &str) -> (r: Token)
        ensures
            r.file@ == file@,
            r.fragment@ == fragment@,
    {
        Token { file: String::from_str(file), fragment: String::from_str(fragment) }
    }

    pub fn fragment(&self) -> (r: &str)
        ensures
            r@ == self.fragment@,
    {
        self.fragment.as_str()
    }

    pub fn file(&self) -> (r: &str)
        ensures
            r@ == self.file@,
    {
        self.file.as_str()
    }
}

/// One piece of an interpolated string: literal text or a variable reference.
#[derive(Clone, Debug)]
pub enum InterpolatedElement {
    Static(String),
    Variable(String),
}

/// A string value: an ordered sequence of literal and variable fragments.
#[derive(Clone, Debug)]
pub struct InterpolatedString {
    pub data: Vec<InterpolatedElement>,
}

/// The recursive boolean algebra over enum membership used in guards.
#[derive(Debug)]
pub enum EnumExpression {
    And(Box<EnumExpression>, Box<EnumExpression>),
    Or(Box<EnumExpression>, Box<EnumExpression>),
    Not(Box<EnumExpression>),
    /// True iff `variable` currently holds `item` of `enum`: (variable, enum, item).
    Compare(Token, Token, Token),
    /// Interval membership: parsed but not lowered by either backend.
    RangeCompare(Token, Token, Token, Token),
    /// True iff no sibling arm of the same case matched before this one.
    Default(Token),
    /// Matches nothing extra: the placeholder when a case has no default arm.
    NoDefault(Token),
}

/// A value of the source language.
#[derive(Debug)]
pub enum Value {
    String(InterpolatedString),
    Integer(Token, i64),
    Boolean(Token, bool),
    EnumExpression(EnumExpression),
    List(Vec<Value>),
    Struct(Vec<(String, Value)>),
    Variable(Token),
}

/// A free-form metadata value: strings, numbers, booleans, lists or tables.
#[derive(Debug)]
pub enum MetaValue {
    Str(String),
    Int(i64),
    Bool(bool),
    List(Vec<MetaValue>),
    Table(Vec<(String, MetaValue)>),
}

/// Free-form metadata: an ordered key-to-value map.
pub type Metadata = Vec<(String, MetaValue)>;

/// The first value bound to `key` in an association list, or `None`.
pub open spec fn spec_assoc_get<V>(m: Seq<(String, V)>, key: Seq<char>) -> Option<V>
    decreases m.len(),
{
    if m.len() == 0 {
        None
    } else if m[0].0@ == key {
        Some(m[0].1)
    } else {
        spec_assoc_get(m.skip(1), key)
    }
}

/// Looks `key` up in an association list; the first binding wins.
pub fn assoc_get<'a, V>(m: &'a Vec<(String, V)>, key: &str) -> (r: Option<&'a V>)
    ensures
        match r {
            Some(v) => spec_assoc_get(m@, key@) == Some(*v),
            None => spec_assoc_get(m@, key@) is None,
        },
{
    let mut i: usize = 0;
    proof {
        assert(m@.skip(0) =~= m@);
    }
    while i < m.len()
        invariant
            i <= m@.len(),
            spec_assoc_get(m@, key@) == spec_assoc_get(m@.skip(i as int), key@),
        decreases m@.len() - i,
    {
        proof {
            assert(m@.skip(i as int)[0] == m@[i as int]);
            assert(m@.skip(i as int).skip(1) =~= m@.skip(i as int + 1));
        }
        if str_eq(m[i].0.as_str(), key) {
            return Some(&m[i].1);
        }
        i = i + 1;
    }
    None
}

/// Binds `key` to `v`, shadowing any earlier binding.
pub fn assoc_bind<V>(m: &mut Vec<(String, V)>, key: &str, v: V)
    ensures
        forall|k: Seq<char>|
            #[trigger] spec_assoc_get(final(m)@, k) == if k == key@ {
                Some(v)
            } else {
                spec_assoc_get(old(m)@, k)
            },
{
    m.insert(0, (String::from_str(key), v));
    proof {
        assert(final(m)@.skip(1) =~= old(m)@);
    }
}

/// Looks `key` up in a metadata map.
pub fn meta_get<'a>(m: &'a Metadata, key: &str) -> (r: Option<&'a MetaValue>)
    ensures
        match r {
            Some(v) => spec_assoc_get(m@, key@) == Some(*v),
            None => spec_assoc_get(m@, key@) is None,
        },
{
    assoc_get(m, key)
}

/// Invoke another resource's state, with parameters and an optional outcome
/// binding; the metadata may carry a human-readable component label.
#[derive(Debug)]
pub struct StateDeclaration {
    pub metadata: Metadata,
    pub resource: Token,
    pub resource_params: Vec<Value>,
    pub state: Token,
    pub state_params: Vec<Value>,
    pub outcome: Option<String>,
}

/// Bind a variable to the outcome of invoking another resource's state.
#[derive(Debug)]
pub struct ConditionVariableDefinition {
    pub metadata: Metadata,
    pub variable: Token,
    pub resource: Token,
    pub resource_params: Vec<Value>,
    pub state: Token,
    pub state_params: Vec<Value>,
}

/// Bind a name to a resolved value.
#[derive(Debug)]
pub struct VariableDefinition {
    pub metadata: Metadata,
    pub name: Token,
    pub value: Value,
}

/// One statement of a state's body. Order within a sequence is semantically
/// significant and is preserved in generated output.
#[derive(Debug)]
pub enum Statement {
    StateDeclaration(StateDeclaration),
    /// Branch on an enum expression; each arm holds its own statement sequence.
    Case(Token, Vec<(EnumExpression, Vec<Statement>)>),
    VariableDefinition(VariableDefinition),
    ConditionVariableDefinition(ConditionVariableDefinition),
    /// Emit a diagnostic value and fail.
    Fail(Value),
    /// Emit a diagnostic value.
    Log(Value),
    /// Short-circuit the rest of the enclosing state with the named outcome.
    Return(Token),
    Noop,
}

/// A declared parameter of a resource or state.
#[derive(Clone, Debug)]
pub struct ParameterDef {
    pub name: Token,
}

/// A named behavior of a resource: a parameter list and an ordered statement
/// sequence.
#[derive(Debug)]
pub struct StateDef {
    pub parameters: Vec<ParameterDef>,
    pub statements: Vec<Statement>,
}

/// A named, parametrized template owning its states exclusively.
#[derive(Debug)]
pub struct ResourceDef {
    pub name: String,
    pub parameters: Vec<ParameterDef>,
    pub states: Vec<(Token, StateDef)>,
    pub metadata: Metadata,
    pub variable_definitions: Vec<VariableDefinition>,
}

/// The registry of enumerations: which are global, and the target runtime's
/// own name for each known item.
#[derive(Debug)]
pub struct EnumList {
    /// Enum name to whether that enum is global; an absent name is unknown.
    pub globals: Vec<(String, bool)>,
    /// Item fragment to the class name the target runtime knows it by; an
    /// absent item keeps its own fragment.
    pub item_names: Vec<(String, String)>,
}

/// The target runtime's name for `item`: the registry's translation when one
/// is recorded, the item's own fragment otherwise.
pub open spec fn spec_item_name(el: EnumList, item: Seq<char>) -> Seq<char> {
    match spec_assoc_get(el.item_names@, item) {
        Some(s) => s@,
        None => item,
    }
}

impl EnumList {
    /// Whether the named enum is a recognized global enumeration; `None`
    /// when the registry does not know it at all.
    pub fn enum_is_global(&self, e: &str) -> (r: Option<bool>)
        ensures
            r == spec_assoc_get(self.globals@, e@),
    {
        match assoc_get(&self.globals, e) {
            Some(b) => Some(*b),
            None => None,
        }
    }

    /// The target runtime's name for `item` of the enumeration bound to
    /// `var`; falls back to the item's own fragment.
    pub fn get_cfengine_item_name(&self, _var: &str, item: &str) -> (r: String)
        ensures
            r@ == spec_item_name(*self, item@),
    {
        match assoc_get(&self.item_names, item) {
            Some(s) => s.clone(),
            None => String::from_str(item),
        }
    }
}

/// The fully resolved program representation consumed by both generators.
#[derive(Debug)]
pub struct IR {
    pub enum_list: EnumList,
    pub resources: Vec<(Token, ResourceDef)>,
    /// Global variable definitions.
    pub variable_definitions: Vec<VariableDefinition>,
}

} // verus!
