//! Compiler core for a configuration-management language: the semantic tree,
//! the enum-expression guard algebra, a textual bundle generator and a
//! structured technique generator, together with the data model of the
//! surrounding relay service.
use vstd::prelude::*;

pub mod algebra;
pub mod cfengine;
pub mod cfstrings;
pub mod config;
pub mod error;
pub mod ir;
pub mod logger;
pub mod remote_run;
pub mod technique;

verus! {

/// The action a compiler invocation performs.
#[derive(Clone, Copy, PartialEq, Eq, Structural, Debug)]
pub enum Action {
    ReadTechnique,
    GenerateTechnique,
    Migrate,
    Compile,
}

impl Action {
    /// Short label, as shown in progress messages.
    pub fn label(&self) -> (r: &'static str)
        ensures
            r@ == self.spec_label(),
    {
        match self {
            Action::ReadTechnique => "read technique",
            Action::GenerateTechnique => "generate technique",
            Action::Migrate => "migrate",
            Action::Compile => "compile",
        }
    }

    /// The label used by the diagnostic output.
    pub fn description(&self) -> (r: &'static str)
        ensures
            r@ == self.spec_description(),
    {
        match self {
            Action::ReadTechnique => "Technique reading",
            Action::GenerateTechnique => "Technique generation",
            Action::Migrate => "Migration",
            Action::Compile => "Compilation",
        }
    }

    pub open spec fn spec_label(self) -> Seq<char> {
        match self {
            Action::ReadTechnique => "read technique"@,
            Action::GenerateTechnique => "generate technique"@,
            Action::Migrate => "migrate"@,
            Action::Compile => "compile"@,
        }
    }

    pub open spec fn spec_description(self) -> Seq<char> {
        match self {
            Action::ReadTechnique => "Technique reading"@,
            Action::GenerateTechnique => "Technique generation"@,
            Action::Migrate => "Migration"@,
            Action::Compile => "Compilation"@,
        }
    }
}

} // verus!
