//! Launch arguments as a package descriptor declares them: plain strings,
//! or values guarded by feature rules. Assembling a launch command is not
//! part of this core; these types only give the section a typed shape.

use vstd::prelude::*;

verus! {

/// The game and JVM argument lists of a version.
#[derive(Debug, Clone, PartialEq)]
pub struct Arguments {
    pub game: Vec<Argument>,
    pub jvm: Vec<Argument>,
}

/// One argument: either a literal, or one or more values guarded by rules.
#[derive(Debug, Clone, PartialEq)]
pub enum Argument {
    One(String),
    Rules { rules: Vec<Rule>, value: ArgValue },
}

/// The value of a rule-guarded argument.
#[derive(Debug, Clone, PartialEq)]
pub enum ArgValue {
    One(String),
    Multiple(Vec<String>),
}

/// A rule: an action (`allow`/`disallow`) and the feature flags it is
/// conditioned on.
#[derive(Debug, Clone, PartialEq)]
pub struct Rule {
    pub action: String,
    pub features: Vec<(String, bool)>,
}

} // verus!
