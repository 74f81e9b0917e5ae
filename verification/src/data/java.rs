//! The Java runtime requirement a package descriptor declares.

use vstd::prelude::*;

verus! {

/// The Java runtime a version wants: a named component and its major
/// version number.
#[derive(Debug, PartialEq)]
pub struct JavaVersion {
    pub component: String,
    pub major_version: i32,
}

impl Clone for JavaVersion {
    fn clone(&self) -> (r: Self)
        ensures
            r == *self,
    {
        JavaVersion { component: self.component.clone(), major_version: self.major_version }
    }
}

} // verus!
