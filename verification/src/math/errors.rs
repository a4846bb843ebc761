//! The error of a reference to a name that is not bound.
use vstd::prelude::*;
use vstd::string::*;

verus! {

/// A name was used that the scope does not bind.
#[derive(Debug, PartialEq, Eq)]
pub struct DefinitionNotFound {
    pub var_name: String,
}

impl DefinitionNotFound {
    /// The error for the name `name`.
    pub fn new(name: &str) -> (e: DefinitionNotFound)
        ensures
            e.var_name@ == name@,
    {
        DefinitionNotFound { var_name: name.to_owned() }
    }

    /// The message of this error.
    pub fn message(&self) -> (r: String)
        ensures
            r@ == "Variable "@ + self.var_name@ + " not defined"@,
    {
        let mut r: String = "Variable ".to_owned();
        r.append(self.var_name.as_str());
        r.append(" not defined");
        r
    }
}

} // verus!
