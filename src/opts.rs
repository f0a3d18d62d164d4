use vstd::prelude::*;
use vstd::string::*;

use crate::generator::WasmtimeJava;

verus! {

/// Options of a generation pass.
pub struct Opts {
    /// Package of the generated Java classes.
    pub package: String,
}

impl Default for Opts {
    fn default() -> (r: Self)
        ensures
            r.package@ == "bindings"@,
    {
        Opts { package: String::from_str("bindings") }
    }
}

impl Opts {
    /// A generator with these options.
    pub fn build(self) -> (r: WasmtimeJava)
        ensures
            r.wf(),
            r@.package == self.package@,
            r@.modules.len() == 0,
            r@.deps.len() == 0,
    {
        WasmtimeJava::opts(self)
    }
}

} // verus!
