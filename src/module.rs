use vstd::prelude::*;
use crate::table::TextMap;

verus! {

/// A nested project declared with `@Module`: it lives under `modules/<module_name>`, is
/// built on its own, and then the files it provides are copied into the parent tree.
pub struct Module {
    /// The module's name, which is also its directory under `modules/`.
    pub module_name: String,
    /// Paths in the parent project mapped to the paths within the module to copy from.
    pub files: TextMap,
}

} // verus!
