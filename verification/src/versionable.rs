use vstd::prelude::*;

verus! {

/// A struct is versionable when the first thing it holds is a 16-bit schema
/// version, stamped with the type's current version whenever one is built.
pub trait Versionable {
    /// The schema version that this build gives to new values of the type.
    const CURRENT_VERSION: u16;

    /// The version tag that leads the value.
    spec fn tag(&self) -> u16;

    /// Reads the leading version tag.
    fn leading_tag(&self) -> (v: u16)
        ensures
            v == self.tag(),
    ;
}

/// Reads the version tag of any versionable value, whatever its type.
pub fn version<T: Versionable>(s: &T) -> (v: u16)
    ensures
        v == s.tag(),
{
    s.leading_tag()
}

} // verus!
