//! Names of the files that belong to a package.

use vstd::prelude::*;
use vstd::string::*;
use crate::utils::context::PackageContext;

verus! {

/// The name of the container file of a package: name, a hyphen, version,
/// and the extension `.scrate`.
pub fn pack_name(pack: &PackageContext) -> (r: String)
    ensures
        r@ == pack.pack_info@.name + "-"@ + pack.pack_info@.version + ".scrate"@,
{
    let mut out = pack.pack_info.name.clone();
    out.append("-");
    out.append(pack.pack_info.version.as_str());
    out.append(".scrate");
    out
}

} // verus!
