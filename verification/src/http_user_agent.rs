//! How this application names itself in requests, so that logs can be matched with builds.
use crate::text::cat3;
use vstd::prelude::*;

verus! {

/// The version of this package.
pub const PKG_VERSION: &'static str = "0.1.0";

/// The product with its version, and the system and processor that it runs on.
pub open spec fn user_agent(os: Seq<char>, arch: Seq<char>) -> Seq<char> {
    "Datum Desktop/"@ + PKG_VERSION@ + " ("@ + os + "; "@ + arch + ")"@
}

pub fn datum_http_user_agent(os: &str, arch: &str) -> (r: String)
    ensures
        r@ == user_agent(os@, arch@),
{
    let product = cat3("Datum Desktop/", PKG_VERSION, " (");
    let system = cat3(product.as_str(), os, "; ");
    cat3(system.as_str(), arch, ")")
}

/// The name says the product, its version, the system and the processor.
pub proof fn law_user_agent(os: Seq<char>, arch: Seq<char>)
    ensures
        user_agent(os, arch) == "Datum Desktop/"@ + PKG_VERSION@ + " ("@ + os + "; "@ + arch + ")"@,
{
}

} // verus!
