//! Declaration of the outside dynamic JSON value type, so that fields and
//! signatures can carry one. The library never looks inside such a value:
//! wire objects whose shape matters are decoded into typed records instead.

use vstd::prelude::*;

verus! {

/// serde_json's dynamic JSON value, opaque to every contract here.
#[verifier::external_type_specification]
#[verifier::external_body]
pub struct ExJsonValue(serde_json::Value);

} // verus!
