//! A catalog of short troubleshooting suggestions, served by stable index or at random.
use vstd::prelude::*;

pub mod decimal;
pub mod render;
pub mod share;
pub mod twelve;
pub mod view;

verus! {

#[verifier::external_type_specification]
#[verifier::external_body]
pub struct ExYamlError(serde_yaml::Error);

#[verifier::external_type_specification]
#[verifier::external_body]
pub struct ExFormEncodeError(serde_urlencoded::ser::Error);

#[verifier::external_type_specification]
#[verifier::external_body]
pub struct ExFormDecodeError(serde::de::value::Error);

} // verus!
