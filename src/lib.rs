use vstd::prelude::*;

pub mod history;
pub mod layout;
pub mod adaptation;
pub mod symbolic;

verus! {

} // verus!
