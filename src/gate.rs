//! The write gate: writes are refused in the restricted environment.

use crate::engine::Command;
use crate::error::StoreError;
use crate::text::same_text;
use vstd::prelude::*;

verus! {

/// The environment name in which writes are refused.
pub open spec fn restricted_name() -> Seq<char> {
    seq!['p', 'r', 'o', 'd', 'u', 'c', 't', 'i', 'o', 'n']
}

/// Whether an environment name is the restricted one.
pub fn is_restricted(environment: &str) -> (r: bool)
    ensures
        r == (environment@ == restricted_name()),
{
    proof {
        reveal_strlit("production");
        assert("production"@ =~= restricted_name());
    }
    same_text(environment, "production")
}

/// Refuses a write in the restricted environment.
pub fn check_permission(environment: &str) -> (r: Result<(), StoreError>)
    ensures
        r is Err <==> environment@ == restricted_name(),
        r matches Err(e) ==> e is Permission,
{
    if is_restricted(environment) {
        Err(StoreError::Permission("update not allowed in production environment!".to_string()))
    } else {
        Ok(())
    }
}

/// Lets a write command through, or refuses it before it reaches the engine:
/// in the restricted environment no command comes out, so the store is left
/// as it was; elsewhere the command comes out unchanged.
pub fn gate_write(environment: &str, cmd: Command) -> (r: Result<Command, StoreError>)
    ensures
        environment@ == restricted_name() ==> (r matches Err(e) && e is Permission),
        environment@ != restricted_name() ==> r == Ok::<Command, StoreError>(cmd),
{
    match check_permission(environment) {
        Err(e) => Err(e),
        Ok(()) => Ok(cmd),
    }
}

} // verus!
