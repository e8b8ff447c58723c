//! The rights over a context that one member can grant to another.

use vstd::prelude::*;

verus! {

/// A right over a context.
#[derive(Debug, Clone, Copy, PartialEq, Eq, Structural)]
pub enum Capability {
    /// To install and update the context's application.
    ManageApplication,
    /// To invite and remove members.
    ManageMembers,
    /// To act through the context's proxy.
    Proxy,
}

} // verus!
