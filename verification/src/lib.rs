//! Verified engine for managing a hosts file through a local control API:
//! parsing its line-oriented records, validating addresses and names,
//! paginating reads, atomically rewriting with a single-slot backup,
//! reversibly disabling/enabling the file, and a token manager that
//! gates every sensitive operation.

pub mod auth;
pub mod catalog;
pub mod files;
pub mod hosts;
pub mod logs;
pub mod net;
pub mod page;
pub mod query;
pub mod record;
pub mod response;
pub mod text;

use vstd::prelude::*;

verus! {

/// Ceiling division over naturals: the number of pages needed to hold
/// `total` items at `page_size` items per page.
pub open spec fn ceil_div(total: nat, page_size: nat) -> nat
    recommends
        page_size > 0,
{
    ((total + page_size - 1) / page_size as int) as nat
}

} // verus!
