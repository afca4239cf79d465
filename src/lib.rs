//! Server-side state for SQL calls that arrive one at a time, each naming its
//! database by a string and its transaction by an integer handle: the registry
//! of open pools and pending migrations, the slot table of open transactions,
//! and the codec between loosely typed values and statement parameters and
//! result rows.
use vstd::prelude::*;

pub mod codec;
pub mod error;
pub mod names;
pub mod registry;
pub mod slots;
pub mod url;

verus! {

} // verus!
