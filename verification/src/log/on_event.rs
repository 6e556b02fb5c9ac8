//! Interfaces of event consumers.

use vstd::prelude::*;

verus! {

/// Consumer of the events of FTP downloads (none are defined yet).
pub trait OnEventFTP {}

} // verus!
