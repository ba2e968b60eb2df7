//! Startup configuration: the address and port the listener binds.
use vstd::prelude::*;

use crate::response::{spec_decimal, usize_to_string};
use vstd::string::StringExecFns;

verus! {

/// The listen address and port.
pub struct Args {
    pub listen: String,
    pub port: usize,
}

impl Args {
    /// The `address:port` form handed to the listener.
    pub fn to_string(&self) -> (r: String)
        ensures
            r@ == self.listen@ + seq![':'] + spec_decimal(self.port as int),
    {
        let mut r = self.listen.clone();
        r.append(":");
        let p = usize_to_string(self.port);
        r.append(p.as_str());
        proof {
            reveal_strlit(":");
            assert(":"@ =~= seq![':']);
            assert(r@ =~= self.listen@ + seq![':'] + spec_decimal(self.port as int));
        }
        r
    }
}

} // verus!
