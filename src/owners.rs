use vstd::prelude::*;

use crate::principal::Principal;

verus! {

/// The holders of one token class: serial `s` is held by entry `s - 1`.
#[derive(Clone, Debug)]
pub struct Owners(pub Vec<Principal>);

impl Owners {
    /// The number of minted serials.
    pub fn total(&self) -> (r: usize)
        ensures
            r == self.0@.len(),
    {
        self.0.len()
    }

    /// The holder of serial `sid`.
    pub fn get(&self, sid: u32) -> (r: Option<&Principal>)
        ensures
            r is Some <==> 1 <= sid <= self.0@.len(),
            r matches Some(p) ==> *p == self.0@[sid - 1],
    {
        if sid >= 1 && (sid as usize) <= self.0.len() {
            Some(&self.0[(sid - 1) as usize])
        } else {
            None
        }
    }

    /// Whether `account` holds serial `sid`.
    pub fn is_holder(&self, sid: u32, account: &Principal) -> (r: bool)
        ensures
            r == (1 <= sid <= self.0@.len() && self.0@[sid - 1]@ == account@),
    {
        match self.get(sid) {
            Some(p) => p.same(account),
            None => false,
        }
    }

    /// Adds a serial held by `account`.
    pub fn append(&mut self, account: Principal)
        ensures
            final(self).0@ == old(self).0@.push(account),
    {
        self.0.push(account);
    }

    /// Hands serial `sid` to `to`.
    pub fn set_holder(&mut self, sid: u32, to: Principal)
        requires
            1 <= sid <= old(self).0@.len(),
        ensures
            final(self).0@ == old(self).0@.update(sid - 1, to),
    {
        self.0.set((sid - 1) as usize, to);
    }
}

} // verus!
