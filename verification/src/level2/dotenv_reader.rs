use vstd::prelude::*;

use crate::level0::L0Core;

verus! {

/// Where the `.env` file of the crate is, relative to the crate's root.
pub struct Input {
    pub dotenv_path: String,
}

impl Default for Input {
    fn default() -> (r: Input)
        ensures
            r.dotenv_path@.len() == 0,
    {
        Input { dotenv_path: String::new() }
    }
}

/// The location of the `.env` file that the deployment reads its variables from.
pub fn config(myinp: &mut Input, l0core: &mut L0Core) -> (r: String)
    ensures
        *final(myinp) == *old(myinp),
        *final(l0core) == *old(l0core),
        r@ == old(myinp).dotenv_path@,
{
    myinp.dotenv_path.clone()
}

} // verus!
