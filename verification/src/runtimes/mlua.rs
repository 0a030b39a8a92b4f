//! What a Lua engine is started with.

use vstd::prelude::*;

verus! {

/// What a Lua engine is started with.
pub struct LuaInit {
    config: String,
}

impl LuaInit {
    /// The source of the script.
    pub closed spec fn spec_config(&self) -> Seq<char> {
        self.config@
    }

    pub fn new(config: String) -> (init: Self)
        ensures
            init.spec_config() == config@,
    {
        LuaInit { config }
    }

    /// The source of the script.
    pub fn config(&self) -> (config: &str)
        ensures
            config@ == self.spec_config(),
    {
        self.config.as_str()
    }
}

} // verus!
