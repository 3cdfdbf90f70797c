//! The entry-point surface: which engine action an invocation asks for, and
//! the value that carries it into a fresh process when the run is detached.

use vstd::prelude::*;

verus! {

/// The engine actions an invocation can ask for.
#[derive(Clone, Copy, Debug, PartialEq, Eq, Structural)]
pub enum Actions {
    Run,
    Trigger,
    Watch,
}

/// The plain arguments an invocation carries: whether to stay attached, an
/// optional pipeline name, and an optional hook-flag override used in place
/// of the detected hook.
pub struct Args {
    pub attach: bool,
    pub name: Option<Vec<char>>,
    pub flag: Option<Vec<char>>,
}

/// One requested action with its arguments. A detached run re-invokes the
/// engine through a value of this shape in a fresh process; an attached run
/// performs the action in place.
pub struct Service {
    pub args: Option<Args>,
    pub cmd: Actions,
}

impl Service {
    pub fn new(cmd: Actions, args: Option<Args>) -> (r: Service)
        ensures
            r.cmd == cmd,
            r.args == args,
    {
        Service { cmd, args }
    }
}

} // verus!
