use vstd::prelude::*;

use crate::level0::{meta_view, L0Core, L0RuntimeCreator, RuntimeMeta};
use crate::text::{concat3, to_string};

verus! {

/// The text that a runtime prints.
pub struct Input {
    pub echo: String,
}

impl Default for Input {
    fn default() -> (r: Input)
        ensures
            r.echo@.len() == 0,
    {
        Input { echo: String::new() }
    }
}

/// The line of the entry point that prints the text as it is, in a raw string.
pub open spec fn echo_line(text: Seq<char>) -> Seq<char> {
    "println!(r#\""@ + text + "\"#)"@
}

/// Adds to the runtime named after the user's module a line that prints the text; a new
/// runtime is compiled with the default command, target and profile.
pub fn config(self_input: &mut Input, l0core: &mut L0Core, runtimer: &mut L0RuntimeCreator)
    requires
        old(runtimer).wf(),
    ensures
        *final(self_input) == *old(self_input),
        *final(l0core) == *old(l0core),
        final(runtimer).wf(),
        final(runtimer).current_module_name@ == old(runtimer).current_module_name@,
        ({
            let name = old(l0core).lvl3_module_name@;
            let line = echo_line(old(self_input).echo@);
            final(runtimer).runtimes_map() == old(runtimer).runtimes_map().insert(
                name,
                if old(runtimer).runtimes_map().dom().contains(name) {
                    (
                        old(runtimer).runtimes_map()[name].0.push(
                            (old(runtimer).current_module_name@, line, false),
                        ),
                        old(runtimer).runtimes_map()[name].1,
                    )
                } else {
                    (
                        seq![(old(runtimer).current_module_name@, line, false)],
                        (Seq::<char>::empty(), Seq::<char>::empty(), Seq::<char>::empty()),
                    )
                },
            )
        }),
{
    let meta = RuntimeMeta { cargo_cmd: String::new(), target: String::new(), profile: String::new() };
    let code = concat3("println!(r#\"", self_input.echo.as_str(), "\"#)");
    let name = l0core.users_module_name();
    runtimer.add_to_runtime_ex(name.as_str(), code, meta);
}

} // verus!
