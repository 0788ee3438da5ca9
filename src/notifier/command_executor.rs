//! Delivery of notifications by running a command.

use crate::notifier::Message;
use vstd::prelude::*;

verus! {

/// The argument that stands for the notification text.
pub open spec fn message_placeholder() -> Seq<char> {
    seq!['{', 'm', 's', 'g', '}']
}

/// Runs `command` with `args` for each notification; an argument `{msg}`
/// is replaced by the text, and with `pipe` the text is also written to the
/// command's standard input.
pub struct CommandExecutor {
    command: String,
    args: Vec<String>,
    pipe: bool,
}

impl View for CommandExecutor {
    /// Command, arguments and whether the text is piped in.
    type V = (Seq<char>, Seq<Seq<char>>, bool);

    closed spec fn view(&self) -> (Seq<char>, Seq<Seq<char>>, bool) {
        (self.command@, self.args@.map_values(|a: String| a@), self.pipe)
    }
}

impl CommandExecutor {
    pub fn new(command: &str, args: Vec<String>, pipe: bool) -> (r: Self)
        ensures
            r@ == (command@, args@.map_values(|a: String| a@), pipe),
    {
        Self { command: command.to_owned(), args, pipe }
    }

    pub fn command(&self) -> (r: &String)
        ensures
            r@ == self@.0,
    {
        &self.command
    }

    pub fn pipe(&self) -> (r: bool)
        ensures
            r == self@.2,
    {
        self.pipe
    }

    /// The arguments for `message`: each `{msg}` replaced by its text, the
    /// others unchanged.
    pub fn arguments_for(&self, message: &Message) -> (r: Vec<String>)
        ensures
            r@.map_values(|a: String| a@) == self@.1.map_values(
                |a: Seq<char>|
                    if a == message_placeholder() {
                        message@
                    } else {
                        a
                    },
            ),
    {
        let placeholder: String = "{msg}".to_owned();
        proof {
            reveal_strlit("{msg}");
            assert(placeholder@ =~= message_placeholder());
        }
        let mut out: Vec<String> = Vec::new();
        let mut i: usize = 0;
        while i < self.args.len()
            invariant
                placeholder@ == message_placeholder(),
                i <= self.args.len(),
                out@.map_values(|a: String| a@) =~= self@.1.take(i as int).map_values(
                    |a: Seq<char>|
                        if a == message_placeholder() {
                            message@
                        } else {
                            a
                        },
                ),
            decreases self.args.len() - i,
        {
            let ghost before = out@;
            let arg = &self.args[i];
            if *arg == placeholder {
                out.push(message.body().clone());
            } else {
                out.push(arg.clone());
            }
            assert(self@.1.take(i + 1) =~= self@.1.take(i as int).push(arg@));
            assert(out@.map_values(|a: String| a@) =~= before.map_values(|a: String| a@).push(
                out@[i as int]@,
            ));
            i = i + 1;
        }
        assert(self@.1.take(i as int) =~= self@.1);
        out
    }
}

} // verus!
