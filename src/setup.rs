use vstd::prelude::*;

verus! {

/// The reply given to a command in a community that has no settings yet.
pub const GUILD_NOT_SET_UP: &'static str = "This server hasn't been set up yet; use `/setup` to set up this server.";

/// Whether a community has been set up, from the number of settings rows
/// stored for it.
pub fn guild_is_set_up(settings_rows: i64) -> (r: bool)
    ensures
        r == (settings_rows > 0),
{
    settings_rows > 0
}

/// Errors of commands whose input names the wrong community.
#[derive(Clone, Copy, Debug, PartialEq, Eq, Structural)]
pub enum CommandErrorValue {
    BadGuild,
    WrongGuild,
}

impl CommandErrorValue {
    /// The text that describes the error.
    pub fn message(&self) -> (r: &'static str)
        ensures
            r@ == match self {
                CommandErrorValue::BadGuild => "expected guild in command data"@,
                CommandErrorValue::WrongGuild => "value was for the wrong guild"@,
            },
    {
        match self {
            CommandErrorValue::BadGuild => "expected guild in command data",
            CommandErrorValue::WrongGuild => "value was for the wrong guild",
        }
    }
}

} // verus!
