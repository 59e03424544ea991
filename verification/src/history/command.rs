//! One command of the history.
use vstd::prelude::*;

verus! {

/// A command that was run.
#[derive(Debug)]
pub struct Command {
    pub id: i64,
    pub cmd: String,
    pub cmd_tpl: String,
    pub session_id: String,
    pub when_run: Option<i64>,
    pub exit_code: Option<i32>,
    pub selected: bool,
    pub dir: Option<String>,
    pub match_bounds: Vec<(usize, usize)>,
}

/// What a `Command` stands for.
#[verifier::ext_equal]
pub struct CommandView {
    pub id: i64,
    pub cmd: Seq<char>,
    pub cmd_tpl: Seq<char>,
    pub session_id: Seq<char>,
    pub when_run: Option<i64>,
    pub exit_code: Option<i32>,
    pub selected: bool,
    pub dir: Option<Seq<char>>,
    pub match_bounds: Seq<(usize, usize)>,
}

impl View for Command {
    type V = CommandView;

    open spec fn view(&self) -> CommandView {
        CommandView {
            id: self.id,
            cmd: self.cmd@,
            cmd_tpl: self.cmd_tpl@,
            session_id: self.session_id@,
            when_run: self.when_run,
            exit_code: self.exit_code,
            selected: self.selected,
            dir: match self.dir {
                Some(d) => Some(d@),
                None => None,
            },
            match_bounds: self.match_bounds@,
        }
    }
}

impl Clone for Command {
    fn clone(&self) -> (command: Command)
        ensures
            command@ == self@,
    {
        let mut match_bounds: Vec<(usize, usize)> = Vec::new();
        let mut i: usize = 0;
        while i < self.match_bounds.len()
            invariant
                i <= self.match_bounds@.len(),
                match_bounds@ == self.match_bounds@.take(i as int),
            decreases self.match_bounds@.len() - i,
        {
            match_bounds.push(self.match_bounds[i]);
            i += 1;
        }
        assert(match_bounds@ =~= self.match_bounds@);
        Command {
            id: self.id,
            cmd: self.cmd.clone(),
            cmd_tpl: self.cmd_tpl.clone(),
            session_id: self.session_id.clone(),
            when_run: self.when_run,
            exit_code: self.exit_code,
            selected: self.selected,
            dir: self.dir.clone(),
            match_bounds,
        }
    }
}

impl Default for Command {
    fn default() -> (command: Command)
        ensures
            command@ == (CommandView {
                id: 0,
                cmd: Seq::empty(),
                cmd_tpl: Seq::empty(),
                session_id: Seq::empty(),
                when_run: None,
                exit_code: None,
                selected: false,
                dir: None,
                match_bounds: Seq::empty(),
            }),
    {
        Command {
            id: 0,
            cmd: String::new(),
            cmd_tpl: String::new(),
            session_id: String::new(),
            when_run: None,
            exit_code: None,
            selected: false,
            dir: None,
            match_bounds: Vec::new(),
        }
    }
}

impl Command {
    /// The text of the command, as it is shown.
    pub fn to_string(&self) -> (text: String)
        ensures
            text@ == self.cmd@,
    {
        self.cmd.clone()
    }
}

impl From<Command> for String {
    fn from(command: Command) -> (text: String) {
        command.cmd
    }
}

impl vstd::std_specs::convert::FromSpecImpl<Command> for String {
    open spec fn obeys_from_spec() -> bool {
        true
    }

    open spec fn from_spec(command: Command) -> String {
        command.cmd
    }
}

/// A command is shown, and turned into a text, as the text that was entered, and a copy of
/// it has the same values.
pub proof fn law_a_command_is_its_text(command: &Command, shown: String, copy: Command)
    requires
        call_ensures(Command::to_string, (command,), shown),
        call_ensures(Command::clone, (command,), copy),
    ensures
        shown@ == command.cmd@,
        <String as vstd::std_specs::convert::FromSpec<Command>>::from_spec(*command)@
            == command.cmd@,
        copy.id == command.id,
        copy.cmd@ == command.cmd@,
        copy.cmd_tpl@ == command.cmd_tpl@,
        copy.session_id@ == command.session_id@,
        copy.when_run == command.when_run,
        copy.exit_code == command.exit_code,
        copy.selected == command.selected,
        copy@.dir == command@.dir,
        copy.match_bounds@ == command.match_bounds@,
{
    assert(copy@.id == command@.id);
}

/// A command stands for its own values.
pub proof fn law_commands_stand_for_their_values(command: Command)
    ensures
        command@.id == command.id,
        command@.cmd == command.cmd@,
        command@.cmd_tpl == command.cmd_tpl@,
        command@.session_id == command.session_id@,
        command@.when_run == command.when_run,
        command@.exit_code == command.exit_code,
        command@.selected == command.selected,
        command@.dir is Some <==> command.dir is Some,
        command.dir is Some ==> command@.dir->0 == command.dir->0@,
        command@.match_bounds == command.match_bounds@,
{
}

/// A command of which nothing is known has no text, no time, no exit code and no
/// directory, was not selected and matches nowhere.
pub proof fn law_an_unknown_command_is_empty(command: Command)
    requires
        call_ensures(Command::default, (), command),
    ensures
        command.id == 0,
        command.cmd@.len() == 0,
        command.cmd_tpl@.len() == 0,
        command.session_id@.len() == 0,
        command.when_run is None,
        command.exit_code is None,
        !command.selected,
        command.dir is None,
        command.match_bounds@.len() == 0,
{
    assert(command@.dir is None && command@.cmd.len() == 0);
}

} // verus!
