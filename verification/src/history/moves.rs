//! Noticing that a command has moved a directory.
//!
//! A successful `mv` with two plain arguments may have renamed a directory, or moved it
//! into another. Which of the two, and whether it was a directory at all, is seen by
//! looking at the file system, one path at a time: `MoveState` says what to look at next,
//! and what to update in the end.
use super::History;
use crate::text::{
    ascii_lowercase_text, contains_char, lowercase, occurs_at, starts_with, to_lowercase,
};
use vstd::prelude::*;
use vstd::utf8::is_ascii_chars;

verus! {

/// Whether a command has moved one thing: it succeeded, it is an `mv` in letters of
/// either case, and it holds no pattern. `lower` is the command in lower case.
pub open spec fn moves_one(lower: Seq<char>, command: Seq<char>, exit_code: Option<i32>) -> bool {
    &&& exit_code is None || exit_code == Some(0i32)
    &&& "mv "@.is_prefix_of(lower)
    &&& !command.contains('*')
    &&& !command.contains('?')
}

/// How the components of a path are read: as on Unix, as on Windows, or as on Windows
/// behind a verbatim prefix.
pub enum Reading {
    Unix,
    Windows,
    Verbatim,
}

/// Whether a character separates components.
pub open spec fn separates(c: char, reading: Reading) -> bool {
    match reading {
        Reading::Unix => c == '/',
        Reading::Windows => c == '/' || c == '\\',
        Reading::Verbatim => c == '\\',
    }
}

/// Whether a path begins with a drive, where there are drives.
pub open spec fn drive(path: Seq<char>) -> bool {
    path.len() >= 2 && ('a' <= path[0] <= 'z' || 'A' <= path[0] <= 'Z') && path[1] == ':'
}

/// Whether a path begins with two separators, so that it can name a server or a device.
pub open spec fn prefixed(path: Seq<char>) -> bool {
    path.len() >= 2 && separates(path[0], Reading::Windows) && separates(
        path[1],
        Reading::Windows,
    )
}

/// Whether a path begins with two separators, a character and one more separator.
pub open spec fn marked(path: Seq<char>, mark: char) -> bool {
    prefixed(path) && path.len() >= 4 && path[2] == mark && separates(path[3], Reading::Windows)
}

/// Whether a path begins with `\\?\`, so that Windows takes what follows as it is written.
pub open spec fn verbatim(path: Seq<char>) -> bool {
    path.len() >= 4 && path.take(4) == seq!['\\', '\\', '?', '\\']
}

/// Whether a path begins almost like a verbatim one, with a `/` for a `\` in its prefix.
pub open spec fn nearly_verbatim(path: Seq<char>) -> bool {
    ||| marked(path, '?') && !verbatim(path)
    ||| verbatim(path) && path.len() >= 8 && path.subrange(4, 8) == seq!['U', 'N', 'C', '/']
}

/// Where the component that begins at `from` ends.
pub open spec fn component_end(path: Seq<char>, from: int, reading: Reading) -> int
    decreases path.len() - from,
{
    if from < 0 || from >= path.len() || separates(path[from], reading) {
        from
    } else {
        component_end(path, from + 1, reading)
    }
}

/// Where a server that begins at `from`, and the share behind it, end.
pub open spec fn share_end(path: Seq<char>, from: int, reading: Reading) -> int {
    let server = component_end(path, from, reading);
    let share = component_end(path, server + 1, reading);
    if server + 1 < share {
        share
    } else {
        server
    }
}

/// How many characters the prefix of a verbatim path has: up to the end of a server and a
/// share behind `UNC`, of a drive, or of the first component.
pub open spec fn verbatim_front(path: Seq<char>) -> int {
    if path.len() >= 8 && path.subrange(4, 8) == seq!['U', 'N', 'C', '\\'] {
        share_end(path, 8, Reading::Verbatim)
    } else if drive(path.skip(4)) && (path.len() == 6 || separates(path[6], Reading::Windows)) {
        6
    } else {
        component_end(path, 4, Reading::Verbatim)
    }
}

/// How many characters stand before the components of a path on Windows: those of a
/// drive, of a server and a share, of a device, or of a verbatim prefix. `None` for a path
/// that is nearly verbatim.
pub open spec fn front(path: Seq<char>) -> Option<int> {
    if nearly_verbatim(path) {
        None
    } else if verbatim(path) {
        Some(verbatim_front(path))
    } else if marked(path, '.') {
        Some(component_end(path, 4, Reading::Windows))
    } else if prefixed(path) {
        let server = component_end(path, 2, Reading::Windows);
        let share = share_end(path, 2, Reading::Windows);
        // Without a server and a share these are ordinary components.
        Some(
            if 2 < server < share {
                share
            } else {
                0
            },
        )
    } else if drive(path) {
        Some(2)
    } else {
        Some(0)
    }
}

/// What follows the prefix of a verbatim path, without the separator of the root.
pub open spec fn verbatim_body(path: Seq<char>) -> Seq<char> {
    let rest = path.skip(verbatim_front(path));
    if rest.len() > 0 && separates(rest[0], Reading::Windows) {
        rest.skip(1)
    } else {
        rest
    }
}

/// A path that Unix and Windows read alike: `/` alone separates its components, and
/// nothing stands before them.
pub open spec fn plain_path(path: Seq<char>) -> bool {
    &&& !path.contains('\\')
    &&& !(path.len() >= 2 && path[1] == ':')
    &&& !(path.len() >= 2 && path[0] == '/' && path[1] == '/')
}

/// A name that Unix and Windows both take for one component.
pub open spec fn plain_name(name: Seq<char>) -> bool {
    &&& name.len() > 0
    &&& !name.contains('/')
    &&& !name.contains('\\')
    &&& !(name.len() >= 2 && name[1] == ':')
}

/// What stands after the last separator of a path.
pub open spec fn last_segment(path: Seq<char>, reading: Reading) -> Seq<char>
    decreases path.len(),
{
    if path.len() == 0 || separates(path.last(), reading) {
        Seq::empty()
    } else {
        last_segment(path.drop_last(), reading).push(path.last())
    }
}

/// The name of the last component of a path. Separators at the end do not count, nor does
/// a component `.`, unless the path is verbatim; then a path that ends in `.` has no name.
/// A path that ends in `..` never has one.
pub open spec fn final_name(path: Seq<char>, reading: Reading) -> Option<Seq<char>>
    decreases path.len(),
{
    if path.len() == 0 {
        None
    } else if separates(path.last(), reading) {
        final_name(path.drop_last(), reading)
    } else if last_segment(path, reading) == seq!['.'] {
        if reading is Verbatim {
            None
        } else {
            final_name(path.drop_last(), reading)
        }
    } else if last_segment(path, reading) == seq!['.', '.'] {
        None
    } else {
        Some(last_segment(path, reading))
    }
}

/// Whether `name` stands behind a separator of `path`, with nothing but separators and
/// dots after it.
pub open spec fn ends_in(path: Seq<char>, name: Seq<char>) -> bool {
    exists|i: int|
        {
            &&& #[trigger] occurs_at(name, path, i)
            &&& i > 0 && separates(path[i - 1], Reading::Windows)
            &&& forall|j: int|
                i + name.len() <= j < path.len() ==> separates(
                    #[trigger] path[j],
                    Reading::Windows,
                ) || path[j] == '.'
        }
}

/// Whether Windows takes `name` for the name of a path: that of the last component of what
/// follows its prefix. In a path that is nearly verbatim the name may be missing, or else
/// ends the path.
pub open spec fn named_on_windows(path: Seq<char>, name: Option<Seq<char>>) -> bool {
    match front(path) {
        Some(n) => if verbatim(path) {
            name == final_name(verbatim_body(path), Reading::Verbatim)
        } else {
            name == final_name(path.skip(n), Reading::Windows)
        },
        None => name matches Some(n) ==> n.len() > 0 && !n.contains('\\') && ends_in(path, n),
    }
}

/// Whether Unix or Windows takes `name` for the name of a path.
pub open spec fn named(path: Seq<char>, name: Option<Seq<char>>) -> bool {
    name == final_name(path, Reading::Unix) || named_on_windows(path, name)
}

/// Whether a name is one component of a path, and neither `.` nor `..`.
pub open spec fn one_component(name: Seq<char>) -> bool {
    &&& name.len() > 0
    &&& !name.contains('/')
    &&& !name.contains('\\')
    &&& name != seq!['.']
    &&& name != seq!['.', '.']
}

/// Whether Unix makes `path` of `base` and `name`. A name that begins at the root takes the
/// place of the base.
pub open spec fn joined_on_unix(base: Seq<char>, name: Seq<char>, path: Seq<char>) -> bool {
    if name.len() > 0 && name[0] == '/' {
        path == name
    } else if base.len() == 0 || base.last() == '/' {
        path == base + name
    } else {
        path == base + seq!['/'] + name
    }
}

/// Whether the separators of a verbatim path are those that Windows would write: a single
/// `\` between components.
pub open spec fn tidy(path: Seq<char>) -> bool {
    let rest = path.skip(verbatim_front(path));
    &&& rest.len() > 0 ==> rest[0] != '/'
    &&& forall|i: int| 0 <= i < rest.len() - 1 ==> !(#[trigger] rest[i] == '\\' && rest[i + 1] == '\\')
}

/// Whether Windows makes `path` of a verbatim `base` and a name of one component. The base
/// is tidied up; its prefix stays as it is.
pub open spec fn joined_verbatim(base: Seq<char>, name: Seq<char>, path: Seq<char>) -> bool {
    let rest = base.skip(verbatim_front(base));
    if !tidy(base) {
        base.take(verbatim_front(base)).is_prefix_of(path) && (seq!['\\'] + name).is_suffix_of(path)
    } else if rest.len() > 0 && rest.last() == '\\' {
        path == base + name
    } else {
        path == base + seq!['\\'] + name
    }
}

/// Whether Windows makes `path` of `base` and `name`. A name with a prefix takes the place
/// of the base; one that begins at the root takes the place of all but the prefix of the
/// base. Of a base that is verbatim, or nearly so, this speaks of names of one component
/// only; of a name that is nearly verbatim it is said that it comes last.
pub open spec fn joined_on_windows(base: Seq<char>, name: Seq<char>, path: Seq<char>) -> bool {
    match (front(name), front(base)) {
        (Some(n), Some(b)) => if n > 0 {
            path == name
        } else if verbatim(base) {
            one_component(name) ==> joined_verbatim(base, name, path)
        } else if name.len() > 0 && separates(name[0], Reading::Windows) {
            path == base.take(b) + name
        } else if base.len() == 0 || separates(base.last(), Reading::Windows) || (drive(base)
            && base.len() == 2) {
            path == base + name
        } else {
            path == base + seq!['\\'] + name
        },
        (Some(n), None) => if n > 0 {
            path == name
        } else {
            one_component(name) ==> name.is_suffix_of(path)
        },
        (None, _) => !verbatim(base) && front(base) is Some ==> name.is_suffix_of(path),
    }
}

/// Whether Unix or Windows makes `path` of `base` and `name`.
pub open spec fn placed(base: Seq<char>, name: Seq<char>, path: Seq<char>) -> bool {
    joined_on_unix(base, name, path) || joined_on_windows(base, name, path)
}

/// Whether `path` is `name` inside the directory `base`: behind a separator, where
/// `base` does not end in one.
pub open spec fn joined(base: Seq<char>, name: Seq<char>, path: Seq<char>) -> bool {
    if base.len() == 0 || base.last() == '/' {
        path == base + name
    } else {
        path == base + seq!['/'] + name || path == base + seq!['\\'] + name
    }
}

/// The name of the last component of a path.
enum BaseName {
    Missing,
    NotUnicode,
    Name(String),
}

/// Calls `std::path::Path::file_name`. It claims that the result is the name of the last
/// component as Unix or as Windows reads the path, and that a part of a `str` is Unicode.
/// Which of the two it is, is a matter of the platform. Not claimed is when a path
/// that begins like a verbatim one, but with a `/` in its prefix, has a name on Windows.
#[verifier::external_body]
fn file_name(path: &str) -> (name: BaseName)
    ensures
        match name {
            BaseName::Missing => named(path@, None),
            BaseName::NotUnicode => false,
            BaseName::Name(n) => named(path@, Some(n@)),
        },
{
    match std::path::Path::new(path).file_name() {
        None => BaseName::Missing,
        Some(name) => match name.to_str() {
            None => BaseName::NotUnicode,
            Some(text) => BaseName::Name(text.to_owned()),
        },
    }
}

/// Calls `std::path::Path::join`. It claims that the result is made of the base and the
/// name as on Unix or as on Windows. Which of the two it is, is a matter of the platform.
/// Not claimed is how Windows joins a name of several components to a verbatim base, and
/// little of a prefix that is verbatim but for a `/`.
#[verifier::external_body]
fn join(base: &str, name: &str) -> (path: String)
    ensures
        placed(base@, name@, path@),
{
    std::path::Path::new(base).join(name).to_string_lossy().into_owned()
}

/// Where the source of a move stands if it was moved into the target.
pub enum Landing {
    /// The source has no name.
    NoName,
    /// The name of the source is not Unicode.
    NotUnicode,
    /// The name of the source, and the path of that name inside the target.
    Inside { name: String, path: String },
}

/// What holds of the landing of `from` inside `to`: its name is that of the source, and
/// its path is that name inside the target. Where Unix and Windows read a path alike, the
/// name and the path are given outright.
pub open spec fn lands(from: Seq<char>, to: Seq<char>, landing: Landing) -> bool {
    match landing {
        Landing::NoName => {
            &&& named(from, None)
            &&& plain_path(from) ==> final_name(from, Reading::Unix) is None
        },
        Landing::NotUnicode => false,
        Landing::Inside { name, path } => {
            &&& named(from, Some(name@))
            &&& plain_path(from) ==> final_name(from, Reading::Unix) == Some(name@)
            &&& placed(to, name@, path@)
            &&& plain_path(to) && plain_name(name@) ==> joined(to, name@, path@)
        },
    }
}

/// The normalized paths of a move.
pub struct MovePaths {
    pub from: String,
    pub to: String,
    pub landing: Landing,
}

proof fn lemma_one_reading(path: Seq<char>)
    requires
        !path.contains('\\'),
    ensures
        last_segment(path, Reading::Windows) == last_segment(path, Reading::Unix),
        final_name(path, Reading::Windows) == final_name(path, Reading::Unix),
    decreases path.len(),
{
    if path.len() > 0 {
        let rest = path.drop_last();
        assert(path[path.len() - 1] != '\\');
        assert(forall|m: int| 0 <= m < rest.len() ==> rest[m] == path[m]);
        lemma_one_reading(rest);
    }
}

/// A path that Unix and Windows read alike has one name, or none.
pub proof fn law_plain_paths_have_one_name(path: Seq<char>, name: Option<Seq<char>>)
    requires
        plain_path(path),
    ensures
        named(path, name) <==> name == final_name(path, Reading::Unix),
{
    lemma_one_reading(path);
    assert(path.skip(0) =~= path);
    if path.len() >= 2 {
        assert(path.contains(path[0]) && path.contains(path[1]));
    }
}

/// A name that Unix and Windows both take for one component, inside a directory that they
/// read alike, comes behind it and a separator.
pub proof fn law_plain_names_come_behind(base: Seq<char>, name: Seq<char>, path: Seq<char>)
    requires
        plain_path(base),
        plain_name(name),
    ensures
        placed(base, name, path) <==> joined(base, name, path),
{
    assert(name.contains(name[0]));
    if name.len() >= 2 {
        assert(name.contains(name[1]));
    }
    if base.len() > 0 {
        assert(base.contains(base.last()));
        assert(base.contains(base[0]));
    }
    if base.len() >= 2 {
        assert(base.contains(base[1]));
    }
    assert(base + Seq::empty() + name =~= base + name);
}

impl MovePaths {
    /// The paths of a move from one normalized path to another.
    pub fn new(from: String, to: String) -> (paths: MovePaths)
        ensures
            paths.from == from,
            paths.to == to,
            lands(from@, to@, paths.landing),
    {
        let landing = match file_name(from.as_str()) {
            BaseName::Missing => {
                proof {
                    if plain_path(from@) {
                        law_plain_paths_have_one_name(from@, None);
                    }
                }
                Landing::NoName
            },
            BaseName::NotUnicode => Landing::NotUnicode,
            BaseName::Name(name) => {
                let path = join(to.as_str(), name.as_str());
                proof {
                    if plain_path(from@) {
                        law_plain_paths_have_one_name(from@, Some(name@));
                    }
                    if plain_path(to@) && plain_name(name@) {
                        law_plain_names_come_behind(to@, name@, path@);
                    }
                }
                Landing::Inside { name, path }
            },
        };
        MovePaths { from, to, landing }
    }
}

/// How far the look at a move has come.
pub enum MoveState {
    /// The arguments of the command are awaited.
    Parsing,
    /// Their normalized paths are awaited.
    Normalizing,
    /// It is awaited what stands at the name of the source inside the target.
    InspectingInside { from: String, to: String, inside: String },
    /// It is awaited what stands at the target.
    InspectingTarget { from: String, to: String },
    Finished,
}

/// What was learned about a move.
pub enum MoveEvent {
    /// The paths that the command names.
    Arguments(Vec<String>),
    /// The normalized paths of source and target.
    Normalized(MovePaths),
    /// What stands at the path that was asked for.
    Inspected { exists: bool, is_dir: bool },
}

/// What to do next about a move.
pub enum MoveAction {
    /// Find the paths that the command names.
    Parse,
    /// Normalize the two paths.
    Normalize { from: String, to: String },
    /// See what stands at a path.
    Inspect { path: String },
    /// Move the recorded paths.
    Update { from: String, to: String },
    /// Nothing.
    Stop,
}

/// Whether the state awaits such an event.
pub open spec fn awaits(state: MoveState, event: MoveEvent) -> bool {
    match state {
        MoveState::Parsing => event is Arguments,
        MoveState::Normalizing => event is Normalized,
        MoveState::InspectingInside { .. } => event is Inspected,
        MoveState::InspectingTarget { .. } => event is Inspected,
        MoveState::Finished => false,
    }
}

/// The state after an event, and what to do next.
pub open spec fn after(state: MoveState, event: MoveEvent) -> (MoveState, MoveAction) {
    let stop = (MoveState::Finished, MoveAction::Stop);
    match (state, event) {
        (MoveState::Parsing, MoveEvent::Arguments(parts)) => if parts@.len() == 2 {
            (MoveState::Normalizing, MoveAction::Normalize { from: parts@[0], to: parts@[1] })
        } else {
            stop
        },
        (
            MoveState::Normalizing,
            MoveEvent::Normalized(MovePaths { from, to, landing }),
        ) => match landing {
            Landing::NoName => (
                MoveState::InspectingTarget { from, to },
                MoveAction::Inspect { path: to },
            ),
            Landing::NotUnicode => stop,
            // A name with a dot in it is probably that of a file.
            Landing::Inside { name, path } => if name@.contains('.') {
                stop
            } else {
                (
                    MoveState::InspectingInside { from, to, inside: path },
                    MoveAction::Inspect { path },
                )
            },
        },
        (
            MoveState::InspectingInside { from, to, inside },
            MoveEvent::Inspected { exists, is_dir },
        ) => if !exists {
            (MoveState::InspectingTarget { from, to }, MoveAction::Inspect { path: to })
        } else if is_dir {
            (MoveState::Finished, MoveAction::Update { from, to: inside })
        } else {
            stop
        },
        (
            MoveState::InspectingTarget { from, to },
            MoveEvent::Inspected { exists, is_dir },
        ) => if exists && is_dir {
            (MoveState::Finished, MoveAction::Update { from, to })
        } else {
            stop
        },
        _ => stop,
    }
}

impl MoveState {
    /// Takes in what was learned, and says what to do next.
    pub fn step(self, event: MoveEvent) -> (next: (MoveState, MoveAction))
        requires
            awaits(self, event),
        ensures
            next == after(self, event),
    {
        match (self, event) {
            (MoveState::Parsing, MoveEvent::Arguments(parts)) => {
                let mut parts = parts;
                if parts.len() == 2 {
                    let from = parts.remove(0);
                    let to = parts.remove(0);
                    (MoveState::Normalizing, MoveAction::Normalize { from, to })
                } else {
                    (MoveState::Finished, MoveAction::Stop)
                }
            },
            (MoveState::Normalizing, MoveEvent::Normalized(paths)) => {
                let from = paths.from;
                let to = paths.to;
                match paths.landing {
                    Landing::NoName => {
                        let path = to.clone();
                        (MoveState::InspectingTarget { from, to }, MoveAction::Inspect { path })
                    },
                    Landing::NotUnicode => (MoveState::Finished, MoveAction::Stop),
                    Landing::Inside { name, path } => {
                        if contains_char(name.as_str(), '.') {
                            (MoveState::Finished, MoveAction::Stop)
                        } else {
                            let inside = path.clone();
                            (
                                MoveState::InspectingInside { from, to, inside },
                                MoveAction::Inspect { path },
                            )
                        }
                    },
                }
            },
            (
                MoveState::InspectingInside { from, to, inside },
                MoveEvent::Inspected { exists, is_dir },
            ) => {
                if !exists {
                    let path = to.clone();
                    (MoveState::InspectingTarget { from, to }, MoveAction::Inspect { path })
                } else if is_dir {
                    (MoveState::Finished, MoveAction::Update { from, to: inside })
                } else {
                    (MoveState::Finished, MoveAction::Stop)
                }
            },
            (
                MoveState::InspectingTarget { from, to },
                MoveEvent::Inspected { exists, is_dir },
            ) => {
                if exists && is_dir {
                    (MoveState::Finished, MoveAction::Update { from, to })
                } else {
                    (MoveState::Finished, MoveAction::Stop)
                }
            },
            _ => (MoveState::Finished, MoveAction::Stop),
        }
    }
}

/// How the look at a command begins.
pub open spec fn begins(moves: bool) -> (MoveState, MoveAction) {
    if moves {
        (MoveState::Parsing, MoveAction::Parse)
    } else {
        (MoveState::Finished, MoveAction::Stop)
    }
}

impl History {
    /// Whether a command has moved one thing. `lower` is the command in lower case.
    pub fn is_move(lower: &str, command: &str, exit_code: Option<i32>) -> (moves: bool)
        ensures
            moves == moves_one(lower@, command@, exit_code),
    {
        let successful = match exit_code {
            None => true,
            Some(code) => code == 0,
        };
        successful && starts_with(lower, "mv ") && !contains_char(command, '*') && !contains_char(
            command,
            '?',
        )
    }

    /// Begins to look whether a command has moved a directory, so that the recorded paths
    /// can follow.
    pub fn possibly_update_paths(command: &str, exit_code: Option<i32>) -> (next: (
        MoveState,
        MoveAction,
    ))
        ensures
            next == begins(moves_one(lowercase(command@), command@, exit_code)),
            is_ascii_chars(command@) ==> next == begins(
                moves_one(ascii_lowercase_text(command@), command@, exit_code),
            ),
    {
        let lower = to_lowercase(command);
        if History::is_move(lower.as_str(), command, exit_code) {
            (MoveState::Parsing, MoveAction::Parse)
        } else {
            (MoveState::Finished, MoveAction::Stop)
        }
    }
}

/// Whether a state awaits the answer to an action.
pub open spec fn answers(state: MoveState, action: MoveAction) -> bool {
    match action {
        MoveAction::Parse => state is Parsing,
        MoveAction::Normalize { .. } => state is Normalizing,
        MoveAction::Inspect { path } => match state {
            MoveState::InspectingInside { inside, .. } => path == inside,
            MoveState::InspectingTarget { to, .. } => path == to,
            _ => false,
        },
        MoveAction::Update { .. } => state is Finished,
        MoveAction::Stop => state is Finished,
    }
}

/// What is learned from an action, where the command names `parts`, their normalized
/// paths are `paths`, and `look` tells of a path whether it exists and is a directory.
pub open spec fn learned(
    action: MoveAction,
    parts: Vec<String>,
    paths: MovePaths,
    look: spec_fn(Seq<char>) -> (bool, bool),
) -> MoveEvent {
    match action {
        MoveAction::Parse => MoveEvent::Arguments(parts),
        MoveAction::Normalize { .. } => MoveEvent::Normalized(paths),
        MoveAction::Inspect { path } => MoveEvent::Inspected {
            exists: look(path@).0,
            is_dir: look(path@).1,
        },
        _ => arbitrary(),
    }
}

/// The action that a look at a move ends in, after at most `steps` events.
pub open spec fn conclusion(
    next: (MoveState, MoveAction),
    parts: Vec<String>,
    paths: MovePaths,
    look: spec_fn(Seq<char>) -> (bool, bool),
    steps: nat,
) -> MoveAction
    decreases steps,
{
    if next.1 is Stop || next.1 is Update || steps == 0 {
        next.1
    } else {
        conclusion(
            after(next.0, learned(next.1, parts, paths, look)),
            parts,
            paths,
            look,
            (steps - 1) as nat,
        )
    }
}

/// Every action is answered by an event that the state awaits, and the actions that end
/// a look await nothing.
pub proof fn law_every_action_is_awaited(state: MoveState, event: MoveEvent, moves: bool)
    requires
        awaits(state, event),
    ensures
        answers(begins(moves).0, begins(moves).1),
        answers(after(state, event).0, after(state, event).1),
{
}

/// A look at a move ends after at most four events. Recorded paths follow the source
/// into the target where a directory of its name stands there; where nothing does, they
/// follow it to the target if that is a directory; else they stay.
pub proof fn law_directory_moves_are_followed(
    moves: bool,
    parts: Vec<String>,
    paths: MovePaths,
    look: spec_fn(Seq<char>) -> (bool, bool),
)
    ensures
        conclusion(begins(moves), parts, paths, look, 4) == ({
            let target = if look(paths.to@) == (true, true) {
                MoveAction::Update { from: paths.from, to: paths.to }
            } else {
                MoveAction::Stop
            };
            if !moves || parts@.len() != 2 {
                MoveAction::Stop
            } else {
                match paths.landing {
                    Landing::NoName => target,
                    Landing::NotUnicode => MoveAction::Stop,
                    Landing::Inside { name, path } => if name@.contains('.') {
                        MoveAction::Stop
                    } else if !look(path@).0 {
                        target
                    } else if look(path@).1 {
                        MoveAction::Update { from: paths.from, to: path }
                    } else {
                        MoveAction::Stop
                    },
                }
            }
        }),
{
    reveal_with_fuel(conclusion, 5);
}

/// Recorded paths only ever move to where a directory was seen.
pub proof fn law_paths_move_to_directories_only(
    moves: bool,
    parts: Vec<String>,
    paths: MovePaths,
    look: spec_fn(Seq<char>) -> (bool, bool),
)
    ensures
        conclusion(begins(moves), parts, paths, look, 4) matches MoveAction::Update { from, to }
            ==> moves && from == paths.from && look(to@) == (true, true),
{
    law_directory_moves_are_followed(moves, parts, paths, look);
}

/// Whether what was moved is taken for a file: its name holds a dot, or something that is
/// no directory stands at its name inside the target, or nothing does and the target is no
/// directory.
pub open spec fn taken_for_file(
    name: Seq<char>,
    inside: Seq<char>,
    to: Seq<char>,
    look: spec_fn(Seq<char>) -> (bool, bool),
) -> bool {
    ||| name.contains('.')
    ||| look(inside).0 && !look(inside).1
    ||| !look(inside).0 && look(to) != (true, true)
}

/// Where the source has a name, and what was moved is taken for a file, recorded paths
/// stay as they are, whatever their characters.
pub proof fn law_a_moved_file_is_not_followed(
    moves: bool,
    parts: Vec<String>,
    paths: MovePaths,
    look: spec_fn(Seq<char>) -> (bool, bool),
)
    requires
        lands(paths.from@, paths.to@, paths.landing),
        paths.landing !is NoName,
        forall|name: Seq<char>, inside: Seq<char>|
            named(paths.from@, Some(name)) && #[trigger] placed(paths.to@, name, inside)
                ==> taken_for_file(name, inside, paths.to@, look),
    ensures
        conclusion(begins(moves), parts, paths, look, 4) is Stop,
{
    law_directory_moves_are_followed(moves, parts, paths, look);
}

/// A plain path whose name holds a dot is that of a file: its move is not followed.
pub proof fn law_names_with_a_dot_are_not_followed(
    moves: bool,
    parts: Vec<String>,
    paths: MovePaths,
    look: spec_fn(Seq<char>) -> (bool, bool),
)
    requires
        lands(paths.from@, paths.to@, paths.landing),
        plain_path(paths.from@),
        final_name(paths.from@, Reading::Unix) matches Some(name) && name.contains('.'),
    ensures
        conclusion(begins(moves), parts, paths, look, 4) is Stop,
{
    law_directory_moves_are_followed(moves, parts, paths, look);
}

/// How many events a look at a move can still take.
pub open spec fn events_left(state: MoveState) -> nat {
    match state {
        MoveState::Parsing => 4,
        MoveState::Normalizing => 3,
        MoveState::InspectingInside { .. } => 2,
        MoveState::InspectingTarget { .. } => 1,
        MoveState::Finished => 0,
    }
}

/// Every event brings a look at a move nearer to its end, and it ends with the action
/// that says so.
pub proof fn law_a_move_comes_to_an_end(state: MoveState, event: MoveEvent)
    requires
        awaits(state, event),
    ensures
        events_left(after(state, event).0) < events_left(state),
        after(state, event).0 is Finished <==> after(state, event).1 is Stop || after(
            state,
            event,
        ).1 is Update,
{
}

/// A command may have moved something just if it did not fail, its lower case begins with
/// the letters of `mv` and a space, and no character of it begins a pattern.
pub proof fn law_a_move_is_a_plain_mv(
    lower: &str,
    command: &str,
    exit_code: Option<i32>,
    moves: bool,
)
    requires
        call_ensures(History::is_move, (lower, command, exit_code), moves),
    ensures
        moves <==> {
            &&& exit_code matches Some(code) ==> code == 0
            &&& lower@.len() >= 3
            &&& lower@[0] == 'm'
            &&& lower@[1] == 'v'
            &&& lower@[2] == ' '
            &&& forall|i: int|
                0 <= i < command@.len() ==> #[trigger] command@[i] != '*' && command@[i] != '?'
        },
{
    reveal_strlit("mv ");
    if lower@.len() >= 3 {
        assert("mv "@ =~= lower@.subrange(0, 3) <==> lower@[0] == 'm' && lower@[1] == 'v'
            && lower@[2] == ' ') by {
            let start = lower@.subrange(0, 3);
            assert(start[0] == lower@[0] && start[1] == lower@[1] && start[2] == lower@[2]);
        }
    }
    assert(forall|i: int| 0 <= i < command@.len() ==> command@.contains(#[trigger] command@[i]));
}

/// A command that may have moved something is parsed; nothing is done about any other.
pub proof fn law_only_moves_are_parsed(
    command: &str,
    lower: &str,
    exit_code: Option<i32>,
    moves: bool,
    next: (MoveState, MoveAction),
)
    requires
        lower@ == lowercase(command@) || (is_ascii_chars(command@) && lower@.len() == command@.len()
            && forall|i: int|
            0 <= i < command@.len() ==> #[trigger] lower@[i] as int == if 'A' <= command@[i]
                <= 'Z' {
                command@[i] as int + 32
            } else {
                command@[i] as int
            }),
        call_ensures(History::is_move, (lower, command, exit_code), moves),
        call_ensures(History::possibly_update_paths, (command, exit_code), next),
    ensures
        moves ==> next.0 is Parsing && next.1 is Parse,
        !moves ==> next.0 is Finished && next.1 is Stop,
{
    if lower@ != lowercase(command@) {
        assert(lower@ =~= ascii_lowercase_text(command@));
    }
}

/// The first of two arguments is the source of a move, and the second its target. A
/// command with any other number of arguments is not followed.
pub proof fn law_the_source_comes_first(parts: Vec<String>, next: (MoveState, MoveAction))
    requires
        call_ensures(
            MoveState::step,
            (MoveState::Parsing, MoveEvent::Arguments(parts)),
            next,
        ),
    ensures
        parts@.len() == 2 ==> next.0 is Normalizing && (next.1 matches MoveAction::Normalize {
            from,
            to,
        } && from@ == parts@[0]@ && to@ == parts@[1]@),
        parts@.len() != 2 ==> next.0 is Finished && next.1 is Stop,
{
}

/// Of the normalized paths, the name of the source inside the target is looked at, or the
/// target itself where the source has no name. Nothing more is done where the name holds a
/// dot or is not Unicode.
pub proof fn law_the_name_inside_is_looked_at(paths: MovePaths, next: (MoveState, MoveAction))
    requires
        call_ensures(
            MoveState::step,
            (MoveState::Normalizing, MoveEvent::Normalized(paths)),
            next,
        ),
    ensures
        paths.landing is NoName ==> (next.0 matches MoveState::InspectingTarget { from, to } && from@
            == paths.from@ && to@ == paths.to@) && (next.1 matches MoveAction::Inspect { path }
            && path@ == paths.to@),
        paths.landing is NotUnicode ==> next.0 is Finished && next.1 is Stop,
        paths.landing matches Landing::Inside { name, path } ==> ({
            let dotted = exists|i: int| 0 <= i < name@.len() && #[trigger] name@[i] == '.';
            &&& dotted ==> next.0 is Finished && next.1 is Stop
            &&& !dotted ==> (next.0 matches MoveState::InspectingInside { from, to, inside } && from@
                == paths.from@ && to@ == paths.to@ && inside@ == path@) && (
            next.1 matches MoveAction::Inspect { path: looked } && looked@ == path@)
        }),
{
}

/// Where something stands at the name inside the target, recorded paths follow it there if
/// it is a directory, and stay if it is not. Where nothing does, the target is looked at.
pub proof fn law_a_directory_inside_is_followed(
    from: String,
    to: String,
    inside: String,
    there: bool,
    is_dir: bool,
    next: (MoveState, MoveAction),
)
    requires
        call_ensures(
            MoveState::step,
            (
                MoveState::InspectingInside { from, to, inside },
                MoveEvent::Inspected { exists: there, is_dir },
            ),
            next,
        ),
    ensures
        there && is_dir ==> next.0 is Finished && (next.1 matches MoveAction::Update {
            from: f,
            to: t,
        } && f@ == from@ && t@ == inside@),
        there && !is_dir ==> next.0 is Finished && next.1 is Stop,
        !there ==> (next.0 matches MoveState::InspectingTarget { from: f, to: t } && f@ == from@
            && t@ == to@) && (next.1 matches MoveAction::Inspect { path } && path@ == to@),
{
}

/// Recorded paths follow a source to the target itself just if that is a directory.
pub proof fn law_a_renamed_directory_is_followed(
    from: String,
    to: String,
    there: bool,
    is_dir: bool,
    next: (MoveState, MoveAction),
)
    requires
        call_ensures(
            MoveState::step,
            (MoveState::InspectingTarget { from, to }, MoveEvent::Inspected { exists: there, is_dir }),
            next,
        ),
    ensures
        next.0 is Finished,
        there && is_dir ==> (next.1 matches MoveAction::Update { from: f, to: t } && f@ == from@
            && t@ == to@),
        !there || !is_dir ==> next.1 is Stop,
{
}

/// In a look at a move with two arguments, recorded paths only move from the normalized
/// first argument, and only to the normalized second one or to the place of the source
/// inside it, where a directory was seen.
pub proof fn law_recorded_paths_follow_the_arguments(
    parts: Vec<String>,
    normal: spec_fn(Seq<char>) -> Seq<char>,
    paths: MovePaths,
    looks: ((bool, bool), (bool, bool)),
    first: (MoveState, MoveAction),
    second: (MoveState, MoveAction),
    third: (MoveState, MoveAction),
    fourth: (MoveState, MoveAction),
)
    requires
        call_ensures(
            MoveState::step,
            (MoveState::Parsing, MoveEvent::Arguments(parts)),
            first,
        ),
        first.1 matches MoveAction::Normalize { from, to } && paths.from@ == normal(from@)
            && paths.to@ == normal(to@),
        call_ensures(MoveState::step, (first.0, MoveEvent::Normalized(paths)), second),
        second.1 is Inspect,
        call_ensures(
            MoveState::step,
            (second.0, MoveEvent::Inspected { exists: looks.0.0, is_dir: looks.0.1 }),
            third,
        ),
        third.1 is Inspect ==> call_ensures(
            MoveState::step,
            (third.0, MoveEvent::Inspected { exists: looks.1.0, is_dir: looks.1.1 }),
            fourth,
        ),
    ensures
        paths.landing is Inside && looks.0 == (true, true) ==> (
        third.1 matches MoveAction::Update { from, to } && from@ == normal(parts@[0]@) && to@
            == paths.landing->path@),
        paths.landing is Inside && !looks.0.0 && looks.1 == (true, true) ==> (
        fourth.1 matches MoveAction::Update { from, to } && from@ == normal(parts@[0]@) && to@
            == normal(parts@[1]@)),
        paths.landing is Inside && !looks.0.0 && looks.1 != (true, true) ==> fourth.1 is Stop,
        paths.landing is Inside && looks.0 == (true, false) ==> third.1 is Stop,
        paths.landing is NoName && looks.0 == (true, true) ==> (
        third.1 matches MoveAction::Update { from, to } && from@ == normal(parts@[0]@) && to@
            == normal(parts@[1]@)),
        paths.landing is NoName && looks.0 != (true, true) ==> third.1 is Stop,
{
}

proof fn lemma_last_segment_behind(before: Seq<char>, name: Seq<char>)
    requires
        before.len() > 0 ==> before.last() == '/',
        !name.contains('/'),
    ensures
        last_segment(before + name, Reading::Unix) == name,
    decreases name.len(),
{
    let path = before + name;
    if name.len() == 0 {
        assert(path =~= before);
        assert(last_segment(path, Reading::Unix) =~= name);
    } else {
        let rest = name.drop_last();
        assert(name.contains(name.last()));
        assert(forall|i: int| 0 <= i < rest.len() ==> name.contains(#[trigger] rest[i])) by {
            assert forall|i: int| 0 <= i < rest.len() implies name.contains(#[trigger] rest[i]) by {
                assert(name[i] == rest[i]);
            }
        }
        lemma_last_segment_behind(before, rest);
        assert(path.drop_last() =~= before + rest);
        assert(last_segment(path, Reading::Unix) =~= name);
    }
}

proof fn lemma_final_name_behind(before: Seq<char>, name: Seq<char>, tail: Seq<char>)
    requires
        before.len() > 0 ==> before.last() == '/',
        name.len() > 0,
        !name.contains('/'),
        name != seq!['.'],
        forall|i: int| 0 <= i < tail.len() ==> #[trigger] tail[i] == '/',
    ensures
        final_name(before + name + tail, Reading::Unix) == (if name == seq!['.', '.'] {
            None
        } else {
            Some(name)
        }),
    decreases tail.len(),
{
    let path = before + name + tail;
    if tail.len() == 0 {
        lemma_last_segment_behind(before, name);
        assert(path =~= before + name);
        assert(name.contains(name.last()));
        assert(path.last() == name.last());
    } else {
        lemma_final_name_behind(before, name, tail.drop_last());
        assert(path.drop_last() =~= before + name + tail.drop_last());
        assert(path.last() == tail.last());
    }
}

/// The source of a move stands inside the target under the name that ends its path, slashes
/// aside; a path that ends in `..` has none. This is so of all paths that Unix and Windows
/// read alike: without a `\`, a drive or two slashes at the beginning.
pub proof fn law_a_source_lands_under_its_name(
    from: String,
    to: String,
    before: Seq<char>,
    name: Seq<char>,
    tail: Seq<char>,
    paths: MovePaths,
)
    requires
        call_ensures(MovePaths::new, (from, to), paths),
        from@ == before + name + tail,
        before.len() > 0 ==> before.last() == '/',
        name.len() > 0,
        !name.contains('/'),
        name != seq!['.'],
        forall|i: int| 0 <= i < tail.len() ==> #[trigger] tail[i] == '/',
        !from@.contains('\\'),
        from@.len() >= 2 ==> from@[1] != ':' && !(from@[0] == '/' && from@[1] == '/'),
    ensures
        paths.from@ == from@,
        paths.to@ == to@,
        name == seq!['.', '.'] ==> paths.landing is NoName,
        name != seq!['.', '.'] ==> (paths.landing matches Landing::Inside { name: n, path } && n@
            == name && (!to@.contains('\\') && (to@.len() >= 2 ==> to@[1] != ':' && !(to@[0] == '/'
            && to@[1] == '/')) && (name.len() >= 2 ==> name[1] != ':') ==> if to@.len() == 0
            || to@.last() == '/' {
            path@ == to@ + name
        } else {
            path@ == to@.push('/') + name || path@ == to@.push('\\') + name
        })),
{
    lemma_final_name_behind(before, name, tail);
    assert(!name.contains('\\')) by {
        if name.contains('\\') {
            let i = choose|i: int| 0 <= i < name.len() && name[i] == '\\';
            assert(from@[before.len() + i] == '\\');
        }
    }
    assert(to@ + seq!['/'] =~= to@.push('/'));
    assert(to@ + seq!['\\'] =~= to@.push('\\'));
}

/// Whatever its characters, the source of a move lands under a name that Unix or Windows
/// reads in its path, at the place that one of them gives it inside the target, or nowhere
/// if one of them reads no name.
pub proof fn law_every_source_lands_as_a_platform_reads_it(
    from: String,
    to: String,
    paths: MovePaths,
)
    requires
        call_ensures(MovePaths::new, (from, to), paths),
    ensures
        paths.from@ == from@,
        paths.to@ == to@,
        paths.landing !is NotUnicode,
        paths.landing is NoName ==> named(from@, None),
        paths.landing matches Landing::Inside { name, path } ==> named(from@, Some(name@))
            && placed(to@, name@, path@),
{
}

} // verus!
