//! The command history: what is recorded, found, moved and deleted.
//!
//! The database belongs to the caller. Each operation says which statements to run, and
//! what is made of their replies.
pub mod cache;
pub mod command;
pub mod import;
pub mod listing;
pub mod matching;
pub mod moves;
pub mod paths;
pub mod recording;
pub mod statement;

use vstd::prelude::*;

verus! {

/// The rules of the command history, one function for each thing done with it.
pub struct History;

/// The text of a statement does not depend on what was typed, nor on where: such text is
/// only ever bound to a parameter.
pub proof fn law_typed_text_is_only_bound(
    a: recording::NewCommandView,
    b: recording::NewCommandView,
    a_shell: import::ShellCommand,
    b_shell: import::ShellCommand,
    a_request: cache::CacheRequestView,
    b_request: cache::CacheRequestView,
    a_facts: cache::CacheFactsView,
    b_facts: cache::CacheFactsView,
    template: (Seq<char>, Seq<char>),
    selected: bool,
    time: i64,
    num: i16,
    offset: u16,
    random: bool,
    update: Seq<char>,
)
    ensures
        recording::insertion(a, template.0, selected).sql == recording::insertion(
            b,
            template.1,
            selected,
        ).sql,
        recording::claim(a.command, a.session_id, a.dir).sql == recording::claim(
            b.command,
            b.session_id,
            b.dir,
        ).sql,
        recording::clearing(a.session_id).sql == recording::clearing(b.session_id).sql,
        import::importation(a_shell).sql == import::importation(b_shell).sql,
        cache::creation(a_request, a_facts, time).sql == cache::creation(
            b_request,
            b_facts,
            time,
        ).sql,
        listing::listing(Some(a.session_id), num, offset, random).sql == listing::listing(
            Some(b.session_id),
            num,
            offset,
            random,
        ).sql,
        paths::path_update(update, a.dir, b.dir).sql == paths::path_update(
            update,
            b.dir,
            a.dir,
        ).sql,
        matching::search(a.command, num, random).sql == matching::search(
            b.command,
            num,
            random,
        ).sql,
{
}

} // verus!
