//! Directories that are renamed or moved: the paths recorded for them follow.
use super::statement::{binds, Statement, StatementView, ValueView};
use super::History;
use crate::text::{
    byte_length, characters, lemma_byte_offset_increases, lemma_byte_offset_step,
};
use vstd::prelude::*;
use vstd::utf8::encode_utf8;

verus! {

/// Moves the directories that commands were run in.
pub const UPDATE_DIR: &'static str = "UPDATE commands SET dir = :new_dir || SUBSTR(dir, :length) WHERE dir = :exact OR dir LIKE (:like)";

/// Moves the directories that commands were run from.
pub const UPDATE_OLD_DIR: &'static str = "UPDATE commands SET old_dir = :new_dir || SUBSTR(old_dir, :length) WHERE old_dir = :exact OR old_dir LIKE (:like)";

/// The statements that move recorded paths.
pub struct PathUpdate {
    pub dir: Statement,
    pub old_dir: Statement,
}

/// The position, counted from one, of the first character after a path; the count of
/// its characters is taken modulo the range of `u32`.
pub open spec fn length_after(path: Seq<char>) -> int {
    (path.len() as u32) + 1
}

/// A statement that moves the paths at or below `old_path` to `new_path`.
pub open spec fn path_update(sql: Seq<char>, old_path: Seq<char>, new_path: Seq<char>) -> StatementView {
    StatementView {
        sql,
        params: seq![
            (":like"@, ValueView::Text(old_path + "/%"@)),
            (":exact"@, ValueView::Text(old_path)),
            (":new_dir"@, ValueView::Text(new_path)),
            (":length"@, ValueView::Integer(length_after(old_path))),
        ],
    }
}

/// Whether recorded paths can be moved between two normalized paths: each takes more
/// than one byte, so neither is empty or the root.
pub open spec fn movable(old_path: Seq<char>, new_path: Seq<char>) -> bool {
    encode_utf8(old_path).len() > 1 && encode_utf8(new_path).len() > 1
}

fn path_update_statement(sql: &str, old_path: &str, new_path: &str) -> (statement: Statement)
    requires
        (old_path@.len() as u32) < u32::MAX,
    ensures
        statement@ == path_update(sql@, old_path@, new_path@),
{
    let mut like = old_path.to_owned();
    like.append("/%");
    let count = characters(old_path).len();
    let length = #[verifier::truncate]
    (count as u32) + 1;
    let statement = Statement::new(sql).bind_text(":like", like.as_str()).bind_text(
        ":exact",
        old_path,
    ).bind_text(":new_dir", new_path).bind_integer(":length", length as i64);
    assert(statement@ =~= path_update(sql@, old_path@, new_path@));
    statement
}

impl History {
    /// The statements that move what is recorded at or below `normalized_old_path` to
    /// `normalized_new_path`. `None` where one of them takes no more than one byte.
    pub fn update_paths(normalized_old_path: &str, normalized_new_path: &str) -> (update: Option<
        PathUpdate,
    >)
        requires
            movable(normalized_old_path@, normalized_new_path@) ==> (normalized_old_path@.len()
                as u32) < u32::MAX,
        ensures
            update is Some <==> movable(normalized_old_path@, normalized_new_path@),
            update matches Some(u) ==> u.dir@ == path_update(
                UPDATE_DIR@,
                normalized_old_path@,
                normalized_new_path@,
            ) && u.old_dir@ == path_update(
                UPDATE_OLD_DIR@,
                normalized_old_path@,
                normalized_new_path@,
            ),
    {
        if byte_length(normalized_old_path) > 1 && byte_length(normalized_new_path) > 1 {
            Some(
                PathUpdate {
                    dir: path_update_statement(
                        UPDATE_DIR,
                        normalized_old_path,
                        normalized_new_path,
                    ),
                    old_dir: path_update_statement(
                        UPDATE_OLD_DIR,
                        normalized_old_path,
                        normalized_new_path,
                    ),
                },
            )
        } else {
            None
        }
    }
}

/// A number in decimal digits.
pub open spec fn decimal(n: nat) -> Seq<char>
    decreases n,
{
    if n < 10 {
        seq![digit(n)]
    } else {
        decimal(n / 10).push(digit(n % 10))
    }
}

/// The decimal digit of a number below ten.
pub open spec fn digit(n: nat) -> char {
    ('0' as int + n) as char
}

fn push_decimal(text: &mut String, n: usize)
    ensures
        final(text)@ == old(text)@ + decimal(n as nat),
    decreases n,
{
    if n >= 10 {
        push_decimal(text, n / 10);
    }
    let digits: [char; 10] = ['0', '1', '2', '3', '4', '5', '6', '7', '8', '9'];
    let d = n % 10;
    text.push(digits[d]);
    assert(digits@[d as int] == digit(d as nat));
    assert(final(text)@ =~= old(text)@ + decimal(n as nat));
}

/// What is said of an update of recorded paths: how many commands it changed, or that
/// there was none.
pub open spec fn update_report(old_path: Seq<char>, new_path: Seq<char>, affected: Option<nat>) -> Seq<
    char,
> {
    match affected {
        Some(n) => "McFly: Command database paths renamed from "@ + old_path + " to "@ + new_path
            + " (affected "@ + decimal(n) + " commands)"@,
        None => "McFly: Not updating paths due to invalid options."@,
    }
}

impl History {
    /// What is said of an update of recorded paths. `affected` is the number of commands
    /// whose directory changed, `None` where nothing was run.
    pub fn update_paths_report(old_path: &str, new_path: &str, affected: Option<usize>) -> (report:
        String)
        ensures
            report@ == update_report(
                old_path@,
                new_path@,
                match affected {
                    Some(n) => Some(n as nat),
                    None => None,
                },
            ),
    {
        match affected {
            Some(n) => {
                let mut report = "McFly: Command database paths renamed from ".to_owned();
                report.append(old_path);
                report.append(" to ");
                report.append(new_path);
                report.append(" (affected ");
                push_decimal(&mut report, n);
                report.append(" commands)");
                report
            },
            None => "McFly: Not updating paths due to invalid options.".to_owned(),
        }
    }
}

/// A path at or below the one that moves keeps what follows it: the characters from the
/// bound position on, counted from one, are those after the old path.
pub proof fn law_moved_paths_keep_what_follows(old_path: Seq<char>, rest: Seq<char>)
    requires
        old_path.len() < u32::MAX,
    ensures
        (old_path + rest).skip(length_after(old_path) - 1) == rest,
{
    assert((old_path + rest).skip(old_path.len() as int) =~= rest);
}

proof fn lemma_more_than_one_byte(path: Seq<char>)
    ensures
        encode_utf8(path).len() > 1 <==> path.len() > 1 || (path.len() == 1 && path[0] as u32
            > 0x7f),
{
    if path.len() > 0 {
        assert(path.take(path.len() as int) =~= path);
        assert(path.take(0) =~= Seq::<char>::empty());
        lemma_byte_offset_step(path, 0);
        lemma_byte_offset_increases(path, 1, path.len() as int);
        lemma_byte_offset_increases(path, 0, 1);
    }
}

/// Recorded paths are moved unless one of the two paths is empty or a single ASCII
/// character, such as the root.
pub proof fn law_all_but_the_shortest_paths_move(
    old_path: &str,
    new_path: &str,
    update: Option<PathUpdate>,
)
    requires
        call_ensures(History::update_paths, (old_path, new_path), update),
    ensures
        update is None <==> {
            ||| old_path@.len() == 0
            ||| new_path@.len() == 0
            ||| old_path@.len() == 1 && old_path@[0] as u32 <= 0x7f
            ||| new_path@.len() == 1 && new_path@[0] as u32 <= 0x7f
        },
{
    lemma_more_than_one_byte(old_path@);
    lemma_more_than_one_byte(new_path@);
}

/// Both columns are updated alike: at the old path and below it, to the new path, keeping
/// what stands after as many characters as the old path has, counted modulo the range of
/// `u32`.
pub proof fn law_both_columns_move_from_old_to_new(
    old_path: &str,
    new_path: &str,
    update: Option<PathUpdate>,
)
    requires
        call_ensures(History::update_paths, (old_path, new_path), update),
    ensures
        update matches Some(u) ==> ({
            &&& u.dir@.sql == UPDATE_DIR@
            &&& u.old_dir@.sql == UPDATE_OLD_DIR@
            &&& u.old_dir@.params == u.dir@.params
            &&& u.dir@.params.len() == 4
            &&& binds(u.dir@, ":like"@, ValueView::Text(old_path@.push('/').push('%')))
            &&& binds(u.dir@, ":exact"@, ValueView::Text(old_path@))
            &&& binds(u.dir@, ":new_dir"@, ValueView::Text(new_path@))
            &&& binds(u.dir@, ":length"@, ValueView::Integer((old_path@.len() as u32) + 1))
        }),
{
    if let Some(u) = update {
        let params = u.dir@.params;
        reveal_strlit("/%");
        assert(old_path@ + "/%"@ =~= old_path@.push('/').push('%'));
        assert(params.contains(params[0]) && params.contains(params[1]) && params.contains(
            params[2],
        ) && params.contains(params[3]));
        assert(u.old_dir@.params =~= params);
    }
}

/// A recorded path at or below the old one becomes the same path at or below the new one:
/// what is bound as the new directory, followed by the recorded path from the bound
/// position on, counted from one.
pub proof fn law_a_path_below_moves_along(
    old_path: &str,
    new_path: &str,
    update: Option<PathUpdate>,
    rest: Seq<char>,
    new_dir: Seq<char>,
    length: int,
)
    requires
        old_path@.len() < u32::MAX,
        call_ensures(History::update_paths, (old_path, new_path), update),
        update matches Some(u) && ({
            ||| binds(u.dir@, ":new_dir"@, ValueView::Text(new_dir)) && binds(
                u.dir@,
                ":length"@,
                ValueView::Integer(length),
            )
            ||| binds(u.old_dir@, ":new_dir"@, ValueView::Text(new_dir)) && binds(
                u.old_dir@,
                ":length"@,
                ValueView::Integer(length),
            )
        }),
    ensures
        new_dir + (old_path@ + rest).skip(length - 1) == new_path@ + rest,
{
    law_both_columns_move_from_old_to_new(old_path, new_path, update);
    reveal_strlit(":like");
    reveal_strlit(":exact");
    reveal_strlit(":new_dir");
    reveal_strlit(":length");
    let params = update->0.dir@.params;
    let i = choose|i: int|
        0 <= i < params.len() && params[i] == (":new_dir"@, ValueView::Text(new_dir));
    let j = choose|j: int|
        0 <= j < params.len() && params[j] == (":length"@, ValueView::Integer(length));
    assert(params[i].0.len() == 8 && params[j].0.len() == 7);
    assert(i == 2 && j == 3);
    assert((old_path@ + rest).skip(old_path@.len() as int) =~= rest);
}

/// The number that decimal digits stand for.
pub open spec fn number(digits: Seq<char>) -> int
    decreases digits.len(),
{
    if digits.len() == 0 {
        0
    } else {
        number(digits.drop_last()) * 10 + (digits.last() as int - '0' as int)
    }
}

/// A number is written in decimal digits that stand for it, without zeros before them.
pub proof fn law_digits_stand_for_the_number(n: nat)
    ensures
        number(decimal(n)) == n,
        decimal(n).len() > 0,
        forall|i: int| 0 <= i < decimal(n).len() ==> '0' <= #[trigger] decimal(n)[i] <= '9',
        decimal(n)[0] == '0' ==> n == 0,
        n == 0 ==> decimal(n).len() == 1,
    decreases n,
{
    if n < 10 {
        reveal_with_fuel(number, 2);
        assert(decimal(n).drop_last() =~= Seq::<char>::empty());
    } else {
        law_digits_stand_for_the_number(n / 10);
        assert(decimal(n).drop_last() =~= decimal(n / 10));
        assert(decimal(n)[0] == decimal(n / 10)[0]);
    }
}

/// The report of an update names the old path, the new path and the number of commands
/// changed, in this order and in full; that of no update is always the same.
pub proof fn law_a_report_names_what_was_done(
    old_path: &str,
    new_path: &str,
    affected: Option<usize>,
    report: String,
)
    requires
        call_ensures(History::update_paths_report, (old_path, new_path, affected), report),
    ensures
        affected matches Some(n) ==> exists|digits: Seq<char>|
            #![trigger number(digits)]
            number(digits) == n && digits.len() > 0 && (digits[0] == '0' ==> n == 0 && digits.len()
                == 1) && report@ == "McFly: Command database paths renamed from "@ + old_path@
                + " to "@ + new_path@ + " (affected "@ + digits + " commands)"@,
        affected is None ==> report@ == "McFly: Not updating paths due to invalid options."@,
{
    if let Some(n) = affected {
        law_digits_stand_for_the_number(n as nat);
        assert(number(decimal(n as nat)) == n);
    }
}

/// These texts are what the database is asked when directories have moved.
pub proof fn law_the_database_is_asked_in_these_words()
    ensures
        UPDATE_DIR@ == "UPDATE commands SET dir = :new_dir || SUBSTR(dir, :length) WHERE dir = :exact OR dir LIKE (:like)"@,
        UPDATE_OLD_DIR@ == "UPDATE commands SET old_dir = :new_dir || SUBSTR(old_dir, :length) WHERE old_dir = :exact OR old_dir LIKE (:like)"@,
{
}

} // verus!
