//! Finding commands: the pattern of the search, and where it matches in a command.
use super::command::{Command, CommandView};
use super::statement::{binds, Statement, StatementView, ValueView};
use super::History;
use crate::text::{
    ascii_lowercase_text, byte_length, byte_offset, char_width, characters, lemma_ascii_lowercase_bytes,
    lemma_byte_offset_increases, lemma_byte_offset_step, lemma_encode_concat, lowercase, matches_at, occurs_at, to_lowercase,
};
use vstd::prelude::*;
use vstd::utf8::{encode_utf8, is_ascii_chars, is_ascii_chars_encode_utf8};

verus! {

/// Finds the commands that fit a pattern, those with the highest rank first.
pub const FIND_MATCHES: &'static str = "SELECT id, cmd, cmd_tpl, session_id, when_run, exit_code, selected, dir, rank,
    age_factor, length_factor, exit_factor, recent_failure_factor,
    selected_dir_factor, dir_factor, overlap_factor, immediate_overlap_factor,
    selected_occurrences_factor, occurrences_factor
    FROM contextual_commands
    WHERE cmd LIKE (:like)
    ORDER BY rank DESC LIMIT :limit";

/// The `LIKE` pattern of a search. A plain search may stand anywhere in a command.
/// In a fuzzy one any text may also stand before, between and after its characters.
pub open spec fn like_pattern(cmd: Seq<char>, fuzzy: bool) -> Seq<char> {
    seq!['%'] + (if fuzzy {
        Seq::new(2 * cmd.len() + 1, |k: int| if k % 2 == 0 { '%' } else { cmd[k / 2] })
    } else {
        cmd
    }) + seq!['%']
}

/// The statement that finds at most `num` commands for a search.
pub open spec fn search(cmd: Seq<char>, num: i16, fuzzy: bool) -> StatementView {
    StatementView {
        sql: FIND_MATCHES@,
        params: seq![
            (":like"@, ValueView::Text(like_pattern(cmd, fuzzy))),
            (":limit"@, ValueView::Integer(num as int)),
        ],
    }
}

/// The character indices, from `from` on, at which `needle` stands in `text`: the
/// leftmost first, each after the end of the one before it. An empty needle stands
/// before every character and at the end.
pub open spec fn occurrences(needle: Seq<char>, text: Seq<char>, from: int) -> Seq<int>
    decreases text.len() + 1 - from,
{
    if from < 0 || from + needle.len() > text.len() {
        Seq::empty()
    } else if occurs_at(needle, text, from) {
        seq![from] + occurrences(
            needle,
            text,
            from + if needle.len() == 0 { 1 } else { needle.len() as int },
        )
    } else {
        occurrences(needle, text, from + 1)
    }
}

/// The character indices in `text`, from `from` on, that spell `search` from its
/// character `k` on, each index the first that can be taken.
pub open spec fn greedy(search: Seq<char>, text: Seq<char>, from: int, k: int) -> Seq<int>
    decreases text.len() - from,
{
    if from < 0 || k < 0 || from >= text.len() || k >= search.len() {
        Seq::empty()
    } else if text[from] == search[k] {
        seq![from] + greedy(search, text, from + 1, k + 1)
    } else {
        greedy(search, text, from + 1, k)
    }
}

/// Where a plain search matches: the byte offset of each occurrence, and the offset
/// `width` bytes after it.
pub open spec fn literal_bounds(text: Seq<char>, needle: Seq<char>, width: int) -> Seq<(int, int)> {
    occurrences(needle, text, 0).map_values(
        |i: int| (byte_offset(text, i) as int, byte_offset(text, i) + width),
    )
}

/// Where a fuzzy search matches: from the byte offset of the first character taken to
/// one past that of the last. Where nothing is taken, the first byte.
pub open spec fn fuzzy_bounds(text: Seq<char>, search: Seq<char>) -> (int, int) {
    let taken = greedy(search, text, 0, 0);
    if taken.len() == 0 {
        (0, 1)
    } else {
        (byte_offset(text, taken.first()) as int, byte_offset(text, taken.last()) as int + 1)
    }
}

/// Where a search matches in a command, both in lower case; `width` is the byte length
/// of the search as it was typed.
pub open spec fn bounds(
    text: Seq<char>,
    search: Seq<char>,
    width: int,
    fuzzy: bool,
) -> Seq<(int, int)> {
    if fuzzy {
        seq![fuzzy_bounds(text, search)]
    } else {
        literal_bounds(text, search, width)
    }
}

/// Offsets as mathematical integers.
pub open spec fn offsets(pairs: Seq<(usize, usize)>) -> Seq<(int, int)> {
    pairs.map_values(|b: (usize, usize)| (b.0 as int, b.1 as int))
}

/// The `LIKE` pattern of a search.
pub fn like_query(cmd: &str, fuzzy: bool) -> (pattern: String)
    ensures
        pattern@ == like_pattern(cmd@, fuzzy),
{
    let mut pattern = String::new();
    pattern.push('%');
    if fuzzy {
        let chars = characters(cmd);
        let ghost joined = Seq::new(
            2 * cmd@.len() + 1,
            |k: int| if k % 2 == 0 { '%' } else { cmd@[k / 2] },
        );
        pattern.push('%');
        let mut i: usize = 0;
        assert(pattern@ =~= seq!['%'] + joined.take(1));
        while i < chars.len()
            invariant
                i <= chars@.len(),
                chars@ == cmd@,
                joined == Seq::new(
                    2 * cmd@.len() + 1,
                    |k: int| if k % 2 == 0 { '%' } else { cmd@[k / 2] },
                ),
                pattern@ == seq!['%'] + joined.take(2 * i + 1),
            decreases chars@.len() - i,
        {
            pattern.push(chars[i]);
            pattern.push('%');
            i += 1;
            assert(joined.take(2 * i + 1) =~= joined.take(2 * i - 1).push(cmd@[i - 1]).push('%'));
            assert(pattern@ =~= seq!['%'] + joined.take(2 * i + 1));
        }
        assert(joined.take(2 * i + 1) =~= joined);
    } else {
        pattern.append(cmd);
    }
    pattern.push('%');
    assert(pattern@ =~= like_pattern(cmd@, fuzzy));
    pattern
}

fn find_literal(text: &Vec<char>, needle: &Vec<char>, width: usize) -> (found: Vec<(usize, usize)>)
    requires
        byte_offset(text@, text@.len() as int) + width <= usize::MAX,
    ensures
        offsets(found@) == literal_bounds(text@, needle@, width as int),
{
    let mut found: Vec<(usize, usize)> = Vec::new();
    let mut i: usize = 0;
    let mut offset: usize = 0;
    let mut skip: usize = 0;
    let ghost all = occurrences(needle@, text@, 0);
    let ghost mut seen: Seq<int> = Seq::empty();
    let ghost place = |p: int| (byte_offset(text@, p) as int, byte_offset(text@, p) + width);
    assert(text@.take(0) =~= Seq::<char>::empty());
    assert(seen + all =~= all);
    while i < text.len()
        invariant
            i + skip <= text@.len(),
            needle@.len() == 0 ==> skip == 0,
            offset == byte_offset(text@, i as int),
            byte_offset(text@, text@.len() as int) + width <= usize::MAX,
            all == occurrences(needle@, text@, 0),
            all == seen + occurrences(needle@, text@, i + skip),
            place == (|p: int| (byte_offset(text@, p) as int, byte_offset(text@, p) + width)),
            offsets(found@) == seen.map_values(place),
        decreases text@.len() - i,
    {
        proof {
            lemma_byte_offset_increases(text@, i as int, text@.len() as int);
            lemma_byte_offset_increases(text@, i + 1, text@.len() as int);
            lemma_byte_offset_step(text@, i as int);
        }
        if skip > 0 {
            skip -= 1;
        } else if matches_at(needle, text, i) {
            let ghost found_before = found@;
            let ghost seen_before = seen;
            found.push((offset, offset + width));
            if needle.len() > 0 {
                skip = needle.len() - 1;
            }
            proof {
                seen = seen.push(i as int);
                assert(seen + occurrences(needle@, text@, i + 1 + skip) =~= seen_before
                    + occurrences(needle@, text@, i as int));
                assert(offsets(found@) =~= offsets(found_before).push(place(i as int)));
                assert(seen.map_values(place) =~= seen_before.map_values(place).push(
                    place(i as int),
                ));
            }
        }
        offset += char_width(text[i]);
        i += 1;
    }
    if needle.len() == 0 {
        let ghost found_before = found@;
        let ghost seen_before = seen;
        found.push((offset, offset + width));
        proof {
            assert(text@.subrange(i as int, i as int) =~= needle@);
            assert(occurrences(needle@, text@, i + 1) =~= Seq::<int>::empty());
            assert(occurrences(needle@, text@, i as int) =~= seq![i as int]);
            seen = seen.push(i as int);
            assert(all =~= seen);
            assert(offsets(found@) =~= offsets(found_before).push(place(i as int)));
            assert(seen.map_values(place) =~= seen_before.map_values(place).push(place(i as int)));
        }
    } else {
        assert(occurrences(needle@, text@, i as int) =~= Seq::<int>::empty());
        assert(all =~= seen);
    }
    assert(offsets(found@) =~= literal_bounds(text@, needle@, width as int));
    found
}

fn find_fuzzy(text: &Vec<char>, search: &Vec<char>) -> (found: (usize, usize))
    requires
        byte_offset(text@, text@.len() as int) <= usize::MAX,
    ensures
        (found.0 as int, found.1 as int) == fuzzy_bounds(text@, search@),
{
    let mut start: usize = 0;
    let mut last: usize = 0;
    let mut k: usize = 0;
    let mut i: usize = 0;
    let mut offset: usize = 0;
    let ghost all = greedy(search@, text@, 0, 0);
    let ghost mut seen: Seq<int> = Seq::empty();
    assert(text@.take(0) =~= Seq::<char>::empty());
    assert(seen + all =~= all);
    while i < text.len()
        invariant
            i <= text@.len(),
            k <= search@.len(),
            k == seen.len(),
            offset == byte_offset(text@, i as int),
            byte_offset(text@, text@.len() as int) <= usize::MAX,
            all == greedy(search@, text@, 0, 0),
            all == seen + greedy(search@, text@, i as int, k as int),
            seen.len() == 0 ==> start == 0 && last == 0,
            seen.len() > 0 ==> start == byte_offset(text@, seen.first()) && last == byte_offset(
                text@,
                seen.last(),
            ),
            last < offset || (last == 0 && seen.len() == 0),
        decreases text@.len() - i,
    {
        proof {
            lemma_byte_offset_increases(text@, i + 1, text@.len() as int);
            lemma_byte_offset_step(text@, i as int);
        }
        if k < search.len() && text[i] == search[k] {
            if k == 0 {
                start = offset;
            }
            last = offset;
            let ghost seen_before = seen;
            proof {
                seen = seen.push(i as int);
                assert(seen + greedy(search@, text@, i + 1, k + 1) =~= seen_before + greedy(
                    search@,
                    text@,
                    i as int,
                    k as int,
                ));
                assert(seen.first() == if seen_before.len() == 0 {
                    i as int
                } else {
                    seen_before.first()
                });
            }
            k += 1;
        }
        offset += char_width(text[i]);
        i += 1;
    }
    assert(all =~= seen);
    (start, last + 1)
}

/// Where a search matches in a command, both given in lower case. `width` is the byte
/// length of the search as it was typed.
pub fn find_bounds(text: &str, search: &str, width: usize, fuzzy: bool) -> (found: Vec<
    (usize, usize),
>)
    requires
        !fuzzy ==> encode_utf8(text@).len() + width <= usize::MAX,
    ensures
        offsets(found@) == bounds(text@, search@, width as int, fuzzy),
{
    // The bytes of the text can be counted, so its offsets fit in a `usize`.
    let _length = byte_length(text);
    let text_chars = characters(text);
    let search_chars = characters(search);
    assert(text@.take(text@.len() as int) =~= text@);
    if fuzzy {
        let pair = find_fuzzy(&text_chars, &search_chars);
        let found: Vec<(usize, usize)> = vec![pair];
        assert(offsets(found@) =~= bounds(text@, search@, width as int, fuzzy));
        found
    } else {
        find_literal(&text_chars, &search_chars, width)
    }
}

/// Where a search matches in a command, letters in either case. `None` where the
/// offsets would not fit in a `usize`.
pub fn match_bounds(text: &str, cmd: &str, fuzzy: bool) -> (found: Option<Vec<(usize, usize)>>)
    ensures
        found is Some <==> fuzzy || encode_utf8(lowercase(text@)).len() + encode_utf8(cmd@).len()
            <= usize::MAX,
        found is Some ==> offsets(found->0@) == bounds(
            lowercase(text@),
            lowercase(cmd@),
            encode_utf8(cmd@).len() as int,
            fuzzy,
        ),
        is_ascii_chars(text@) && is_ascii_chars(cmd@) ==> (found is Some <==> fuzzy || text@.len()
            + cmd@.len() <= usize::MAX),
        found is Some && is_ascii_chars(text@) && is_ascii_chars(cmd@) ==> offsets(found->0@)
            == bounds(
            ascii_lowercase_text(text@),
            ascii_lowercase_text(cmd@),
            encode_utf8(cmd@).len() as int,
            fuzzy,
        ),
{
    let lower_text = to_lowercase(text);
    let lower_cmd = to_lowercase(cmd);
    let width = byte_length(cmd);
    let length = byte_length(lower_text.as_str());
    proof {
        if is_ascii_chars(text@) && is_ascii_chars(cmd@) {
            lemma_ascii_lowercase_bytes(text@);
            is_ascii_chars_encode_utf8(cmd@);
        }
    }
    if !fuzzy && length > usize::MAX - width {
        return None;
    }
    Some(find_bounds(lower_text.as_str(), lower_cmd.as_str(), width, fuzzy))
}

/// The length of the first match of a command.
pub fn match_length(found: &Vec<(usize, usize)>) -> (length: usize)
    requires
        found@.len() > 0,
        found@[0].0 <= found@[0].1,
    ensures
        length == found@[0].1 - found@[0].0,
{
    found[0].1 - found[0].0
}

impl History {
    /// The statement that finds at most `num` commands for a search.
    pub fn find_matches(cmd: &str, num: i16, fuzzy: bool) -> (statement: Statement)
        ensures
            statement@ == search(cmd@, num, fuzzy),
    {
        let pattern = like_query(cmd, fuzzy);
        let statement = Statement::new(FIND_MATCHES).bind_text(
            ":like",
            pattern.as_str(),
        ).bind_integer(":limit", num as i64);
        assert(statement@ =~= search(cmd@, num, fuzzy));
        statement
    }

    /// A found command, with the places where the search matches it. `None` where their
    /// offsets would not fit in a `usize`.
    pub fn matched(command: Command, cmd: &str, fuzzy: bool) -> (found: Option<Command>)
        ensures
            found is Some <==> fuzzy || encode_utf8(lowercase(command.cmd@)).len() + encode_utf8(
                cmd@,
            ).len() <= usize::MAX,
            found matches Some(f) ==> f@ == (CommandView {
                match_bounds: f.match_bounds@,
                ..command@
            }) && offsets(f.match_bounds@) == bounds(
                lowercase(command.cmd@),
                lowercase(cmd@),
                encode_utf8(cmd@).len() as int,
                fuzzy,
            ),
            is_ascii_chars(command.cmd@) && is_ascii_chars(cmd@) ==> (found is Some <==> fuzzy
                || command.cmd@.len() + cmd@.len() <= usize::MAX),
            found matches Some(f) ==> is_ascii_chars(command.cmd@) && is_ascii_chars(cmd@)
                ==> offsets(f.match_bounds@) == bounds(
                ascii_lowercase_text(command.cmd@),
                ascii_lowercase_text(cmd@),
                encode_utf8(cmd@).len() as int,
                fuzzy,
            ),
    {
        let mut command = command;
        match match_bounds(command.cmd.as_str(), cmd, fuzzy) {
            None => None,
            Some(found) => {
                command.match_bounds = found;
                Some(command)
            },
        }
    }
}

/// Whether the indices `at`, one for each character of `search`, pick that search out of
/// `text` from left to right.
pub open spec fn spells(at: Seq<int>, search: Seq<char>, text: Seq<char>) -> bool {
    &&& at.len() == search.len()
    &&& forall|k: int| 0 <= k < at.len() ==> 0 <= #[trigger] at[k] < text.len() && text[at[k]] == search[k]
    &&& forall|j: int, k: int| 0 <= j < k < at.len() ==> at[j] < at[k]
}

proof fn lemma_filter_push(s: Seq<char>, c: char, keep: spec_fn(char) -> bool)
    ensures
        s.push(c).filter(keep) == if keep(c) {
            s.filter(keep).push(c)
        } else {
            s.filter(keep)
        },
{
    reveal(Seq::filter);
    assert(s.push(c).drop_last() =~= s);
}

proof fn lemma_fuzzy_pattern_letters(cmd: Seq<char>)
    ensures
        Seq::new(2 * cmd.len() + 1, |k: int| if k % 2 == 0 { '%' } else { cmd[k / 2] }).filter(
            |c: char| c != '%',
        ) == cmd.filter(|c: char| c != '%'),
    decreases cmd.len(),
{
    let keep = |c: char| c != '%';
    let joined = Seq::new(2 * cmd.len() + 1, |k: int| if k % 2 == 0 { '%' } else { cmd[k / 2] });
    if cmd.len() == 0 {
        assert(joined =~= Seq::<char>::empty().push('%'));
        lemma_filter_push(Seq::empty(), '%', keep);
        assert(cmd =~= Seq::<char>::empty());
    } else {
        let rest = cmd.drop_last();
        let shorter = Seq::new(
            2 * rest.len() + 1,
            |k: int| if k % 2 == 0 { '%' } else { rest[k / 2] },
        );
        lemma_fuzzy_pattern_letters(rest);
        assert(joined =~= shorter.push(cmd.last()).push('%'));
        lemma_filter_push(shorter, cmd.last(), keep);
        lemma_filter_push(shorter.push(cmd.last()), '%', keep);
        assert(cmd =~= rest.push(cmd.last()));
        lemma_filter_push(rest, cmd.last(), keep);
    }
}

proof fn lemma_filter_prepend(c: char, s: Seq<char>, keep: spec_fn(char) -> bool)
    requires
        !keep(c),
    ensures
        (seq![c] + s).filter(keep) == s.filter(keep),
    decreases s.len(),
{
    if s.len() == 0 {
        lemma_filter_push(Seq::empty(), c, keep);
        assert(seq![c] + s =~= Seq::<char>::empty().push(c));
        assert(s =~= Seq::<char>::empty());
    } else {
        lemma_filter_prepend(c, s.drop_last(), keep);
        assert(seq![c] + s =~= (seq![c] + s.drop_last()).push(s.last()));
        assert(s =~= s.drop_last().push(s.last()));
        lemma_filter_push(seq![c] + s.drop_last(), s.last(), keep);
        lemma_filter_push(s.drop_last(), s.last(), keep);
    }
}

/// A pattern adds nothing but `%` to the search: without them both read the same.
pub proof fn law_pattern_keeps_the_search(cmd: Seq<char>, fuzzy: bool)
    ensures
        like_pattern(cmd, fuzzy).filter(|c: char| c != '%') == cmd.filter(|c: char| c != '%'),
{
    let keep = |c: char| c != '%';
    let middle = if fuzzy {
        Seq::new(2 * cmd.len() + 1, |k: int| if k % 2 == 0 { '%' } else { cmd[k / 2] })
    } else {
        cmd
    };
    lemma_fuzzy_pattern_letters(cmd);
    assert(like_pattern(cmd, fuzzy) =~= (seq!['%'] + middle).push('%'));
    lemma_filter_push(seq!['%'] + middle, '%', keep);
    lemma_filter_prepend('%', middle, keep);
}

proof fn lemma_occurrences_after(needle: Seq<char>, text: Seq<char>, from: int)
    requires
        0 <= from,
    ensures
        forall|k: int|
            0 <= k < occurrences(needle, text, from).len() ==> from <= #[trigger] occurrences(
                needle,
                text,
                from,
            )[k] && occurs_at(needle, text, occurrences(needle, text, from)[k]),
    decreases text.len() + 1 - from,
{
    let all = occurrences(needle, text, from);
    if from + needle.len() <= text.len() {
        if occurs_at(needle, text, from) {
            let next = from + if needle.len() == 0 { 1 } else { needle.len() as int };
            let rest = occurrences(needle, text, next);
            lemma_occurrences_after(needle, text, next);
            assert(all == seq![from] + rest);
            assert forall|k: int| 0 <= k < all.len() implies from <= #[trigger] all[k]
                && occurs_at(needle, text, all[k]) by {
                if k > 0 {
                    assert(all[k] == rest[k - 1]);
                }
            }
        } else {
            lemma_occurrences_after(needle, text, from + 1);
            assert(all == occurrences(needle, text, from + 1));
        }
    }
}

proof fn lemma_occurrences_apart(needle: Seq<char>, text: Seq<char>, from: int)
    requires
        0 <= from,
    ensures
        forall|j: int, k: int|
            0 <= j < k < occurrences(needle, text, from).len() ==> #[trigger] occurrences(
                needle,
                text,
                from,
            )[j] + needle.len() <= #[trigger] occurrences(needle, text, from)[k] && occurrences(
                needle,
                text,
                from,
            )[j] < occurrences(needle, text, from)[k],
    decreases text.len() + 1 - from,
{
    if from + needle.len() <= text.len() {
        if occurs_at(needle, text, from) {
            let next = from + if needle.len() == 0 { 1 } else { needle.len() as int };
            lemma_occurrences_after(needle, text, next);
            lemma_occurrences_apart(needle, text, next);
            let rest = occurrences(needle, text, next);
            let all = occurrences(needle, text, from);
            assert(all == seq![from] + rest);
            assert forall|j: int, k: int| 0 <= j < k < all.len() implies #[trigger] all[j]
                + needle.len() <= #[trigger] all[k] && all[j] < all[k] by {
                assert(all[k] == rest[k - 1]);
                if j > 0 {
                    assert(all[j] == rest[j - 1]);
                }
            }
        } else {
            lemma_occurrences_apart(needle, text, from + 1);
            assert(occurrences(needle, text, from) == occurrences(needle, text, from + 1));
        }
    }
}

proof fn lemma_occurrences_complete(needle: Seq<char>, text: Seq<char>, from: int, at: int) -> (k:
    int)
    requires
        0 <= from <= at,
        occurs_at(needle, text, at),
    ensures
        0 <= k < occurrences(needle, text, from).len(),
        occurrences(needle, text, from)[k] <= at,
        at == occurrences(needle, text, from)[k] || at < occurrences(needle, text, from)[k]
            + needle.len(),
    decreases text.len() + 1 - from,
{
    if occurs_at(needle, text, from) {
        let next = from + if needle.len() == 0 { 1 } else { needle.len() as int };
        if at < next {
            0
        } else {
            let k = lemma_occurrences_complete(needle, text, next, at);
            assert(occurrences(needle, text, from)[k + 1] == occurrences(needle, text, next)[k]);
            k + 1
        }
    } else {
        lemma_occurrences_complete(needle, text, from + 1, at)
    }
}

/// A plain search finds occurrences only, from left to right and none inside another.
pub proof fn law_literal_matches_are_disjoint_occurrences(needle: Seq<char>, text: Seq<char>)
    ensures
        forall|k: int|
            0 <= k < occurrences(needle, text, 0).len() ==> occurs_at(
                needle,
                text,
                #[trigger] occurrences(needle, text, 0)[k],
            ),
        forall|j: int, k: int|
            0 <= j < k < occurrences(needle, text, 0).len() ==> #[trigger] occurrences(
                needle,
                text,
                0,
            )[j] + needle.len() <= #[trigger] occurrences(needle, text, 0)[k] && occurrences(
                needle,
                text,
                0,
            )[j] < occurrences(needle, text, 0)[k],
{
    lemma_occurrences_after(needle, text, 0);
    lemma_occurrences_apart(needle, text, 0);
}

/// A plain search misses nothing: every occurrence is found, or begins inside one that is.
pub proof fn law_literal_matches_are_complete(needle: Seq<char>, text: Seq<char>, at: int)
    requires
        occurs_at(needle, text, at),
    ensures
        exists|k: int|
            0 <= k < occurrences(needle, text, 0).len() && (#[trigger] occurrences(
                needle,
                text,
                0,
            )[k] == at || occurrences(needle, text, 0)[k] < at < occurrences(needle, text, 0)[k]
                + needle.len()),
{
    let k = lemma_occurrences_complete(needle, text, 0, at);
    assert(occurrences(needle, text, 0)[k] <= at);
}

proof fn lemma_greedy_spells(search: Seq<char>, text: Seq<char>, from: int, k: int)
    requires
        0 <= from <= text.len(),
        0 <= k <= search.len(),
    ensures
        greedy(search, text, from, k).len() <= search.len() - k,
        forall|j: int|
            0 <= j < greedy(search, text, from, k).len() ==> from <= #[trigger] greedy(
                search,
                text,
                from,
                k,
            )[j] < text.len() && text[greedy(search, text, from, k)[j]] == search[k + j],
        forall|i: int, j: int|
            0 <= i < j < greedy(search, text, from, k).len() ==> #[trigger] greedy(
                search,
                text,
                from,
                k,
            )[i] < #[trigger] greedy(search, text, from, k)[j],
    decreases text.len() - from,
{
    if from < text.len() && k < search.len() {
        if text[from] == search[k] {
            lemma_greedy_spells(search, text, from + 1, k + 1);
            let rest = greedy(search, text, from + 1, k + 1);
            let all = greedy(search, text, from, k);
            assert forall|j: int| 0 <= j < all.len() implies from <= #[trigger] all[j] < text.len()
                && text[all[j]] == search[k + j] by {
                if j > 0 {
                    assert(all[j] == rest[j - 1]);
                }
            }
            assert forall|i: int, j: int| 0 <= i < j < all.len() implies #[trigger] all[i]
                < #[trigger] all[j] by {
                assert(all[j] == rest[j - 1]);
                if i > 0 {
                    assert(all[i] == rest[i - 1]);
                }
            }
        } else {
            lemma_greedy_spells(search, text, from + 1, k);
        }
    }
}

proof fn lemma_greedy_earliest(
    search: Seq<char>,
    text: Seq<char>,
    at: Seq<int>,
    from: int,
    k: int,
)
    requires
        spells(at, search, text),
        0 <= from <= text.len(),
        0 <= k <= search.len(),
        k < search.len() ==> from <= at[k],
    ensures
        greedy(search, text, from, k).len() == search.len() - k,
        forall|j: int|
            0 <= j < search.len() - k ==> #[trigger] greedy(search, text, from, k)[j] <= at[k + j],
    decreases text.len() - from,
{
    if k < search.len() {
        if text[from] == search[k] {
            if k + 1 < search.len() {
                assert(at[k] < at[k + 1]);
            }
            lemma_greedy_earliest(search, text, at, from + 1, k + 1);
            let rest = greedy(search, text, from + 1, k + 1);
            let all = greedy(search, text, from, k);
            assert forall|j: int| 0 <= j < search.len() - k implies #[trigger] all[j] <= at[k
                + j] by {
                if j > 0 {
                    assert(all[j] == rest[j - 1]);
                    assert(rest[j - 1] <= at[k + 1 + (j - 1)]);
                }
            }
        } else {
            lemma_greedy_earliest(search, text, at, from + 1, k);
        }
    }
}

/// The characters that a fuzzy search takes stand in order and read like the beginning
/// of the search, or like all of it.
pub proof fn law_fuzzy_takes_the_search_in_order(search: Seq<char>, text: Seq<char>)
    ensures
        greedy(search, text, 0, 0).len() <= search.len(),
        spells(
            greedy(search, text, 0, 0),
            search.take(greedy(search, text, 0, 0).len() as int),
            text,
        ),
{
    lemma_greedy_spells(search, text, 0, 0);
}

/// Wherever the search can be picked out of a text from left to right, a fuzzy search
/// takes all of it, and no character later than it has to.
pub proof fn law_fuzzy_takes_the_earliest(search: Seq<char>, text: Seq<char>, at: Seq<int>)
    requires
        spells(at, search, text),
    ensures
        spells(greedy(search, text, 0, 0), search, text),
        forall|k: int|
            0 <= k < search.len() ==> #[trigger] greedy(search, text, 0, 0)[k] <= at[k],
{
    lemma_greedy_earliest(search, text, at, 0, 0);
    lemma_greedy_spells(search, text, 0, 0);
    let all = greedy(search, text, 0, 0);
    assert forall|k: int| 0 <= k < search.len() implies #[trigger] all[k] <= at[k] by {
        assert(all[k] <= at[0 + k]);
    }
}

/// A fuzzy search has one match, and that match is not empty. So the lengths of two
/// matches have a sum to weigh them by.
pub proof fn law_fuzzy_match_is_never_empty(text: Seq<char>, search: Seq<char>, width: int)
    ensures
        bounds(text, search, width, true).len() == 1,
        0 <= bounds(text, search, width, true)[0].0 < bounds(text, search, width, true)[0].1,
{
    let taken = greedy(search, text, 0, 0);
    lemma_greedy_spells(search, text, 0, 0);
    if taken.len() > 0 {
        assert(taken.first() == taken[0]);
        assert(taken.last() == taken[taken.len() - 1]);
        if taken.len() > 1 {
            assert(taken[0] < taken[taken.len() - 1]);
        }
        lemma_byte_offset_increases(text, taken.first(), taken.last());
    }
}

proof fn lemma_occurrence_bytes(needle: Seq<char>, text: Seq<char>, at: int)
    requires
        occurs_at(needle, text, at),
    ensures
        byte_offset(text, at + needle.len()) == byte_offset(text, at) + encode_utf8(needle).len(),
        byte_offset(text, at) + encode_utf8(needle).len() <= encode_utf8(text).len(),
        encode_utf8(text).subrange(
            byte_offset(text, at) as int,
            byte_offset(text, at) + encode_utf8(needle).len() as int,
        ) == encode_utf8(needle),
{
    let before = text.take(at);
    let after = text.skip(at + needle.len());
    assert(text.take(at + needle.len()) =~= before + needle);
    assert(text =~= (before + needle) + after);
    lemma_encode_concat(before, needle);
    lemma_encode_concat(before + needle, after);
    assert(encode_utf8(text).subrange(
        byte_offset(text, at) as int,
        byte_offset(text, at) + encode_utf8(needle).len() as int,
    ) =~= encode_utf8(needle));
}

/// The bounds of a plain search mark the search itself in the bytes of the text, from left
/// to right and none inside another, as long as its lower case takes as many bytes as it
/// did when typed.
pub proof fn law_literal_bounds_mark_the_search(text: Seq<char>, needle: Seq<char>, width: int)
    requires
        width == encode_utf8(needle).len(),
    ensures
        forall|k: int|
            0 <= k < literal_bounds(text, needle, width).len() ==> ({
                let b = #[trigger] literal_bounds(text, needle, width)[k];
                &&& 0 <= b.0 <= b.1 <= encode_utf8(text).len()
                &&& encode_utf8(text).subrange(b.0, b.1) == encode_utf8(needle)
            }),
        forall|j: int, k: int|
            0 <= j < k < literal_bounds(text, needle, width).len() ==> (
            #[trigger] literal_bounds(text, needle, width)[j]).1 <= (
            #[trigger] literal_bounds(text, needle, width)[k]).0,
{
    let found = occurrences(needle, text, 0);
    let marks = literal_bounds(text, needle, width);
    law_literal_matches_are_disjoint_occurrences(needle, text);
    assert forall|k: int| 0 <= k < marks.len() implies ({
        let b = #[trigger] marks[k];
        &&& 0 <= b.0 <= b.1 <= encode_utf8(text).len()
        &&& encode_utf8(text).subrange(b.0, b.1) == encode_utf8(needle)
    }) by {
        lemma_occurrence_bytes(needle, text, found[k]);
    }
    assert forall|j: int, k: int| 0 <= j < k < marks.len() implies (#[trigger] marks[j]).1 <= (
    #[trigger] marks[k]).0 by {
        assert(found[j] + needle.len() <= found[k]);
        assert(occurs_at(needle, text, found[k]));
        lemma_occurrence_bytes(needle, text, found[j]);
        lemma_byte_offset_increases(text, found[j] + needle.len(), found[k]);
    }
}

/// The pattern of a search holds the characters of the search in their order. A plain one
/// has a `%` before and after them; a fuzzy one has one more before, between and after.
pub proof fn law_a_pattern_holds_the_search_in_order(cmd: &str, fuzzy: bool, pattern: String)
    requires
        call_ensures(like_query, (cmd, fuzzy), pattern),
    ensures
        pattern@[0] == '%',
        pattern@.last() == '%',
        !fuzzy ==> pattern@.len() == cmd@.len() + 2 && forall|i: int|
            0 <= i < cmd@.len() ==> pattern@[i + 1] == #[trigger] cmd@[i],
        fuzzy ==> pattern@.len() == 2 * cmd@.len() + 3 && pattern@[1] == '%' && forall|i: int|
            0 <= i < cmd@.len() ==> pattern@[2 * i + 2] == #[trigger] cmd@[i] && pattern@[2 * i
                + 3] == '%',
{
    if fuzzy {
        assert forall|i: int| 0 <= i < cmd@.len() implies pattern@[2 * i + 2] == #[trigger] cmd@[i]
            && pattern@[2 * i + 3] == '%' by {
            assert((2 * i + 1) % 2 == 1 && (2 * i + 1) / 2 == i);
            assert((2 * i + 2) % 2 == 0);
        }
    }
}

/// Commands are found by the pattern of the search, and no more of them than asked for.
pub proof fn law_a_search_binds_its_pattern(
    cmd: &str,
    num: i16,
    fuzzy: bool,
    pattern: String,
    statement: Statement,
)
    requires
        call_ensures(like_query, (cmd, fuzzy), pattern),
        call_ensures(History::find_matches, (cmd, num, fuzzy), statement),
    ensures
        statement@.sql == FIND_MATCHES@,
        statement@.params.len() == 2,
        binds(statement@, ":like"@, ValueView::Text(pattern@)),
        binds(statement@, ":limit"@, ValueView::Integer(num as int)),
{
    let params = statement@.params;
    assert(params.contains(params[0]) && params.contains(params[1]));
}

/// Each match of a plain search begins at the bytes of an occurrence of the search, and is
/// as wide as the search was typed.
pub proof fn law_a_plain_match_is_an_occurrence(
    text: &str,
    search: &str,
    width: usize,
    found: Vec<(usize, usize)>,
    k: int,
)
    requires
        call_ensures(find_bounds, (text, search, width, false), found),
        0 <= k < found@.len(),
    ensures
        exists|i: int|
            #![trigger text@.take(i)]
            0 <= i <= text@.len() - search@.len() && text@.subrange(i, i + search@.len()) == search@
                && found@[k].0 == encode_utf8(text@.take(i)).len(),
        found@[k].1 == found@[k].0 + width,
{
    let i = occurrences(search@, text@, 0)[k];
    assert(offsets(found@).len() == found@.len());
    assert(offsets(found@)[k] == literal_bounds(text@, search@, width as int)[k]);
    law_literal_matches_are_disjoint_occurrences(search@, text@);
    assert(occurs_at(search@, text@, i));
    assert(found@[k].0 == encode_utf8(text@.take(i)).len());
}

/// The matches of a plain search come from left to right, none inside another.
pub proof fn law_plain_matches_come_from_left_to_right(
    text: &str,
    search: &str,
    width: usize,
    found: Vec<(usize, usize)>,
    j: int,
    k: int,
)
    requires
        call_ensures(find_bounds, (text, search, width, false), found),
        0 <= j < k < found@.len(),
    ensures
        found@[j].0 + encode_utf8(search@).len() <= found@[k].0,
        found@[j].0 < found@[k].0,
{
    let all = occurrences(search@, text@, 0);
    assert(offsets(found@).len() == found@.len());
    assert(offsets(found@)[j] == literal_bounds(text@, search@, width as int)[j]);
    assert(offsets(found@)[k] == literal_bounds(text@, search@, width as int)[k]);
    law_literal_matches_are_disjoint_occurrences(search@, text@);
    assert(occurs_at(search@, text@, all[j]) && occurs_at(search@, text@, all[k]));
    assert(all[j] + search@.len() <= all[k]);
    lemma_occurrence_bytes(search@, text@, all[j]);
    lemma_byte_offset_increases(text@, all[j] + search@.len(), all[k]);
    lemma_byte_offset_increases(text@, all[j], all[k]);
}

/// Every occurrence of a plain search is a match, or begins inside one.
pub proof fn law_a_plain_search_misses_nothing(
    text: &str,
    search: &str,
    width: usize,
    found: Vec<(usize, usize)>,
    at: int,
)
    requires
        call_ensures(find_bounds, (text, search, width, false), found),
        0 <= at <= text@.len() - search@.len(),
        text@.subrange(at, at + search@.len()) == search@,
    ensures
        exists|k: int|
            0 <= k < found@.len() && ({
                let start = (#[trigger] found@[k]).0;
                let offset = encode_utf8(text@.take(at)).len();
                start == offset || start < offset < start + encode_utf8(search@).len()
            }),
{
    let all = occurrences(search@, text@, 0);
    assert(occurs_at(search@, text@, at));
    let k = lemma_occurrences_complete(search@, text@, 0, at);
    law_literal_matches_are_disjoint_occurrences(search@, text@);
    assert(occurs_at(search@, text@, all[k]));
    assert(offsets(found@).len() == found@.len());
    assert(offsets(found@)[k] == literal_bounds(text@, search@, width as int)[k]);
    assert(found@[k].0 == byte_offset(text@, all[k]));
    if at != all[k] {
        lemma_byte_offset_increases(text@, all[k], at);
        lemma_byte_offset_increases(text@, at, all[k] + search@.len());
        lemma_occurrence_bytes(search@, text@, all[k]);
    }
}

proof fn lemma_greedy_of_beginning(search: Seq<char>, text: Seq<char>, from: int, k: int, m: int)
    requires
        0 <= from <= text.len(),
        0 <= k <= m <= search.len(),
    ensures
        greedy(search.take(m), text, from, k) == greedy(search, text, from, k).take(
            if greedy(search, text, from, k).len() < m - k {
                greedy(search, text, from, k).len() as int
            } else {
                m - k
            },
        ),
    decreases text.len() - from,
{
    let all = greedy(search, text, from, k);
    let some = greedy(search.take(m), text, from, k);
    if from < text.len() && k < m {
        if text[from] == search[k] {
            lemma_greedy_of_beginning(search, text, from + 1, k + 1, m);
            let rest = greedy(search, text, from + 1, k + 1);
            assert(all == seq![from] + rest);
            assert(some == seq![from] + greedy(search.take(m), text, from + 1, k + 1));
        } else {
            lemma_greedy_of_beginning(search, text, from + 1, k, m);
        }
    }
    assert(some =~= all.take(
        if all.len() < m - k {
            all.len() as int
        } else {
            m - k
        },
    ));
}

/// Whether the indices `at` pick as much of the beginning of `search` out of `text`, from
/// left to right, as can be picked, and each character as early as it can be.
pub open spec fn picked(at: Seq<int>, search: Seq<char>, text: Seq<char>) -> bool {
    let beginning = search.take(at.len() as int);
    let more = search.take(at.len() as int + 1);
    &&& at.len() <= search.len()
    &&& spells(at, beginning, text)
    &&& forall|other: Seq<int>, k: int|
        spells(other, beginning, text) && 0 <= k < at.len() ==> at[k] <= #[trigger] other[k]
    &&& at.len() < search.len() ==> forall|other: Seq<int>| !spells(other, more, text)
}

proof fn lemma_greedy_picks(search: Seq<char>, text: Seq<char>)
    ensures
        picked(greedy(search, text, 0, 0), search, text),
{
    let all = greedy(search, text, 0, 0);
    let n = all.len() as int;
    law_fuzzy_takes_the_search_in_order(search, text);
    lemma_greedy_of_beginning(search, text, 0, 0, n);
    assert(all.take(n) =~= all);
    assert forall|other: Seq<int>, k: int|
        spells(other, search.take(n), text) && 0 <= k < n implies all[k] <= #[trigger] other[k] by {
        law_fuzzy_takes_the_earliest(search.take(n), text, other);
    }
    if n < search.len() {
        let more = search.take(n + 1);
        assert forall|other: Seq<int>| !spells(other, more, text) by {
            if spells(other, more, text) {
                law_fuzzy_takes_the_earliest(more, text, other);
                lemma_greedy_of_beginning(search, text, 0, 0, n + 1);
            }
        }
    }
}

proof fn lemma_picked_is_one(a: Seq<int>, b: Seq<int>, search: Seq<char>, text: Seq<char>)
    requires
        picked(a, search, text),
        picked(b, search, text),
    ensures
        a == b,
{
    if a.len() < b.len() {
        let m = a.len() as int + 1;
        assert(search.take(b.len() as int).take(m) =~= search.take(m));
        assert(spells(b.take(m), search.take(m), text));
    } else if b.len() < a.len() {
        let m = b.len() as int + 1;
        assert(search.take(a.len() as int).take(m) =~= search.take(m));
        assert(spells(a.take(m), search.take(m), text));
    } else {
        assert forall|k: int| 0 <= k < a.len() implies a[k] == b[k] by {
            assert(a[k] <= b[k] && b[k] <= a[k]);
        }
        assert(a =~= b);
    }
}

/// A fuzzy match reaches from the first character picked to one byte past the beginning of
/// the last one picked, where as much of the search as possible is picked, each character
/// as early as possible. Where nothing can be picked it is the first byte.
pub proof fn law_a_fuzzy_match_reaches_from_first_to_last(
    text: &str,
    search: &str,
    width: usize,
    found: Vec<(usize, usize)>,
    at: Seq<int>,
)
    requires
        call_ensures(find_bounds, (text, search, width, true), found),
        picked(at, search@, text@),
    ensures
        found@.len() == 1,
        at.len() > 0 ==> found@[0].0 == encode_utf8(text@.take(at[0])).len() && found@[0].1
            == encode_utf8(text@.take(at[at.len() - 1])).len() + 1,
        at.len() == 0 ==> found@[0].0 == 0 && found@[0].1 == 1,
{
    lemma_greedy_picks(search@, text@);
    lemma_picked_is_one(at, greedy(search@, text@, 0, 0), search@, text@);
    assert(offsets(found@).len() == found@.len());
    assert(offsets(found@)[0] == fuzzy_bounds(text@, search@));
}

/// Out of every text something is picked in just one way, be it nothing.
pub proof fn law_there_is_always_one_pick(search: Seq<char>, text: Seq<char>)
    ensures
        exists|at: Seq<int>| picked(at, search, text),
        forall|a: Seq<int>, b: Seq<int>|
            picked(a, search, text) && picked(b, search, text) ==> a == b,
{
    lemma_greedy_picks(search, text);
    assert forall|a: Seq<int>, b: Seq<int>|
        picked(a, search, text) && picked(b, search, text) implies a == b by {
        lemma_picked_is_one(a, b, search, text);
    }
}

proof fn lemma_offsets_tell_pairs(a: Seq<(usize, usize)>, b: Seq<(usize, usize)>)
    requires
        offsets(a) == offsets(b),
    ensures
        a == b,
{
    assert(offsets(a).len() == a.len() && offsets(b).len() == b.len());
    assert forall|i: int| 0 <= i < a.len() implies a[i] == b[i] by {
        assert(offsets(a)[i] == offsets(b)[i]);
    }
    assert(a =~= b);
}

/// A search matches a command as its lower case matches that of the command, as wide as it
/// was typed.
pub proof fn law_the_lower_case_is_searched(
    text: &str,
    cmd: &str,
    lower_text: &str,
    lower_cmd: &str,
    width: usize,
    fuzzy: bool,
    found: Option<Vec<(usize, usize)>>,
    plain: Vec<(usize, usize)>,
)
    requires
        lower_text@ == lowercase(text@),
        lower_cmd@ == lowercase(cmd@),
        width == encode_utf8(cmd@).len(),
        call_ensures(match_bounds, (text, cmd, fuzzy), found),
        call_ensures(find_bounds, (lower_text, lower_cmd, width, fuzzy), plain),
    ensures
        found is Some <==> fuzzy || encode_utf8(lower_text@).len() + width <= usize::MAX,
        found matches Some(pairs) ==> pairs@ == plain@,
{
    if let Some(pairs) = found {
        lemma_offsets_tell_pairs(pairs@, plain@);
    }
}

/// An ASCII search matches an ASCII command with the letters `A` to `Z` of both in lower
/// case.
pub proof fn law_ascii_letters_match_in_either_case(
    text: &str,
    cmd: &str,
    lower_text: &str,
    lower_cmd: &str,
    width: usize,
    fuzzy: bool,
    found: Option<Vec<(usize, usize)>>,
    plain: Vec<(usize, usize)>,
)
    requires
        is_ascii_chars(text@),
        is_ascii_chars(cmd@),
        lower_text@.len() == text@.len(),
        lower_cmd@.len() == cmd@.len(),
        forall|i: int|
            0 <= i < text@.len() ==> #[trigger] lower_text@[i] as int == if 'A' <= text@[i] <= 'Z' {
                text@[i] as int + 32
            } else {
                text@[i] as int
            },
        forall|i: int|
            0 <= i < cmd@.len() ==> #[trigger] lower_cmd@[i] as int == if 'A' <= cmd@[i] <= 'Z' {
                cmd@[i] as int + 32
            } else {
                cmd@[i] as int
            },
        width == cmd@.len(),
        call_ensures(match_bounds, (text, cmd, fuzzy), found),
        call_ensures(find_bounds, (lower_text, lower_cmd, width, fuzzy), plain),
    ensures
        found is Some <==> fuzzy || text@.len() + width <= usize::MAX,
        found matches Some(pairs) ==> pairs@ == plain@,
{
    assert(lower_text@ =~= ascii_lowercase_text(text@));
    assert(lower_cmd@ =~= ascii_lowercase_text(cmd@));
    is_ascii_chars_encode_utf8(cmd@);
    if let Some(pairs) = found {
        lemma_offsets_tell_pairs(pairs@, plain@);
    }
}

/// A found command is the command that was read, with the places where the search matches
/// its text.
pub proof fn law_a_found_command_gains_its_matches(
    command: Command,
    text: &str,
    cmd: &str,
    fuzzy: bool,
    pairs: Option<Vec<(usize, usize)>>,
    found: Option<Command>,
)
    requires
        text@ == command.cmd@,
        call_ensures(match_bounds, (text, cmd, fuzzy), pairs),
        call_ensures(History::matched, (command, cmd, fuzzy), found),
    ensures
        found is Some <==> pairs is Some,
        found matches Some(f) ==> ({
            &&& f.match_bounds@ == pairs->0@
            &&& f.id == command.id
            &&& f.cmd@ == command.cmd@
            &&& f.cmd_tpl@ == command.cmd_tpl@
            &&& f.session_id@ == command.session_id@
            &&& f.when_run == command.when_run
            &&& f.exit_code == command.exit_code
            &&& f.selected == command.selected
            &&& f@.dir == command@.dir
        }),
{
    if let Some(f) = found {
        assert(f@.cmd == command@.cmd && f@.id == command@.id);
        lemma_offsets_tell_pairs(f.match_bounds@, pairs->0@);
    }
}

/// The length of a match is what lies between the ends of its first bounds.
pub proof fn law_a_match_is_as_long_as_its_bounds(found: &Vec<(usize, usize)>, length: usize)
    requires
        found@.len() > 0,
        call_ensures(match_length, (found,), length),
    ensures
        found@[0].0 + length == found@[0].1,
{
}

/// This text is what the database is asked when commands are searched for.
pub proof fn law_the_database_is_asked_in_these_words()
    ensures
        FIND_MATCHES@ == "SELECT id, cmd, cmd_tpl, session_id, when_run, exit_code, selected, dir, rank,
    age_factor, length_factor, exit_factor, recent_failure_factor,
    selected_dir_factor, dir_factor, overlap_factor, immediate_overlap_factor,
    selected_occurrences_factor, occurrences_factor
    FROM contextual_commands
    WHERE cmd LIKE (:like)
    ORDER BY rank DESC LIMIT :limit"@,
{
}

} // verus!
