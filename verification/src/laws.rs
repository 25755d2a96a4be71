//! What holds of the interpreter whatever is typed and whatever its
//! surroundings answer.

use vstd::prelude::*;

use crate::argv::is_argument_vector;
use crate::error::{Error, EXIT_CLEAN, EXIT_FAILURE};
use crate::model::{
    distance, is_explicit_path, lemma_step_keeps_inv, listing_at, outcome, run, settle, step,
    ActionView, CommandView, EventView, PhaseView, State,
};
use crate::path::{hit, join, resolve_from, split, ListingView};
use crate::tokenizer::{
    is_blank, is_solid, is_whitespace, lemma_tokens_hold_no_nul, lemma_word_len_bounds,
    lemma_word_len_is, tokens, word_len,
};

verus! {

/// A line that holds nothing but whitespace has no words, and a line
/// without words holds nothing but whitespace.
pub proof fn law_blank_line_has_no_words(line: Seq<char>)
    ensures
        is_blank(line) <==> tokens(line).len() == 0,
    decreases line.len(),
{
    if line.len() > 0 {
        let rest = line.drop_first();
        law_blank_line_has_no_words(rest);
        if is_whitespace(line[0]) {
            if is_blank(line) {
                assert forall|i: int| 0 <= i < rest.len() implies is_whitespace(
                    #[trigger] rest[i],
                ) by {
                    assert(rest[i] == line[i + 1]);
                }
            }
            if is_blank(rest) {
                assert forall|i: int| 0 <= i < line.len() implies is_whitespace(
                    #[trigger] line[i],
                ) by {
                    if i > 0 {
                        assert(line[i] == rest[i - 1]);
                    }
                }
            }
        }
    }
}

/// A text without whitespace that is not empty is its own single word.
pub proof fn law_solid_text_is_one_word(word: Seq<char>)
    requires
        word.len() > 0,
        is_solid(word),
    ensures
        tokens(word) == seq![word],
{
    let n = word.len() as int;
    assert(word.take(n) =~= word);
    lemma_word_len_is(word, n);
    assert(word.skip(n) =~= Seq::<char>::empty());
    assert(tokens(word.skip(n)) =~= Seq::<Seq<char>>::empty());
    assert(tokens(word) =~= seq![word]);
}

/// The first word of a text holds no whitespace, and whitespace or the end
/// of the text follows it.
proof fn lemma_first_word(s: Seq<char>)
    ensures
        word_len(s) <= s.len(),
        is_solid(s.take(word_len(s) as int)),
        word_len(s) == s.len() || is_whitespace(s[word_len(s) as int]),
    decreases s.len(),
{
    if s.len() > 0 && !is_whitespace(s[0]) {
        let rest = s.drop_first();
        lemma_first_word(rest);
        let n = word_len(s) as int;
        assert forall|i: int| 0 <= i < n implies !is_whitespace(#[trigger] s.take(n)[i]) by {
            if i > 0 {
                assert(s.take(n)[i] == rest.take(n - 1)[i - 1]);
            }
        }
    }
}

/// Whitespace parts words: the words of a text in which a whitespace
/// character stands are the words before that character and then the words
/// after it.
pub proof fn law_whitespace_parts_words(before: Seq<char>, c: char, after: Seq<char>)
    requires
        is_whitespace(c),
    ensures
        tokens(before.push(c) + after) == tokens(before) + tokens(after),
    decreases before.len(),
{
    let whole = before.push(c) + after;
    if before.len() == 0 {
        assert(whole.drop_first() =~= after);
        assert(tokens(before) + tokens(after) =~= tokens(after));
    } else if is_whitespace(before[0]) {
        law_whitespace_parts_words(before.drop_first(), c, after);
        assert(whole.drop_first() =~= before.drop_first().push(c) + after);
    } else {
        lemma_first_word(before);
        let n = word_len(before) as int;
        assert(whole.take(n) =~= before.take(n));
        lemma_word_len_is(whole, n);
        law_whitespace_parts_words(before.skip(n), c, after);
        assert(whole.skip(n) =~= before.skip(n).push(c) + after);
        assert(tokens(whole) =~= tokens(before) + tokens(after));
    }
}

/// No word is empty and no word holds whitespace.
pub proof fn law_words_are_solid(s: Seq<char>)
    ensures
        forall|k: int|
            0 <= k < tokens(s).len() ==> (#[trigger] tokens(s)[k]).len() > 0 && is_solid(
                tokens(s)[k],
            ),
    decreases s.len(),
{
    if s.len() == 0 {
    } else if is_whitespace(s[0]) {
        law_words_are_solid(s.drop_first());
        assert(tokens(s) == tokens(s.drop_first()));
    } else {
        lemma_first_word(s);
        lemma_word_len_bounds(s);
        let n = word_len(s) as int;
        law_words_are_solid(s.skip(n));
        assert(tokens(s) == seq![s.take(n)] + tokens(s.skip(n)));
        assert forall|k: int| 0 <= k < tokens(s).len() implies (#[trigger] tokens(s)[k]).len() > 0
            && is_solid(tokens(s)[k]) by {
            if k > 0 {
                assert(tokens(s)[k] == tokens(s.skip(n))[k - 1]);
            } else {
                assert(tokens(s)[0] == s.take(n));
            }
        }
    }
}

/// A blank line launches nothing: after it the session asks for the next
/// prompt, whatever state it was read in.
pub proof fn law_blank_line_launches_nothing(state: State, line: Seq<char>)
    requires
        is_blank(line),
    ensures
        state.dispatch(line) == state.prompt(),
        state.phase is Reading ==> step(state, EventView::Line(line)) == state.prompt(),
{
    law_blank_line_has_no_words(line);
    if line.contains('\0') {
        let i = choose|i: int| 0 <= i < line.len() && line[i] == '\0';
        assert(is_whitespace(line[i]));
    }
}

/// The text that `pieces` make with `sep` between every two of them.
pub open spec fn joined(pieces: Seq<Seq<char>>, sep: char) -> Seq<char>
    decreases pieces.len(),
{
    if pieces.len() == 0 {
        Seq::empty()
    } else if pieces.len() == 1 {
        pieces[0]
    } else {
        joined(pieces.drop_last(), sep).push(sep) + pieces.last()
    }
}

/// Whether the separator stands in none of the pieces.
pub open spec fn are_free_of(pieces: Seq<Seq<char>>, sep: char) -> bool {
    forall|k: int| 0 <= k < pieces.len() ==> !(#[trigger] pieces[k]).contains(sep)
}

/// Splitting loses nothing: there is always a piece, no piece holds the
/// separator, and the pieces with the separator between them are the text
/// that was split.
pub proof fn law_split_joins_back(s: Seq<char>, sep: char)
    ensures
        split(s, sep).len() >= 1,
        are_free_of(split(s, sep), sep),
        joined(split(s, sep), sep) == s,
    decreases s.len(),
{
    let pieces = split(s, sep);
    if s.len() == 0 {
        assert(joined(pieces, sep) =~= s);
    } else {
        let before = split(s.drop_last(), sep);
        law_split_joins_back(s.drop_last(), sep);
        let c = s.last();
        if c == sep {
            assert(pieces.drop_last() =~= before);
            assert(joined(pieces, sep) =~= s);
        } else {
            let grown = before.last().push(c);
            assert(pieces.last() == grown);
            assert(pieces.drop_last() =~= before.drop_last());
            assert(!grown.contains(sep)) by {
                if grown.contains(sep) {
                    let m = choose|m: int| 0 <= m < grown.len() && grown[m] == sep;
                    assert(before.last()[m] == sep);
                }
            }
            assert(joined(pieces, sep) =~= joined(before, sep).push(c));
            assert(joined(pieces, sep) =~= s);
        }
    }
}

/// Splitting finds the pieces again: where no piece holds the separator,
/// the text that the pieces make is split into just these pieces.
pub proof fn law_split_of_joined(pieces: Seq<Seq<char>>, sep: char)
    requires
        pieces.len() >= 1,
        are_free_of(pieces, sep),
    ensures
        split(joined(pieces, sep), sep) == pieces,
    decreases pieces.len(), pieces.last().len(),
{
    let text = joined(pieces, sep);
    let last = pieces.last();
    if last.len() > 0 {
        let c = last.last();
        assert(c != sep) by {
            assert(last[last.len() - 1] == c);
        }
        let shorter = pieces.drop_last().push(last.drop_last());
        assert(shorter.drop_last() =~= pieces.drop_last());
        assert forall|k: int| 0 <= k < shorter.len() implies !(#[trigger] shorter[k]).contains(
            sep,
        ) by {
            if k == shorter.len() - 1 {
                if shorter[k].contains(sep) {
                    let m = choose|m: int| 0 <= m < shorter[k].len() && shorter[k][m] == sep;
                    assert(last[m] == sep);
                }
            } else {
                assert(shorter[k] == pieces[k]);
            }
        }
        law_split_of_joined(shorter, sep);
        assert(text.len() > 0 && text.last() == c);
        assert(text.drop_last() =~= joined(shorter, sep)) by {
            if pieces.len() > 1 {
                assert(joined(shorter, sep) == joined(pieces.drop_last(), sep).push(sep)
                    + last.drop_last());
            }
        }
        assert(last.drop_last().push(c) =~= last);
        assert(split(text, sep) == shorter.drop_last().push(shorter.last().push(c)));
        assert(shorter.last().push(c) == last);
        assert(split(text, sep) =~= pieces);
    } else if pieces.len() == 1 {
        assert(text =~= Seq::<char>::empty());
        assert(split(text, sep) =~= pieces);
    } else {
        let fewer = pieces.drop_last();
        assert forall|k: int| 0 <= k < fewer.len() implies !(#[trigger] fewer[k]).contains(sep) by {
            assert(fewer[k] == pieces[k]);
        }
        law_split_of_joined(fewer, sep);
        assert(last =~= Seq::<char>::empty());
        assert(text =~= joined(fewer, sep).push(sep));
        assert(text.last() == sep);
        assert(text.drop_last() =~= joined(fewer, sep));
        assert(split(text, sep) == fewer.push(Seq::<char>::empty()));
        assert(split(text, sep) =~= pieces);
    }
}

/// The search from position `from` of the search list finds the command in
/// the first directory, from there on, whose listing shows its name, and
/// finds nothing where no listing from there on shows it.
pub proof fn law_resolve_first_hit(
    name: Seq<char>,
    dirs: Seq<Seq<char>>,
    listings: Seq<ListingView>,
    from: int,
)
    requires
        0 <= from,
    ensures
        match resolve_from(name, dirs, listings, from) {
            Some(path) => exists|k: int|
                {
                    &&& from <= k < dirs.len()
                    &&& #[trigger] hit(listings, name, k)
                    &&& forall|j: int| from <= j < k ==> !hit(listings, name, j)
                    &&& path == join(dirs[k], name)
                },
            None => forall|k: int| from <= k < dirs.len() ==> !hit(listings, name, k),
        },
    decreases dirs.len() - from,
{
    if from < dirs.len() {
        if hit(listings, name, from) {
        } else {
            law_resolve_first_hit(name, dirs, listings, from + 1);
            match resolve_from(name, dirs, listings, from + 1) {
                Some(path) => {
                    let k = choose|k: int|
                        {
                            &&& from + 1 <= k < dirs.len()
                            &&& #[trigger] hit(listings, name, k)
                            &&& forall|j: int| from + 1 <= j < k ==> !hit(listings, name, j)
                            &&& path == join(dirs[k], name)
                        };
                    assert forall|j: int| from <= j < k implies !hit(listings, name, j) by {}
                },
                None => {
                    assert forall|k: int| from <= k < dirs.len() implies !hit(
                        listings,
                        name,
                        k,
                    ) by {}
                },
            }
        }
    }
}

/// While a command is looked for, listing the directories one after the
/// other as the session asks for them ends as the search along the whole
/// list does: the program found is launched with its path as argument 0,
/// and a command that no directory has is reported as not found.
pub proof fn law_search_settles(state: State, listings: Seq<ListingView>)
    requires
        state.inv(),
        state.phase is Resolving,
    ensures
        ({
            let argv = state.phase->Resolving_argv;
            let index = state.phase->Resolving_index;
            let asked = (state, ActionView::ListDirectory(state.paths[index as int]));
            let found = resolve_from(argv[0], state.paths, listings, index as int);
            settle(asked, listings).1 == match found {
                Some(path) => {
                    if path.contains('\0') {
                        ActionView::Report(Error::InvalidArgument)
                    } else {
                        ActionView::Launch(
                            CommandView { path, argv: argv.update(0, path), env: Seq::empty() },
                        )
                    }
                },
                None => ActionView::Report(Error::NotFound),
            }
        }),
    decreases distance(state),
{
    let argv = state.phase->Resolving_argv;
    let index = state.phase->Resolving_index;
    let asked = (state, ActionView::ListDirectory(state.paths[index as int]));
    let event = EventView::Listed(listing_at(listings, index as int));
    let next = step(state, event);
    lemma_step_keeps_inv(state, event);
    assert(settle(asked, listings) == settle(next, listings));
    if next.1 is ListDirectory {
        assert(next.0.phase == PhaseView::Resolving { argv, index: index + 1nat });
        law_search_settles(next.0, listings);
    } else {
        assert(settle(next, listings) == next);
    }
}

/// A typed line comes to what [`outcome`] says, once every directory that
/// the session asks for has been listed.
pub proof fn law_line_outcome(state: State, line: Seq<char>, listings: Seq<ListingView>)
    requires
        state.inv(),
        state.phase is Reading,
    ensures
        settle(step(state, EventView::Line(line)), listings).1 == outcome(state, line, listings),
{
    let asked = step(state, EventView::Line(line));
    lemma_step_keeps_inv(state, EventView::Line(line));
    if asked.1 is ListDirectory {
        law_search_settles(asked.0, listings);
    }
}

/// Argument 0 of a launched program is the path it is launched from, the
/// other arguments are the words of the line in their order, and the
/// environment is empty. A built-in command gets the words of the line as
/// they are, its own name first.
pub proof fn law_arguments_pass_through(
    state: State,
    line: Seq<char>,
    listings: Seq<ListingView>,
)
    requires
        state.inv(),
        state.phase is Reading,
    ensures
        match settle(step(state, EventView::Line(line)), listings).1 {
            ActionView::Launch(command) => {
                &&& is_argument_vector(command.argv)
                &&& command.argv[0] == command.path
                &&& command.argv.len() == tokens(line).len()
                &&& forall|i: int|
                    1 <= i < command.argv.len() ==> command.argv[i] == tokens(line)[i]
                &&& command.env.len() == 0
            },
            ActionView::RunBuiltin(builtin, argv) => {
                &&& is_argument_vector(argv)
                &&& argv == tokens(line)
                &&& state.builtins.contains_key(argv[0])
                &&& state.builtins[argv[0]] == builtin
            },
            _ => true,
        },
{
    law_line_outcome(state, line, listings);
    lemma_tokens_hold_no_nul(line);
}

/// A command that is no built-in, was not typed as a path, and whose name
/// no directory of the search list shows, is not found, and nothing is
/// launched for it: the session lists the directories and then tells the
/// user.
pub proof fn law_absent_command_is_not_found(
    state: State,
    line: Seq<char>,
    listings: Seq<ListingView>,
)
    requires
        state.inv(),
        state.phase is Reading,
        !line.contains('\0'),
        tokens(line).len() > 0,
        !state.builtins.contains_key(tokens(line)[0]),
        !is_explicit_path(tokens(line)[0]),
        forall|i: int| 0 <= i < state.paths.len() ==> !hit(listings, tokens(line)[0], i),
    ensures
        settle(step(state, EventView::Line(line)), listings).1 == ActionView::Report(
            Error::NotFound,
        ),
{
    law_line_outcome(state, line, listings);
    law_resolve_first_hit(tokens(line)[0], state.paths, listings, 0);
}

/// A command that is no built-in and was not typed as a path is launched
/// from the first directory of the search list whose listing shows exactly
/// its name, whatever the directories after it hold and whether or not the
/// directories before it can be listed.
pub proof fn law_first_directory_wins(
    state: State,
    line: Seq<char>,
    listings: Seq<ListingView>,
    k: int,
)
    requires
        state.inv(),
        state.phase is Reading,
        !line.contains('\0'),
        tokens(line).len() > 0,
        !state.builtins.contains_key(tokens(line)[0]),
        !is_explicit_path(tokens(line)[0]),
        0 <= k < state.paths.len(),
        hit(listings, tokens(line)[0], k),
        forall|i: int| 0 <= i < k ==> !hit(listings, tokens(line)[0], i),
        !state.paths[k].contains('\0'),
    ensures
        settle(step(state, EventView::Line(line)), listings).1 == ActionView::Launch(
            CommandView {
                path: join(state.paths[k], tokens(line)[0]),
                argv: tokens(line).update(0, join(state.paths[k], tokens(line)[0])),
                env: Seq::empty(),
            },
        ),
{
    let name = tokens(line)[0];
    law_line_outcome(state, line, listings);
    law_resolve_first_hit(name, state.paths, listings, 0);
    lemma_tokens_hold_no_nul(line);
    let path = join(state.paths[k], name);
    if path.contains('\0') {
        let m = choose|m: int| 0 <= m < path.len() && path[m] == '\0';
        if m < state.paths[k].len() {
            assert(state.paths[k][m] == '\0');
        } else if state.paths[k].len() == 0 || state.paths[k].last() == '/' {
            assert(name[m - state.paths[k].len()] == '\0');
        } else if m > state.paths[k].len() {
            assert(name[m - state.paths[k].len() - 1] == '\0');
        }
    }
}

/// The state in which the session takes the event at position `i` of a run.
pub open spec fn state_at(state: State, events: Seq<EventView>, i: int) -> State {
    run(state, events.take(i)).0
}

/// A session that is ending: it has ended, or it is telling the user of a
/// failure that ends it.
pub open spec fn is_ending(state: State) -> bool {
    match state.phase {
        PhaseView::Finished(_) => true,
        PhaseView::Reporting(error) => error.is_fatal(),
        _ => false,
    }
}

/// A run asks for one thing after each event, and keeps what holds of every
/// session.
pub proof fn lemma_run_length(state: State, events: Seq<EventView>)
    ensures
        run(state, events).1.len() == events.len(),
        state.inv() ==> run(state, events).0.inv(),
    decreases events.len(),
{
    if events.len() > 0 {
        lemma_run_length(state, events.drop_last());
        if state.inv() {
            lemma_step_keeps_inv(run(state, events.drop_last()).0, events.last());
        }
    }
}

/// What a run asks for after its event at position `i` is what one step
/// asks for, taken in the state that the run has reached by then.
pub proof fn lemma_run_unfolds(state: State, events: Seq<EventView>, i: int)
    requires
        0 <= i < events.len(),
    ensures
        run(state, events).1[i] == step(state_at(state, events, i), events[i]).1,
        state_at(state, events, i + 1) == step(state_at(state, events, i), events[i]).0,
    decreases events.len(),
{
    let shorter = events.drop_last();
    lemma_run_length(state, shorter);
    if i == events.len() - 1 {
        assert(events.take(i) =~= shorter);
        assert(events.take(i + 1) =~= events);
    } else {
        lemma_run_unfolds(state, shorter, i);
        assert(shorter.take(i) =~= events.take(i));
        assert(shorter.take(i + 1) =~= events.take(i + 1));
    }
}

/// A session that is ending asks for nothing but to tell of a failure of
/// input and output or to end, and goes on ending.
pub proof fn lemma_ending_stays(state: State, events: Seq<EventView>, from: int, to: int)
    requires
        0 <= from <= to <= events.len(),
        is_ending(state_at(state, events, from)),
    ensures
        is_ending(state_at(state, events, to)),
    decreases to - from,
{
    if from < to {
        lemma_ending_stays(state, events, from, to - 1);
        lemma_run_unfolds(state, events, to - 1);
    }
}

/// Every launch is followed by one wait for the child it made, and the
/// session waits at no other time.
///
/// In what a run asks for, a launch is followed at once by the wait, unless
/// no child was made or the answer was none to the launch: then the session
/// tells of the failure and ends. A wait comes only right after a launch,
/// and it is for the child that the launch has made. So whenever a line is
/// read after a launch, the wait for that launch has come in between.
pub proof fn law_one_wait_per_launch(state: State, events: Seq<EventView>)
    requires
        state.inv(),
    ensures
        run(state, events).1.len() == events.len(),
        forall|i: int|
            #![trigger run(state, events).1[i]]
            0 <= i && i + 1 < events.len() && run(state, events).1[i] is Launch ==> {
                let next = run(state, events).1[i + 1];
                ||| next == ActionView::Wait(events[i + 1]->Spawned_0) && events[i + 1] is Spawned
                ||| next == ActionView::Report(Error::SpawnFailed)
                ||| next == ActionView::Report(Error::IOFailed)
            },
        forall|i: int|
            #![trigger run(state, events).1[i]]
            1 <= i < events.len() && run(state, events).1[i] is Wait ==> {
                &&& run(state, events).1[i - 1] is Launch
                &&& events[i] == EventView::Spawned(run(state, events).1[i]->Wait_0)
            },
        forall|i: int, j: int|
            #![trigger run(state, events).1[i], run(state, events).1[j]]
            0 <= i < j < events.len() && run(state, events).1[i] is Launch && run(
                state,
                events,
            ).1[j] is ReadLine ==> run(state, events).1[i + 1] is Wait,
{
    let asked = run(state, events).1;
    lemma_run_length(state, events);
    assert forall|i: int|
        #![trigger asked[i]]
        0 <= i && i + 1 < events.len() && asked[i] is Launch implies {
        let next = asked[i + 1];
        ||| next == ActionView::Wait(events[i + 1]->Spawned_0) && events[i + 1] is Spawned
        ||| next == ActionView::Report(Error::SpawnFailed)
        ||| next == ActionView::Report(Error::IOFailed)
    } by {
        lemma_run_unfolds(state, events, i);
        lemma_run_unfolds(state, events, i + 1);
    }
    assert forall|i: int| #![trigger asked[i]] 1 <= i < events.len() && asked[i] is Wait implies {
        &&& asked[i - 1] is Launch
        &&& events[i] == EventView::Spawned(asked[i]->Wait_0)
    } by {
        lemma_run_unfolds(state, events, i - 1);
        lemma_run_unfolds(state, events, i);
    }
    assert forall|i: int, j: int|
        #![trigger asked[i], asked[j]]
        0 <= i < j < events.len() && asked[i] is Launch && asked[j] is ReadLine implies asked[i
            + 1] is Wait by {
        lemma_run_unfolds(state, events, i);
        lemma_run_unfolds(state, events, i + 1);
        lemma_run_unfolds(state, events, j);
        if !(asked[i + 1] is Wait) {
            lemma_ending_stays(state, events, i + 2, j);
        }
    }
}

/// The search list and the table of built-in commands are fixed for the
/// whole session: no run of events changes them.
pub proof fn law_tables_are_fixed(state: State, events: Seq<EventView>)
    requires
        state.inv(),
    ensures
        run(state, events).0.paths == state.paths,
        run(state, events).0.builtins == state.builtins,
    decreases events.len(),
{
    if events.len() > 0 {
        law_tables_are_fixed(state, events.drop_last());
        lemma_run_length(state, events.drop_last());
        lemma_step_keeps_inv(run(state, events.drop_last()).0, events.last());
    }
}

/// A line is read only right after the prompt was shown.
pub proof fn law_prompt_before_every_line(state: State, events: Seq<EventView>)
    requires
        state.inv(),
    ensures
        forall|i: int|
            #![trigger run(state, events).1[i]]
            1 <= i < events.len() && run(state, events).1[i] is ReadLine ==> {
                &&& run(state, events).1[i - 1] is Prompt
                &&& events[i] is PromptShown
            },
{
    let asked = run(state, events).1;
    assert forall|i: int|
        #![trigger asked[i]]
        1 <= i < events.len() && asked[i] is ReadLine implies {
        &&& asked[i - 1] is Prompt
        &&& events[i] is PromptShown
    } by {
        lemma_run_unfolds(state, events, i - 1);
        lemma_run_unfolds(state, events, i);
    }
}

/// A session ends with status 0 when there is no more input, and with
/// status 1 when the user has been told of a failure that ends it; it ends
/// for no other reason.
pub proof fn law_exit_status(state: State, event: EventView)
    requires
        !(state.phase is Finished),
    ensures
        state.phase is Reading && event is EndOfInput ==> step(state, event).1 == ActionView::Exit(
            EXIT_CLEAN,
        ),
        step(state, event).1 is Exit ==> {
            ||| state.phase is Reading && event is EndOfInput && step(state, event).1
                == ActionView::Exit(EXIT_CLEAN)
            ||| state.phase is Reporting && state.phase->Reporting_0.is_fatal() && event is Reported
                && step(state, event).1 == ActionView::Exit(EXIT_FAILURE)
        },
{
}

/// A prompt that cannot be shown, a line that cannot be read and a child
/// that cannot be made each end the session: the user is told, and the
/// session ends with status 1.
pub proof fn law_fatal_failures_end_session(state: State)
    ensures
        state.phase is Prompting ==> run(
            state,
            seq![EventView::PromptFailed, EventView::Reported],
        ).1 == seq![ActionView::Report(Error::IOFailed), ActionView::Exit(EXIT_FAILURE)],
        state.phase is Reading ==> run(state, seq![EventView::ReadFailed, EventView::Reported]).1
            == seq![ActionView::Report(Error::IOFailed), ActionView::Exit(EXIT_FAILURE)],
        state.phase is Spawning ==> run(state, seq![EventView::SpawnFailed, EventView::Reported]).1
            == seq![ActionView::Report(Error::SpawnFailed), ActionView::Exit(EXIT_FAILURE)],
{
    lemma_run_two(state, EventView::PromptFailed, EventView::Reported);
    lemma_run_two(state, EventView::ReadFailed, EventView::Reported);
    lemma_run_two(state, EventView::SpawnFailed, EventView::Reported);
}

/// After a failure that does not end the session the next prompt follows:
/// the user is told, and the session asks for the prompt.
pub proof fn law_recovered_failures_return_to_prompt(state: State, event: EventView)
    requires
        step(state, event).1 is Report,
        !step(state, event).1->Report_0.is_fatal(),
    ensures
        step(step(state, event).0, EventView::Reported) == step(state, event).0.prompt(),
{
}

/// A run of two events, step by step.
pub proof fn lemma_run_two(state: State, first: EventView, second: EventView)
    ensures
        run(state, seq![first, second]).1 == seq![
            step(state, first).1,
            step(step(state, first).0, second).1,
        ],
        run(state, seq![first, second]).0 == step(step(state, first).0, second).0,
{
    let events = seq![first, second];
    assert(events.drop_last() =~= seq![first]);
    assert(seq![first].drop_last() =~= Seq::<EventView>::empty());
    assert(run(state, Seq::<EventView>::empty()) == (state, Seq::<ActionView>::empty()));
    assert(run(state, seq![first]).0 == step(state, first).0);
    assert(run(state, seq![first]).1 =~= seq![step(state, first).1]);
    assert(run(state, events).1 =~= seq![
        step(state, first).1,
        step(step(state, first).0, second).1,
    ]);
}

} // verus!
