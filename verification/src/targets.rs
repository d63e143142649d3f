use vstd::prelude::*;
use crate::text::{chars_of, find_char, first_index_of, string_from, texts, trim_bounds, trimmed};

verus! {

/// The URLs of `urls` without repetitions: each one stands where it first
/// occurs. Two URLs are the same only if they agree character for character.
pub open spec fn deduplicated(urls: Seq<Seq<char>>) -> Seq<Seq<char>>
    decreases urls.len(),
{
    if urls.len() == 0 {
        Seq::empty()
    } else {
        let earlier = deduplicated(urls.drop_last());
        if earlier.contains(urls.last()) {
            earlier
        } else {
            earlier.push(urls.last())
        }
    }
}

/// True when `urls[i]` occurs nowhere before `i`.
pub open spec fn is_first_occurrence(urls: Seq<Seq<char>>, i: int) -> bool {
    forall|j: int| 0 <= j < i ==> urls[j] != urls[i]
}

/// True when `places` gives, for each URL of `kept`, the index at which it
/// first occurs in `urls`, and these indices grow: `kept` is `urls` with
/// everything but the first occurrences struck out.
pub open spec fn keeps_first_occurrences(
    urls: Seq<Seq<char>>,
    kept: Seq<Seq<char>>,
    places: Seq<int>,
) -> bool {
    &&& places.len() == kept.len()
    &&& forall|k: int|
        0 <= k < kept.len() ==> 0 <= #[trigger] places[k] < urls.len() && urls[places[k]]
            == kept[k] && is_first_occurrence(urls, places[k])
    &&& forall|k: int, l: int| 0 <= k < l < kept.len() ==> places[k] < places[l]
    &&& forall|i: int|
        0 <= i < urls.len() && is_first_occurrence(urls, i) ==> places.contains(i)
}

/// `deduplicated` holds exactly the URLs that `urls` holds.
pub proof fn lemma_deduplicated_same_urls(urls: Seq<Seq<char>>)
    ensures
        forall|url: Seq<char>| deduplicated(urls).contains(url) <==> urls.contains(url),
    decreases urls.len(),
{
    if urls.len() > 0 {
        let front = urls.drop_last();
        let earlier = deduplicated(front);
        lemma_deduplicated_same_urls(front);
        assert forall|url: Seq<char>| deduplicated(urls).contains(url) <==> urls.contains(
            url,
        ) by {
            if urls.contains(url) {
                let i = choose|i: int| 0 <= i < urls.len() && urls[i] == url;
                if i < front.len() {
                    assert(front[i] == url);
                    assert(front.contains(url));
                    assert(earlier.contains(url));
                    let k = choose|k: int| 0 <= k < earlier.len() && earlier[k] == url;
                    assert(deduplicated(urls)[k] == url);
                } else {
                    assert(url == urls.last());
                    if !earlier.contains(urls.last()) {
                        assert(deduplicated(urls)[earlier.len() as int] == url);
                    }
                }
            }
            if deduplicated(urls).contains(url) {
                let k = choose|k: int|
                    0 <= k < deduplicated(urls).len() && deduplicated(urls)[k] == url;
                if k < earlier.len() {
                    assert(earlier[k] == url);
                    assert(front.contains(url));
                    let i = choose|i: int| 0 <= i < front.len() && front[i] == url;
                    assert(urls[i] == url);
                } else {
                    assert(urls[urls.len() - 1] == url);
                }
            }
        }
    }
}

/// Deduplication keeps the first occurrence of every URL, in the order of the
/// input, and nothing else; so no URL is left twice.
pub proof fn lemma_deduplicated_keeps_first_occurrences(urls: Seq<Seq<char>>) -> (places: Seq<
    int,
>)
    ensures
        keeps_first_occurrences(urls, deduplicated(urls), places),
        deduplicated(urls).no_duplicates(),
    decreases urls.len(),
{
    if urls.len() == 0 {
        Seq::empty()
    } else {
        let front = urls.drop_last();
        let earlier = deduplicated(front);
        let last = urls.len() - 1;
        let front_places = lemma_deduplicated_keeps_first_occurrences(front);
        lemma_deduplicated_same_urls(front);
        assert forall|i: int| 0 <= i < front.len() implies (is_first_occurrence(urls, i)
            <==> is_first_occurrence(front, i)) by {
            if is_first_occurrence(front, i) {
                assert forall|j: int| 0 <= j < i implies urls[j] != urls[i] by {
                    assert(front[j] != front[i]);
                }
            }
            if is_first_occurrence(urls, i) {
                assert forall|j: int| 0 <= j < i implies front[j] != front[i] by {
                    assert(urls[j] != urls[i]);
                }
            }
        }
        if earlier.contains(urls.last()) {
            assert(front.contains(urls.last()));
            let i = choose|i: int| 0 <= i < front.len() && front[i] == urls.last();
            assert(urls[i] == urls[last]);
            assert(!is_first_occurrence(urls, last));
            assert forall|i: int|
                0 <= i < urls.len() && is_first_occurrence(urls, i) implies front_places.contains(
                i,
            ) by {}
            front_places
        } else {
            let places = front_places.push(last);
            let kept = deduplicated(urls);
            assert(is_first_occurrence(urls, last)) by {
                assert forall|j: int| 0 <= j < last implies urls[j] != urls[last] by {
                    assert(front[j] == urls[j]);
                    assert(front.contains(urls[j]));
                }
            }
            assert forall|i: int|
                0 <= i < urls.len() && is_first_occurrence(urls, i) implies places.contains(
                i,
            ) by {
                if i < last {
                    let k = choose|k: int| 0 <= k < front_places.len() && front_places[k] == i;
                    assert(places[k] == i);
                } else {
                    assert(places[front_places.len() as int] == i);
                }
            }
            assert forall|k: int, l: int| 0 <= k < l < kept.len() implies kept[k] != kept[l] by {
                if l < earlier.len() {
                    assert(earlier[k] != earlier[l]);
                } else {
                    assert(earlier.contains(kept[k]));
                }
            }
            places
        }
    }
}

fn holds(urls: &Vec<String>, url: &String) -> (found: bool)
    ensures
        found == texts(urls@).contains(url@),
{
    let mut i: usize = 0;
    while i < urls.len()
        invariant
            i <= urls.len(),
            forall|j: int| 0 <= j < i ==> texts(urls@)[j] != url@,
        decreases urls.len() - i,
    {
        if urls[i] == *url {
            assert(texts(urls@)[i as int] == url@);
            return true;
        }
        i += 1;
    }
    false
}

/// Removes the repetitions from a list of URLs: each URL stays where it first
/// occurs. URLs are compared as they are written; nothing is normalised.
pub fn dedup_urls(urls: &Vec<String>) -> (kept: Vec<String>)
    ensures
        texts(kept@) == deduplicated(texts(urls@)),
{
    let ghost all = texts(urls@);
    let mut kept: Vec<String> = Vec::new();
    let mut i: usize = 0;
    assert(texts(kept@) =~= deduplicated(all.take(0)));
    while i < urls.len()
        invariant
            i <= urls.len(),
            all == texts(urls@),
            texts(kept@) == deduplicated(all.take(i as int)),
        decreases urls.len() - i,
    {
        let ghost before = texts(kept@);
        proof {
            assert(all.take(i + 1).drop_last() == all.take(i as int));
            assert(all.take(i + 1).last() == urls[i as int]@);
        }
        if !holds(&kept, &urls[i]) {
            kept.push(urls[i].clone());
            assert(texts(kept@) =~= before.push(urls[i as int]@));
        }
        i += 1;
    }
    assert(all.take(urls.len() as int) == all);
    kept
}

/// What a line of a URL file says once its comment is struck out: the text
/// before the first `#`, without the whitespace around it.
pub open spec fn cleaned(line: Seq<char>) -> Seq<char> {
    trimmed(line.take(first_index_of(line, '#') as int))
}

/// Reads one line of a URL file. Everything from the first `#` on is a
/// comment; whitespace around what is left is dropped. A line that is then
/// empty gives no URL.
pub fn clean_line(line: &str) -> (url: Option<String>)
    ensures
        url is Some == (cleaned(line@).len() > 0),
        url is Some ==> url->0@ == cleaned(line@),
{
    let chars = chars_of(line);
    assert(chars@.subrange(0, chars.len() as int) == line@);
    let comment = find_char(&chars, '#', 0, chars.len());
    assert(chars@.subrange(0, comment as int) == line@.take(comment as int));
    let (from, to) = trim_bounds(&chars, 0, comment);
    if from == to {
        None
    } else {
        Some(string_from(&chars, from, to))
    }
}

/// The URLs that the lines of a URL file give, in the order of the lines.
pub open spec fn urls_of_lines(lines: Seq<Seq<char>>) -> Seq<Seq<char>>
    decreases lines.len(),
{
    if lines.len() == 0 {
        Seq::empty()
    } else if cleaned(lines.last()).len() > 0 {
        urls_of_lines(lines.drop_last()).push(cleaned(lines.last()))
    } else {
        urls_of_lines(lines.drop_last())
    }
}

/// Puts the URLs that `lines` give after those that `urls` already holds.
pub fn add_file_lines(urls: &mut Vec<String>, lines: &Vec<String>)
    ensures
        texts(final(urls)@) == texts(old(urls)@) + urls_of_lines(texts(lines@)),
{
    let ghost all = texts(lines@);
    let mut i: usize = 0;
    assert(texts(urls@) =~= texts(old(urls)@) + urls_of_lines(all.take(0)));
    while i < lines.len()
        invariant
            i <= lines.len(),
            all == texts(lines@),
            texts(urls@) == texts(old(urls)@) + urls_of_lines(all.take(i as int)),
        decreases lines.len() - i,
    {
        let ghost before = texts(urls@);
        proof {
            assert(all.take(i + 1).drop_last() == all.take(i as int));
            assert(all.take(i + 1).last() == lines[i as int]@);
        }
        match clean_line(lines[i].as_str()) {
            Some(url) => {
                urls.push(url);
                assert(texts(urls@) =~= before.push(url@));
                assert(texts(urls@) =~= texts(old(urls)@) + urls_of_lines(all.take(i + 1)));
            },
            None => {},
        }
        i += 1;
    }
    assert(all.take(lines.len() as int) == all);
}

/// The URLs among the arguments: an empty argument is no URL and is left out.
pub open spec fn given_urls(args: Seq<Seq<char>>) -> Seq<Seq<char>> {
    args.filter(|arg: Seq<char>| arg.len() > 0)
}

/// The URLs among the arguments extended by one: an empty argument adds
/// nothing, any other is added at the end.
pub proof fn lemma_given_urls_push(args: Seq<Seq<char>>, arg: Seq<char>)
    ensures
        given_urls(args.push(arg)) == if arg.len() > 0 {
            given_urls(args).push(arg)
        } else {
            given_urls(args)
        },
{
    let kept = |arg: Seq<char>| arg.len() > 0;
    let extended = args.push(arg);
    assert(extended.drop_last() == args);
    assert(extended.last() == arg);
    assert(extended.filter(kept) == if kept(arg) {
        args.filter(kept).push(arg)
    } else {
        args.filter(kept)
    }) by {
        reveal_with_fuel(Seq::filter, 2);
    }
}

/// The targets of a run: the URLs given as arguments, then those of the file's
/// lines, without repetitions. Where there is no URL at all, there are no
/// targets to speak of.
pub open spec fn targets_of(args: Seq<Seq<char>>, lines: Seq<Seq<char>>) -> Option<
    Seq<Seq<char>>,
> {
    let all = given_urls(args) + urls_of_lines(lines);
    if all.len() == 0 {
        None
    } else {
        Some(deduplicated(all))
    }
}

/// No line of a URL file gives an empty URL.
pub proof fn lemma_urls_of_lines_not_empty(lines: Seq<Seq<char>>)
    ensures
        forall|i: int|
            0 <= i < urls_of_lines(lines).len() ==> (#[trigger] urls_of_lines(lines)[i]).len() > 0,
    decreases lines.len(),
{
    if lines.len() > 0 {
        let earlier = urls_of_lines(lines.drop_last());
        lemma_urls_of_lines_not_empty(lines.drop_last());
        assert forall|i: int| 0 <= i < urls_of_lines(lines).len() implies (
        #[trigger] urls_of_lines(lines)[i]).len() > 0 by {
            if i < earlier.len() {
                assert(urls_of_lines(lines)[i] == earlier[i]);
            }
        }
    }
}

/// The targets of a run are there only where there is one, and none of them
/// is empty.
pub proof fn lemma_targets_not_empty(args: Seq<Seq<char>>, lines: Seq<Seq<char>>)
    requires
        targets_of(args, lines) is Some,
    ensures
        targets_of(args, lines)->0.len() > 0,
        forall|i: int|
            0 <= i < targets_of(args, lines)->0.len() ==> (#[trigger] targets_of(
                args,
                lines,
            )->0[i]).len() > 0,
{
    let all = given_urls(args) + urls_of_lines(lines);
    let targets = deduplicated(all);
    lemma_urls_of_lines_not_empty(lines);
    lemma_deduplicated_same_urls(all);
    let kept = |arg: Seq<char>| arg.len() > 0;
    assert forall|i: int| 0 <= i < all.len() implies (#[trigger] all[i]).len() > 0 by {
        if i < given_urls(args).len() {
            args.lemma_filter_pred(kept, i);
        }
    }
    assert forall|i: int| 0 <= i < targets.len() implies (#[trigger] targets[i]).len() > 0 by {
        assert(targets.contains(targets[i]));
        assert(all.contains(targets[i]));
    }
    assert(all.contains(all[0]));
    assert(targets.contains(all[0]));
}

/// Assembles the targets of a run from the arguments that may be URLs and the
/// lines of the URL file. `None` says that no URL was given at all.
pub fn assemble_targets(args: Vec<String>, lines: &Vec<String>) -> (targets: Option<Vec<String>>)
    ensures
        targets is Some == targets_of(texts(args@), texts(lines@)) is Some,
        targets is Some ==> texts(targets->0@) == targets_of(texts(args@), texts(lines@))->0,
{
    let ghost given = texts(args@);
    let mut all: Vec<String> = Vec::new();
    let mut i: usize = 0;
    assert(given.take(0) =~= Seq::<Seq<char>>::empty());
    assert(texts(all@) =~= given_urls(given.take(0)));
    while i < args.len()
        invariant
            i <= args.len(),
            given == texts(args@),
            texts(all@) == given_urls(given.take(i as int)),
        decreases args.len() - i,
    {
        let ghost before = texts(all@);
        proof {
            assert(given.take(i + 1) == given.take(i as int).push(args[i as int]@));
            lemma_given_urls_push(given.take(i as int), args[i as int]@);
        }
        if !args[i].as_str().is_empty() {
            all.push(args[i].clone());
            assert(texts(all@) =~= before.push(args[i as int]@));
        }
        i += 1;
    }
    assert(given.take(args.len() as int) == given);
    add_file_lines(&mut all, lines);
    if all.len() == 0 {
        None
    } else {
        Some(dedup_urls(&all))
    }
}

} // verus!
