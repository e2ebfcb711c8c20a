//! The search itself: lines go in one by one, in order, and each matching line
//! comes out with its number and its three parts.
use crate::config::{Config, Settings};
use crate::highlight::{
    highlight_folded, highlighted, highlighted_at, lemma_highlighted_keeps_line, match_offset,
    Highlighted, Parts,
};
use crate::matching::{contains_text, line_matches};
use crate::search::contains;
use crate::text::fold;
use vstd::prelude::*;
use vstd::string::*;
use vstd::utf8::*;

verus! {

/// A matching line: its number in the source, counted from 1, and its parts.
#[derive(Debug, PartialEq, Eq)]
pub struct Match {
    pub number: u64,
    pub parts: Highlighted,
}

/// A matching line as plain values.
pub struct Found {
    pub number: nat,
    pub parts: Parts,
}

impl View for Match {
    type V = Found;

    open spec fn view(&self) -> Found {
        Found { number: self.number as nat, parts: self.parts@ }
    }
}

/// What one line gives, where `folded_line` is the line as it is compared:
/// nothing where it does not hold the folded pattern, else the line's number
/// and its parts.
pub open spec fn examined_folded(
    settings: Settings,
    number: nat,
    line: Seq<char>,
    folded_line: Seq<char>,
) -> Option<Found> {
    let needle = fold(settings.pattern, settings.case_sensitive);
    if contains(folded_line, needle) {
        Some(
            Found {
                number,
                parts: highlighted_at(
                    line,
                    match_offset(folded_line, needle),
                    encode_utf8(settings.pattern).len() as int,
                ),
            },
        )
    } else {
        None
    }
}

/// What the line with the given number gives: nothing where it does not match,
/// else its number and its parts.
pub open spec fn examined(settings: Settings, number: nat, line: Seq<char>) -> Option<Found> {
    examined_folded(settings, number, line, fold(line, settings.case_sensitive))
}

/// What `examined` gives, said without the folded line: a line that matches
/// gives its number and its marked parts, another gives nothing.
pub proof fn lemma_examined(settings: Settings, number: nat, line: Seq<char>)
    ensures
        examined(settings, number, line) == if line_matches(
            line,
            settings.pattern,
            settings.case_sensitive,
        ) {
            Some(
                Found {
                    number,
                    parts: highlighted(line, settings.pattern, settings.case_sensitive),
                },
            )
        } else {
            None
        },
{
}

/// A result as plain values.
pub open spec fn found_of(result: Option<Match>) -> Option<Found> {
    match result {
        Some(hit) => Some(hit@),
        None => None,
    }
}

/// Lines as plain values.
pub open spec fn texts(lines: Seq<String>) -> Seq<Seq<char>> {
    lines.map_values(|line: String| line@)
}

/// Results as plain values.
pub open spec fn founds(hits: Seq<Match>) -> Seq<Found> {
    hits.map_values(|hit: Match| hit@)
}

/// What a whole source gives: for each matching line, in the order of the
/// source, its number and its parts. The first line has number 1.
pub open spec fn found_in(settings: Settings, lines: Seq<Seq<char>>) -> Seq<Found>
    decreases lines.len(),
{
    if lines.len() == 0 {
        seq![]
    } else {
        let earlier = found_in(settings, lines.drop_last());
        match examined(settings, lines.len(), lines.last()) {
            Some(hit) => earlier.push(hit),
            None => earlier,
        }
    }
}

/// The lines that come out of a search are the lines of the source that match,
/// each once and in the order of the source: putting the parts of each result
/// together gives the source with the lines that do not match left out.
pub proof fn lemma_found_lines_are_matching_lines(settings: Settings, lines: Seq<Seq<char>>)
    ensures
        found_in(settings, lines).map_values(|hit: Found| hit.parts.whole()) == lines.filter(
            |line: Seq<char>| line_matches(line, settings.pattern, settings.case_sensitive),
        ),
    decreases lines.len(),
{
    reveal(Seq::filter);
    let whole = |hit: Found| hit.parts.whole();
    let matching = |line: Seq<char>|
        line_matches(line, settings.pattern, settings.case_sensitive);
    if lines.len() == 0 {
        assert(found_in(settings, lines).map_values(whole) =~= lines.filter(matching));
    } else {
        let earlier = found_in(settings, lines.drop_last());
        lemma_found_lines_are_matching_lines(settings, lines.drop_last());
        lemma_highlighted_keeps_line(lines.last(), settings.pattern, settings.case_sensitive);
        if matching(lines.last()) {
            let hit = examined(settings, lines.len(), lines.last())->0;
            assert(earlier.push(hit).map_values(whole) =~= earlier.map_values(whole).push(
                lines.last(),
            ));
        }
    }
}

/// A result's number is the place of its line in the source, counted from 1,
/// however many lines matched before it: the line at that place is the result's
/// line, and the numbers rise from one result to the next.
pub proof fn lemma_numbers_are_positions(settings: Settings, lines: Seq<Seq<char>>)
    ensures
        forall|k: int|
            0 <= k < found_in(settings, lines).len() ==> {
                let hit = #[trigger] found_in(settings, lines)[k];
                &&& 1 <= hit.number <= lines.len()
                &&& examined(settings, hit.number, lines[hit.number - 1]) == Some(hit)
            },
        forall|j: int, k: int|
            0 <= j < k < found_in(settings, lines).len() ==> (#[trigger] found_in(
                settings,
                lines,
            )[j]).number < (#[trigger] found_in(settings, lines)[k]).number,
    decreases lines.len(),
{
    if lines.len() > 0 {
        let earlier = found_in(settings, lines.drop_last());
        lemma_numbers_are_positions(settings, lines.drop_last());
        assert forall|k: int| 0 <= k < earlier.len() implies {
            let hit = #[trigger] earlier[k];
            &&& 1 <= hit.number <= lines.len()
            &&& examined(settings, hit.number, lines[hit.number - 1]) == Some(hit)
        } by {
            let hit = earlier[k];
            assert(lines.drop_last()[hit.number - 1] == lines[hit.number - 1]);
        }
    }
}

/// Every line of the source that matches comes out, under its own number.
pub proof fn lemma_every_matching_line_is_found(
    settings: Settings,
    lines: Seq<Seq<char>>,
    index: int,
)
    requires
        0 <= index < lines.len(),
        line_matches(lines[index], settings.pattern, settings.case_sensitive),
    ensures
        found_in(settings, lines).contains(
            Found {
                number: (index + 1) as nat,
                parts: highlighted(lines[index], settings.pattern, settings.case_sensitive),
            },
        ),
    decreases lines.len(),
{
    let found = found_in(settings, lines);
    let earlier = found_in(settings, lines.drop_last());
    let hit = Found {
        number: (index + 1) as nat,
        parts: highlighted(lines[index], settings.pattern, settings.case_sensitive),
    };
    if index == lines.len() - 1 {
        assert(found == earlier.push(hit));
        assert(found[earlier.len() as int] == hit);
    } else {
        assert(lines.drop_last()[index] == lines[index]);
        lemma_every_matching_line_is_found(settings, lines.drop_last(), index);
        let k = choose|k: int| 0 <= k < earlier.len() && earlier[k] == hit;
        assert(found[k] == hit);
    }
}

/// Reading one more line adds at most one result, at the end: what a source
/// gives is what it gave before its last line, followed by what that line
/// gives.
pub proof fn lemma_found_in_next(settings: Settings, lines: Seq<Seq<char>>, line: Seq<char>)
    ensures
        found_in(settings, lines.push(line)) == match examined(
            settings,
            lines.len() + 1,
            line,
        ) {
            Some(hit) => found_in(settings, lines).push(hit),
            None => found_in(settings, lines),
        },
{
    assert(lines.push(line).drop_last() =~= lines);
}

impl Config {
    /// Examines one line, given the line as it is compared. See
    /// `examined_folded`.
    pub fn examine_folded(&self, number: u64, line: &str, folded_line: &str) -> (result: Option<
        Match,
    >)
        ensures
            found_of(result) == examined_folded(self@, number as nat, line@, folded_line@),
    {
        let needle = self.needle();
        if contains_text(folded_line, needle) {
            Some(Match { number, parts: highlight_folded(line, self.pattern(), folded_line, needle) })
        } else {
            None
        }
    }

    /// Examines the line with the given number: `None` where the line does not
    /// match, else the line's number and its three parts.
    pub fn examine(&self, number: u64, line: &str) -> (result: Option<Match>)
        ensures
            found_of(result) == examined(self@, number as nat, line@),
            result is Some <==> line_matches(line@, self@.pattern, self@.case_sensitive),
            result matches Some(hit) ==> hit.number == number && hit.parts@ == highlighted(
                line@,
                self@.pattern,
                self@.case_sensitive,
            ) && hit.parts@.whole() == line@,
    {
        proof {
            lemma_highlighted_keeps_line(line@, self@.pattern, self@.case_sensitive);
        }
        if self.case_sensitive() {
            self.examine_folded(number, line, line)
        } else {
            let folded_line = line.to_lowercase();
            self.examine_folded(number, line, folded_line.as_str())
        }
    }

    /// Searches a whole source held in memory: the matching lines in order,
    /// each with its number.
    pub fn search_lines(&self, lines: &Vec<String>) -> (hits: Vec<Match>)
        ensures
            founds(hits@) == found_in(self@, texts(lines@)),
    {
        let mut hits: Vec<Match> = Vec::new();
        let mut index: usize = 0;
        while index < lines.len()
            invariant
                index <= lines.len(),
                founds(hits@) == found_in(self@, texts(lines@).take(index as int)),
            decreases lines.len() - index,
        {
            let number: u64 = (index as u64) + 1;
            let result = self.examine(number, lines[index].as_str());
            proof {
                let seen = texts(lines@).take(index as int);
                let next = texts(lines@).take(index + 1);
                assert(next.drop_last() =~= seen);
                assert(next.last() == lines@[index as int]@);
            }
            match result {
                Some(hit) => {
                    let ghost before = hits@;
                    hits.push(hit);
                    assert(founds(hits@) =~= founds(before).push(hit@));
                },
                None => {},
            }
            index += 1;
        }
        assert(texts(lines@).take(index as int) =~= texts(lines@));
        hits
    }
}

/// The state of a search over a source that is read line by line: the settings
/// and the number of lines seen so far.
#[derive(Debug)]
pub struct Scanner {
    config: Config,
    seen: u64,
}

impl Scanner {
    /// The settings of this search.
    pub closed spec fn settings(&self) -> Settings {
        self.config@
    }

    /// The number of lines seen so far.
    pub closed spec fn seen(&self) -> nat {
        self.seen as nat
    }

    /// A search that has seen no line yet.
    pub fn new(config: Config) -> (scanner: Scanner)
        ensures
            scanner.settings() == config@,
            scanner.seen() == 0,
    {
        Scanner { config, seen: 0 }
    }

    /// The settings of this search.
    pub fn config(&self) -> (config: &Config)
        ensures
            config@ == self.settings(),
    {
        &self.config
    }

    /// The number of lines seen so far.
    pub fn lines_seen(&self) -> (seen: u64)
        ensures
            seen == self.seen(),
    {
        self.seen
    }

    /// Whether another line can be numbered.
    pub fn has_room(&self) -> (room: bool)
        ensures
            room == (self.seen() < u64::MAX),
    {
        self.seen < u64::MAX
    }

    /// Takes the next line of the source. The line gets the next number, whether
    /// it matches or not; a line that matches comes back with that number and
    /// its parts.
    pub fn feed(&mut self, line: &str) -> (result: Option<Match>)
        requires
            old(self).seen() < u64::MAX,
        ensures
            final(self).settings() == old(self).settings(),
            final(self).seen() == old(self).seen() + 1,
            found_of(result) == examined(old(self).settings(), old(self).seen() + 1, line@),
    {
        self.seen = self.seen + 1;
        self.config.examine(self.seen, line)
    }
}

} // verus!
