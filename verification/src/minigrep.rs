//! Line search: the lines of a text that hold a query.

use vstd::prelude::*;
use vstd::string::StrSliceExecFns;
use crate::text::{chars_of, contains, line_bounds, lines, occurs_in, views};

verus! {

/// The lower-case form of a text, as `str::to_lowercase` gives it.
pub uninterp spec fn lowercase(s: Seq<char>) -> Seq<char>;

/// Calls `str::to_lowercase`. The result is known only by its name: the
/// lower-case form of the argument, which depends on nothing else.
#[verifier::external_body]
fn to_lowercase(s: &str) -> (lowered: String)
    ensures
        lowered@ == lowercase(s@),
{
    s.to_lowercase()
}

/// The items of `lines` whose key holds `needle`, in their order; `keys[k]`
/// is the key of `lines[k]`.
pub open spec fn selected<A>(lines: Seq<A>, keys: Seq<Seq<char>>, needle: Seq<char>) -> Seq<A>
    recommends
        lines.len() == keys.len(),
    decreases lines.len(),
{
    if lines.len() == 0 || keys.len() == 0 {
        Seq::empty()
    } else if contains(keys.last(), needle) {
        selected(lines.drop_last(), keys.drop_last(), needle).push(lines.last())
    } else {
        selected(lines.drop_last(), keys.drop_last(), needle)
    }
}

/// The test that a line passes when it holds `query`.
pub open spec fn holds(query: Seq<char>) -> spec_fn(Seq<char>) -> bool {
    |line: Seq<char>| contains(line, query)
}

/// The test that a line passes when it holds `query`, letter case ignored.
pub open spec fn holds_ignoring_case(query: Seq<char>) -> spec_fn(Seq<char>) -> bool {
    |line: Seq<char>| contains(lowercase(line), lowercase(query))
}

/// Selecting by keys is filtering by a test, where the key of each line
/// holds the needle exactly when the line passes the test.
pub proof fn lemma_selected_is_filter(
    lines: Seq<Seq<char>>,
    keys: Seq<Seq<char>>,
    needle: Seq<char>,
    test: spec_fn(Seq<char>) -> bool,
)
    requires
        lines.len() == keys.len(),
        forall|k: int| 0 <= k < lines.len() ==> contains(#[trigger] keys[k], needle) == test(lines[k]),
    ensures
        selected(lines, keys, needle) == lines.filter(test),
    decreases lines.len(),
{
    reveal(Seq::filter);
    if lines.len() > 0 {
        lemma_selected_is_filter(lines.drop_last(), keys.drop_last(), needle, test);
    }
}

/// The lines of `lines` whose key holds `needle`, in their order; `keys[k]`
/// is the key of `lines[k]`.
pub fn select_lines<'a>(lines: &Vec<&'a str>, keys: &Vec<Vec<char>>, needle: &Vec<char>) -> (found:
    Vec<&'a str>)
    requires
        lines@.len() == keys@.len(),
    ensures
        found@ == selected(lines@, Seq::new(keys@.len(), |k: int| keys@[k]@), needle@),
{
    let ghost all_keys = Seq::new(keys@.len(), |k: int| keys@[k]@);
    let mut found: Vec<&'a str> = Vec::new();
    let mut k: usize = 0;
    while k < lines.len()
        invariant
            k <= lines@.len(),
            lines@.len() == keys@.len(),
            all_keys == Seq::new(keys@.len(), |k: int| keys@[k]@),
            found@ == selected(lines@.take(k as int), all_keys.take(k as int), needle@),
        decreases lines@.len() - k,
    {
        let key = &keys[k];
        let holds = occurs_in(key, 0, key.len(), needle);
        proof {
            assert(key@.subrange(0, key@.len() as int) =~= key@);
            assert(lines@.take(k + 1).drop_last() =~= lines@.take(k as int));
            assert(all_keys.take(k + 1).drop_last() =~= all_keys.take(k as int));
        }
        if holds {
            found.push(lines[k]);
        }
        k = k + 1;
    }
    proof {
        assert(lines@.take(k as int) =~= lines@);
        assert(all_keys.take(k as int) =~= all_keys);
    }
    found
}

/// The lines of `contents`, as string slices of it.
pub fn split_lines<'a>(contents: &'a str) -> (slices: Vec<&'a str>)
    ensures
        views(slices@) == lines(contents@),
{
    let text = chars_of(contents);
    let bounds = line_bounds(&text);
    let mut slices: Vec<&'a str> = Vec::new();
    let mut k: usize = 0;
    while k < bounds.len()
        invariant
            k <= bounds@.len(),
            text@ == contents@,
            bounds@.len() == lines(text@).len(),
            forall|j: int|
                0 <= j < bounds@.len() ==> (#[trigger] bounds@[j]).0 <= bounds@[j].1
                    <= text@.len() && lines(text@)[j] == text@.subrange(
                    bounds@[j].0 as int,
                    bounds@[j].1 as int,
                ),
            slices@.len() == k,
            forall|j: int| 0 <= j < k ==> (#[trigger] slices@[j])@ == lines(text@)[j],
        decreases bounds@.len() - k,
    {
        let (from, to) = bounds[k];
        slices.push(contents.substring_char(from, to));
        k = k + 1;
    }
    slices
}

/// The lines of `contents` that hold `query`, in their order.
pub fn search<'a>(query: &str, contents: &'a str) -> (found: Vec<&'a str>)
    ensures
        views(found@) == lines(contents@).filter(holds(query@)),
{
    let needle = chars_of(query);
    let slices = split_lines(contents);
    let mut keys: Vec<Vec<char>> = Vec::new();
    let mut k: usize = 0;
    while k < slices.len()
        invariant
            k <= slices@.len(),
            keys@.len() == k,
            forall|j: int| 0 <= j < k ==> (#[trigger] keys@[j])@ == slices@[j]@,
        decreases slices@.len() - k,
    {
        keys.push(chars_of(slices[k]));
        k = k + 1;
    }
    let found = select_lines(&slices, &keys, &needle);
    proof {
        let all_keys = Seq::new(keys@.len(), |k: int| keys@[k]@);
        lemma_selected_views(slices@, all_keys, needle@);
        lemma_selected_is_filter(views(slices@), all_keys, needle@, holds(query@));
    }
    found
}

/// The lines of `contents` that hold `query` when letter case is ignored:
/// those whose lower-case form holds the lower-case form of `query`.
pub fn search_case_insensitive<'a>(query: &str, contents: &'a str) -> (found: Vec<&'a str>)
    ensures
        views(found@) == lines(contents@).filter(holds_ignoring_case(query@)),
{
    let lowered_query = to_lowercase(query);
    let needle = chars_of(lowered_query.as_str());
    let slices = split_lines(contents);
    let mut keys: Vec<Vec<char>> = Vec::new();
    let mut k: usize = 0;
    while k < slices.len()
        invariant
            k <= slices@.len(),
            keys@.len() == k,
            forall|j: int| 0 <= j < k ==> (#[trigger] keys@[j])@ == lowercase(slices@[j]@),
        decreases slices@.len() - k,
    {
        let lowered = to_lowercase(slices[k]);
        keys.push(chars_of(lowered.as_str()));
        k = k + 1;
    }
    let found = select_lines(&slices, &keys, &needle);
    proof {
        let all_keys = Seq::new(keys@.len(), |k: int| keys@[k]@);
        lemma_selected_views(slices@, all_keys, needle@);
        lemma_selected_is_filter(
            views(slices@),
            all_keys,
            needle@,
            holds_ignoring_case(query@),
        );
    }
    found
}

/// What the selected slices hold is what is selected of what the slices hold.
proof fn lemma_selected_views(slices: Seq<&str>, keys: Seq<Seq<char>>, needle: Seq<char>)
    requires
        slices.len() == keys.len(),
    ensures
        views(selected(slices, keys, needle)) == selected(views(slices), keys, needle),
    decreases slices.len(),
{
    if slices.len() > 0 {
        lemma_selected_views(slices.drop_last(), keys.drop_last(), needle);
        assert(views(slices).drop_last() =~= views(slices.drop_last()));
        if contains(keys.last(), needle) {
            assert(views(selected(slices.drop_last(), keys.drop_last(), needle).push(slices.last()))
                =~= views(selected(slices.drop_last(), keys.drop_last(), needle)).push(
                slices.last()@,
            ));
        }
    } else {
    }
}

/// What to search for, where, and how.
pub struct Config {
    /// The text that a line has to hold.
    pub query: String,
    /// The path of the file whose lines are searched.
    pub file_path: String,
    /// Whether letter case is ignored.
    pub ignore_case: bool,
}

impl Config {
    /// Reads a configuration off the arguments of a command line: `args[0]`
    /// is the name of the program, `args[1]` the query and `args[2]` the path
    /// of the file. `ignore_case` is taken as it is given. A missing query or
    /// path is reported by name.
    pub fn build(args: &Vec<String>, ignore_case: bool) -> (result: Result<Config, &'static str>)
        ensures
            args@.len() <= 1 ==> result is Err && result->Err_0@ == "Didn't get a query string"@,
            args@.len() == 2 ==> result is Err && result->Err_0@ == "Didn't get a file path"@,
            args@.len() >= 3 ==> result is Ok && result->Ok_0.query@ == args@[1]@
                && result->Ok_0.file_path@ == args@[2]@ && result->Ok_0.ignore_case == ignore_case,
    {
        if args.len() <= 1 {
            return Err("Didn't get a query string");
        }
        if args.len() == 2 {
            return Err("Didn't get a file path");
        }
        Ok(Config { query: args[1].clone(), file_path: args[2].clone(), ignore_case })
    }

    /// The lines of `contents` that this configuration asks for: those that
    /// hold the query, with letter case ignored or not.
    pub fn matches<'a>(&self, contents: &'a str) -> (found: Vec<&'a str>)
        ensures
            self.ignore_case ==> views(found@) == lines(contents@).filter(
                holds_ignoring_case(self.query@),
            ),
            !self.ignore_case ==> views(found@) == lines(contents@).filter(holds(self.query@)),
    {
        if self.ignore_case {
            search_case_insensitive(self.query.as_str(), contents)
        } else {
            search(self.query.as_str(), contents)
        }
    }
}

} // verus!
