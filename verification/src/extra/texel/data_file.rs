//! The lines of a Texel tuning data file, sorted into those read
//! successfully and those that failed.
use vstd::prelude::*;

verus! {

/// What can be wrong with a line of the data file.
#[derive(Copy, Clone, PartialEq, Eq, Structural, Debug)]
pub enum LineParseError {
    DataLine,
    FenString,
    GameResult,
}

impl LineParseError {
    /// The message describing the error.
    pub fn message(&self) -> (m: &'static str)
        ensures
            m@ == match self {
                LineParseError::DataLine => "Error splitting line."@,
                LineParseError::FenString => "Error in FEN string."@,
                LineParseError::GameResult => "Error in game result."@,
            },
    {
        match self {
            LineParseError::DataLine => "Error splitting line.",
            LineParseError::FenString => "Error in FEN string.",
            LineParseError::GameResult => "Error in game result.",
        }
    }
}

/// One line of the data file with its line number.
pub struct Line {
    pub nr: usize,
    pub line: String,
}

impl Line {
    pub fn new(nr: usize, line: String) -> (l: Self)
        ensures
            l.nr == nr,
            l.line@ == line@,
    {
        Line { nr, line }
    }

    /// The line number.
    pub fn get_nr(&self) -> (n: &usize)
        ensures
            *n == self.nr,
    {
        &self.nr
    }

    /// The text of the line.
    pub fn get_line(&self) -> (s: &str)
        ensures
            s@ == self.line@,
    {
        self.line.as_str()
    }
}

/// The lines read from the data file: those read successfully and those
/// that failed, each in the order they were inserted.
pub struct Store {
    pub successful: Vec<Line>,
    pub failed: Vec<Line>,
}

impl Store {
    /// An empty store.
    pub fn new() -> (s: Self)
        ensures
            s.successful@.len() == 0,
            s.failed@.len() == 0,
    {
        Self { successful: Vec::new(), failed: Vec::new() }
    }

    pub fn count_successful_lines(&self) -> (n: usize)
        ensures
            n == self.successful@.len(),
    {
        self.successful.len()
    }

    pub fn count_failed_lines(&self) -> (n: usize)
        ensures
            n == self.failed@.len(),
    {
        self.failed.len()
    }

    /// The number of lines of both kinds.
    pub fn count_all_lines(&self) -> (n: usize)
        requires
            self.successful@.len() + self.failed@.len() <= usize::MAX,
        ensures
            n == self.successful@.len() + self.failed@.len(),
    {
        self.successful.len() + self.failed.len()
    }

    pub fn insert_successful_line(&mut self, line: Line)
        ensures
            final(self).successful@ == old(self).successful@.push(line),
            final(self).failed@ == old(self).failed@,
    {
        self.successful.push(line);
    }

    pub fn insert_failed_line(&mut self, line: Line)
        ensures
            final(self).failed@ == old(self).failed@.push(line),
            final(self).successful@ == old(self).successful@,
    {
        self.failed.push(line);
    }

    pub fn get_successful_lines(&self) -> (v: &Vec<Line>)
        ensures
            v@ == self.successful@,
    {
        &self.successful
    }

    pub fn get_failed_lines(&self) -> (v: &Vec<Line>)
        ensures
            v@ == self.failed@,
    {
        &self.failed
    }
}

/// Whether the line with number `nr` (counting from 1) counts as failed:
/// it could not be read.
pub open spec fn line_fails(nr: int, readable: bool) -> bool {
    !readable
}

/// The numbers (counting from 1) of the lines among `lines` that fail, in
/// order.
pub open spec fn failed_numbers(lines: Seq<Option<Seq<char>>>) -> Seq<int>
    decreases lines.len(),
{
    if lines.len() == 0 {
        Seq::empty()
    } else {
        let prev = failed_numbers(lines.drop_last());
        if line_fails(lines.len() as int, lines.last() is Some) {
            prev.push(lines.len() as int)
        } else {
            prev
        }
    }
}

/// The numbers and texts of the lines among `lines` that are kept, in
/// order.
pub open spec fn kept_lines(lines: Seq<Option<Seq<char>>>) -> Seq<(int, Seq<char>)>
    decreases lines.len(),
{
    if lines.len() == 0 {
        Seq::empty()
    } else {
        let prev = kept_lines(lines.drop_last());
        if line_fails(lines.len() as int, lines.last() is Some) {
            prev
        } else {
            prev.push((lines.len() as int, lines.last()->0))
        }
    }
}

/// Sorts the lines of a data file (`None` where a line could not be
/// read) into a store: failed lines are kept with their number and an
/// empty text, the others with their number and text.
pub fn store_lines(lines: Vec<Option<String>>) -> (store: Store)
    requires
        lines@.len() < usize::MAX,
    ensures
        store.failed@.len() == failed_numbers(lines@.map_values(|l: Option<String>| match l { Some(s) => Some(s@), None => None })).len(),
        forall|k: int| 0 <= k < store.failed@.len() ==> (#[trigger] store.failed@[k]).nr == failed_numbers(lines@.map_values(|l: Option<String>| match l { Some(s) => Some(s@), None => None }))[k]
            && store.failed@[k].line@.len() == 0,
        store.successful@.len() == kept_lines(lines@.map_values(|l: Option<String>| match l { Some(s) => Some(s@), None => None })).len(),
        forall|k: int| 0 <= k < store.successful@.len() ==> (#[trigger] store.successful@[k]).nr == kept_lines(lines@.map_values(|l: Option<String>| match l { Some(s) => Some(s@), None => None }))[k].0
            && store.successful@[k].line@ == kept_lines(lines@.map_values(|l: Option<String>| match l { Some(s) => Some(s@), None => None }))[k].1,
{
    let ghost texts = lines@.map_values(|l: Option<String>| match l { Some(s) => Some(s@), None => None });
    let mut store = Store::new();
    let mut lines = lines;
    let n = lines.len();
    let mut i: usize = 0;
    proof {
        assert(texts.take(0) =~= Seq::<Option<Seq<char>>>::empty());
    }
    let mut rest: Vec<Option<String>> = Vec::new();
    while i < n
        invariant
            0 <= i <= n,
            n == texts.len(),
            n < usize::MAX,
            lines@.len() == n,
            forall|k: int| i <= k < n ==> (match #[trigger] lines@[k] { Some(s) => Some(s@), None => None::<Seq<char>> }) == texts[k],
            store.failed@.len() == failed_numbers(texts.take(i as int)).len(),
            forall|k: int| 0 <= k < store.failed@.len() ==> (#[trigger] store.failed@[k]).nr == failed_numbers(texts.take(i as int))[k]
                && store.failed@[k].line@.len() == 0,
            store.successful@.len() == kept_lines(texts.take(i as int)).len(),
            forall|k: int| 0 <= k < store.successful@.len() ==> (#[trigger] store.successful@[k]).nr == kept_lines(texts.take(i as int))[k].0
                && store.successful@[k].line@ == kept_lines(texts.take(i as int))[k].1,
        decreases n - i,
    {
        proof {
            assert(texts.take(i as int + 1).drop_last() =~= texts.take(i as int));
            assert(texts.take(i as int + 1).last() == texts[i as int]);
        }
        let mut taken: Option<String> = None;
        lines.set_and_swap(i, &mut taken);
        let nr = i + 1;
        match taken {
            Some(text) => {
                store.insert_successful_line(Line::new(nr, text));
            },
            None => {
                store.insert_failed_line(Line::new(nr, String::new()));
            },
        }
        i += 1;
    }
    proof {
        assert(texts.take(n as int) =~= texts);
    }
    store
}

} // verus!
