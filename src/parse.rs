use vstd::prelude::*;

use crate::text::{
    ascii_digit, ascii_letter, chars_of, is_alphabetic, is_alphanumeric, is_letter, is_letter_or_digit,
    skip_backward, skip_forward, trim_bounds,
};
use crate::version::{requirement_parses, Requirement};

verus! {

/// A place in a document: a line and a character offset on it.
#[derive(Debug, Clone, Copy, PartialEq, Eq, Structural)]
pub struct Position {
    pub line: u32,
    pub character: u32,
}

impl Position {
    pub fn new(line: u32, character: u32) -> (r: Position)
        ensures
            r == (Position { line, character }),
    {
        Position { line, character }
    }
}

/// The stretch of a document between two positions.
#[derive(Debug, Clone, Copy, PartialEq, Eq, Structural)]
pub struct Range {
    pub start: Position,
    pub end: Position,
}

/// A column moved right by `by`, wrapping as `u32` arithmetic does.
pub open spec fn shifted(column: u32, by: u32) -> u32 {
    #[verifier::truncate] ((column + by) as u32)
}

impl Range {
    /// The range on `line`, with both columns moved right by `indent`.
    pub open spec fn placed(self, line: u32, indent: u32) -> Range {
        Range {
            start: Position { line, character: shifted(self.start.character, indent) },
            end: Position { line, character: shifted(self.end.character, indent) },
        }
    }

    pub fn new(start: Position, end: Position) -> (r: Range)
        ensures
            r == (Range { start, end }),
    {
        Range { start, end }
    }
}

fn shift_column(column: u32, by: u32) -> (r: u32)
    ensures
        r == shifted(column, by),
{
    #[verifier::truncate] ((column as u64 + by as u64) as u32)
}

fn place_range(range: Range, line: u32, indent: u32) -> (r: Range)
    ensures
        r == range.placed(line, indent),
{
    Range::new(
        Position::new(line, shift_column(range.start.character, indent)),
        Position::new(line, shift_column(range.end.character, indent)),
    )
}

/// The version text of a dependency, with where it stands.
#[allow(inconsistent_fields)]
#[derive(Debug, Clone, PartialEq, Eq)]
pub enum DependencyVersion {
    /// Text that is not (yet) a valid requirement, kept as it was typed.
    Partial { range: Range, version: String },
    /// A requirement that parsed.
    Complete { range: Range, version: Requirement },
}

/// What a `DependencyVersion` says: its range and its text (for a complete
/// one, the text the requirement was read from).
pub enum VersionFact {
    Partial { range: Range, text: Seq<char> },
    Complete { range: Range, text: Seq<char> },
}

impl VersionFact {
    pub open spec fn range(self) -> Range {
        match self {
            VersionFact::Partial { range, .. } => range,
            VersionFact::Complete { range, .. } => range,
        }
    }

    /// The range moved onto `line`, its columns moved right by `indent`.
    pub open spec fn placed(self, line: u32, indent: u32) -> VersionFact {
        match self {
            VersionFact::Partial { range, text } => VersionFact::Partial {
                range: range.placed(line, indent),
                text,
            },
            VersionFact::Complete { range, text } => VersionFact::Complete {
                range: range.placed(line, indent),
                text,
            },
        }
    }
}

impl View for DependencyVersion {
    type V = VersionFact;

    open spec fn view(&self) -> VersionFact {
        match self {
            DependencyVersion::Partial { range, version } => VersionFact::Partial {
                range: *range,
                text: version@,
            },
            DependencyVersion::Complete { range, version } => VersionFact::Complete {
                range: *range,
                text: version@,
            },
        }
    }
}

impl DependencyVersion {
    pub fn range(&self) -> (r: Range)
        ensures
            r == self@.range(),
    {
        match self {
            DependencyVersion::Partial { range, .. } => *range,
            DependencyVersion::Complete { range, .. } => *range,
        }
    }

    /// Moves the range onto another line, and its columns right by `indent`.
    pub fn place(&mut self, line: u32, indent: u32)
        ensures
            final(self)@ == old(self)@.placed(line, indent),
    {
        match self {
            DependencyVersion::Partial { range, .. } => {
                *range = place_range(*range, line, indent);
            },
            DependencyVersion::Complete { range, .. } => {
                *range = place_range(*range, line, indent);
            },
        }
    }

    pub fn duplicate(&self) -> (r: DependencyVersion)
        ensures
            r@ == self@,
    {
        match self {
            DependencyVersion::Partial { range, version } => DependencyVersion::Partial {
                range: *range,
                version: version.clone(),
            },
            DependencyVersion::Complete { range, version } => DependencyVersion::Complete {
                range: *range,
                version: version.duplicate(),
            },
        }
    }

    /// The version as it would be written back: the text of a partial one, the
    /// requirement's own text for a complete one.
    pub fn to_text(&self) -> (r: String)
        ensures
            r@ == (match self@ {
                VersionFact::Partial { text, .. } => text,
                VersionFact::Complete { text, .. } => text,
            }),
    {
        match self {
            DependencyVersion::Partial { version, .. } => version.clone(),
            DependencyVersion::Complete { version, .. } => version.text().to_string(),
        }
    }
}

#[derive(Debug, Clone, PartialEq, Eq)]
pub struct DependencyWithVersion {
    pub name: String,
    pub version: DependencyVersion,
}

/// One dependency declared in a manifest.
#[derive(Debug, Clone, PartialEq, Eq)]
pub enum Dependency {
    /// A key still being typed: no `=` or value follows it yet.
    Partial { name: String, line: u32 },
    WithVersion(DependencyWithVersion),
    /// A key whose value carries no version (a path or git dependency).
    Other { name: String },
}

/// What a `Dependency` says.
pub enum Fact {
    Partial { name: Seq<char>, line: u32 },
    WithVersion { name: Seq<char>, version: VersionFact },
    Other { name: Seq<char> },
}

impl Fact {
    /// The name that a fact gives a dependency, once its key is complete.
    pub open spec fn name(self) -> Option<Seq<char>> {
        match self {
            Fact::Partial { .. } => None,
            Fact::WithVersion { name, .. } => Some(name),
            Fact::Other { name } => Some(name),
        }
    }

    pub open spec fn renamed(self, name: Seq<char>) -> Fact {
        match self {
            Fact::Partial { .. } => self,
            Fact::WithVersion { version, .. } => Fact::WithVersion { name, version },
            Fact::Other { .. } => Fact::Other { name },
        }
    }

    pub open spec fn placed(self, line: u32, indent: u32) -> Fact {
        match self {
            Fact::WithVersion { name, version } => Fact::WithVersion {
                name,
                version: version.placed(line, indent),
            },
            _ => self,
        }
    }
}

impl View for Dependency {
    type V = Fact;

    open spec fn view(&self) -> Fact {
        match self {
            Dependency::Partial { name, line } => Fact::Partial { name: name@, line: *line },
            Dependency::WithVersion(d) => Fact::WithVersion { name: d.name@, version: d.version@ },
            Dependency::Other { name } => Fact::Other { name: name@ },
        }
    }
}

impl Dependency {
    pub fn name(&self) -> (r: Option<&String>)
        ensures
            match r {
                Some(n) => self@.name() == Some(n@),
                None => self@.name() is None,
            },
    {
        match self {
            Dependency::Partial { .. } => None,
            Dependency::WithVersion(dep) => Some(&dep.name),
            Dependency::Other { name } => Some(name),
        }
    }

    pub fn name_mut(&mut self) -> (r: Option<&mut String>)
        ensures
            match r {
                Some(n) => old(self)@.name() == Some(n@) && final(self)@ == old(self)@.renamed(
                    final(n)@,
                ),
                None => old(self)@.name() is None && final(self)@ == old(self)@,
            },
    {
        match self {
            Dependency::Partial { .. } => None,
            Dependency::WithVersion(dep) => Some(&mut dep.name),
            Dependency::Other { name } => Some(name),
        }
    }

    pub fn version_mut(&mut self) -> (r: Option<&mut DependencyVersion>)
        ensures
            match r {
                Some(v) => old(self)@ matches Fact::WithVersion { name, version } && version
                    == v@ && final(self)@ == (Fact::WithVersion { name, version: final(v)@ }),
                None => !(old(self)@ is WithVersion) && final(self)@ == old(self)@,
            },
    {
        match self {
            Dependency::Partial { .. } => None,
            Dependency::WithVersion(dep) => Some(&mut dep.version),
            Dependency::Other { .. } => None,
        }
    }

    pub fn duplicate(&self) -> (r: Dependency)
        ensures
            r@ == self@,
    {
        match self {
            Dependency::Partial { name, line } => Dependency::Partial {
                name: name.clone(),
                line: *line,
            },
            Dependency::WithVersion(d) => Dependency::WithVersion(
                DependencyWithVersion { name: d.name.clone(), version: d.version.duplicate() },
            ),
            Dependency::Other { name } => Dependency::Other { name: name.clone() },
        }
    }
}

/// Where a scan of one line stands after some of its characters. Indices count
/// characters; `name_start..name_end` is the key, `start` the opening quote of
/// the version text and `end` the character that closed it.
#[derive(Debug, Clone, Copy)]
pub enum Line {
    Start,
    /// The line does not begin with a key.
    Rejected,
    PartialName { start: usize },
    Name { name_start: usize, name_end: usize },
    /// Inside an inline table; `matched` characters of `version` have been seen.
    Struct { name_start: usize, name_end: usize, matched: usize },
    VersionSelector { name_start: usize, name_end: usize, start: usize, first: bool },
    Complete { name_start: usize, name_end: usize, start: usize, end: usize },
    Partial { name_start: usize, name_end: usize, start: usize, end: usize },
}

pub open spec fn keyword() -> Seq<char> {
    seq!['v', 'e', 'r', 's', 'i', 'o', 'n']
}

/// Characters that may continue a version requirement.
pub open spec fn requirement_char(c: char) -> bool {
    ascii_digit(c) || c == '.' || c == '_' || c == '-' || c == '<' || c == '>' || c == '=' || c
        == ','
}

/// The scanner's transition on character `c` at index `i`.
pub open spec fn next_state(s: Line, c: char, i: usize) -> Line {
    match s {
        Line::Start => if is_letter(c) {
            Line::PartialName { start: i }
        } else {
            Line::Rejected
        },
        Line::Rejected => s,
        Line::Complete { .. } => s,
        Line::Partial { .. } => s,
        Line::PartialName { start } => if c == '-' || c == '_' || is_letter_or_digit(c) {
            s
        } else {
            Line::Name { name_start: start, name_end: i }
        },
        Line::Name { name_start, name_end } => if c == '{' {
            Line::Struct { name_start, name_end, matched: 0 }
        } else if c == '"' {
            Line::VersionSelector { name_start, name_end, start: i, first: true }
        } else {
            s
        },
        Line::Struct { name_start, name_end, matched } => if matched >= 7 {
            if c == '"' {
                Line::VersionSelector { name_start, name_end, start: i, first: true }
            } else {
                s
            }
        } else if c == keyword()[matched as int] {
            Line::Struct { name_start, name_end, matched: (matched + 1) as usize }
        } else {
            Line::Struct { name_start, name_end, matched: 0 }
        },
        Line::VersionSelector { name_start, name_end, start, first } => if c == '"' {
            Line::Complete { name_start, name_end, start, end: i }
        } else if ascii_letter(c) {
            if first {
                Line::Partial { name_start, name_end, start, end: i }
            } else {
                Line::VersionSelector { name_start, name_end, start, first: false }
            }
        } else if requirement_char(c) {
            Line::VersionSelector { name_start, name_end, start, first: false }
        } else if c == ' ' {
            Line::VersionSelector { name_start, name_end, start, first: true }
        } else {
            Line::Partial { name_start, name_end, start, end: i }
        },
    }
}

/// The scanner's state after the first `n` characters of a line.
pub open spec fn scan(line: Seq<char>, n: nat) -> Line
    decreases n,
{
    if n == 0 {
        Line::Start
    } else {
        next_state(scan(line, (n - 1) as nat), line[n - 1], (n - 1) as usize)
    }
}

/// The indices a state holds lie in order within the first `n` characters.
pub open spec fn state_within(s: Line, n: int) -> bool {
    match s {
        Line::Start => true,
        Line::Rejected => true,
        Line::PartialName { start } => start < n,
        Line::Name { name_start, name_end } => name_start < name_end < n,
        Line::Struct { name_start, name_end, matched } => name_start < name_end < n && matched
            <= 7,
        Line::VersionSelector { name_start, name_end, start, .. } => name_start < name_end
            < start < n,
        Line::Complete { name_start, name_end, start, end } => name_start < name_end < start
            < end < n,
        Line::Partial { name_start, name_end, start, end } => name_start < name_end < start < end
            < n,
    }
}

/// `line[lo..hi]` with whitespace taken off both ends.
pub open spec fn trimmed(line: Seq<char>, lo: int, hi: int) -> Seq<char> {
    let a = skip_forward(line, lo, hi, None);
    line.subrange(a, skip_backward(line, a, hi, None))
}

/// `line[lo..hi]` with whitespace, then commas, taken off both ends.
pub open spec fn trimmed_commas(line: Seq<char>, lo: int, hi: int) -> Seq<char> {
    let a = skip_forward(line, lo, hi, None);
    let b = skip_backward(line, a, hi, None);
    let c = skip_forward(line, a, b, Some(','));
    line.subrange(c, skip_backward(line, c, b, Some(',')))
}

/// The range of a version text that opens at `start` and runs to `end`, with
/// the quote on either side left out: the opening quote when `start` holds
/// one, the closing one when the character after `end` is a quote and the
/// range would not end before it starts.
pub open spec fn version_range(line: Seq<char>, start: int, end: int) -> Range {
    let s = if line[start] == '"' {
        start + 1
    } else {
        start
    };
    let e = if end + 1 < line.len() && line[end + 1] == '"' && end - 1 >= s {
        end - 1
    } else {
        end
    };
    Range {
        start: Position { line: 0, character: #[verifier::truncate] (s as u32) },
        end: Position { line: 0, character: #[verifier::truncate] (e as u32) },
    }
}

/// The fact that a finished scan of a line yields; ranges are on line 0.
pub open spec fn line_fact(line: Seq<char>, s: Line, line_no: usize) -> Option<Fact> {
    let len = line.len() as int;
    match s {
        Line::Start => None,
        Line::Rejected => None,
        Line::PartialName { start } => Some(
            Fact::Partial {
                name: line.subrange(start as int, len),
                line: #[verifier::truncate] (line_no as u32),
            },
        ),
        Line::Name { name_start, name_end } => Some(
            Fact::Other { name: line.subrange(name_start as int, name_end as int) },
        ),
        Line::Struct { name_start, name_end, .. } => Some(
            Fact::Other { name: line.subrange(name_start as int, name_end as int) },
        ),
        Line::VersionSelector { name_start, name_end, start, .. } => Some(
            Fact::WithVersion {
                name: line.subrange(name_start as int, name_end as int),
                version: VersionFact::Partial {
                    range: version_range(line, start as int, len),
                    text: trimmed(line, start + 1, len),
                },
            },
        ),
        Line::Complete { name_start, name_end, start, end } => {
            let text = trimmed(line, start + 1, end as int);
            let range = version_range(line, start as int, end as int);
            Some(
                Fact::WithVersion {
                    name: line.subrange(name_start as int, name_end as int),
                    version: if requirement_parses(text) {
                        VersionFact::Complete { range, text }
                    } else {
                        VersionFact::Partial { range, text }
                    },
                },
            )
        },
        Line::Partial { name_start, name_end, start, end } => Some(
            Fact::WithVersion {
                name: line.subrange(name_start as int, name_end as int),
                version: VersionFact::Partial {
                    range: version_range(line, start as int, len),
                    text: trimmed_commas(line, start + 1, end as int),
                },
            },
        ),
    }
}

/// A version's range lies on line 0 and does not end before it starts.
pub open spec fn range_ordered(f: Fact) -> bool {
    match f {
        Fact::WithVersion { version, .. } => version.range().start.line == 0
            && version.range().end.line == 0 && version.range().start.character
            <= version.range().end.character,
        _ => true,
    }
}

/// Where the scan has met an opening quote, the quote is at `start` and no
/// quote follows it before the closing one at `end`.
pub proof fn lemma_scan_quotes(line: Seq<char>, n: nat)
    requires
        n <= line.len() <= usize::MAX,
    ensures
        state_within(scan(line, n), n as int),
        scan(line, n) matches Line::VersionSelector { start, .. } ==> line[start as int] == '"'
            && forall|k: int| start < k < n ==> line[k] != '"',
        scan(line, n) matches Line::Complete { start, end, .. } ==> line[start as int] == '"'
            && line[end as int] == '"' && forall|k: int| start < k < end ==> line[k] != '"',
    decreases n,
{
    if n > 0 {
        lemma_scan_quotes(line, (n - 1) as nat);
    }
}

proof fn lemma_range_ordered(line: Seq<char>, s: Line, line_no: usize)
    requires
        state_within(s, line.len() as int),
        line.len() <= u32::MAX,
    ensures
        line_fact(line, s, line_no) matches Some(f) ==> range_ordered(f),
{
}

/// A complete version's range spans exactly the text between its quotes:
/// it starts just after the opening quote and ends at the closing one, no
/// quote stands in between, and the requirement was read from that text,
/// trimmed. (When a further quote follows the closing one, the range is cut
/// back by the quote repair and this says nothing.)
pub proof fn law_complete_range_is_quoted_text(line: Seq<char>, line_no: usize)
    requires
        line.len() <= u32::MAX,
    ensures
        parse_line(line, line_no) matches Some(
            Fact::WithVersion { version: VersionFact::Complete { range, text }, .. },
        ) ==> ({
            let a = range.start.character as int;
            let b = range.end.character as int;
            (b + 1 >= line.len() || line[b + 1] != '"') ==> {
                &&& 1 <= a <= b < line.len()
                &&& line[a - 1] == '"'
                &&& line[b] == '"'
                &&& forall|k: int| a <= k < b ==> line[k] != '"'
                &&& text == trimmed(line, a, b)
                &&& requirement_parses(text)
            }
        }),
{
    lemma_scan_quotes(line, line.len());
}

/// What one line of a dependency section declares, if anything.
pub open spec fn parse_line(line: Seq<char>, line_no: usize) -> Option<Fact> {
    line_fact(line, scan(line, line.len()), line_no)
}

fn keyword_char(k: usize) -> (c: char)
    requires
        k < 7,
    ensures
        c == keyword()[k as int],
{
    match k {
        0 => 'v',
        1 => 'e',
        2 => 'r',
        3 => 's',
        4 => 'i',
        5 => 'o',
        _ => 'n',
    }
}

fn is_requirement_char(c: char) -> (r: bool)
    ensures
        r == requirement_char(c),
{
    ('0' <= c && c <= '9') || c == '.' || c == '_' || c == '-' || c == '<' || c == '>' || c == '='
        || c == ','
}

fn version_range_of(line: &Vec<char>, start: usize, end: usize) -> (r: Range)
    requires
        start < line.len(),
        1 <= end,
    ensures
        r == version_range(line@, start as int, end as int),
{
    let s = if line[start] == '"' {
        start + 1
    } else {
        start
    };
    let e = if end < line.len() - 1 && line[end + 1] == '"' && end - 1 >= s {
        end - 1
    } else {
        end
    };
    Range::new(
        Position::new(0, #[verifier::truncate] (s as u32)),
        Position::new(0, #[verifier::truncate] (e as u32)),
    )
}

fn with_version(line: &str, name_start: usize, name_end: usize, version: DependencyVersion) -> (r:
    Dependency)
    requires
        name_start <= name_end <= line@.len(),
    ensures
        r@ == (Fact::WithVersion {
            name: line@.subrange(name_start as int, name_end as int),
            version: version@,
        }),
{
    Dependency::WithVersion(
        DependencyWithVersion {
            name: line.substring_char(name_start, name_end).to_string(),
            version,
        },
    )
}

impl Line {
    /// The scanner's transition on character `c` at index `i`.
    pub fn step(self, c: char, i: usize) -> (r: Line)
        requires
            i < usize::MAX,
            state_within(self, i as int),
        ensures
            r == next_state(self, c, i),
            state_within(r, i + 1),
    {
        match self {
            Line::Start => if is_alphabetic(c) {
                Line::PartialName { start: i }
            } else {
                Line::Rejected
            },
            Line::Rejected => self,
            Line::Complete { .. } => self,
            Line::Partial { .. } => self,
            Line::PartialName { start } => if c == '-' || c == '_' || is_alphanumeric(c) {
                self
            } else {
                Line::Name { name_start: start, name_end: i }
            },
            Line::Name { name_start, name_end } => if c == '{' {
                Line::Struct { name_start, name_end, matched: 0 }
            } else if c == '"' {
                Line::VersionSelector { name_start, name_end, start: i, first: true }
            } else {
                self
            },
            Line::Struct { name_start, name_end, matched } => if matched >= 7 {
                if c == '"' {
                    Line::VersionSelector { name_start, name_end, start: i, first: true }
                } else {
                    self
                }
            } else if c == keyword_char(matched) {
                Line::Struct { name_start, name_end, matched: matched + 1 }
            } else {
                Line::Struct { name_start, name_end, matched: 0 }
            },
            Line::VersionSelector { name_start, name_end, start, first } => if c == '"' {
                Line::Complete { name_start, name_end, start, end: i }
            } else if ('a' <= c && c <= 'z') || ('A' <= c && c <= 'Z') {
                if first {
                    Line::Partial { name_start, name_end, start, end: i }
                } else {
                    Line::VersionSelector { name_start, name_end, start, first: false }
                }
            } else if is_requirement_char(c) {
                Line::VersionSelector { name_start, name_end, start, first: false }
            } else if c == ' ' {
                Line::VersionSelector { name_start, name_end, start, first: true }
            } else {
                Line::Partial { name_start, name_end, start, end: i }
            },
        }
    }

    /// Reads one line of a dependency section: a key, then a version given as
    /// a string or as the `version` key of an inline table. Never fails on
    /// unfinished text: what has been typed so far is kept as a partial fact.
    /// Ranges are on line 0; `line_no` is recorded only for a partial key.
    pub fn parse(line: &str, line_no: usize) -> (r: Option<Dependency>)
        ensures
            match r {
                Some(d) => parse_line(line@, line_no) == Some(d@),
                None => parse_line(line@, line_no) is None,
            },
            line@.len() <= u32::MAX ==> (r matches Some(d) ==> range_ordered(d@)),
    {
        let chars = chars_of(line);
        let n = chars.len();
        let mut state = Line::Start;
        let mut i: usize = 0;
        while i < n
            invariant
                chars@ == line@,
                n == chars@.len(),
                i <= n,
                state == scan(line@, i as nat),
                state_within(state, i as int),
            decreases n - i,
        {
            state = state.step(chars[i], i);
            i = i + 1;
        }
        proof {
            if line@.len() <= u32::MAX {
                lemma_range_ordered(line@, state, line_no);
            }
        }
        finish(line, &chars, state, line_no)
    }
}

fn finish(line: &str, chars: &Vec<char>, state: Line, line_no: usize) -> (r: Option<Dependency>)
    requires
        chars@ == line@,
        state_within(state, line@.len() as int),
    ensures
        match r {
            Some(d) => line_fact(line@, state, line_no) == Some(d@),
            None => line_fact(line@, state, line_no) is None,
        },
{
    let n = chars.len();
    match state {
        Line::Start => None,
        Line::Rejected => None,
        Line::PartialName { start } => Some(
            Dependency::Partial {
                name: line.substring_char(start, n).to_string(),
                line: #[verifier::truncate] (line_no as u32),
            },
        ),
        Line::Name { name_start, name_end } => Some(
            Dependency::Other { name: line.substring_char(name_start, name_end).to_string() },
        ),
        Line::Struct { name_start, name_end, .. } => Some(
            Dependency::Other { name: line.substring_char(name_start, name_end).to_string() },
        ),
        Line::VersionSelector { name_start, name_end, start, .. } => {
            let (a, b) = trim_bounds(chars, start + 1, n, None);
            let version = DependencyVersion::Partial {
                range: version_range_of(chars, start, n),
                version: line.substring_char(a, b).to_string(),
            };
            Some(with_version(line, name_start, name_end, version))
        },
        Line::Complete { name_start, name_end, start, end } => {
            let (a, b) = trim_bounds(chars, start + 1, end, None);
            let text = line.substring_char(a, b);
            let range = version_range_of(chars, start, end);
            let version = match Requirement::parse(text) {
                Some(req) => DependencyVersion::Complete { range, version: req },
                None => DependencyVersion::Partial { range, version: text.to_string() },
            };
            Some(with_version(line, name_start, name_end, version))
        },
        Line::Partial { name_start, name_end, start, end } => {
            let (a, b) = trim_bounds(chars, start + 1, end, None);
            let (c, d) = trim_bounds(chars, a, b, Some(','));
            let version = DependencyVersion::Partial {
                range: version_range_of(chars, start, n),
                version: line.substring_char(c, d).to_string(),
            };
            Some(with_version(line, name_start, name_end, version))
        },
    }
}

} // verus!
