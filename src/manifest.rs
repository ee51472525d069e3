use vstd::prelude::*;

use crate::parse::{keyword, next_state, parse_line, scan, Dependency, Fact, Line, Position, Range, VersionFact, shifted};
use crate::table::{Model, Table};
use crate::text::{chars_of, is_letter, has_at, matches_at, skip_backward, skip_forward, trim_bounds, trim_end_at};

verus! {

/// The kind of section a line of a manifest stands in.
pub enum Section {
    /// `[dependencies]`, `[dev-dependencies]`, `[target.'..'.dependencies]` and
    /// the like.
    Dependencies,
    /// `[dependencies.NAME]`: one dependency spread over several lines.
    Dependency(Seq<char>),
    /// Anything else, such as `[package]`, and the top of the document.
    Other,
}

/// The section the scan of a manifest is in.
pub enum DocumentState {
    Dependencies,
    Dependency(String),
    Other,
}

impl View for DocumentState {
    type V = Section;

    open spec fn view(&self) -> Section {
        match self {
            DocumentState::Dependencies => Section::Dependencies,
            DocumentState::Dependency(name) => Section::Dependency(name@),
            DocumentState::Other => Section::Other,
        }
    }
}

pub open spec fn ends_with(t: Seq<char>, p: Seq<char>) -> bool {
    t.len() >= p.len() && has_at(t, t.len() - p.len(), p)
}

/// The section that a header line (already trimmed) opens.
pub open spec fn header_section(t: Seq<char>) -> Section {
    if has_at(t, 0, "[dependencies"@) {
        if has_at(t, 0, "[dependencies."@) {
            let k = "[dependencies."@.len() as int;
            Section::Dependency(t.subrange(k, skip_backward(t, k, t.len() as int, Some(']'))))
        } else {
            Section::Dependencies
        }
    } else if ends_with(t, "dependencies]"@) {
        Section::Dependencies
    } else {
        Section::Other
    }
}

/// What a trimmed, non-empty line that is no header contributes in a section.
/// Ranges are moved onto line `line_no`, and their columns right by `indent`,
/// the width of what the trim took off the start of the line.
pub open spec fn section_facts(t: Seq<char>, line_no: usize, indent: u32, section: Section) -> Seq<
    Fact,
> {
    match section {
        Section::Dependencies => match parse_line(t, line_no) {
            Some(f) => seq![f.placed(line_no as u32, indent)],
            None => seq![],
        },
        Section::Dependency(name) => match parse_line(t, line_no) {
            Some(f) => if f.name() == Some(keyword()) {
                seq![f.renamed(name).placed(line_no as u32, indent)]
            } else {
                seq![]
            },
            None => seq![],
        },
        Section::Other => seq![],
    }
}

/// One line (already trimmed): the facts it yields and the section after it.
pub open spec fn line_step(t: Seq<char>, line_no: usize, indent: u32, section: Section) -> (
    Seq<Fact>,
    Section,
) {
    if t.len() == 0 {
        (seq![], section)
    } else if t[0] == '[' {
        (seq![], header_section(t))
    } else {
        (section_facts(t, line_no, indent, section), section)
    }
}

/// The index of the line feed that ends the line starting at `i`, or the
/// length of the text when the line is the last.
pub open spec fn line_end(s: Seq<char>, i: int) -> int
    decreases s.len() - i,
{
    if 0 <= i < s.len() && s[i] != '\n' {
        line_end(s, i + 1)
    } else {
        i
    }
}

/// The facts that the lines from index `pos` on yield, that line being number
/// `line_no` and standing in `section`.
pub open spec fn facts_from(s: Seq<char>, pos: int, line_no: usize, section: Section) -> Seq<Fact>
    decreases s.len() - pos,
{
    if pos < 0 || pos >= s.len() || line_no == usize::MAX {
        seq![]
    } else {
        let e = line_end(s, pos);
        let a = skip_forward(s, pos, e, None);
        let t = s.subrange(a, skip_backward(s, a, e, None));
        let step = line_step(t, line_no, #[verifier::truncate] ((a - pos) as u32), section);
        let next = if e < pos {
            pos + 1
        } else if e >= s.len() {
            s.len() as int
        } else {
            e + 1
        };
        step.0 + facts_from(s, next, (line_no + 1) as usize, step.1)
    }
}

/// The dependencies that a manifest's text declares, in order.
pub open spec fn manifest_facts(s: Seq<char>) -> Seq<Fact> {
    facts_from(s, 0, 0, Section::Other)
}

pub open spec fn facts_of(ds: Seq<Dependency>) -> Seq<Fact> {
    ds.map_values(|d: Dependency| d@)
}

proof fn lemma_line_end(s: Seq<char>, i: int)
    requires
        0 <= i <= s.len(),
    ensures
        i <= line_end(s, i) <= s.len(),
        line_end(s, i) < s.len() ==> s[line_end(s, i)] == '\n',
    decreases s.len() - i,
{
    if i < s.len() && s[i] != '\n' {
        lemma_line_end(s, i + 1);
    }
}

fn find_line_end(s: &Vec<char>, i: usize) -> (r: usize)
    requires
        i <= s@.len(),
    ensures
        r == line_end(s@, i as int),
        i <= r <= s@.len(),
{
    let mut j: usize = i;
    while j < s.len() && s[j] != '\n'
        invariant
            i <= j <= s@.len(),
            line_end(s@, j as int) == line_end(s@, i as int),
        decreases s@.len() - j,
    {
        j = j + 1;
    }
    j
}

fn is_version_key(n: &String) -> (r: bool)
    ensures
        r == (n@ == keyword()),
{
    let t = n.as_str();
    let k: usize = t.unicode_len();
    if k != 7 {
        return false;
    }
    let r = t.get_char(0) == 'v' && t.get_char(1) == 'e' && t.get_char(2) == 'r' && t.get_char(3)
        == 's' && t.get_char(4) == 'i' && t.get_char(5) == 'o' && t.get_char(6) == 'n';
    if r {
        assert(t@ =~= keyword());
    }
    r
}

fn section_of_header(t: &str) -> (r: DocumentState)
    ensures
        r@ == header_section(t@),
{
    let tc = chars_of(t);
    let n = tc.len();
    if matches_at(&tc, 0, "[dependencies") {
        if matches_at(&tc, 0, "[dependencies.") {
            let k: usize = "[dependencies.".unicode_len();
            let e = trim_end_at(&tc, k, n, Some(']'));
            DocumentState::Dependency(t.substring_char(k, e).to_string())
        } else {
            DocumentState::Dependencies
        }
    } else {
        let p = "dependencies]";
        let k: usize = p.unicode_len();
        if n >= k && matches_at(&tc, n - k, p) {
            DocumentState::Dependencies
        } else {
            DocumentState::Other
        }
    }
}

/// Adds what a trimmed, non-empty, non-header line yields in `section`.
fn push_section_facts(
    out: &mut Vec<Dependency>,
    t: &str,
    line_no: usize,
    indent: u32,
    section: &DocumentState,
)
    ensures
        facts_of(final(out)@) == facts_of(old(out)@) + section_facts(t@, line_no, indent, section@),
{
    let ghost before = out@;
    let line = #[verifier::truncate] (line_no as u32);
    match section {
        DocumentState::Dependencies => {
            if let Some(mut d) = Line::parse(t, line_no) {
                if let Some(v) = d.version_mut() {
                    v.place(line, indent);
                }
                out.push(d);
                assert(facts_of(out@) =~= facts_of(before) + section_facts(t@, line_no, indent, section@));
            } else {
                assert(facts_of(out@) =~= facts_of(before) + section_facts(t@, line_no, indent, section@));
            }
        },
        DocumentState::Dependency(name) => {
            if let Some(mut d) = Line::parse(t, line_no) {
                let keep = match d.name() {
                    Some(n) => is_version_key(n),
                    None => false,
                };
                if keep {
                    if let Some(n) = d.name_mut() {
                        *n = name.clone();
                    }
                    if let Some(v) = d.version_mut() {
                        v.place(line, indent);
                    }
                    out.push(d);
                }
                assert(facts_of(out@) =~= facts_of(before) + section_facts(t@, line_no, indent, section@));
            } else {
                assert(facts_of(out@) =~= facts_of(before) + section_facts(t@, line_no, indent, section@));
            }
        },
        DocumentState::Other => {
            assert(facts_of(out@) =~= facts_of(before) + section_facts(t@, line_no, indent, section@));
        },
    }
}

/// Reads the dependencies that a manifest's text declares, in order. Lines in
/// sections that declare no dependencies, such as `[package]`, are passed
/// over; in a `[dependencies.NAME]` section only the `version` key counts, and
/// it is reported under NAME.
pub fn parse_manifest(source: &str) -> (r: Vec<Dependency>)
    ensures
        facts_of(r@) == manifest_facts(source@),
{
    let chars = chars_of(source);
    let n = chars.len();
    let mut out: Vec<Dependency> = Vec::new();
    let mut section = DocumentState::Other;
    let mut pos: usize = 0;
    let mut line_no: usize = 0;
    while pos < n
        invariant
            chars@ == source@,
            n == chars@.len(),
            pos <= n,
            line_no <= pos,
            facts_of(out@) + facts_from(source@, pos as int, line_no, section@) == manifest_facts(
                source@,
            ),
        decreases n - pos,
    {
        let ghost old_out = out@;
        let ghost old_section = section@;
        let ghost old_pos = pos;
        let ghost old_line_no = line_no;
        let e = find_line_end(&chars, pos);
        let (a, b) = trim_bounds(&chars, pos, e, None);
        let t = source.substring_char(a, b);
        let tn: usize = t.unicode_len();
        if tn == 0 {
        } else if t.get_char(0) == '[' {
            section = section_of_header(t);
        } else {
            push_section_facts(&mut out, t, line_no, #[verifier::truncate] ((a - pos) as u32), &section);
        }
        proof {
            lemma_line_end(source@, pos as int);
            let step = line_step(t@, old_line_no, #[verifier::truncate] ((a - old_pos) as u32), old_section);
            assert(facts_of(out@) == facts_of(old_out) + step.0);
            assert(section@ == step.1);
        }
        if e < n {
            pos = e + 1;
        } else {
            pos = n;
        }
        line_no = line_no + 1;
        proof {
            let step = line_step(t@, old_line_no, #[verifier::truncate] ((a - old_pos) as u32), old_section);
            assert(facts_from(source@, old_pos as int, old_line_no, old_section) == step.0
                + facts_from(source@, pos as int, line_no, section@));
            assert(facts_of(out@) + facts_from(source@, pos as int, line_no, section@) =~= facts_of(
                old_out,
            ) + facts_from(source@, old_pos as int, old_line_no, old_section));
        }
    }
    assert(facts_of(out@) =~= manifest_facts(source@));
    out
}

pub fn duplicate_all(ds: &Vec<Dependency>) -> (r: Vec<Dependency>)
    ensures
        facts_of(r@) == facts_of(ds@),
{
    let mut r: Vec<Dependency> = Vec::new();
    let mut i: usize = 0;
    while i < ds.len()
        invariant
            i <= ds@.len(),
            r@.len() == i,
            forall|j: int| 0 <= j < i ==> (#[trigger] r@[j])@ == ds@[j]@,
        decreases ds@.len() - i,
    {
        r.push(ds[i].duplicate());
        i = i + 1;
    }
    assert(facts_of(r@) =~= facts_of(ds@));
    r
}

impl Model for Vec<Dependency> {
    type M = Seq<Fact>;

    open spec fn model(&self) -> Seq<Fact> {
        facts_of(self@)
    }

    fn copy_of(&self) -> (r: Vec<Dependency>) {
        duplicate_all(self)
    }
}

/// The dependencies last read from each document, by document identity.
pub struct ManifestTracker {
    manifests: Table<Vec<Dependency>>,
}

impl ManifestTracker {
    pub closed spec fn view(&self) -> Map<Seq<char>, Seq<Fact>> {
        self.manifests.view()
    }

    pub closed spec fn wf(&self) -> bool {
        self.manifests.wf()
    }

    pub fn new() -> (r: ManifestTracker)
        ensures
            r.wf(),
            r.view() == Map::<Seq<char>, Seq<Fact>>::empty(),
    {
        ManifestTracker { manifests: Table::new() }
    }

    /// Reads a document's text afresh and keeps what it declares under the
    /// document's identity, in place of what was kept before.
    pub fn update_from_source(&mut self, url: &str, source: &str) -> (r: Vec<Dependency>)
        requires
            old(self).wf(),
        ensures
            final(self).wf(),
            facts_of(r@) == manifest_facts(source@),
            final(self).view() == old(self).view().insert(url@, manifest_facts(source@)),
    {
        let packages = parse_manifest(source);
        self.manifests.insert(url, duplicate_all(&packages));
        packages
    }

    /// What was last read from a document, if it has been read.
    pub fn get(&self, url: &str) -> (r: Option<Vec<Dependency>>)
        ensures
            match r {
                Some(ds) => self.view().contains_key(url@) && facts_of(ds@) == self.view()[url@],
                None => !self.view().contains_key(url@),
            },
    {
        self.manifests.get(url)
    }
}

impl Default for ManifestTracker {
    fn default() -> (r: ManifestTracker)
        ensures
            r.wf(),
            r.view() == Map::<Seq<char>, Seq<Fact>>::empty(),
    {
        ManifestTracker::new()
    }
}

/// Inside `[package]` no line is a dependency: whatever a line there holds,
/// `version = "9.9.9"` included, it yields no fact.
pub proof fn law_package_section_yields_nothing(t: Seq<char>, line_no: usize, indent: u32)
    ensures
        header_section("[package]"@) == Section::Other,
        line_step(t, line_no, indent, header_section("[package]"@)).0 == Seq::<Fact>::empty(),
{
    reveal_strlit("[package]");
    reveal_strlit("[dependencies");
    reveal_strlit("dependencies]");
    assert(!has_at("[package]"@, 0, "[dependencies"@));
    assert(!ends_with("[package]"@, "dependencies]"@));
}

/// After a `[dependencies.NAME]` header, the line `version = "1"` yields
/// exactly one fact: a version for NAME, on that line, its columns moved by
/// the line's indent, with no fact named `version`.
pub proof fn law_named_table_version(
    name: Seq<char>,
    header_line: usize,
    header_indent: u32,
    line_no: usize,
    indent: u32,
    before: Section,
)
    requires
        name.len() > 0,
        name.last() != ']',
    ensures
        ({
            let header = "[dependencies."@ + name + "]"@;
            let section = line_step(header, header_line, header_indent, before).1;
            let facts = line_step("version = \"1\""@, line_no, indent, section).0;
            &&& line_step(header, header_line, header_indent, before).0.len() == 0
            &&& section == Section::Dependency(name)
            &&& facts.len() == 1
            &&& facts[0] matches Fact::WithVersion { name: n, version }
            &&& n == name
            &&& version.range() == (Range {
                start: Position { line: line_no as u32, character: shifted(11, indent) },
                end: Position { line: line_no as u32, character: shifted(12, indent) },
            })
            &&& version matches VersionFact::Complete { text, .. } ==> text == seq!['1']
            &&& version matches VersionFact::Partial { text, .. } ==> text == seq!['1']
        }),
{
    lemma_named_header(name, header_line, header_indent, before);
    lemma_version_line(line_no, indent, name);
}

proof fn lemma_named_header(name: Seq<char>, header_line: usize, header_indent: u32, before: Section)
    requires
        name.len() > 0,
        name.last() != ']',
    ensures
        line_step("[dependencies."@ + name + "]"@, header_line, header_indent, before).0.len() == 0,
        line_step("[dependencies."@ + name + "]"@, header_line, header_indent, before).1 == Section::Dependency(
            name,
        ),
{
    reveal_strlit("[dependencies.");
    reveal_strlit("[dependencies");
    reveal_strlit("]");
    let header = "[dependencies."@ + name + "]"@;
    let n = header.len() as int;
    assert(header[0] == '[');
    assert(header.subrange(0, 13) =~= "[dependencies"@);
    assert(header.subrange(0, 14) =~= "[dependencies."@);
    assert(header[n - 1] == ']');
    assert(header[n - 2] == name.last());
    assert(skip_backward(header, 14, n - 1, Some(']')) == n - 1);
    assert(skip_backward(header, 14, n, Some(']')) == n - 1);
    assert(header.subrange(14, n - 1) =~= name);
}

proof fn lemma_version_scan()
    ensures
        scan("version = \"1\""@, 13) == (Line::Complete {
            name_start: 0,
            name_end: 7,
            start: 10,
            end: 12,
        }),
{
    reveal_strlit("version = \"1\"");
    let t = "version = \"1\""@;
    assert(t[0] == 'v');
    assert(is_letter('v'));
    assert(scan(t, 0) == Line::Start);
    assert(next_state(Line::Start, 'v', 0) == Line::PartialName { start: 0 });
    assert(scan(t, 1) == next_state(scan(t, 0), t[0], 0));
    assert(scan(t, 1) == Line::PartialName { start: 0 });
    assert(scan(t, 2) == Line::PartialName { start: 0 });
    assert(scan(t, 3) == Line::PartialName { start: 0 });
    assert(scan(t, 4) == Line::PartialName { start: 0 });
    assert(scan(t, 5) == Line::PartialName { start: 0 });
    assert(scan(t, 6) == Line::PartialName { start: 0 });
    assert(scan(t, 7) == Line::PartialName { start: 0 });
    assert(scan(t, 8) == Line::Name { name_start: 0, name_end: 7 });
    assert(scan(t, 9) == Line::Name { name_start: 0, name_end: 7 });
    assert(scan(t, 10) == Line::Name { name_start: 0, name_end: 7 });
    assert(scan(t, 11) == Line::VersionSelector {
        name_start: 0,
        name_end: 7,
        start: 10,
        first: true,
    });
    assert(scan(t, 12) == Line::VersionSelector {
        name_start: 0,
        name_end: 7,
        start: 10,
        first: false,
    });
}

proof fn lemma_version_line(line_no: usize, indent: u32, name: Seq<char>)
    ensures
        ({
            let facts = line_step("version = \"1\""@, line_no, indent, Section::Dependency(name)).0;
            &&& facts.len() == 1
            &&& facts[0] matches Fact::WithVersion { name: n, version }
            &&& n == name
            &&& version.range() == (Range {
                start: Position { line: line_no as u32, character: shifted(11, indent) },
                end: Position { line: line_no as u32, character: shifted(12, indent) },
            })
            &&& version matches VersionFact::Complete { text, .. } ==> text == seq!['1']
            &&& version matches VersionFact::Partial { text, .. } ==> text == seq!['1']
        }),
{
    reveal_strlit("version = \"1\"");
    let t = "version = \"1\""@;
    lemma_version_scan();
    assert(t.len() == 13);
    assert(t[0] != '[');
    assert(skip_forward(t, 11, 12, None) == 11);
    assert(skip_backward(t, 11, 12, None) == 12);
    assert(t.subrange(11, 12) =~= seq!['1']);
    assert(t.subrange(0, 7) =~= keyword());
    assert(parse_line(t, line_no) is Some);
}

} // verus!
