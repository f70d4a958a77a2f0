use vstd::prelude::*;

use crate::job::{
    build_label, joined_or_error, log_route, string_result_view, BuildView, JobBuild, JobView,
    LocatorError,
};
use crate::text::{
    all_digits, chars_of, decimal_value, equal_text, is_digit, lemma_split_absent,
    lemma_split_from_nonempty, lines_of, occurs_at, occurs_at_exec, parse_decimal, parse_u32,
    split_chars, split_lines, split_on, string_of, u32_of, views,
};

verus! {

/// The words that open a line announcing that a sub-build has started.
pub open spec fn announce_prefix() -> Seq<char> {
    "Starting building: "@
}

/// The separator between folder names in an announced job name.
pub open spec fn label_separator() -> Seq<char> {
    " » "@
}

/// Where the run of digits that ends at `e` begins.
pub open spec fn digit_run_start(l: Seq<char>, e: int) -> int
    decreases e,
{
    if e <= 0 || e > l.len() || !is_digit(l[e - 1]) {
        e
    } else {
        digit_run_start(l, e - 1)
    }
}

pub proof fn lemma_digit_run_start(l: Seq<char>, e: int)
    requires
        0 <= e <= l.len(),
    ensures
        0 <= digit_run_start(l, e) <= e,
        all_digits(l.subrange(digit_run_start(l, e), e)),
        digit_run_start(l, e) > 0 ==> !is_digit(l[digit_run_start(l, e) - 1]),
    decreases e,
{
    if e > 0 && is_digit(l[e - 1]) {
        lemma_digit_run_start(l, e - 1);
        let q = digit_run_start(l, e);
        assert forall|j: int| 0 <= j < e - q implies is_digit(#[trigger] l.subrange(q, e)[j]) by {
            if j < e - 1 - q {
                assert(l.subrange(q, e)[j] == l.subrange(q, e - 1)[j]);
            }
        }
    }
}

/// The job name and build number that line `l` announces, if it reads
/// `Starting building: <name> #<digits>` from its first to its last character,
/// with a name of at least one character and no line break, and a number
/// that is positive and fits in 32 bits.
pub open spec fn announcement_of(l: Seq<char>) -> Option<(Seq<char>, u32)> {
    let n = announce_prefix().len() as int;
    let q = digit_run_start(l, l.len() as int);
    let name = l.subrange(n, q - 2);
    let value = decimal_value(l.subrange(q, l.len() as int));
    if occurs_at(l, 0, announce_prefix()) && q < l.len() && q >= n + 3 && l[q - 2] == ' ' && l[q
        - 1] == '#' && (forall|i: int| 0 <= i < name.len() ==> name[i] != '\n') && 0 < value
        <= u32::MAX {
        Some((name, value as u32))
    } else {
        None
    }
}

/// A line's news that a sub-build has started.
#[derive(Debug)]
pub struct SubBuildAnnouncement {
    /// The job's display name, folders separated by ` » `.
    pub name: String,
    pub number: u32,
}

/// Whether `line` announces a sub-build, and which.
pub fn classify(line: &str) -> (r: Option<SubBuildAnnouncement>)
    ensures
        match r {
            Some(a) => announcement_of(line@) == Some((a.name@, a.number)),
            None => announcement_of(line@) is None,
        },
{
    let v = chars_of(line);
    let prefix = chars_of("Starting building: ");
    proof {
        reveal_strlit("Starting building: ");
    }
    let n = prefix.len();
    if !occurs_at_exec(&v, 0, &prefix) {
        return None;
    }
    let mut q: usize = v.len();
    while q > 0 && '0' <= v[q - 1] && v[q - 1] <= '9'
        invariant
            q <= v.len(),
            digit_run_start(v@, q as int) == digit_run_start(v@, v.len() as int),
        decreases q,
    {
        q = q - 1;
    }
    proof {
        lemma_digit_run_start(v@, v.len() as int);
    }
    if q >= v.len() || q < n + 3 || v[q - 2] != ' ' || v[q - 1] != '#' {
        return None;
    }
    let mut i: usize = n;
    while i < q - 2
        invariant
            n <= i <= q - 2,
            q <= v.len(),
            n == announce_prefix().len(),
            q == digit_run_start(v@, v.len() as int),
            v@ == line@,
            forall|j: int| n <= j < i ==> v@[j] != '\n',
        decreases q - 2 - i,
    {
        if v[i] == '\n' {
            assert(v@.subrange(n as int, q - 2)[i - n] == '\n');
            return None;
        }
        i = i + 1;
    }
    match parse_decimal(&v, q, v.len()) {
        Some(number) if number > 0 => {
            let name = string_of(&v, n, q - 2);
            Some(SubBuildAnnouncement { name, number })
        },
        _ => None,
    }
}

/// The announcements in `lines`, in order.
pub open spec fn announcements(lines: Seq<Seq<char>>) -> Seq<(Seq<char>, u32)>
    decreases lines.len(),
{
    if lines.len() == 0 {
        seq![]
    } else {
        let rest = announcements(lines.drop_last());
        match announcement_of(lines.last()) {
            Some(a) => rest.push(a),
            None => rest,
        }
    }
}

/// The build that announcement `a` in the log of `parent` names: on the
/// parent's server, with the announced name cut at each ` » `.
pub open spec fn announced_build(parent: BuildView, a: (Seq<char>, u32)) -> BuildView {
    BuildView {
        job: JobView { segments: split_on(a.0, label_separator()), base: parent.job.base },
        number: a.1,
    }
}

/// The lines printed for `body` of the build shown as `label`: each prefixed.
pub open spec fn printed_lines(label: Seq<char>, body: Seq<char>) -> Seq<Seq<char>> {
    lines_of(body).map_values(|l: Seq<char>| label + ": "@ + l)
}

/// The builds announced in `body` of the log of `parent`, in order.
pub open spec fn announced_builds(parent: BuildView, body: Seq<char>) -> Seq<BuildView> {
    announcements(lines_of(body)).map_values(|a: (Seq<char>, u32)| announced_build(parent, a))
}

pub open spec fn build_views(v: Seq<JobBuild>) -> Seq<BuildView> {
    v.map_values(|b: JobBuild| b@)
}

/// A line announces a sub-build only where the announcing words open it: a
/// line that holds them further on starts no task, and is printed as it
/// stands, after the build's label.
pub proof fn lemma_announcement_anchored(parent: BuildView, label: Seq<char>, line: Seq<char>)
    requires
        !occurs_at(line, 0, announce_prefix()),
        line.len() > 0,
        forall|i: int| 0 <= i < line.len() ==> line[i] != '\n',
    ensures
        announcement_of(line) is None,
        announced_builds(parent, line) == Seq::<BuildView>::empty(),
        printed_lines(label, line) == seq![label + ": "@ + line],
{
    let nl = seq!['\n'];
    assert forall|j: int| !#[trigger] occurs_at(line, j, nl) by {
        if occurs_at(line, j, nl) {
            assert(line.subrange(j, j + 1)[0] == line[j]);
        }
    }
    lemma_split_absent(line, nl);
    let p = split_on(line, nl);
    assert(p.drop_last() =~= Seq::<Seq<char>>::empty());
    assert(lines_of(line) =~= seq![line]);
    assert(seq![line].drop_last() =~= Seq::<Seq<char>>::empty());
    assert(seq![line].last() == line);
    assert(announcement_of(line) is None);
    assert(announcements(Seq::<Seq<char>>::empty()) == Seq::<(Seq<char>, u32)>::empty());
    assert(announcements(seq![line]) =~= Seq::<(Seq<char>, u32)>::empty());
    assert(announced_builds(parent, line) =~= Seq::<BuildView>::empty());
    assert(printed_lines(label, line) =~= seq![label + ": "@ + line]);
}

pub open spec fn opt_view(o: Option<String>) -> Option<Seq<char>> {
    match o {
        Some(s) => Some(s@),
        None => None,
    }
}

/// What a task does after one fetch of its build's console text.
#[derive(Debug, Clone, Copy, PartialEq, Eq, Structural)]
pub enum Continuation {
    /// More text is coming: wait, then fetch again from this byte offset.
    Fetch(u32),
    /// The build's console is complete.
    Done,
    /// The response lacked a readable `x-more-data` or `x-text-size`.
    Malformed,
}

/// The continuation that the two response headers call for: both must be
/// present, the size a decimal `u32`, and the flag `true` or `false`.
pub open spec fn continuation_of(more: Option<Seq<char>>, size: Option<Seq<char>>) -> Continuation {
    match (more, size) {
        (Some(m), Some(s)) => match u32_of(s) {
            Some(offset) => if m == "true"@ {
                Continuation::Fetch(offset)
            } else if m == "false"@ {
                Continuation::Done
            } else {
                Continuation::Malformed
            },
            None => Continuation::Malformed,
        },
        _ => Continuation::Malformed,
    }
}

/// The continuation that the headers `x-more-data` and `x-text-size` call for.
pub fn continuation(more: &Option<String>, size: &Option<String>) -> (r: Continuation)
    ensures
        r == continuation_of(opt_view(*more), opt_view(*size)),
{
    match (more, size) {
        (Some(m), Some(s)) => match parse_u32(s.as_str()) {
            Some(offset) => if equal_text(m.as_str(), "true") {
                Continuation::Fetch(offset)
            } else if equal_text(m.as_str(), "false") {
                Continuation::Done
            } else {
                Continuation::Malformed
            },
            None => Continuation::Malformed,
        },
        _ => Continuation::Malformed,
    }
}

/// One response to a progressive console fetch.
#[derive(Debug)]
pub struct LogChunk {
    /// The new console text.
    pub body: String,
    /// The `x-more-data` header, if it was there.
    pub more_data: Option<String>,
    /// The `x-text-size` header, if it was there.
    pub text_size: Option<String>,
}

/// What to do with one response.
#[derive(Debug)]
pub struct TailStep {
    /// Lines to print, in order.
    pub printed: Vec<String>,
    /// Sub-builds to tail as tasks of their own, in order of announcement.
    pub spawned: Vec<JobBuild>,
    pub next: Continuation,
}

pub struct TailTaskView {
    pub build: BuildView,
    pub offset: u32,
}

/// The state of tailing one build: which build, and the byte offset of the
/// next fetch.
pub struct TailTask {
    build: JobBuild,
    offset: u32,
}

impl View for TailTask {
    type V = TailTaskView;

    closed spec fn view(&self) -> TailTaskView {
        TailTaskView { build: self.build@, offset: self.offset }
    }
}

impl TailTask {
    /// Tailing `build` from its first byte.
    pub fn new(build: JobBuild) -> (r: TailTask)
        ensures
            r@ == (TailTaskView { build: build@, offset: 0 }),
    {
        TailTask { build, offset: 0 }
    }

    pub fn build(&self) -> (r: &JobBuild)
        ensures
            r@ == self@.build,
    {
        &self.build
    }

    pub fn offset(&self) -> (r: u32)
        ensures
            r == self@.offset,
    {
        self.offset
    }

    /// The URL of the next fetch.
    pub fn log_path(&self) -> (r: Result<String, LocatorError>)
        ensures
            string_result_view(r) == joined_or_error(
                self@.build.job.base,
                log_route(self@.build.job.segments, self@.build.number, self@.offset),
            ),
    {
        self.build.log_path(self.offset)
    }

    /// Takes in one response: every line is printed with the build's label,
    /// every announced sub-build is handed out, and the offset moves to the
    /// reported text size when more text is coming.
    pub fn advance(&mut self, chunk: &LogChunk) -> (r: TailStep)
        ensures
            final(self)@.build == old(self)@.build,
            final(self)@.offset == match r.next {
                Continuation::Fetch(o) => o,
                _ => old(self)@.offset,
            },
            views(r.printed@) == printed_lines(
                build_label(old(self)@.build.job.segments, old(self)@.build.number),
                chunk.body@,
            ),
            build_views(r.spawned@) == announced_builds(old(self)@.build, chunk.body@),
            r.next == continuation_of(opt_view(chunk.more_data), opt_view(chunk.text_size)),
    {
        let label = self.build.display();
        let lines = split_lines(chunk.body.as_str());
        let sep = chars_of(" » ");
        proof {
            reveal_strlit(" » ");
        }
        let ghost parent = self@.build;
        let ghost all = views(lines@);
        let ghost shown = printed_lines(label@, chunk.body@);
        let ghost found = announced_builds(parent, chunk.body@);
        let mut printed: Vec<String> = Vec::new();
        let mut spawned: Vec<JobBuild> = Vec::new();
        let mut i: usize = 0;
        while i < lines.len()
            invariant
                i <= lines.len(),
                all == views(lines@),
                all == lines_of(chunk.body@),
                sep@ == label_separator(),
                sep.len() > 0,
                parent == self@.build,
                shown == all.map_values(|l: Seq<char>| label@ + ": "@ + l),
                views(printed@) == shown.subrange(0, i as int),
                build_views(spawned@) == announcements(all.subrange(0, i as int)).map_values(
                    |a: (Seq<char>, u32)| announced_build(parent, a),
                ),
            decreases lines.len() - i,
        {
            let mut p = label.clone();
            p.append(": ");
            p.append(lines[i].as_str());
            proof {
                assert(views(printed@.push(p)) =~= views(printed@).push(p@));
                assert(shown.subrange(0, i + 1) =~= shown.subrange(0, i as int).push(p@));
            }
            printed.push(p);
            let ghost before = all.subrange(0, i as int);
            let ghost after = all.subrange(0, i + 1);
            assert(after.drop_last() == before);
            assert(after.last() == lines@[i as int]@);
            match classify(lines[i].as_str()) {
                Some(a) => {
                    let name = chars_of(a.name.as_str());
                    proof {
                        lemma_split_from_nonempty(name@, sep@, 0, 0);
                    }
                    let segments = split_chars(&name, &sep);
                    let b = self.build.sibling(segments, a.number);
                    proof {
                        assert(build_views(spawned@.push(b)) =~= build_views(spawned@).push(b@));
                        assert(announcements(after) == announcements(before).push((a.name@, a.number)));
                        assert(announcements(after).map_values(
                            |a: (Seq<char>, u32)| announced_build(parent, a),
                        ) =~= announcements(before).map_values(
                            |a: (Seq<char>, u32)| announced_build(parent, a),
                        ).push(b@));
                    }
                    spawned.push(b);
                },
                None => {
                    assert(announcements(after) == announcements(before));
                },
            }
            i = i + 1;
        }
        assert(all.subrange(0, lines.len() as int) == all);
        assert(shown.subrange(0, lines.len() as int) == shown);
        let next = continuation(&chunk.more_data, &chunk.text_size);
        if let Continuation::Fetch(o) = next {
            self.offset = o;
        }
        TailStep { printed, spawned, next }
    }
}

/// Why a tail task failed.
#[derive(Debug)]
pub enum TailError {
    /// A response lacked a readable `x-more-data` or `x-text-size`.
    MalformedLogResponse,
    /// The build's console URL could not be formed.
    Locator(LocatorError),
    /// The transport failed; the text says how.
    Network(String),
}

pub struct TailRegistryView {
    pub active: nat,
    pub failure: Option<TailError>,
}

/// The tasks of one tail: how many are still running, and the first
/// failure among those that ended.
pub struct TailRegistry {
    active: u64,
    failure: Option<TailError>,
}

impl View for TailRegistry {
    type V = TailRegistryView;

    closed spec fn view(&self) -> TailRegistryView {
        TailRegistryView { active: self.active as nat, failure: self.failure }
    }
}

impl TailRegistry {
    /// No task yet.
    pub fn new() -> (r: TailRegistry)
        ensures
            r@.active == 0,
            r@.failure is None,
    {
        TailRegistry { active: 0, failure: None }
    }

    /// A task was started.
    pub fn started(&mut self)
        requires
            old(self)@.active < u64::MAX,
        ensures
            final(self)@.active == old(self)@.active + 1,
            final(self)@.failure == old(self)@.failure,
    {
        self.active = self.active + 1;
    }

    /// A task ended with `result`; the first failure is the one kept.
    pub fn finished(&mut self, result: Result<(), TailError>)
        requires
            old(self)@.active > 0,
        ensures
            final(self)@.active == old(self)@.active - 1,
            final(self)@.failure == match old(self)@.failure {
                Some(e) => Some(e),
                None => match result {
                    Ok(()) => None,
                    Err(e) => Some(e),
                },
            },
    {
        self.active = self.active - 1;
        if self.failure.is_none() {
            if let Err(e) = result {
                self.failure = Some(e);
            }
        }
    }

    /// The number of tasks still running.
    pub fn active(&self) -> (r: u64)
        ensures
            r == self@.active,
    {
        self.active
    }

    /// Whether every task has ended.
    pub fn is_done(&self) -> (r: bool)
        ensures
            r == (self@.active == 0),
    {
        self.active == 0
    }

    /// The result of the whole tail: the first failure, if any.
    pub fn outcome(self) -> (r: Result<(), TailError>)
        ensures
            r == match self@.failure {
                Some(e) => Err(e),
                None => Ok::<(), TailError>(()),
            },
    {
        match self.failure {
            Some(e) => Err(e),
            None => Ok(()),
        }
    }
}

} // verus!
