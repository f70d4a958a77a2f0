use vstd::prelude::*;

use std::collections::HashMap;

use crate::text::{
    all_digits, chars_of, decimal, decimal_string, decimal_value, is_digit, join_strings, join_with,
    lemma_split_from_nonempty, occurs_at, occurs_at_exec, parse_decimal, split_chars, split_on,
    string_of, views,
};
use crate::urls::{join_url, percent_decode, percent_decoded, split_url, url_joined, url_split};

verus! {

/// Why a job or build reference could not be resolved.
#[derive(Debug, Clone, Copy, PartialEq, Eq, Structural)]
pub enum LocatorError {
    /// The text is not a URL.
    InvalidUrl,
    /// The path fits neither the classic nor the modern addressing scheme.
    UnrecognizedJobUrl,
    /// A percent-encoded name does not decode to UTF-8.
    BadEncoding,
    /// The build number is zero or does not fit in 32 bits.
    BadBuildNumber,
}

/// The marker that precedes each name in a classic path.
pub open spec fn job_marker() -> Seq<char> {
    seq!['j', 'o', 'b', '/']
}

/// The end of the run of characters other than `/` that starts at `i`.
pub open spec fn run_end(p: Seq<char>, i: int) -> int
    decreases p.len() - i,
{
    if i < 0 || i >= p.len() || p[i] == '/' {
        i
    } else {
        run_end(p, i + 1)
    }
}

pub proof fn lemma_run_end(p: Seq<char>, i: int)
    requires
        0 <= i <= p.len(),
    ensures
        i <= run_end(p, i) <= p.len(),
        run_end(p, i) < p.len() ==> p[run_end(p, i)] == '/',
        forall|j: int| i <= j < run_end(p, i) ==> p[j] != '/',
    decreases p.len() - i,
{
    if i < p.len() && p[i] != '/' {
        lemma_run_end(p, i + 1);
    }
}

/// Whether a classic name (`job/` and at least one character other than `/`)
/// starts at `k`.
pub open spec fn classic_match_at(p: Seq<char>, k: int) -> bool {
    &&& occurs_at(p, k, job_marker())
    &&& k + 4 < p.len()
    &&& p[k + 4] != '/'
}

/// The names that follow each `job/` marker in `p` from index `k` on, found
/// left to right without overlap; each is the longest run without `/`.
pub open spec fn classic_names_from(p: Seq<char>, k: int) -> Seq<Seq<char>>
    decreases p.len() - k via classic_names_decreases
{
    if k < 0 || k >= p.len() {
        seq![]
    } else if classic_match_at(p, k) {
        let e = run_end(p, k + 4);
        seq![p.subrange(k + 4, e)] + classic_names_from(p, e)
    } else {
        classic_names_from(p, k + 1)
    }
}

#[via_fn]
proof fn classic_names_decreases(p: Seq<char>, k: int) {
    if 0 <= k < p.len() && classic_match_at(p, k) {
        lemma_run_end(p, k + 4);
    }
}

/// Index of the end of the run without `/` that starts at `i`.
fn run_end_exec(v: &Vec<char>, i: usize) -> (r: usize)
    requires
        i <= v.len(),
    ensures
        r == run_end(v@, i as int),
{
    let mut j: usize = i;
    while j < v.len() && v[j] != '/'
        invariant
            i <= j <= v.len(),
            run_end(v@, j as int) == run_end(v@, i as int),
        decreases v.len() - j,
    {
        j = j + 1;
    }
    j
}

/// The names of a classic path, still percent-encoded.
pub fn classic_names(v: &Vec<char>) -> (r: Vec<String>)
    ensures
        views(r@) == classic_names_from(v@, 0),
{
    let marker = chars_of("job/");
    proof {
        reveal_strlit("job/");
        assert(marker@ == job_marker());
    }
    let mut r: Vec<String> = Vec::new();
    let mut k: usize = 0;
    while k < v.len()
        invariant
            k <= v.len(),
            marker@ == job_marker(),
            views(r@) + classic_names_from(v@, k as int) == classic_names_from(v@, 0),
        decreases v.len() - k,
    {
        if occurs_at_exec(v, k, &marker) && k + 4 < v.len() && v[k + 4] != '/' {
            let e = run_end_exec(v, k + 4);
            proof {
                lemma_run_end(v@, k + 4);
            }
            let name = string_of(v, k + 4, e);
            proof {
                assert(views(r@.push(name)) == views(r@).push(name@));
                assert(views(r@) + classic_names_from(v@, k as int) == views(r@.push(name))
                    + classic_names_from(v@, e as int));
            }
            r.push(name);
            k = e;
        } else {
            k = k + 1;
        }
    }
    assert(views(r@) + classic_names_from(v@, k as int) == views(r@));
    r
}

/// The marker after which a modern path holds the whole job path in one component.
pub open spec fn blue_marker() -> Seq<char> {
    "/blue/organizations/jenkins/"@
}

/// The infix after which a modern path names a build.
pub open spec fn detail_marker() -> Seq<char> {
    "/detail/"@
}

/// The escaped folder separator inside a modern job component.
pub open spec fn folder_separator() -> Seq<char> {
    "%2F"@
}

/// Whether a modern job component (the marker and at least one character
/// other than `/`) starts at `k`.
pub open spec fn modern_match_at(p: Seq<char>, k: int) -> bool {
    &&& occurs_at(p, k, blue_marker())
    &&& k + blue_marker().len() < p.len()
    &&& p[k + blue_marker().len()] != '/'
}

/// The first modern job component in `p` at or after index `k`.
pub open spec fn modern_component_from(p: Seq<char>, k: int) -> Option<Seq<char>>
    decreases p.len() - k,
{
    if k < 0 || k >= p.len() {
        None
    } else if modern_match_at(p, k) {
        let s = k + blue_marker().len();
        Some(p.subrange(s, run_end(p, s)))
    } else {
        modern_component_from(p, k + 1)
    }
}

/// The end of the run of ASCII digits that starts at `i`.
pub open spec fn digits_end(p: Seq<char>, i: int) -> int
    decreases p.len() - i,
{
    if i < 0 || i >= p.len() || !is_digit(p[i]) {
        i
    } else {
        digits_end(p, i + 1)
    }
}

pub proof fn lemma_digits_end(p: Seq<char>, i: int)
    requires
        0 <= i <= p.len(),
    ensures
        i <= digits_end(p, i) <= p.len(),
        digits_end(p, i) < p.len() ==> !is_digit(p[digits_end(p, i)]),
        all_digits(p.subrange(i, digits_end(p, i))),
    decreases p.len() - i,
{
    if i < p.len() && is_digit(p[i]) {
        lemma_digits_end(p, i + 1);
        assert forall|j: int| 0 <= j < digits_end(p, i) - i implies is_digit(
            #[trigger] p.subrange(i, digits_end(p, i))[j],
        ) by {
            if j > 0 {
                assert(p.subrange(i, digits_end(p, i))[j] == p.subrange(
                    i + 1,
                    digits_end(p, i + 1),
                )[j - 1]);
            }
        }
    }
}

/// The digits of a classic build number (`job/<name>/<digits>`) that starts
/// its match at `k`.
pub open spec fn classic_number_at(p: Seq<char>, k: int) -> Option<Seq<char>> {
    if classic_match_at(p, k) {
        let e = run_end(p, k + 4);
        if e + 1 < p.len() && p[e] == '/' && is_digit(p[e + 1]) {
            Some(p.subrange(e + 1, digits_end(p, e + 1)))
        } else {
            None
        }
    } else {
        None
    }
}

/// The first classic build number in `p` at or after index `k`.
pub open spec fn classic_number_from(p: Seq<char>, k: int) -> Option<Seq<char>>
    decreases p.len() - k,
{
    if k < 0 || k >= p.len() {
        None
    } else if classic_number_at(p, k) is Some {
        classic_number_at(p, k)
    } else {
        classic_number_from(p, k + 1)
    }
}

/// The digits of a modern build number
/// (`<marker><name>/detail/<name>/<digits>/`) that starts its match at `k`.
pub open spec fn modern_number_at(p: Seq<char>, k: int) -> Option<Seq<char>> {
    if modern_match_at(p, k) {
        let e1 = run_end(p, k + blue_marker().len());
        let n = e1 + detail_marker().len();
        if occurs_at(p, e1, detail_marker()) && n < p.len() && p[n] != '/' {
            let e2 = run_end(p, n);
            if e2 + 1 < p.len() && p[e2] == '/' && is_digit(p[e2 + 1]) {
                let e3 = digits_end(p, e2 + 1);
                if e3 < p.len() && p[e3] == '/' {
                    Some(p.subrange(e2 + 1, e3))
                } else {
                    None
                }
            } else {
                None
            }
        } else {
            None
        }
    } else {
        None
    }
}

/// The first modern build number in `p` at or after index `k`.
pub open spec fn modern_number_from(p: Seq<char>, k: int) -> Option<Seq<char>>
    decreases p.len() - k,
{
    if k < 0 || k >= p.len() {
        None
    } else if modern_number_at(p, k) is Some {
        modern_number_at(p, k)
    } else {
        modern_number_from(p, k + 1)
    }
}

/// Index of the end of the run of digits that starts at `i`.
fn digits_end_exec(v: &Vec<char>, i: usize) -> (r: usize)
    requires
        i <= v.len(),
    ensures
        r == digits_end(v@, i as int),
{
    let mut j: usize = i;
    while j < v.len() && '0' <= v[j] && v[j] <= '9'
        invariant
            i <= j <= v.len(),
            digits_end(v@, j as int) == digits_end(v@, i as int),
        decreases v.len() - j,
    {
        j = j + 1;
    }
    j
}

/// Where the first modern job component of `v` stands.
fn modern_component(v: &Vec<char>) -> (r: Option<(usize, usize)>)
    ensures
        match r {
            Some((a, b)) => a <= b <= v.len() && modern_component_from(v@, 0) == Some(
                v@.subrange(a as int, b as int),
            ),
            None => modern_component_from(v@, 0) is None,
        },
{
    let marker = chars_of("/blue/organizations/jenkins/");
    let mut k: usize = 0;
    while k < v.len()
        invariant
            k <= v.len(),
            marker@ == blue_marker(),
            modern_component_from(v@, k as int) == modern_component_from(v@, 0),
        decreases v.len() - k,
    {
        if occurs_at_exec(v, k, &marker) && marker.len() < v.len() - k && v[k + marker.len()] != '/' {
            let s = k + marker.len();
            let e = run_end_exec(v, s);
            proof {
                lemma_run_end(v@, s as int);
            }
            return Some((s, e));
        }
        k = k + 1;
    }
    None
}

/// Where the digits of the first classic build number of `v` stand.
fn classic_number(v: &Vec<char>) -> (r: Option<(usize, usize)>)
    ensures
        match r {
            Some((a, b)) => a <= b <= v.len() && classic_number_from(v@, 0) == Some(
                v@.subrange(a as int, b as int),
            ) && all_digits(v@.subrange(a as int, b as int)),
            None => classic_number_from(v@, 0) is None,
        },
{
    let marker = chars_of("job/");
    proof {
        reveal_strlit("job/");
        assert(marker@ == job_marker());
    }
    let mut k: usize = 0;
    while k < v.len()
        invariant
            k <= v.len(),
            marker@ == job_marker(),
            classic_number_from(v@, k as int) == classic_number_from(v@, 0),
        decreases v.len() - k,
    {
        if occurs_at_exec(v, k, &marker) && k + 4 < v.len() && v[k + 4] != '/' {
            let e = run_end_exec(v, k + 4);
            proof {
                lemma_run_end(v@, k + 4);
            }
            if e < v.len() && e + 1 < v.len() && v[e] == '/' && '0' <= v[e + 1] && v[e + 1] <= '9' {
                let d = digits_end_exec(v, e + 1);
                proof {
                    lemma_digits_end(v@, e + 1);
                }
                return Some((e + 1, d));
            }
        }
        k = k + 1;
    }
    None
}

/// Where the digits of the first modern build number of `v` stand.
fn modern_number(v: &Vec<char>) -> (r: Option<(usize, usize)>)
    ensures
        match r {
            Some((a, b)) => a <= b <= v.len() && modern_number_from(v@, 0) == Some(
                v@.subrange(a as int, b as int),
            ) && all_digits(v@.subrange(a as int, b as int)),
            None => modern_number_from(v@, 0) is None,
        },
{
    let marker = chars_of("/blue/organizations/jenkins/");
    let detail = chars_of("/detail/");
    let mut k: usize = 0;
    while k < v.len()
        invariant
            k <= v.len(),
            marker@ == blue_marker(),
            detail@ == detail_marker(),
            modern_number_from(v@, k as int) == modern_number_from(v@, 0),
        decreases v.len() - k,
    {
        if occurs_at_exec(v, k, &marker) && marker.len() < v.len() - k && v[k + marker.len()] != '/' {
            let e1 = run_end_exec(v, k + marker.len());
            proof {
                lemma_run_end(v@, k + marker.len());
            }
            if occurs_at_exec(v, e1, &detail) && detail.len() < v.len() - e1 && v[e1 + detail.len()] != '/' {
                let e2 = run_end_exec(v, e1 + detail.len());
                proof {
                    lemma_run_end(v@, e1 + detail.len());
                }
                if e2 < v.len() && e2 + 1 < v.len() && v[e2] == '/' && '0' <= v[e2 + 1] && v[e2 + 1] <= '9' {
                    let e3 = digits_end_exec(v, e2 + 1);
                    proof {
                        lemma_digits_end(v@, e2 + 1);
                    }
                    if e3 < v.len() && v[e3] == '/' {
                        return Some((e2 + 1, e3));
                    }
                }
            }
        }
        k = k + 1;
    }
    None
}

/// The two ways the server addresses a job.
#[derive(Debug, Clone, Copy, PartialEq, Eq, Structural)]
pub enum Scheme {
    /// `/job/<name>/job/<name>/...`, each name percent-encoded.
    Classic,
    /// `/blue/organizations/jenkins/<names>/...`, the folder names joined by `%2F`.
    Modern,
}

/// The scheme that the path's first component selects.
pub open spec fn scheme_of(p: Seq<char>) -> Option<Scheme> {
    if occurs_at(p, 0, "/job/"@) {
        Some(Scheme::Classic)
    } else if occurs_at(p, 0, "/blue/"@) {
        Some(Scheme::Modern)
    } else {
        None
    }
}

/// The still-encoded names of the job that path `p` addresses under `scheme`.
pub open spec fn scheme_names(scheme: Scheme, p: Seq<char>) -> Option<Seq<Seq<char>>> {
    match scheme {
        Scheme::Classic => {
            let n = classic_names_from(p, 0);
            if n.len() > 0 {
                Some(n)
            } else {
                None
            }
        },
        Scheme::Modern => match modern_component_from(p, 0) {
            Some(c) => Some(split_on(c, folder_separator())),
            None => None,
        },
    }
}

/// The still-encoded names of the job that path `p` addresses.
pub open spec fn raw_job_names(p: Seq<char>) -> Option<Seq<Seq<char>>> {
    match scheme_of(p) {
        Some(scheme) => scheme_names(scheme, p),
        None => None,
    }
}

/// Whether every name decodes.
pub open spec fn all_decode(names: Seq<Seq<char>>) -> bool {
    forall|i: int| 0 <= i < names.len() ==> (#[trigger] percent_decoded(names[i])) is Some
}

/// Each name decoded.
pub open spec fn decoded(names: Seq<Seq<char>>) -> Seq<Seq<char>> {
    names.map_values(|n: Seq<char>| percent_decoded(n)->0)
}

/// The job path that URL path `p` addresses, or why there is none.
pub open spec fn job_path_of(p: Seq<char>) -> Result<Seq<Seq<char>>, LocatorError> {
    match raw_job_names(p) {
        None => Err(LocatorError::UnrecognizedJobUrl),
        Some(names) => if all_decode(names) {
            Ok(decoded(names))
        } else {
            Err(LocatorError::BadEncoding)
        },
    }
}

/// The digits of the build number that URL path `p` names, classic form first.
pub open spec fn build_digits_of(p: Seq<char>) -> Option<Seq<char>> {
    if classic_number_from(p, 0) is Some {
        classic_number_from(p, 0)
    } else {
        modern_number_from(p, 0)
    }
}

/// The request path of a job: `job/<seg>/job/<seg>/...`.
pub open spec fn job_route(segments: Seq<Seq<char>>) -> Seq<char> {
    "job/"@ + join_with(segments, "/job/"@)
}

/// The request path that triggers a build of the job.
pub open spec fn trigger_route(segments: Seq<Seq<char>>, with_parameters: bool) -> Seq<char> {
    job_route(segments) + "/build"@ + if with_parameters {
        "WithParameters"@
    } else {
        Seq::empty()
    }
}

/// The request path of a build's console text from byte `start` on.
pub open spec fn log_route(segments: Seq<Seq<char>>, number: u32, start: u32) -> Seq<char> {
    job_route(segments) + "/"@ + decimal(number as nat) + "/logText/progressiveText?start="@
        + decimal(start as nat)
}

/// The request path of a build's parameter report.
pub open spec fn params_route(segments: Seq<Seq<char>>, number: u32) -> Seq<char> {
    job_route(segments) + "/"@ + decimal(number as nat)
        + "/api/json?tree=actions[parameters[name,value]]"@
}

/// How a job is shown: its names joined by ` » `.
pub open spec fn job_label(segments: Seq<Seq<char>>) -> Seq<char> {
    join_with(segments, " » "@)
}

/// How a build is shown: `<job> #<number>`.
pub open spec fn build_label(segments: Seq<Seq<char>>, number: u32) -> Seq<char> {
    job_label(segments) + " #"@ + decimal(number as nat)
}

impl Scheme {
    /// The scheme that the path's first component selects.
    pub fn of_path(p: &Vec<char>) -> (r: Option<Scheme>)
        ensures
            r == scheme_of(p@),
    {
        let classic = chars_of("/job/");
        let modern = chars_of("/blue/");
        if occurs_at_exec(p, 0, &classic) {
            Some(Scheme::Classic)
        } else if occurs_at_exec(p, 0, &modern) {
            Some(Scheme::Modern)
        } else {
            None
        }
    }

    /// The still-encoded names of the job that path `p` addresses under this scheme.
    pub fn job_names(&self, p: &Vec<char>) -> (r: Option<Vec<String>>)
        ensures
            match r {
                Some(n) => scheme_names(*self, p@) == Some(views(n@)) && n.len() > 0,
                None => scheme_names(*self, p@) is None,
            },
    {
        match self {
            Scheme::Classic => {
                let n = classic_names(p);
                if n.len() > 0 {
                    Some(n)
                } else {
                    None
                }
            },
            Scheme::Modern => match modern_component(p) {
                Some((a, b)) => {
                    let c = string_of(p, a, b);
                    let cv = chars_of(c.as_str());
                    let sep = chars_of("%2F");
                    proof {
                        reveal_strlit("%2F");
                        lemma_split_from_nonempty(cv@, sep@, 0, 0);
                    }
                    Some(split_chars(&cv, &sep))
                },
                None => None,
            },
        }
    }
}

/// Each name decoded, if all decode.
fn decode_names(names: &Vec<String>) -> (r: Option<Vec<String>>)
    ensures
        match r {
            Some(d) => all_decode(views(names@)) && views(d@) == decoded(views(names@)) && d.len()
                == names.len(),
            None => !all_decode(views(names@)),
        },
{
    let mut d: Vec<String> = Vec::new();
    let mut i: usize = 0;
    while i < names.len()
        invariant
            i <= names.len(),
            d.len() == i,
            forall|j: int| 0 <= j < i ==> (#[trigger] percent_decoded(views(names@)[j])) == Some(
                d@[j]@,
            ),
        decreases names.len() - i,
    {
        match percent_decode(names[i].as_str()) {
            Some(s) => d.push(s),
            None => {
                assert(percent_decoded(views(names@)[i as int]) is None);
                return None;
            },
        }
        i = i + 1;
    }
    assert(views(d@) =~= decoded(views(names@)));
    Some(d)
}

/// A URL as two plain parts: what precedes its path (scheme, host and port),
/// and its path, still percent-encoded.
#[derive(Debug)]
pub struct UrlParts {
    pub base: String,
    pub path: String,
}

impl UrlParts {
    /// Reads `url`.
    pub fn parse(url: &str) -> (r: Result<UrlParts, LocatorError>)
        ensures
            match r {
                Ok(u) => url_split(url@) == Some((u.base@, u.path@)),
                Err(e) => url_split(url@) is None && e == LocatorError::InvalidUrl,
            },
    {
        match split_url(url) {
            Ok((base, path)) => Ok(UrlParts { base, path }),
            Err(_) => Err(LocatorError::InvalidUrl),
        }
    }
}

/// What a job is: its path from the root folder, and the server it lives on.
pub struct JobView {
    pub segments: Seq<Seq<char>>,
    pub base: Seq<char>,
}

/// A job on a server.
#[derive(Debug)]
pub struct Job {
    path: Vec<String>,
    base_url: String,
}

impl Job {
    /// A job path is never empty.
    #[verifier::type_invariant]
    spec fn has_segments(&self) -> bool {
        self.path.len() > 0
    }
}

impl View for Job {
    type V = JobView;

    closed spec fn view(&self) -> JobView {
        JobView { segments: views(self.path@), base: self.base_url@ }
    }
}

/// The job that a URL with parts `base` and `path` addresses, or why there is none.
pub open spec fn located_job(base: Seq<char>, path: Seq<char>) -> Result<JobView, LocatorError> {
    match job_path_of(path) {
        Ok(segments) => Ok(JobView { segments, base }),
        Err(e) => Err(e),
    }
}

/// The job that the URL `url` addresses, or why there is none.
pub open spec fn job_at(url: Seq<char>) -> Result<JobView, LocatorError> {
    match url_split(url) {
        Some((base, path)) => located_job(base, path),
        None => Err(LocatorError::InvalidUrl),
    }
}

pub open spec fn job_result_view(r: Result<Job, LocatorError>) -> Result<JobView, LocatorError> {
    match r {
        Ok(j) => Ok(j@),
        Err(e) => Err(e),
    }
}

impl Job {
    /// Reads the job that the URL `url` addresses.
    pub fn parse(url: &str) -> (r: Result<Job, LocatorError>)
        ensures
            job_result_view(r) == job_at(url@),
    {
        let parts = UrlParts::parse(url)?;
        Job::new(&parts)
    }

    /// The job that the URL with these parts addresses.
    pub fn new(url: &UrlParts) -> (r: Result<Job, LocatorError>)
        ensures
            job_result_view(r) == located_job(url.base@, url.path@),
    {
        let p = chars_of(url.path.as_str());
        let names = match Scheme::of_path(&p) {
            Some(scheme) => scheme.job_names(&p),
            None => None,
        };
        match names {
            None => Err(LocatorError::UnrecognizedJobUrl),
            Some(names) => match decode_names(&names) {
                Some(path) => Ok(Job { path, base_url: url.base.clone() }),
                None => Err(LocatorError::BadEncoding),
            },
        }
    }

    /// The request path that triggers a build; `buildWithParameters` when
    /// there are parameters.
    pub fn build_path(&self, params: &HashMap<String, String>) -> (r: String)
        ensures
            r@ == trigger_route(self@.segments, params@.len() > 0),
    {
        let mut r = self.route();
        r.append("/build");
        if !params.is_empty() {
            r.append("WithParameters");
        }
        r
    }

    /// How many names the job path has: at least one.
    pub fn depth(&self) -> (r: usize)
        ensures
            r == self@.segments.len(),
            r > 0,
    {
        proof {
            use_type_invariant(self);
        }
        self.path.len()
    }

    /// `job/<seg>/job/<seg>/...`
    pub fn route(&self) -> (r: String)
        ensures
            r@ == job_route(self@.segments),
    {
        let mut r = "job/".to_owned();
        let rest = join_strings(&self.path, "/job/");
        r.append(rest.as_str());
        r
    }

    /// The job's names joined by ` » `.
    pub fn display(&self) -> (r: String)
        ensures
            r@ == job_label(self@.segments),
    {
        join_strings(&self.path, " » ")
    }
}

/// Copies of strings.
fn copy_strings(v: &Vec<String>) -> (r: Vec<String>)
    ensures
        views(r@) == views(v@),
        r.len() == v.len(),
{
    let mut r: Vec<String> = Vec::new();
    let mut i: usize = 0;
    while i < v.len()
        invariant
            i <= v.len(),
            views(r@) == views(v@).subrange(0, i as int),
        decreases v.len() - i,
    {
        let c = v[i].clone();
        proof {
            assert(views(r@.push(c)) =~= views(r@).push(c@));
            assert(views(v@).subrange(0, i + 1) =~= views(v@).subrange(0, i as int).push(v@[i as int]@));
        }
        r.push(c);
        i = i + 1;
    }
    assert(views(v@).subrange(0, v.len() as int) == views(v@));
    assert(views(r@).len() == r.len());
    r
}

/// Whether two lists of strings hold the same texts in the same order.
fn same_strings(a: &Vec<String>, b: &Vec<String>) -> (r: bool)
    ensures
        r == (views(a@) == views(b@)),
{
    if a.len() != b.len() {
        assert(views(a@).len() != views(b@).len());
        return false;
    }
    let mut i: usize = 0;
    while i < a.len()
        invariant
            i <= a.len() == b.len(),
            forall|j: int| 0 <= j < i ==> a@[j]@ == b@[j]@,
        decreases a.len() - i,
    {
        if a[i] != b[i] {
            assert(views(a@)[i as int] != views(b@)[i as int]);
            return false;
        }
        i = i + 1;
    }
    assert(views(a@) =~= views(b@));
    true
}

impl PartialEq for Job {
    fn eq(&self, other: &Job) -> (r: bool) {
        self.base_url == other.base_url && same_strings(&self.path, &other.path)
    }
}

impl vstd::std_specs::cmp::PartialEqSpecImpl for Job {
    open spec fn obeys_eq_spec() -> bool {
        true
    }

    /// Two jobs are equal when their paths and their servers are.
    open spec fn eq_spec(&self, other: &Job) -> bool {
        self@ == other@
    }
}

impl Eq for Job {
}

impl Clone for Job {
    fn clone(&self) -> (r: Job)
        ensures
            r@ == self@,
    {
        proof {
            use_type_invariant(self);
        }
        Job { path: copy_strings(&self.path), base_url: self.base_url.clone() }
    }
}

/// What a build is: its job and its number.
pub struct BuildView {
    pub job: JobView,
    pub number: u32,
}

/// One numbered build of a job.
#[derive(Debug)]
pub struct JobBuild {
    job: Job,
    number: u32,
}

impl JobBuild {
    /// Build numbers start at one.
    #[verifier::type_invariant]
    spec fn numbered(&self) -> bool {
        self.number > 0
    }
}

impl View for JobBuild {
    type V = BuildView;

    closed spec fn view(&self) -> BuildView {
        BuildView { job: self.job@, number: self.number }
    }
}

/// The build that a URL with parts `base` and `path` addresses, or why there is none.
pub open spec fn located_build(base: Seq<char>, path: Seq<char>) -> Result<BuildView, LocatorError> {
    match build_digits_of(path) {
        None => Err(LocatorError::UnrecognizedJobUrl),
        Some(digits) => match located_job(base, path) {
            Err(e) => Err(e),
            Ok(job) => if 0 < decimal_value(digits) <= u32::MAX {
                Ok(BuildView { job, number: decimal_value(digits) as u32 })
            } else {
                Err(LocatorError::BadBuildNumber)
            },
        },
    }
}

/// The build that the URL `url` addresses, or why there is none.
pub open spec fn build_at(url: Seq<char>) -> Result<BuildView, LocatorError> {
    match url_split(url) {
        Some((base, path)) => located_build(base, path),
        None => Err(LocatorError::InvalidUrl),
    }
}

pub open spec fn build_result_view(r: Result<JobBuild, LocatorError>) -> Result<BuildView, LocatorError> {
    match r {
        Ok(b) => Ok(b@),
        Err(e) => Err(e),
    }
}

/// What joining `rel` onto `base` gives, with a failure told as `InvalidUrl`.
pub open spec fn joined_or_error(base: Seq<char>, rel: Seq<char>) -> Result<Seq<char>, LocatorError> {
    match url_joined(base, rel) {
        Some(u) => Ok(u),
        None => Err(LocatorError::InvalidUrl),
    }
}

pub open spec fn string_result_view(r: Result<String, LocatorError>) -> Result<Seq<char>, LocatorError> {
    match r {
        Ok(s) => Ok(s@),
        Err(e) => Err(e),
    }
}

/// The URL that `rel` names relative to `base`.
pub fn resolve(base: &str, rel: &str) -> (r: Result<String, LocatorError>)
    ensures
        string_result_view(r) == joined_or_error(base@, rel@),
{
    match join_url(base, rel) {
        Ok(u) => Ok(u),
        Err(_) => Err(LocatorError::InvalidUrl),
    }
}

/// The build that `reference` names: a path starting with `/` is taken
/// relative to the server URL `server`, anything else is a full URL.
pub open spec fn referenced_build(server: Seq<char>, reference: Seq<char>) -> Result<BuildView, LocatorError> {
    if reference.len() > 0 && reference[0] == '/' {
        match url_joined(server, reference) {
            Some(u) => build_at(u),
            None => Err(LocatorError::InvalidUrl),
        }
    } else {
        build_at(reference)
    }
}

/// The build that `reference` names, a path on `server` or a full URL.
pub fn locate_build(server: &str, reference: &str) -> (r: Result<JobBuild, LocatorError>)
    ensures
        build_result_view(r) == referenced_build(server@, reference@),
{
    let v = chars_of(reference);
    if v.len() > 0 && v[0] == '/' {
        let url = resolve(server, reference)?;
        JobBuild::parse(url.as_str())
    } else {
        JobBuild::parse(reference)
    }
}

impl PartialEq for JobBuild {
    fn eq(&self, other: &JobBuild) -> (r: bool) {
        self.number == other.number && self.job == other.job
    }
}

impl vstd::std_specs::cmp::PartialEqSpecImpl for JobBuild {
    open spec fn obeys_eq_spec() -> bool {
        true
    }

    /// Two builds are equal when their jobs and numbers are.
    open spec fn eq_spec(&self, other: &JobBuild) -> bool {
        self@ == other@
    }
}

impl Eq for JobBuild {
}

impl Clone for JobBuild {
    fn clone(&self) -> (r: JobBuild)
        ensures
            r@ == self@,
    {
        proof {
            use_type_invariant(self);
        }
        JobBuild { job: self.job.clone(), number: self.number }
    }
}

impl JobBuild {
    /// Reads the build that the URL `url` addresses.
    pub fn parse(url: &str) -> (r: Result<JobBuild, LocatorError>)
        ensures
            build_result_view(r) == build_at(url@),
    {
        let parts = UrlParts::parse(url)?;
        JobBuild::new(&parts)
    }

    /// The build that the URL with these parts addresses.
    pub fn new(url: &UrlParts) -> (r: Result<JobBuild, LocatorError>)
        ensures
            build_result_view(r) == located_build(url.base@, url.path@),
    {
        let p = chars_of(url.path.as_str());
        let digits = match classic_number(&p) {
            Some(d) => Some(d),
            None => modern_number(&p),
        };
        match digits {
            None => Err(LocatorError::UnrecognizedJobUrl),
            Some((a, b)) => {
                let job = Job::new(url)?;
                match parse_decimal(&p, a, b) {
                    Some(number) if number > 0 => Ok(JobBuild { job, number }),
                    _ => Err(LocatorError::BadBuildNumber),
                }
            },
        }
    }

    /// The build numbered `number` of the job whose names are `segments`, on
    /// the same server as this build.
    pub fn sibling(&self, segments: Vec<String>, number: u32) -> (r: JobBuild)
        requires
            segments.len() > 0,
            number > 0,
        ensures
            r@ == (BuildView {
                job: JobView { segments: views(segments@), base: self@.job.base },
                number,
            }),
    {
        JobBuild { job: Job { path: segments, base_url: self.job.base_url.clone() }, number }
    }

    /// The build numbered `number` of `job`.
    pub fn of_job(job: &Job, number: u32) -> (r: JobBuild)
        requires
            number > 0,
        ensures
            r@ == (BuildView { job: job@, number }),
    {
        JobBuild { job: job.clone(), number }
    }

    pub fn number(&self) -> (r: u32)
        ensures
            r == self@.number,
            r > 0,
    {
        proof {
            use_type_invariant(self);
        }
        self.number
    }

    pub fn job(&self) -> (r: &Job)
        ensures
            r@ == self@.job,
    {
        &self.job
    }

    /// The request path of this build's console text from byte `start` on.
    pub fn log_route(&self, start: u32) -> (r: String)
        ensures
            r@ == log_route(self@.job.segments, self@.number, start),
    {
        let mut r = self.job.route();
        r.append("/");
        let n = decimal_string(self.number);
        r.append(n.as_str());
        r.append("/logText/progressiveText?start=");
        let s = decimal_string(start);
        r.append(s.as_str());
        r
    }

    /// The URL of this build's console text from byte `start` on.
    pub fn log_path(&self, start: u32) -> (r: Result<String, LocatorError>)
        ensures
            string_result_view(r) == joined_or_error(
                self@.job.base,
                log_route(self@.job.segments, self@.number, start),
            ),
    {
        let route = self.log_route(start);
        resolve(self.job.base_url.as_str(), route.as_str())
    }

    /// The request path of this build's parameter report.
    pub fn params_route(&self) -> (r: String)
        ensures
            r@ == params_route(self@.job.segments, self@.number),
    {
        let mut r = self.job.route();
        r.append("/");
        let n = decimal_string(self.number);
        r.append(n.as_str());
        r.append("/api/json?tree=actions[parameters[name,value]]");
        r
    }

    /// The URL of this build's parameter report.
    pub fn params_path(&self) -> (r: Result<String, LocatorError>)
        ensures
            string_result_view(r) == joined_or_error(
                self@.job.base,
                params_route(self@.job.segments, self@.number),
            ),
    {
        let route = self.params_route();
        resolve(self.job.base_url.as_str(), route.as_str())
    }

    /// `<job> #<number>`
    pub fn display(&self) -> (r: String)
        ensures
            r@ == build_label(self@.job.segments, self@.number),
    {
        let mut r = self.job.display();
        r.append(" #");
        let n = decimal_string(self.number);
        r.append(n.as_str());
        r
    }
}

} // verus!
