//! The decisions of the batch driver: the concurrency setting, the file
//! identifiers read from input lines, the limiter that bounds reads in
//! flight, and the per-file outcomes that make up a batch result.
use crate::deps::{AnalyzeError, Dependency};
use crate::syntax::{analysis, analyze, dep_model, error_model, DepModel, ErrorModel};
use vstd::prelude::*;
use vstd::string::*;

verus! {

/// The concurrency cap when none is set.
pub const DEFAULT_CONCURRENCY: usize = 1000;

/// A concurrency setting that is not a positive integer.
#[derive(Debug, Clone, PartialEq, Eq)]
pub enum ConfigError {
    /// The setting holds something other than decimal digits.
    NotANumber,
    /// The setting is zero.
    Zero,
    /// The setting does not fit in `usize`.
    TooLarge,
}

pub open spec fn is_digit(c: char) -> bool {
    '0' <= c && c <= '9'
}

pub open spec fn all_digits(s: Seq<char>) -> bool {
    forall|i: int| 0 <= i < s.len() ==> is_digit(#[trigger] s[i])
}

/// The value of a string of decimal digits.
pub open spec fn decimal_value(s: Seq<char>) -> nat
    decreases s.len(),
{
    if s.len() == 0 {
        0
    } else {
        decimal_value(s.drop_last()) * 10 + (s.last() as nat - '0' as nat) as nat
    }
}

/// What a concurrency setting means: the default when unset, its value when
/// it is a positive decimal integer that fits in `usize`.
pub open spec fn concurrency_of(setting: Option<Seq<char>>) -> Result<usize, ConfigError> {
    match setting {
        None => Ok(DEFAULT_CONCURRENCY),
        Some(s) => if s.len() == 0 || !all_digits(s) {
            Err(ConfigError::NotANumber)
        } else if decimal_value(s) > usize::MAX {
            Err(ConfigError::TooLarge)
        } else if decimal_value(s) == 0 {
            Err(ConfigError::Zero)
        } else {
            Ok(decimal_value(s) as usize)
        },
    }
}

proof fn decimal_value_grows(s: Seq<char>, i: int)
    requires
        0 <= i < s.len(),
        all_digits(s),
    ensures
        decimal_value(s.subrange(0, i)) <= decimal_value(s.subrange(0, i + 1)),
{
    assert(s.subrange(0, i + 1).drop_last() =~= s.subrange(0, i));
}

proof fn decimal_value_prefix(s: Seq<char>, i: int)
    requires
        0 <= i <= s.len(),
        all_digits(s),
    ensures
        decimal_value(s.subrange(0, i)) <= decimal_value(s),
    decreases s.len() - i,
{
    if i < s.len() {
        decimal_value_grows(s, i);
        decimal_value_prefix(s, i + 1);
    } else {
        assert(s.subrange(0, i) =~= s);
    }
}

/// The concurrency cap that a setting asks for: 1000 when unset, else a
/// positive decimal integer.
pub fn concurrency_limit(setting: Option<&str>) -> (r: Result<usize, ConfigError>)
    ensures
        r == concurrency_of(
            match setting {
                Some(s) => Some(s@),
                None => None,
            },
        ),
{
    match setting {
        None => Ok(DEFAULT_CONCURRENCY),
        Some(s) => positive_decimal(s),
    }
}

fn positive_decimal(s: &str) -> (r: Result<usize, ConfigError>)
    ensures
        r == concurrency_of(Some(s@)),
{
    let n = s.unicode_len();
    if n == 0 {
        return Err(ConfigError::NotANumber);
    }
    let mut i: usize = 0;
    while i < n
        invariant
            n == s@.len(),
            i <= n,
            all_digits(s@.subrange(0, i as int)),
        decreases n - i,
    {
        let c = s.get_char(i);
        if !('0' <= c && c <= '9') {
            assert(!is_digit(s@[i as int]));
            return Err(ConfigError::NotANumber);
        }
        assert(s@.subrange(0, i + 1) =~= s@.subrange(0, i as int).push(c));
        i = i + 1;
    }
    assert(s@.subrange(0, n as int) =~= s@);
    let mut value: usize = 0;
    let mut j: usize = 0;
    while j < n
        invariant
            n == s@.len(),
            j <= n,
            all_digits(s@),
            value == decimal_value(s@.subrange(0, j as int)),
        decreases n - j,
    {
        let c = s.get_char(j);
        let d = (c as u32 - '0' as u32) as usize;
        assert(s@.subrange(0, j + 1).drop_last() =~= s@.subrange(0, j as int));
        assert(s@.subrange(0, j + 1).last() == c);
        assert(decimal_value(s@.subrange(0, j + 1)) == value * 10 + d);
        proof {
            decimal_value_prefix(s@, j + 1);
        }
        if value > (usize::MAX - d) / 10 {
            assert(decimal_value(s@.subrange(0, j + 1)) > usize::MAX) by (nonlinear_arith)
                requires
                    value > (usize::MAX - d) / 10,
                    decimal_value(s@.subrange(0, j + 1)) == value * 10 + d,
            ;
            return Err(ConfigError::TooLarge);
        }
        assert(value * 10 + d <= usize::MAX) by (nonlinear_arith)
            requires
                value <= (usize::MAX - d) / 10,
                d <= 9,
        ;
        value = value * 10 + d;
        j = j + 1;
    }
    assert(s@.subrange(0, n as int) =~= s@);
    if value == 0 {
        return Err(ConfigError::Zero);
    }
    Ok(value)
}

/// Unicode's White_Space characters, which input lines are trimmed of.
pub open spec fn is_white_space(c: char) -> bool {
    ||| '\t' <= c && c <= '\r'
    ||| c == ' '
    ||| c == '\u{85}'
    ||| c == '\u{A0}'
    ||| c == '\u{1680}'
    ||| '\u{2000}' <= c && c <= '\u{200A}'
    ||| c == '\u{2028}'
    ||| c == '\u{2029}'
    ||| c == '\u{202F}'
    ||| c == '\u{205F}'
    ||| c == '\u{3000}'
}

fn white_space(c: char) -> (r: bool)
    ensures
        r == is_white_space(c),
{
    ('\t' <= c && c <= '\r') || c == ' ' || c == '\u{85}' || c == '\u{A0}' || c == '\u{1680}' || (
    '\u{2000}' <= c && c <= '\u{200A}') || c == '\u{2028}' || c == '\u{2029}' || c == '\u{202F}'
        || c == '\u{205F}' || c == '\u{3000}'
}

/// Whether `t` is `s` without its leading and trailing white space.
pub open spec fn is_trimmed(s: Seq<char>, t: Seq<char>) -> bool {
    exists|a: int, b: int|
        #![trigger s.subrange(a, b)]
        0 <= a <= b <= s.len() && t == s.subrange(a, b) && (forall|i: int|
            0 <= i < a ==> is_white_space(#[trigger] s[i])) && (forall|i: int|
            b <= i < s.len() ==> is_white_space(#[trigger] s[i])) && (a < b ==> !is_white_space(
            s[a],
        ) && !is_white_space(s[b - 1]))
}

/// A line without its leading and trailing white space.
pub fn trim_line(s: &str) -> (r: &str)
    ensures
        is_trimmed(s@, r@),
{
    let n = s.unicode_len();
    let mut a: usize = 0;
    while a < n && white_space(s.get_char(a))
        invariant
            n == s@.len(),
            a <= n,
            forall|i: int| 0 <= i < a ==> is_white_space(#[trigger] s@[i]),
        decreases n - a,
    {
        a = a + 1;
    }
    let mut b: usize = n;
    while b > a && white_space(s.get_char(b - 1))
        invariant
            n == s@.len(),
            a <= b <= n,
            forall|i: int| b <= i < n ==> is_white_space(#[trigger] s@[i]),
        decreases b,
    {
        b = b - 1;
    }
    let r = s.substring_char(a, b);
    assert(0 <= a <= b <= s@.len() && r@ == s@.subrange(a as int, b as int));
    r
}

/// The file identifier on an input line: the trimmed line, or `None` for a
/// blank line.
pub fn file_id(line: &str) -> (r: Option<String>)
    ensures
        r is None <==> (forall|t: Seq<char>| is_trimmed(line@, t) ==> t.len() == 0),
        r is Some ==> is_trimmed(line@, r->0@) && r->0@.len() > 0,
{
    let t = trim_line(line);
    proof {
        trimmed_unique(line@, t@);
    }
    if t.unicode_len() == 0 {
        None
    } else {
        Some(t.to_owned())
    }
}

proof fn trimmed_unique(s: Seq<char>, t: Seq<char>)
    requires
        is_trimmed(s, t),
    ensures
        forall|u: Seq<char>| is_trimmed(s, u) ==> u.len() == t.len(),
{
    let (a, b) = choose|a: int, b: int|
        0 <= a <= b <= s.len() && t == s.subrange(a, b) && (forall|i: int|
            0 <= i < a ==> is_white_space(#[trigger] s[i])) && (forall|i: int|
            b <= i < s.len() ==> is_white_space(#[trigger] s[i])) && (a < b ==> !is_white_space(
            s[a],
        ) && !is_white_space(s[b - 1]));
    assert forall|u: Seq<char>| is_trimmed(s, u) implies u.len() == t.len() by {
        let (c, d) = choose|c: int, d: int|
            0 <= c <= d <= s.len() && u == s.subrange(c, d) && (forall|i: int|
                0 <= i < c ==> is_white_space(#[trigger] s[i])) && (forall|i: int|
                d <= i < s.len() ==> is_white_space(#[trigger] s[i])) && (c < d ==> !is_white_space(
                s[c],
            ) && !is_white_space(s[d - 1]));
        if a < b && c < d {
            if a < c {
                assert(is_white_space(s[a]));
            }
            if c < a {
                assert(is_white_space(s[c]));
            }
            if b < d {
                assert(is_white_space(s[d - 1]));
            }
            if d < b {
                assert(is_white_space(s[b - 1]));
            }
        } else if a < b {
            assert(is_white_space(s[a]));
        } else if c < d {
            assert(is_white_space(s[c]));
        }
    }
}

/// A bound on the reads in flight: a read starts once it holds one of
/// `capacity` slots, and a slot freed while reads wait goes to the one that
/// has waited longest.
pub struct Limiter {
    capacity: usize,
    in_use: usize,
    waiting: Vec<u64>,
}

impl Limiter {
    pub closed spec fn spec_capacity(&self) -> nat {
        self.capacity as nat
    }

    pub closed spec fn spec_in_use(&self) -> nat {
        self.in_use as nat
    }

    /// The tickets waiting for a slot, longest-waiting first.
    pub closed spec fn spec_waiting(&self) -> Seq<u64> {
        self.waiting@
    }

    /// Never more slots in use than the capacity, and nobody waits while a
    /// slot is free.
    pub open spec fn wf(&self) -> bool {
        &&& 1 <= self.spec_capacity()
        &&& self.spec_in_use() <= self.spec_capacity()
        &&& self.spec_waiting().len() > 0 ==> self.spec_in_use() == self.spec_capacity()
    }

    pub fn new(capacity: usize) -> (r: Limiter)
        requires
            capacity >= 1,
        ensures
            r.wf(),
            r.spec_capacity() == capacity,
            r.spec_in_use() == 0,
            r.spec_waiting() == Seq::<u64>::empty(),
    {
        Limiter { capacity, in_use: 0, waiting: Vec::new() }
    }

    pub fn in_use(&self) -> (r: usize)
        ensures
            r == self.spec_in_use(),
    {
        self.in_use
    }

    pub fn waiting(&self) -> (r: usize)
        ensures
            r == self.spec_waiting().len(),
    {
        self.waiting.len()
    }

    /// Asks for a slot for `ticket`: `true` when it is granted at once,
    /// `false` when the ticket now waits at the end of the queue.
    pub fn acquire(&mut self, ticket: u64) -> (r: bool)
        requires
            old(self).wf(),
        ensures
            final(self).wf(),
            final(self).spec_capacity() == old(self).spec_capacity(),
            r == (old(self).spec_in_use() < old(self).spec_capacity()),
            r ==> final(self).spec_in_use() == old(self).spec_in_use() + 1,
            r ==> final(self).spec_waiting() == old(self).spec_waiting(),
            !r ==> final(self).spec_in_use() == old(self).spec_in_use(),
            !r ==> final(self).spec_waiting() == old(self).spec_waiting().push(ticket),
    {
        if self.in_use < self.capacity {
            self.in_use = self.in_use + 1;
            true
        } else {
            self.waiting.push(ticket);
            false
        }
    }

    /// Frees a slot: it passes to the longest-waiting ticket, which is
    /// returned, or becomes free when nobody waits.
    pub fn release(&mut self) -> (r: Option<u64>)
        requires
            old(self).wf(),
            old(self).spec_in_use() > 0,
        ensures
            final(self).wf(),
            final(self).spec_capacity() == old(self).spec_capacity(),
            old(self).spec_waiting().len() > 0 ==> r == Some(old(self).spec_waiting()[0]),
            old(self).spec_waiting().len() > 0 ==> final(self).spec_in_use() == old(self).spec_in_use(),
            old(self).spec_waiting().len() > 0 ==> final(self).spec_waiting() == old(self).spec_waiting().drop_first(),
            old(self).spec_waiting().len() == 0 ==> r is None,
            old(self).spec_waiting().len() == 0 ==> final(self).spec_in_use() == old(self).spec_in_use() - 1,
            old(self).spec_waiting().len() == 0 ==> final(self).spec_waiting() == old(self).spec_waiting(),
    {
        if self.waiting.len() > 0 {
            let t = self.waiting.remove(0);
            assert(self.waiting@ =~= old(self).waiting@.drop_first());
            Some(t)
        } else {
            self.in_use = self.in_use - 1;
            None
        }
    }
}

/// What a batch records for one file: its dependencies, or an error message.
#[derive(Debug, Clone, PartialEq, Eq)]
pub enum Outcome {
    Deps(Vec<Dependency>),
    Failed(String),
}

/// What a batch records for one file, as text.
pub enum OutcomeModel {
    Deps(Seq<DepModel>),
    Failed(Seq<char>),
}

pub open spec fn outcome_model(o: Outcome) -> OutcomeModel {
    match o {
        Outcome::Deps(v) => OutcomeModel::Deps(v@.map_values(|d: Dependency| dep_model(d))),
        Outcome::Failed(m) => OutcomeModel::Failed(m@),
    }
}

/// The message of an analysis error: the parser's own for a syntax error.
pub open spec fn message_of(e: ErrorModel) -> Seq<char> {
    match e {
        ErrorModel::Syntax(m) => m,
        ErrorModel::UnresolvedPosition(_) => "position does not resolve to a source location"@,
        ErrorModel::LocationOverflow => "line or column out of range"@,
    }
}

/// The outcome of a file from what reading it gave: the read error's
/// message, the analysis's dependencies, or the analysis error's message.
pub open spec fn job_result(file_name: Seq<char>, read: Result<String, String>) -> OutcomeModel {
    match read {
        Err(m) => OutcomeModel::Failed(m@),
        Ok(source) => match analysis(file_name, source@) {
            Ok(deps) => OutcomeModel::Deps(deps),
            Err(e) => OutcomeModel::Failed(message_of(e)),
        },
    }
}

impl AnalyzeError {
    /// A human-readable message: the parser's own for a syntax error.
    pub fn message(&self) -> (r: String)
        ensures
            r@ == message_of(error_model(*self)),
    {
        match self {
            AnalyzeError::Syntax(m) => m.clone(),
            AnalyzeError::UnresolvedPosition(_) => String::from_str("position does not resolve to a source location"),
            AnalyzeError::LocationOverflow => String::from_str("line or column out of range"),
        }
    }
}

/// The outcome of one file from what reading it gave.
pub fn job_outcome(file_name: &str, read: Result<String, String>) -> (r: Outcome)
    ensures
        outcome_model(r) == job_result(file_name@, read),
{
    match read {
        Err(msg) => Outcome::Failed(msg),
        Ok(source) => match analyze(file_name, source) {
            Ok(deps) => Outcome::Deps(deps),
            Err(e) => Outcome::Failed(e.message()),
        },
    }
}

/// Runs a batch whose reads have been done, under a limiter of the given
/// capacity: up to `capacity` reads hold a slot at once; a job that finds no
/// free slot waits until the oldest read in flight completes and hands its
/// slot on. One outcome per file, in completion order, which is input order.
pub fn run_batch(capacity: usize, jobs: Vec<(String, Result<String, String>)>) -> (r: Vec<
    (String, Outcome),
>)
    requires
        capacity >= 1,
        jobs@.len() < u64::MAX,
    ensures
        same_files(r@, jobs@),
{
    let ghost js = jobs@;
    let mut limiter = Limiter::new(capacity);
    let mut in_flight: Vec<(String, Result<String, String>)> = Vec::new();
    let mut out: Vec<(String, Outcome)> = Vec::new();
    let mut rest = jobs;
    let mut ticket: u64 = 0;
    while rest.len() > 0
        invariant
            limiter.wf(),
            limiter.spec_capacity() == capacity,
            limiter.spec_in_use() == in_flight@.len(),
            limiter.spec_waiting().len() == 0,
            out@.len() + in_flight@.len() + rest@.len() == js.len(),
            ticket == out@.len() + in_flight@.len(),
            js.len() < u64::MAX,
            forall|j: int|
                0 <= j < in_flight@.len() ==> #[trigger] in_flight@[j] == js[out@.len() + j],
            forall|j: int|
                0 <= j < rest@.len() ==> #[trigger] rest@[j] == js[out@.len() + in_flight@.len() + j],
            forall|j: int| 0 <= j < out@.len() ==> #[trigger] file_matches(out@[j], js[j]),
        decreases rest@.len(),
    {
        let job = rest.remove(0);
        if limiter.acquire(ticket) {
            in_flight.push(job);
        } else {
            let (name, read) = in_flight.remove(0);
            let next = limiter.release();
            assert(next == Some(ticket));
            let outcome = job_outcome(name.as_str(), read);
            out.push((name, outcome));
            in_flight.push(job);
        }
        ticket = ticket + 1;
    }
    while in_flight.len() > 0
        invariant
            limiter.wf(),
            limiter.spec_in_use() == in_flight@.len(),
            limiter.spec_waiting().len() == 0,
            out@.len() + in_flight@.len() == js.len(),
            forall|j: int|
                0 <= j < in_flight@.len() ==> #[trigger] in_flight@[j] == js[out@.len() + j],
            forall|j: int| 0 <= j < out@.len() ==> #[trigger] file_matches(out@[j], js[j]),
        decreases in_flight@.len(),
    {
        let (name, read) = in_flight.remove(0);
        let freed = limiter.release();
        assert(freed is None);
        let outcome = job_outcome(name.as_str(), read);
        out.push((name, outcome));
    }
    out
}

/// An outcome that belongs to a job: the same file, and the job's result.
pub open spec fn file_matches(o: (String, Outcome), j: (String, Result<String, String>)) -> bool {
    &&& o.0@ == j.0@
    &&& outcome_model(o.1) == job_result(j.0@, j.1)
}

/// One outcome per job, in the jobs' order.
pub open spec fn same_files(r: Seq<(String, Outcome)>, jobs: Seq<(String, Result<String, String>)>) -> bool {
    &&& r.len() == jobs.len()
    &&& forall|i: int| 0 <= i < jobs.len() ==> #[trigger] file_matches(r[i], jobs[i])
}

/// The number of failed outcomes.
pub open spec fn failures(r: Seq<(String, Outcome)>) -> nat
    decreases r.len(),
{
    if r.len() == 0 {
        0
    } else {
        failures(r.drop_last()) + if r.last().1 is Failed { 1nat } else { 0nat }
    }
}

/// The number of failed outcomes of a batch.
pub fn failure_count(r: &Vec<(String, Outcome)>) -> (n: usize)
    ensures
        n == failures(r@),
{
    let mut n: usize = 0;
    let mut i: usize = 0;
    while i < r.len()
        invariant
            i <= r@.len(),
            n == failures(r@.subrange(0, i as int)),
            n <= i,
        decreases r@.len() - i,
    {
        assert(r@.subrange(0, i + 1).drop_last() =~= r@.subrange(0, i as int));
        if let Outcome::Failed(_) = &r[i].1 {
            n = n + 1;
        }
        i = i + 1;
    }
    assert(r@.subrange(0, r@.len() as int) =~= r@);
    n
}

proof fn failures_without(s: Seq<(String, Outcome)>, k: int)
    requires
        0 <= k < s.len(),
    ensures
        failures(s) == failures(s.remove(k)) + if s[k].1 is Failed { 1nat } else { 0nat },
    decreases s.len(),
{
    if k == s.len() - 1 {
        assert(s.remove(k) =~= s.drop_last());
    } else {
        assert(s.remove(k).drop_last() =~= s.drop_last().remove(k));
        assert(s.remove(k).last() == s.last());
        failures_without(s.drop_last(), k);
    }
}

/// The number of failed outcomes of a batch does not depend on the order in
/// which its files completed: two batches holding the same outcomes, in any
/// order, have as many outcomes and as many failures.
pub proof fn failures_ignore_order(a: Seq<(String, Outcome)>, b: Seq<(String, Outcome)>)
    requires
        a.to_multiset() == b.to_multiset(),
    ensures
        a.len() == b.len(),
        failures(a) == failures(b),
    decreases a.len(),
{
    broadcast use vstd::seq_lib::group_to_multiset_ensures;

    if a.len() == 0 {
        assert(b.to_multiset().len() == 0);
    } else {
        let x = a.last();
        assert(a.drop_last().push(x) =~= a);
        assert(a.to_multiset() == a.drop_last().to_multiset().insert(x));
        assert(a.to_multiset().count(x) > 0);
        assert(b.contains(x));
        let k = choose|k: int| 0 <= k < b.len() && b[k] == x;
        assert(b.remove(k).to_multiset() == b.to_multiset().remove(x));
        assert(a.drop_last().to_multiset() =~= b.remove(k).to_multiset());
        failures_ignore_order(a.drop_last(), b.remove(k));
        failures_without(b, k);
    }
}

/// The number of jobs whose own result is a failure.
pub open spec fn failed_jobs(jobs: Seq<(String, Result<String, String>)>) -> nat
    decreases jobs.len(),
{
    if jobs.len() == 0 {
        0
    } else {
        failed_jobs(jobs.drop_last()) + if job_result(jobs.last().0@, jobs.last().1) is Failed {
            1nat
        } else {
            0nat
        }
    }
}

/// Failures stay with their files: a batch has one outcome per job, and as
/// many failures as it has jobs whose own result is a failure, whatever the
/// other files hold.
pub proof fn failures_are_failed_jobs(
    r: Seq<(String, Outcome)>,
    jobs: Seq<(String, Result<String, String>)>,
)
    requires
        same_files(r, jobs),
    ensures
        r.len() == jobs.len(),
        failures(r) == failed_jobs(jobs),
    decreases jobs.len(),
{
    if jobs.len() > 0 {
        let n = jobs.len() - 1;
        assert(file_matches(r[n], jobs[n]));
        assert forall|i: int| 0 <= i < n implies #[trigger] file_matches(r.drop_last()[i], jobs.drop_last()[i]) by {
            assert(file_matches(r[i], jobs[i]));
        }
        failures_are_failed_jobs(r.drop_last(), jobs.drop_last());
    }
}

/// The capacity a batch runs under changes neither which outcomes it gives
/// nor their order: two runs over the same jobs give the same files with the
/// same outcomes, in the same order.
pub proof fn capacity_keeps_outcomes(
    r1: Seq<(String, Outcome)>,
    r2: Seq<(String, Outcome)>,
    jobs: Seq<(String, Result<String, String>)>,
)
    requires
        same_files(r1, jobs),
        same_files(r2, jobs),
    ensures
        r1.len() == r2.len(),
        forall|i: int|
            0 <= i < r1.len() ==> (#[trigger] r1[i]).0@ == r2[i].0@ && outcome_model(r1[i].1)
                == outcome_model(r2[i].1),
{
    assert forall|i: int| 0 <= i < r1.len() implies (#[trigger] r1[i]).0@ == r2[i].0@ && outcome_model(
        r1[i].1,
    ) == outcome_model(r2[i].1) by {
        assert(file_matches(r1[i], jobs[i]));
        assert(file_matches(r2[i], jobs[i]));
    }
}

} // verus!
