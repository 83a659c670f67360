//! The state that a session keeps between lines: the history of the lines
//! read and the table of background jobs.

use vstd::prelude::*;
use vstd::string::*;
use crate::words::{texts, words, split_words};
use crate::text::{decimal, digits, align_right, right_aligned};
use crate::pipeline::{amp, is_sign};

verus! {

/// A pipeline sent to the background: the process identifiers of its stages
/// and the text of its line.
pub struct Job {
    pids: Vec<i32>,
    text: String,
}

/// The history and the jobs of one session.
pub struct Rush {
    history: Vec<String>,
    jobs: Vec<Job>,
}

/// What a session holds: the lines read, in order, and for each job the
/// process identifiers of its stages and its text.
pub ghost struct Session {
    pub history: Seq<Seq<char>>,
    pub jobs: Seq<(Seq<i32>, Seq<char>)>,
}

/// What was read from the console.
pub enum Input {
    /// Nothing: the input has ended, and the session ends with status 0.
    End,
    /// A line with a NUL character: it is refused and not recorded.
    Nul,
    /// A line, without the newline that ended it.
    Line(String),
}

/// A place in the table of jobs: the process at `pid` in the job at `job`.
#[derive(Clone, Copy, Debug, PartialEq, Eq, Structural)]
pub struct Probe {
    pub job: usize,
    pub pid: usize,
}

/// `s` without the newline at its end, if it has one.
pub open spec fn stripped(s: Seq<char>) -> Seq<char> {
    if s.len() > 0 && s.last() == '\n' {
        s.drop_last()
    } else {
        s
    }
}

/// The words `t` without the background mark: the `&` that is the last
/// word. An `&` elsewhere, or inside a word, stays.
pub open spec fn unmarked(t: Seq<Seq<char>>) -> Seq<Seq<char>> {
    if t.len() > 0 && t.last() == amp() {
        t.drop_last()
    } else {
        t
    }
}

/// The words `ws` with one space between each two.
pub open spec fn joined(ws: Seq<Seq<char>>) -> Seq<char>
    decreases ws.len(),
{
    if ws.len() == 0 {
        Seq::empty()
    } else if ws.len() == 1 {
        ws[0]
    } else {
        joined(ws.drop_last()) + seq![' '] + ws.last()
    }
}

/// The text under which a line is kept as a job: its words without the
/// background mark, one space between each two.
pub open spec fn job_text(line: Seq<char>) -> Seq<char> {
    joined(unmarked(words(line)))
}

/// The line of the history listing for the entry `text` with number
/// `number`: the number set right in a field of five, two spaces, the text.
pub open spec fn history_line(number: nat, text: Seq<char>) -> Seq<char> {
    right_aligned(digits(number), 5) + seq![' ', ' '] + text
}

/// The history listing: one line for each entry, numbered from 1.
pub open spec fn listing(h: Seq<Seq<char>>) -> Seq<Seq<char>> {
    Seq::new(h.len(), |i: int| history_line((i + 1) as nat, h[i]))
}

/// The first process at or after the place `(j, k)` in the table: a job
/// without processes left is passed over.
pub open spec fn seek(jobs: Seq<(Seq<i32>, Seq<char>)>, j: int, k: int) -> Option<Probe>
    decreases jobs.len() - j,
{
    if j < 0 || j >= jobs.len() || j > usize::MAX || k > usize::MAX {
        None
    } else if 0 <= k < jobs[j].0.len() {
        Some(Probe { job: j as usize, pid: k as usize })
    } else {
        seek(jobs, j + 1, 0)
    }
}

/// The process to probe after the one at `at` has answered: the first of the
/// next job if it still runs, since one running process is enough to list a
/// job; the next of the same job, or of a later one, if it does not.
pub open spec fn seek_after(jobs: Seq<(Seq<i32>, Seq<char>)>, at: Probe, running: bool) -> Option<
    Probe,
> {
    if running {
        seek(jobs, at.job + 1, 0)
    } else {
        seek(jobs, at.job as int, at.pid + 1)
    }
}

impl View for Job {
    type V = (Seq<i32>, Seq<char>);

    closed spec fn view(&self) -> (Seq<i32>, Seq<char>) {
        (self.pids@, self.text@)
    }
}

/// The contents of a list of jobs.
pub open spec fn job_views(v: Seq<Job>) -> Seq<(Seq<i32>, Seq<char>)> {
    v.map_values(|j: Job| j@)
}

impl View for Rush {
    type V = Session;

    closed spec fn view(&self) -> Session {
        Session { history: texts(self.history@), jobs: job_views(self.jobs@) }
    }
}

/// Joins `ws` with one space between each two.
pub fn join_words(ws: &Vec<String>) -> (r: String)
    ensures
        r@ == joined(texts(ws@)),
{
    let mut r = String::new();
    let mut i: usize = 0;
    assert(texts(ws@).take(0) =~= Seq::<Seq<char>>::empty());
    while i < ws.len()
        invariant
            0 <= i <= ws@.len(),
            r@ == joined(texts(ws@).take(i as int)),
        decreases ws@.len() - i,
    {
        proof {
            reveal_strlit(" ");
            let next = texts(ws@).take(i + 1);
            assert(next.drop_last() =~= texts(ws@).take(i as int));
            assert(next.last() == ws@[i as int]@);
            if i == 0 {
                assert(next[0] == ws@[0]@);
            }
        }
        if i > 0 {
            r.append(" ");
        }
        r.append(ws[i].as_str());
        i = i + 1;
        assert(r@ =~= joined(texts(ws@).take(i as int)));
    }
    assert(texts(ws@).take(ws@.len() as int) =~= texts(ws@));
    r
}

/// The text under which `line` is kept as a job.
pub fn job_name(line: &str) -> (r: String)
    ensures
        r@ == job_text(line@),
{
    let mut ws = split_words(line);
    let n: usize = ws.len();
    if n > 0 && is_sign(ws[n - 1].as_str(), '&') {
        let ghost all = ws@;
        ws.pop();
        assert(texts(ws@) =~= texts(all).drop_last());
    }
    join_words(&ws)
}

/// Sorts out what was read from the console.
pub fn read_input(raw: &str) -> (r: Input)
    ensures
        match r {
            Input::End => raw@.len() == 0,
            Input::Nul => raw@.len() > 0 && raw@.contains('\0'),
            Input::Line(s) => raw@.len() > 0 && !raw@.contains('\0') && s@ == stripped(raw@),
        },
{
    let n: usize = raw.unicode_len();
    if n == 0 {
        return Input::End;
    }
    let mut i: usize = 0;
    while i < n
        invariant
            n == raw@.len(),
            0 <= i <= n,
            forall|j: int| 0 <= j < i ==> raw@[j] != '\0',
        decreases n - i,
    {
        if raw.get_char(i) == '\0' {
            return Input::Nul;
        }
        i = i + 1;
    }
    if raw.get_char(n - 1) == '\n' {
        let s = String::from_str(raw.substring_char(0, n - 1));
        assert(s@ =~= stripped(raw@));
        Input::Line(s)
    } else {
        Input::Line(String::from_str(raw))
    }
}

impl Rush {
    /// A session without history or jobs.
    pub fn new() -> (r: Self)
        ensures
            r@.history.len() == 0,
            r@.jobs.len() == 0,
    {
        Rush { history: Vec::new(), jobs: Vec::new() }
    }

    /// Ends the turn of `line`. `back` says whether the line was run in the
    /// background, and is `None` where it was no pipeline and nothing was
    /// run; `pids` are the processes that running it created. The line joins
    /// the history. A background line joins the jobs, and there is nothing to
    /// wait for; otherwise the result holds the processes to wait for, in
    /// order.
    pub fn run(&mut self, line: &str, back: Option<bool>, pids: Vec<i32>) -> (wait: Vec<i32>)
        ensures
            final(self)@.history == old(self)@.history.push(line@),
            final(self)@.jobs == if back == Some(true) {
                old(self)@.jobs.push((pids@, job_text(line@)))
            } else {
                old(self)@.jobs
            },
            wait@ == if back == Some(false) {
                pids@
            } else {
                Seq::<i32>::empty()
            },
    {
        let ghost h = self.history@;
        let ghost j = self.jobs@;
        let mut wait: Vec<i32> = Vec::new();
        match back {
            Some(true) => {
                let text = job_name(line);
                self.jobs.push(Job { pids, text });
                assert(job_views(self.jobs@) =~= job_views(j).push((pids@, job_text(line@))));
            },
            Some(false) => {
                wait = pids;
            },
            None => {},
        }
        self.history.push(String::from_str(line));
        assert(texts(self.history@) =~= texts(h).push(line@));
        wait
    }

    /// The number of lines in the history.
    pub fn history_len(&self) -> (n: usize)
        ensures
            n == self@.history.len(),
    {
        self.history.len()
    }

    /// The history listing.
    pub fn history_lines(&self) -> (r: Vec<String>)
        ensures
            texts(r@) == listing(self@.history),
    {
        let mut r: Vec<String> = Vec::new();
        let mut i: usize = 0;
        while i < self.history.len()
            invariant
                0 <= i <= self.history@.len(),
                r@.len() == i,
                forall|k: int|
                    0 <= k < i ==> (#[trigger] r@[k])@ == history_line(
                        (k + 1) as nat,
                        self.history@[k]@,
                    ),
            decreases self.history@.len() - i,
        {
            let number = decimal(i + 1);
            let mut s = align_right(number.as_str(), 5);
            proof {
                reveal_strlit("  ");
                assert("  "@ =~= seq![' ', ' ']);
            }
            s.append("  ");
            s.append(self.history[i].as_str());
            r.push(s);
            i = i + 1;
        }
        assert(texts(r@) =~= listing(self@.history));
        r
    }

    /// The number of jobs.
    pub fn jobs_len(&self) -> (n: usize)
        ensures
            n == self@.jobs.len(),
    {
        self.jobs.len()
    }

    /// The number of processes of the job at `job`.
    pub fn job_size(&self, job: usize) -> (n: usize)
        requires
            job < self@.jobs.len(),
        ensures
            n == self@.jobs[job as int].0.len(),
    {
        self.jobs[job].pids.len()
    }

    /// The text of the job at `job`.
    pub fn job_line(&self, job: usize) -> (r: &str)
        requires
            job < self@.jobs.len(),
        ensures
            r@ == self@.jobs[job as int].1,
    {
        self.jobs[job].text.as_str()
    }

    /// The process identifier at `at`.
    pub fn job_pid(&self, at: Probe) -> (r: i32)
        requires
            at.job < self@.jobs.len(),
            at.pid < self@.jobs[at.job as int].0.len(),
        ensures
            r == self@.jobs[at.job as int].0[at.pid as int],
    {
        self.jobs[at.job].pids[at.pid]
    }

    /// The first process at or after the place `(job, pid)` in the table.
    pub fn probe_from(&self, job: usize, pid: usize) -> (r: Option<Probe>)
        ensures
            r == seek(self@.jobs, job as int, pid as int),
            r is Some ==> r->0.job < self@.jobs.len() && r->0.pid < self@.jobs[r->0.job as int].0.len(),
    {
        let mut j: usize = job;
        let mut k: usize = pid;
        while j < self.jobs.len()
            invariant
                seek(self@.jobs, j as int, k as int) == seek(self@.jobs, job as int, pid as int),
            decreases self.jobs@.len() - j,
        {
            assert(self@.jobs[j as int] == self.jobs@[j as int]@);
            if k < self.jobs[j].pids.len() {
                return Some(Probe { job: j, pid: k });
            }
            j = j + 1;
            k = 0;
        }
        None
    }

    /// The first process to probe for the listing of the jobs, if there is
    /// one.
    pub fn first_probe(&self) -> (r: Option<Probe>)
        ensures
            r == seek(self@.jobs, 0, 0),
            r is Some ==> r->0.job < self@.jobs.len() && r->0.pid < self@.jobs[r->0.job as int].0.len(),
    {
        self.probe_from(0, 0)
    }

    /// The process to probe after the one at `at` has answered. Where
    /// `running` holds, the job at `at` is listed, and none of its other
    /// processes is probed.
    pub fn next_probe(&self, at: Probe, running: bool) -> (r: Option<Probe>)
        requires
            at.job < self@.jobs.len(),
            at.pid < self@.jobs[at.job as int].0.len(),
        ensures
            r == seek_after(self@.jobs, at, running),
            r is Some ==> r->0.job < self@.jobs.len() && r->0.pid < self@.jobs[r->0.job as int].0.len(),
    {
        assert(self@.jobs.len() == self.jobs@.len());
        assert(self@.jobs[at.job as int] == self.jobs@[at.job as int]@);
        let jobs: usize = self.jobs.len();
        let pids: usize = self.jobs[at.job].pids.len();
        if running {
            self.probe_from(at.job + 1, 0)
        } else {
            self.probe_from(at.job, at.pid + 1)
        }
    }
}

/// The history is listed whole and in order: the listing has one line for
/// each entry, and recording a line adds the line with the next number to
/// its end and changes no line before it.
pub proof fn listing_grows(h: Seq<Seq<char>>, line: Seq<char>)
    ensures
        listing(h).len() == h.len(),
        listing(h.push(line)) == listing(h).push(history_line((h.len() + 1) as nat, line)),
{
    assert(listing(h.push(line)) =~= listing(h).push(history_line((h.len() + 1) as nat, line)));
}

/// The search for the next process passes over nothing that could be
/// probed: what it finds is the place it started from, if a process stands
/// there, and else the first process of the first later job that has one;
/// it finds nothing only where no process is left.
pub proof fn seek_finds_first(jobs: Seq<(Seq<i32>, Seq<char>)>, j: int, k: int)
    requires
        jobs.len() <= usize::MAX,
        0 <= j,
        0 <= k <= usize::MAX,
    ensures
        match seek(jobs, j, k) {
            Some(p) => {
                &&& j <= p.job < jobs.len()
                &&& p.pid < jobs[p.job as int].0.len()
                &&& p.job == j ==> p.pid == k
                &&& p.job > j ==> p.pid == 0 && jobs[j].0.len() <= k
                &&& forall|m: int| j < m < p.job ==> (#[trigger] jobs[m]).0.len() == 0
            },
            None => {
                &&& j < jobs.len() ==> jobs[j].0.len() <= k
                &&& forall|m: int| j < m < jobs.len() ==> (#[trigger] jobs[m]).0.len() == 0
            },
        },
    decreases jobs.len() - j,
{
    if j < jobs.len() && !(k < jobs[j].0.len()) {
        seek_finds_first(jobs, j + 1, 0);
    }
}

/// The jobs that a listing names, from the place `(j, k)` on, where
/// `alive(job, pid)` is what the probe of the process at that place answers:
/// a job is named when one of its processes answers that it runs, and the
/// rest of its processes are then passed over.
pub open spec fn listed(
    jobs: Seq<(Seq<i32>, Seq<char>)>,
    alive: spec_fn(int, int) -> bool,
    j: int,
    k: int,
) -> Seq<int>
    decreases jobs.len() - j, jobs[j].0.len() - k,
{
    if j < 0 || k < 0 || j >= jobs.len() {
        Seq::empty()
    } else if k >= jobs[j].0.len() {
        listed(jobs, alive, j + 1, 0)
    } else if alive(j, k) {
        seq![j] + listed(jobs, alive, j + 1, 0)
    } else {
        listed(jobs, alive, j, k + 1)
    }
}

/// Whether a process of the job `m`, at `from` or after it, answers that it
/// runs.
pub open spec fn has_live(
    jobs: Seq<(Seq<i32>, Seq<char>)>,
    alive: spec_fn(int, int) -> bool,
    m: int,
    from: int,
) -> bool {
    exists|x: int| from <= x < jobs[m].0.len() && #[trigger] alive(m, x)
}

/// The search for the next process changes nothing in what is listed: the
/// listing from a place is the listing from the process found from it, and
/// it is empty where none is found.
pub proof fn probes_follow_listing(
    jobs: Seq<(Seq<i32>, Seq<char>)>,
    alive: spec_fn(int, int) -> bool,
    j: int,
    k: int,
)
    requires
        jobs.len() <= usize::MAX,
        0 <= j,
        0 <= k <= usize::MAX,
    ensures
        match seek(jobs, j, k) {
            Some(p) => listed(jobs, alive, j, k) == listed(jobs, alive, p.job as int, p.pid as int),
            None => listed(jobs, alive, j, k).len() == 0,
        },
    decreases jobs.len() - j,
{
    if j < jobs.len() && !(k < jobs[j].0.len()) {
        probes_follow_listing(jobs, alive, j + 1, 0);
    }
}

/// A job is listed if and only if one of its processes answers that it
/// runs: from the place `(j, k)` on, the listing names the job `j` where one
/// of its processes from `k` on runs, and a later job where any of its
/// processes runs.
pub proof fn listed_are_the_running(
    jobs: Seq<(Seq<i32>, Seq<char>)>,
    alive: spec_fn(int, int) -> bool,
    j: int,
    k: int,
    m: int,
)
    requires
        0 <= j,
        0 <= k,
    ensures
        listed(jobs, alive, j, k).contains(m) <==> j <= m < jobs.len() && has_live(
            jobs,
            alive,
            m,
            if m == j {
                k
            } else {
                0
            },
        ),
    decreases jobs.len() - j, jobs[j].0.len() - k,
{
    if j < jobs.len() {
        if k >= jobs[j].0.len() {
            listed_are_the_running(jobs, alive, j + 1, 0, m);
        } else if alive(j, k) {
            listed_are_the_running(jobs, alive, j + 1, 0, m);
            let rest = listed(jobs, alive, j + 1, 0);
            let all = seq![j] + rest;
            assert(all[0] == j);
            if rest.contains(m) {
                let x = choose|x: int| 0 <= x < rest.len() && rest[x] == m;
                assert(all[x + 1] == m);
            }
            if all.contains(m) {
                let x = choose|x: int| 0 <= x < all.len() && all[x] == m;
                if x > 0 {
                    assert(rest[x - 1] == m);
                }
            }
        } else {
            listed_are_the_running(jobs, alive, j, k + 1, m);
            if m == j && has_live(jobs, alive, m, k) {
                let x = choose|x: int| k <= x < jobs[m].0.len() && #[trigger] alive(m, x);
                assert(k + 1 <= x);
            }
        }
    }
}

} // verus!
