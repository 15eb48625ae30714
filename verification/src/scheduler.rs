//! The decisions of the per-topic scheduler: how often a topic runs, and
//! which runs may start (a topic never runs twice at once, so nothing is
//! posted twice).
use vstd::prelude::*;
use vstd::string::*;
use crate::config::{find_topic, topic_index, AppConfig, TopicConfig};
use crate::error::{AppError, AppResult};
use crate::text::{str_eq, views};

verus! {

/// A set of topic names, each held once: the topics running now, or those
/// with a scheduled task.
pub struct TopicSet {
    names: Vec<String>,
}

/// `s` without its element at `i`, when no element occurs twice.
proof fn lemma_remove_to_set(s: Seq<Seq<char>>, i: int)
    requires
        s.no_duplicates(),
        0 <= i < s.len(),
    ensures
        s.remove(i).to_set() == s.to_set().remove(s[i]),
        s.remove(i).no_duplicates(),
{
    let r = s.remove(i);
    assert forall|x: Seq<char>| r.to_set().contains(x) <==> s.to_set().remove(s[i]).contains(x) by {
        if r.contains(x) {
            let j = choose|j: int| 0 <= j < r.len() && r[j] == x;
            if j < i {
                assert(s[j] == x);
            } else {
                assert(s[j + 1] == x);
            }
        }
        if s.contains(x) && x != s[i] {
            let j = choose|j: int| 0 <= j < s.len() && s[j] == x;
            if j < i {
                assert(r[j] == x);
            } else {
                assert(r[j - 1] == x);
            }
        }
    }
    assert(r.to_set() =~= s.to_set().remove(s[i]));
    assert forall|a: int, b: int| 0 <= a < r.len() && 0 <= b < r.len() && a != b implies r[a] != r[b] by {
        let a2 = if a < i { a } else { a + 1 };
        let b2 = if b < i { b } else { b + 1 };
        assert(r[a] == s[a2]);
        assert(r[b] == s[b2]);
    }
}

/// `s` with `x` appended, when `x` is not in it.
proof fn lemma_push_to_set(s: Seq<Seq<char>>, x: Seq<char>)
    requires
        s.no_duplicates(),
        !s.contains(x),
    ensures
        s.push(x).to_set() == s.to_set().insert(x),
        s.push(x).no_duplicates(),
{
    let p = s.push(x);
    assert forall|y: Seq<char>| p.to_set().contains(y) <==> s.to_set().insert(x).contains(y) by {
        if p.contains(y) {
            let j = choose|j: int| 0 <= j < p.len() && p[j] == y;
            if j < s.len() {
                assert(s[j] == y);
            }
        }
        if s.contains(y) {
            let j = choose|j: int| 0 <= j < s.len() && s[j] == y;
            assert(p[j] == y);
        }
        if y == x {
            assert(p[s.len() as int] == y);
        }
    }
    assert(p.to_set() =~= s.to_set().insert(x));
    assert forall|a: int, b: int| 0 <= a < p.len() && 0 <= b < p.len() && a != b implies p[a] != p[b] by {
        if a == s.len() {
            assert(s[b] == p[b]);
        } else if b == s.len() {
            assert(s[a] == p[a]);
        }
    }
}

impl View for TopicSet {
    type V = Set<Seq<char>>;

    closed spec fn view(&self) -> Set<Seq<char>> {
        views(self.names@).to_set()
    }
}

impl TopicSet {
    #[verifier::type_invariant]
    spec fn distinct(self) -> bool {
        views(self.names@).no_duplicates()
    }

    /// An empty set.
    pub fn new() -> (r: TopicSet)
        ensures
            r@ == Set::<Seq<char>>::empty(),
    {
        let r = TopicSet { names: Vec::new() };
        assert(views(r.names@).to_set() =~= Set::<Seq<char>>::empty());
        r
    }

    fn position(&self, name: &str) -> (r: Option<usize>)
        ensures
            match r {
                Some(i) => i < self.names@.len() && self.names@[i as int]@ == name@,
                None => !self@.contains(name@),
            },
    {
        let ghost vs = views(self.names@);
        let mut i: usize = 0;
        while i < self.names.len()
            invariant
                i <= self.names@.len(),
                vs == views(self.names@),
                vs.len() == self.names@.len(),
                forall|j: int| 0 <= j < i ==> vs[j] != name@,
            decreases self.names@.len() - i,
        {
            if str_eq(self.names[i].as_str(), name) {
                return Some(i);
            }
            assert(vs[i as int] == self.names@[i as int]@);
            i += 1;
        }
        assert(!vs.contains(name@));
        None
    }

    /// Whether `name` is in the set.
    pub fn contains(&self, name: &str) -> (r: bool)
        ensures
            r == self@.contains(name@),
    {
        match self.position(name) {
            Some(i) => {
                assert(views(self.names@)[i as int] == name@);
                true
            },
            None => false,
        }
    }

    /// Adds `name`; says whether it was absent (and so is added now).
    pub fn insert(&mut self, name: &str) -> (r: bool)
        ensures
            r == !old(self)@.contains(name@),
            final(self)@ == old(self)@.insert(name@),
    {
        proof {
            use_type_invariant(&*self);
        }
        if self.contains(name) {
            assert(old(self)@.insert(name@) =~= old(self)@);
            return false;
        }
        let mut v: Vec<String> = Vec::new();
        std::mem::swap(&mut v, &mut self.names);
        let ghost before = views(v@);
        v.push(String::from_str(name));
        proof {
            assert(views(v@) =~= before.push(name@));
            lemma_push_to_set(before, name@);
        }
        self.names = v;
        true
    }

    /// Removes `name`; says whether it was there.
    pub fn remove(&mut self, name: &str) -> (r: bool)
        ensures
            r == old(self)@.contains(name@),
            final(self)@ == old(self)@.remove(name@),
    {
        proof {
            use_type_invariant(&*self);
        }
        match self.position(name) {
            None => {
                assert(old(self)@.remove(name@) =~= old(self)@);
                false
            },
            Some(i) => {
                let mut v: Vec<String> = Vec::new();
                std::mem::swap(&mut v, &mut self.names);
                let ghost before = views(v@);
                assert(before[i as int] == name@);
                v.remove(i);
                proof {
                    assert(views(v@) =~= before.remove(i as int));
                    lemma_remove_to_set(before, i as int);
                }
                self.names = v;
                true
            },
        }
    }

    /// The names, each once (in no particular order).
    pub fn names(&self) -> (r: Vec<String>)
        ensures
            views(r@).to_set() == self@,
            views(r@).no_duplicates(),
    {
        proof {
            use_type_invariant(self);
        }
        let mut r: Vec<String> = Vec::new();
        let mut i: usize = 0;
        while i < self.names.len()
            invariant
                i <= self.names@.len(),
                views(r@) == views(self.names@).take(i as int),
            decreases self.names@.len() - i,
        {
            let c = self.names[i].clone();
            let ghost before = r@;
            r.push(c);
            proof {
                assert(r@ == before.push(c));
                assert(views(r@) =~= views(before).push(self.names@[i as int]@));
                assert(views(r@) =~= views(self.names@).take(i + 1));
            }
            i += 1;
        }
        assert(views(self.names@).take(self.names@.len() as int) =~= views(self.names@));
        r
    }

    /// Empties the set, handing out the names it held.
    pub fn take_all(&mut self) -> (r: Vec<String>)
        ensures
            views(r@).to_set() == old(self)@,
            views(r@).no_duplicates(),
            final(self)@ == Set::<Seq<char>>::empty(),
    {
        proof {
            use_type_invariant(&*self);
        }
        let mut v: Vec<String> = Vec::new();
        std::mem::swap(&mut v, &mut self.names);
        assert(views(self.names@).to_set() =~= Set::<Seq<char>>::empty());
        v
    }
}

/// A topic runs at most once a minute.
pub open spec fn effective_interval(interval_min: u64) -> nat {
    if interval_min < 1 {
        1
    } else {
        interval_min as nat
    }
}

/// The minutes between two runs of a topic: its interval, at least one.
pub fn interval_minutes(interval_min: u64) -> (r: u64)
    ensures
        r == effective_interval(interval_min),
{
    if interval_min < 1 {
        1
    } else {
        interval_min
    }
}

/// The seconds slept between two runs of a topic.
pub fn interval_seconds(interval_min: u64) -> (r: u64)
    requires
        interval_min <= u64::MAX / 60,
    ensures
        r == effective_interval(interval_min) * 60,
{
    interval_minutes(interval_min) * 60
}

/// The message of a refresh of a topic that is not configured.
pub open spec fn topic_missing_message(name: Seq<char>) -> Seq<char> {
    "Topic '"@ + name + "' not found"@
}

/// The message of a refresh of a topic that is running.
pub open spec fn topic_busy_message(name: Seq<char>) -> Seq<char> {
    "Topic '"@ + name + "' is already running"@
}

/// Starts a run asked for by hand: the topic must be configured and must
/// not be running. On success the topic is marked running and the index
/// of its configuration is returned; the caller runs it and then removes
/// it from `running`.
pub fn begin_refresh(config: &AppConfig, running: &mut TopicSet, name: &str) -> (r: Result<usize, AppError>)
    ensures
        match topic_index(config.topics@, name@) {
            None => {
                &&& r matches Err(AppError::Other(m)) && m@ == topic_missing_message(name@)
                &&& final(running)@ == old(running)@
            },
            Some(i) => if old(running)@.contains(name@) {
                &&& r matches Err(AppError::Other(m)) && m@ == topic_busy_message(name@)
                &&& final(running)@ == old(running)@
            } else {
                &&& r == Ok::<usize, AppError>(i as usize)
                &&& final(running)@ == old(running)@.insert(name@)
            },
        },
{
    match find_topic(&config.topics, name) {
        None => {
            let mut m = String::from_str("Topic '");
            m.append(name);
            m.append("' not found");
            Err(AppError::Other(m))
        },
        Some(i) => {
            if running.insert(name) {
                Ok(i)
            } else {
                let mut m = String::from_str("Topic '");
                m.append(name);
                m.append("' is already running");
                Err(AppError::Other(m))
            }
        },
    }
}

/// Ends a run of topic `name`: the topic is no longer marked running, and
/// the run's result is handed on.
pub fn finish_run(running: &mut TopicSet, name: &str, result: AppResult<()>) -> (r: AppResult<()>)
    ensures
        final(running)@ == old(running)@.remove(name@),
        r == result,
{
    running.remove(name);
    result
}

/// A run that starts marks its topic running ([`begin_refresh`],
/// [`begin_scheduled_run`]), and while it is marked no other run of it
/// starts; ending it with [`finish_run`] leaves the running topics as they
/// were before it began.
pub proof fn run_mark_is_cleared(running: Set<Seq<char>>, name: Seq<char>)
    requires
        !running.contains(name),
    ensures
        running.insert(name).contains(name),
        running.insert(name).remove(name) == running,
{
    assert(running.insert(name).remove(name) =~= running);
}

/// What a scheduled tick of a topic does.
pub enum ScheduledRun {
    /// A run of the topic is under way: this tick is skipped.
    AlreadyRunning,
    /// The topic is no longer configured: nothing runs.
    TopicMissing,
    /// Run the topic configured at this index; it is marked running.
    Run(usize),
}

/// Decides a scheduled tick of topic `name`: skipped while the topic runs;
/// otherwise the topic is looked up in the current configuration and run
/// when it is there.
pub fn begin_scheduled_run(config: &AppConfig, running: &mut TopicSet, name: &str) -> (r: ScheduledRun)
    ensures
        old(running)@.contains(name@) ==> r is AlreadyRunning && final(running)@ == old(running)@,
        !old(running)@.contains(name@) ==> match topic_index(config.topics@, name@) {
            None => r is TopicMissing && final(running)@ == old(running)@,
            Some(i) => r == ScheduledRun::Run(i as usize) && final(running)@ == old(running)@.insert(name@),
        },
{
    if running.contains(name) {
        return ScheduledRun::AlreadyRunning;
    }
    match find_topic(&config.topics, name) {
        None => ScheduledRun::TopicMissing,
        Some(i) => {
            running.insert(name);
            ScheduledRun::Run(i)
        },
    }
}

/// The indices of the topics named `name`, in order.
pub open spec fn indices_named(topics: Seq<TopicConfig>, name: Seq<char>) -> Seq<int>
    decreases topics.len(),
{
    if topics.len() == 0 {
        Seq::empty()
    } else {
        let r = indices_named(topics.drop_last(), name);
        if topics.last().name@ == name {
            r.push(topics.len() - 1)
        } else {
            r
        }
    }
}

/// The topics a single run (`--run-once`) covers, by index: those named
/// by the filter, or all of them in order.
pub open spec fn run_once_selection(topics: Seq<TopicConfig>, filter: Option<Seq<char>>) -> Seq<int> {
    match filter {
        Some(n) => indices_named(topics, n),
        None => Seq::new(topics.len(), |i: int| i),
    }
}

/// The topics a single run covers (see [`run_once_selection`]).
pub fn run_once_topics(topics: &Vec<TopicConfig>, filter: Option<&str>) -> (r: Vec<usize>)
    ensures
        r@.map_values(|i: usize| i as int) == run_once_selection(
            topics@,
            match filter {
                Some(f) => Some(f@),
                None => None,
            },
        ),
{
    let ghost sel = run_once_selection(topics@, match filter { Some(f) => Some(f@), None => None });
    let mut r: Vec<usize> = Vec::new();
    let mut i: usize = 0;
    while i < topics.len()
        invariant
            i <= topics@.len(),
            sel == run_once_selection(topics@, match filter { Some(f) => Some(f@), None => None }),
            r@.map_values(|k: usize| k as int) == run_once_selection(
                topics@.take(i as int),
                match filter {
                    Some(f) => Some(f@),
                    None => None,
                },
            ),
        decreases topics@.len() - i,
    {
        proof {
            assert(topics@.take(i + 1).drop_last() =~= topics@.take(i as int));
        }
        let keep = match filter {
            Some(f) => str_eq(topics[i].name.as_str(), f),
            None => true,
        };
        let ghost before = r@;
        if keep {
            r.push(i);
            proof {
                assert(r@.map_values(|k: usize| k as int) =~= before.map_values(|k: usize| k as int).push(i as int));
            }
        }
        proof {
            match filter {
                Some(f) => {},
                None => {
                    assert(Seq::new((i + 1) as nat, |j: int| j) =~= Seq::new(i as nat, |j: int| j).push(i as int));
                },
            }
        }
        i += 1;
    }
    assert(topics@.take(topics@.len() as int) =~= topics@);
    r
}

} // verus!
