//! One condition to wait for, and the rule by which one look at the world
//! decides whether it is met.
//!
//! A condition never looks for itself. It says what it needs to see
//! ([`Wait::probe`]), and is told what was seen ([`Wait::condition_met`]).

use crate::time::Moment;
use crate::time::Span;
use crate::time::Stamp;
use std::ops::Not;
use vstd::prelude::*;

verus! {

/// A condition on one thing that is watched.
///
/// Each variant carries the flag `not`. It turns the condition round; for
/// the variants that remember what they saw last, `Update` and `FileSize`,
/// that is a change from "met once it changes" to "met once it stays the
/// same", not the opposite answer to the same look.
///
/// `F` is whatever the caller uses to name a check of its own; the engine
/// only carries it.
#[derive(Clone, Debug, PartialEq, Eq)]
pub enum Wait<F> {
    /// Met once the clock is past `end_instant`.
    Elapsed { end_instant: Moment, not: bool },
    /// Met while `path` exists.
    Exists { not: bool, path: String },
    /// Met once the modification time of `path` differs from the one seen
    /// before.
    Update { not: bool, path: String, last_update: Option<Stamp> },
    /// Met while `path` was modified less than `trigger_duration` ago.
    UpdateSince { not: bool, path: String, trigger_duration: Span },
    /// Met while a connection to `host` can be made.
    TcpHost { not: bool, host: String },
    /// Met while a GET of `url` answers with `status`.
    HttpGet { not: bool, url: String, status: u16 },
    /// Met once the length of `path` differs from the one seen before.
    FileSize { not: bool, path: String, size_bytes: Option<u64> },
    /// Met while the caller's own check `f` says so.
    Custom { f: F, not: bool },
}

/// What a [`Wait`] is, with its texts as sequences of characters.
pub enum WaitView<F> {
    Elapsed { end_instant: Moment, not: bool },
    Exists { not: bool, path: Seq<char> },
    Update { not: bool, path: Seq<char>, last_update: Option<Stamp> },
    UpdateSince { not: bool, path: Seq<char>, trigger_duration: Span },
    TcpHost { not: bool, host: Seq<char> },
    HttpGet { not: bool, url: Seq<char>, status: u16 },
    FileSize { not: bool, path: Seq<char>, size_bytes: Option<u64> },
    Custom { f: F, not: bool },
}

impl<F> View for Wait<F> {
    type V = WaitView<F>;

    open spec fn view(&self) -> WaitView<F> {
        match *self {
            Wait::Elapsed { end_instant, not } => WaitView::Elapsed { end_instant, not },
            Wait::Exists { not, path } => WaitView::Exists { not, path: path@ },
            Wait::Update { not, path, last_update } => WaitView::Update {
                not,
                path: path@,
                last_update,
            },
            Wait::UpdateSince { not, path, trigger_duration } => WaitView::UpdateSince {
                not,
                path: path@,
                trigger_duration,
            },
            Wait::TcpHost { not, host } => WaitView::TcpHost { not, host: host@ },
            Wait::HttpGet { not, url, status } => WaitView::HttpGet { not, url: url@, status },
            Wait::FileSize { not, path, size_bytes } => WaitView::FileSize {
                not,
                path: path@,
                size_bytes,
            },
            Wait::Custom { f, not } => WaitView::Custom { f, not },
        }
    }
}

/// What has to be looked at to decide a condition.
#[derive(Clone, Debug, PartialEq, Eq)]
pub enum Probe<F> {
    /// Read the clock that never runs backwards.
    Clock,
    /// See whether the path exists.
    Exists(String),
    /// Read the path's modification time.
    Modified(String),
    /// Read the path's modification time, then the wall clock.
    ModifiedAndNow(String),
    /// Try to connect to the host, once.
    Connect(String),
    /// Send a GET to the URL.
    HttpGet(String),
    /// Read the length of the file at the path.
    Length(String),
    /// Run the caller's own check.
    Call(F),
}

/// What a [`Probe`] is, with its texts as sequences of characters.
pub enum ProbeView<F> {
    Clock,
    Exists(Seq<char>),
    Modified(Seq<char>),
    ModifiedAndNow(Seq<char>),
    Connect(Seq<char>),
    HttpGet(Seq<char>),
    Length(Seq<char>),
    Call(F),
}

impl<F> View for Probe<F> {
    type V = ProbeView<F>;

    open spec fn view(&self) -> ProbeView<F> {
        match *self {
            Probe::Clock => ProbeView::Clock,
            Probe::Exists(path) => ProbeView::Exists(path@),
            Probe::Modified(path) => ProbeView::Modified(path@),
            Probe::ModifiedAndNow(path) => ProbeView::ModifiedAndNow(path@),
            Probe::Connect(host) => ProbeView::Connect(host@),
            Probe::HttpGet(url) => ProbeView::HttpGet(url@),
            Probe::Length(path) => ProbeView::Length(path@),
            Probe::Call(f) => ProbeView::Call(f),
        }
    }
}

/// What one look showed. Each variant answers the [`Probe`] of the same
/// name.
#[derive(Clone, Copy, Debug, PartialEq, Eq)]
pub enum Observation {
    /// The reading of the clock that never runs backwards.
    Clock(Moment),
    /// Whether the path exists.
    Exists(bool),
    /// The modification time, or `None` where it cannot be read.
    Modified(Option<Stamp>),
    /// The modification time, or `None` where it cannot be read, and the
    /// reading of the wall clock.
    ModifiedAndNow { modified: Option<Stamp>, now: Stamp },
    /// Whether the connection was made.
    Connect(bool),
    /// The status that the GET was answered with. Where no answer came, it
    /// is whatever status the HTTP client reports for that.
    HttpGet(u16),
    /// The length in bytes, or `None` where it cannot be read.
    Length(Option<u64>),
    /// What the caller's own check returned.
    Call(bool),
}

impl<F> ProbeView<F> {
    /// Whether `seen` is an answer to this probe.
    pub open spec fn answered_by(self, seen: Observation) -> bool {
        match self {
            ProbeView::Clock => seen is Clock,
            ProbeView::Exists(_) => seen is Exists,
            ProbeView::Modified(_) => seen is Modified,
            ProbeView::ModifiedAndNow(_) => seen is ModifiedAndNow,
            ProbeView::Connect(_) => seen is Connect,
            ProbeView::HttpGet(_) => seen is HttpGet,
            ProbeView::Length(_) => seen is Length,
            ProbeView::Call(_) => seen is Call,
        }
    }
}

impl<F> WaitView<F> {
    /// The same condition turned round: its flag `not` flipped, all else as
    /// it was.
    pub open spec fn negated(self) -> WaitView<F> {
        match self {
            WaitView::Elapsed { end_instant, not } => WaitView::Elapsed { end_instant, not: !not },
            WaitView::Exists { not, path } => WaitView::Exists { not: !not, path },
            WaitView::Update { not, path, last_update } => WaitView::Update {
                not: !not,
                path,
                last_update,
            },
            WaitView::UpdateSince { not, path, trigger_duration } => WaitView::UpdateSince {
                not: !not,
                path,
                trigger_duration,
            },
            WaitView::TcpHost { not, host } => WaitView::TcpHost { not: !not, host },
            WaitView::HttpGet { not, url, status } => WaitView::HttpGet { not: !not, url, status },
            WaitView::FileSize { not, path, size_bytes } => WaitView::FileSize {
                not: !not,
                path,
                size_bytes,
            },
            WaitView::Custom { f, not } => WaitView::Custom { f, not: !not },
        }
    }

    /// What has to be looked at to decide this condition.
    pub open spec fn probe(self) -> ProbeView<F> {
        match self {
            WaitView::Elapsed { .. } => ProbeView::Clock,
            WaitView::Exists { path, .. } => ProbeView::Exists(path),
            WaitView::Update { path, .. } => ProbeView::Modified(path),
            WaitView::UpdateSince { path, .. } => ProbeView::ModifiedAndNow(path),
            WaitView::TcpHost { host, .. } => ProbeView::Connect(host),
            WaitView::HttpGet { url, .. } => ProbeView::HttpGet(url),
            WaitView::FileSize { path, .. } => ProbeView::Length(path),
            WaitView::Custom { f, .. } => ProbeView::Call(f),
        }
    }

    /// Whether `seen` is an answer to this condition's probe.
    pub open spec fn answered_by(self, seen: Observation) -> bool {
        self.probe().answered_by(seen)
    }

    /// The condition as it was made, with nothing remembered.
    pub open spec fn forgetting(self) -> WaitView<F> {
        match self {
            WaitView::Update { not, path, .. } => WaitView::Update { not, path, last_update: None },
            WaitView::FileSize { not, path, .. } => WaitView::FileSize {
                not,
                path,
                size_bytes: None,
            },
            _ => self,
        }
    }

    /// Whether the condition is met by what `seen` shows. It means something
    /// only where `seen` answers the condition's probe.
    pub open spec fn verdict(self, seen: Observation) -> bool
        recommends
            self.answered_by(seen),
    {
        match self {
            WaitView::Elapsed { end_instant, not } => {
                let now = seen->Clock_0;
                if not {
                    end_instant.nanos >= now.nanos
                } else {
                    end_instant.nanos < now.nanos
                }
            },
            WaitView::Exists { not, .. } => seen->Exists_0 != not,
            WaitView::Update { not, last_update, .. } => match (seen->Modified_0, last_update) {
                // What cannot be read cannot be waited for.
                (None, _) => true,
                // The first look only takes note.
                (Some(_), None) => false,
                (Some(current), Some(last)) => if not {
                    current == last
                } else {
                    current != last
                },
            },
            WaitView::UpdateSince { not, trigger_duration, .. } => match seen->modified {
                None => true,
                Some(modified) => match seen->now.spec_since(modified) {
                    // Modified after now: the clocks disagree, so do not wait.
                    None => true,
                    Some(quiet) => (quiet.nanos < trigger_duration.nanos) != not,
                },
            },
            WaitView::TcpHost { not, .. } => seen->Connect_0 != not,
            WaitView::HttpGet { not, status, .. } => (seen->HttpGet_0 == status) != not,
            WaitView::FileSize { not, size_bytes, .. } => match (seen->Length_0, size_bytes) {
                (None, _) => true,
                (Some(_), None) => false,
                (Some(current), Some(last)) => if not {
                    current == last
                } else {
                    current != last
                },
            },
            WaitView::Custom { not, .. } => seen->Call_0 != not,
        }
    }

    /// The condition after the look that showed `seen`: the same, but for
    /// what it remembers.
    ///
    /// `Update` takes note of the time it read at its first look; turned
    /// round, also whenever that time has changed. Looking for a change, it
    /// keeps the time it first saw. `FileSize` takes note of the length it
    /// read whenever the look did not meet it.
    pub open spec fn after(self, seen: Observation) -> WaitView<F>
        recommends
            self.answered_by(seen),
    {
        match self {
            WaitView::Update { not, path, last_update } => match seen->Modified_0 {
                Some(current) if last_update is None || (not && last_update != Some(current)) => {
                    WaitView::Update { not, path, last_update: Some(current) }
                },
                _ => self,
            },
            WaitView::FileSize { not, path, size_bytes } => match seen->Length_0 {
                Some(current) if !self.verdict(seen) => WaitView::FileSize {
                    not,
                    path,
                    size_bytes: Some(current),
                },
                _ => self,
            },
            _ => self,
        }
    }
}

impl<F> Wait<F> {
    /// The condition that is met once the clock is past `end_instant`.
    /// Turned round, it is met until then.
    pub fn new_elapsed(end_instant: Moment) -> (wait: Wait<F>)
        ensures
            wait@ == (WaitView::<F>::Elapsed { end_instant, not: false }),
    {
        Wait::Elapsed { end_instant, not: false }
    }

    /// The condition that is met once `duration` has passed, counted from
    /// `now`, the reading of the clock at this moment.
    pub fn new_elapsed_from_duration(duration: Span, now: Moment) -> (wait: Wait<F>)
        requires
            now.nanos + duration.nanos <= u128::MAX,
        ensures
            wait@ == (WaitView::<F>::Elapsed {
                end_instant: Moment { nanos: (now.nanos + duration.nanos) as u128 },
                not: false,
            }),
    {
        Wait::Elapsed { end_instant: Moment { nanos: now.nanos + duration.nanos }, not: false }
    }

    /// The condition that is met while a GET of `url` is answered with
    /// `status`. Turned round, it is met while the answer is any other
    /// status.
    pub fn new_http_get(url: &str, status: u16) -> (wait: Wait<F>)
        ensures
            wait@ == (WaitView::<F>::HttpGet { not: false, url: url@, status }),
    {
        Wait::HttpGet { not: false, url: url.to_owned(), status }
    }

    /// The condition that is met while a TCP connection to `host` can be
    /// made. Turned round, it is met while none can.
    pub fn new_tcp_connect(host: &str) -> (wait: Wait<F>)
        ensures
            wait@ == (WaitView::<F>::TcpHost { not: false, host: host@ }),
    {
        Wait::TcpHost { not: false, host: host.to_owned() }
    }

    /// The condition that is met while `path` exists. Turned round, it is
    /// met while `path` does not exist.
    pub fn new_file_exists(path: &str) -> (wait: Wait<F>)
        ensures
            wait@ == (WaitView::<F>::Exists { not: false, path: path@ }),
    {
        Wait::Exists { not: false, path: path.to_owned() }
    }

    /// The condition that is met once the file at `path` has been modified
    /// since it was first looked at. Turned round, it is met once two looks
    /// in a row find the same modification time.
    ///
    /// [`Wait::new_file_update_since`] is met by the time that has passed
    /// since the file was modified instead.
    pub fn new_file_update(path: &str) -> (wait: Wait<F>)
        ensures
            wait@ == (WaitView::<F>::Update { not: false, path: path@, last_update: None }),
    {
        Wait::Update { not: false, path: path.to_owned(), last_update: None }
    }

    /// The condition that is met while the file at `path` was modified less
    /// than `trigger_duration` ago. Turned round, it is met once the file
    /// has been left alone for `trigger_duration`.
    pub fn new_file_update_since(path: &str, trigger_duration: Span) -> (wait: Wait<F>)
        ensures
            wait@ == (WaitView::<F>::UpdateSince { not: false, path: path@, trigger_duration }),
    {
        Wait::UpdateSince { not: false, path: path.to_owned(), trigger_duration }
    }

    /// The condition that is met once the length of the file at `path`
    /// differs from the length seen at the look before. Turned round, it is
    /// met once two looks in a row find the same length. Whether the file
    /// grew or shrank plays no part.
    pub fn new_file_size(path: &str) -> (wait: Wait<F>)
        ensures
            wait@ == (WaitView::<F>::FileSize { not: false, path: path@, size_bytes: None }),
    {
        Wait::FileSize { not: false, path: path.to_owned(), size_bytes: None }
    }

    /// The condition that is met while the caller's own check `f` says so.
    pub fn new_custom(f: F) -> (wait: Wait<F>)
        ensures
            wait@ == (WaitView::Custom { f, not: false }),
    {
        Wait::Custom { f, not: false }
    }

    /// Whether this condition is met by what `seen` shows, leaving the
    /// condition as it is. `None` where `seen` answers another probe than
    /// this condition's.
    pub fn verdict(&self, seen: &Observation) -> (met: Option<bool>)
        ensures
            met == if self@.answered_by(*seen) {
                Some(self@.verdict(*seen))
            } else {
                None
            },
    {
        match (self, seen) {
            (Wait::Elapsed { end_instant, not }, Observation::Clock(now)) => {
                if *not {
                    Some(end_instant.nanos >= now.nanos)
                } else {
                    Some(end_instant.nanos < now.nanos)
                }
            },
            (Wait::Exists { not, .. }, Observation::Exists(present)) => Some(*present != *not),
            (Wait::Update { not, last_update, .. }, Observation::Modified(modified)) => {
                match (modified, last_update) {
                    (None, _) => Some(true),
                    (Some(_), None) => Some(false),
                    (Some(current), Some(last)) => {
                        let is_updated = last.nanos != current.nanos;
                        Some(is_updated != *not)
                    },
                }
            },
            (
                Wait::UpdateSince { not, trigger_duration, .. },
                Observation::ModifiedAndNow { modified, now },
            ) => {
                match modified {
                    None => Some(true),
                    Some(last_updated) => match now.since(*last_updated) {
                        None => Some(true),
                        Some(since_last_update) => {
                            let is_recently_updated = since_last_update.nanos
                                < trigger_duration.nanos;
                            Some(is_recently_updated != *not)
                        },
                    },
                }
            },
            (Wait::TcpHost { not, .. }, Observation::Connect(connected)) => Some(
                *connected != *not,
            ),
            (Wait::HttpGet { not, status, .. }, Observation::HttpGet(answer)) => Some(
                (*answer == *status) != *not,
            ),
            (Wait::FileSize { not, size_bytes, .. }, Observation::Length(length)) => {
                match (length, size_bytes) {
                    (None, _) => Some(true),
                    (Some(_), None) => Some(false),
                    (Some(current), Some(last)) => Some((*last != *current) != *not),
                }
            },
            (Wait::Custom { not, .. }, Observation::Call(returned)) => Some(*returned != *not),
            _ => None,
        }
    }

    /// Decides whether this condition is met by what `seen` shows, and takes
    /// note of what it has to remember for the next look.
    ///
    /// Returns `None`, and changes nothing, where `seen` answers another
    /// probe than this condition's.
    pub fn condition_met(&mut self, seen: &Observation) -> (met: Option<bool>)
        ensures
            met == if old(self)@.answered_by(*seen) {
                Some(old(self)@.verdict(*seen))
            } else {
                None
            },
            final(self)@ == if old(self)@.answered_by(*seen) {
                old(self)@.after(*seen)
            } else {
                old(self)@
            },
    {
        let met = self.verdict(seen);
        match self {
            Wait::Update { not, last_update, .. } => {
                if let Observation::Modified(Some(current)) = seen {
                    let take_note = match last_update {
                        None => true,
                        Some(last) => *not && last.nanos != current.nanos,
                    };
                    if take_note {
                        *last_update = Some(*current);
                    }
                }
            },
            Wait::FileSize { size_bytes, .. } => {
                if let Observation::Length(Some(current)) = seen {
                    if let Some(false) = met {
                        *size_bytes = Some(*current);
                    }
                }
            },
            _ => {},
        }
        met
    }
}

impl<F: Copy> Wait<F> {
    /// What has to be looked at to decide this condition.
    pub fn probe(&self) -> (probe: Probe<F>)
        ensures
            probe@ == self@.probe(),
    {
        match self {
            Wait::Elapsed { .. } => Probe::Clock,
            Wait::Exists { path, .. } => Probe::Exists(path.clone()),
            Wait::Update { path, .. } => Probe::Modified(path.clone()),
            Wait::UpdateSince { path, .. } => Probe::ModifiedAndNow(path.clone()),
            Wait::TcpHost { host, .. } => Probe::Connect(host.clone()),
            Wait::HttpGet { url, .. } => Probe::HttpGet(url.clone()),
            Wait::FileSize { path, .. } => Probe::Length(path.clone()),
            Wait::Custom { f, .. } => Probe::Call(*f),
        }
    }
}

impl<F> Not for Wait<F> {
    type Output = Wait<F>;

    /// Turns the condition round: flips its flag `not` and hands the same
    /// condition back. What it remembers stays.
    fn not(self) -> (turned: Wait<F>)
        ensures
            turned@ == self@.negated(),
    {
        let mut turned = self;
        match &mut turned {
            Wait::Elapsed { not, .. } => {
                *not = !*not;
            },
            Wait::Exists { not, .. } => {
                *not = !*not;
            },
            Wait::HttpGet { not, .. } => {
                *not = !*not;
            },
            Wait::TcpHost { not, .. } => {
                *not = !*not;
            },
            Wait::Update { not, .. } => {
                *not = !*not;
            },
            Wait::UpdateSince { not, .. } => {
                *not = !*not;
            },
            Wait::FileSize { not, .. } => {
                *not = !*not;
            },
            Wait::Custom { not, .. } => {
                *not = !*not;
            },
        }
        turned
    }
}

impl<F> vstd::std_specs::ops::NotSpecImpl for Wait<F> {
    open spec fn obeys_not_spec() -> bool {
        true
    }

    open spec fn not_req(self) -> bool {
        true
    }

    open spec fn not_spec(self) -> Wait<F> {
        match self {
            Wait::Elapsed { end_instant, not } => Wait::Elapsed { end_instant, not: !not },
            Wait::Exists { not, path } => Wait::Exists { not: !not, path },
            Wait::Update { not, path, last_update } => Wait::Update { not: !not, path, last_update },
            Wait::UpdateSince { not, path, trigger_duration } => Wait::UpdateSince {
                not: !not,
                path,
                trigger_duration,
            },
            Wait::TcpHost { not, host } => Wait::TcpHost { not: !not, host },
            Wait::HttpGet { not, url, status } => Wait::HttpGet { not: !not, url, status },
            Wait::FileSize { not, path, size_bytes } => Wait::FileSize { not: !not, path, size_bytes },
            Wait::Custom { f, not } => Wait::Custom { f, not: !not },
        }
    }
}

/// Turning a condition round twice gives back the condition itself, with
/// what it remembers: every later look is then judged as it would have been
/// had the condition never been touched.
pub proof fn lemma_double_negation<F>(wait: WaitView<F>)
    ensures
        wait.negated().negated() == wait,
        forall|seen: Observation| #[trigger]
            wait.negated().negated().verdict(seen) == wait.verdict(seen),
        forall|seen: Observation| #[trigger]
            wait.negated().negated().after(seen) == wait.after(seen),
{
}

/// Turning a condition round changes its flag and nothing else: it looks
/// at the same as before, and remembers the same.
pub proof fn lemma_negation_keeps_the_rest<F>(wait: WaitView<F>)
    ensures
        wait.negated().probe() == wait.probe(),
        wait.negated().forgetting() == wait.forgetting().negated(),
        wait is Update ==> wait.negated()->last_update == wait->last_update,
        wait is FileSize ==> wait.negated()->size_bytes == wait->size_bytes,
{
}

/// A look changes nothing of a condition but what it remembers: not what
/// it watches, not its flag, not what it looks at.
pub proof fn lemma_look_changes_memory_only<F>(wait: WaitView<F>, seen: Observation)
    requires
        wait.answered_by(seen),
    ensures
        wait.after(seen).forgetting() == wait.forgetting(),
        wait.after(seen).probe() == wait.probe(),
{
}

/// For the conditions that remember nothing and can always be seen, the
/// condition turned round is met by a look exactly where the condition is
/// not; and no look changes either of them. The same holds of `UpdateSince`
/// wherever the modification time can be read and does not lie after the
/// reading of the wall clock.
pub proof fn lemma_negation_complements<F>(wait: WaitView<F>, seen: Observation)
    requires
        wait.answered_by(seen),
        wait is Elapsed || wait is Exists || wait is TcpHost || wait is HttpGet || wait is Custom
            || (wait is UpdateSince && seen->modified is Some && seen->now.spec_since(
            seen->modified->0,
        ) is Some),
    ensures
        wait.negated().verdict(seen) == !wait.verdict(seen),
        wait.after(seen) == wait,
        wait.negated().after(seen) == wait.negated(),
{
}

/// `Update` at its first look, whether turned round or not: where the
/// modification time can be read, the look does not meet the condition, and
/// the time is what the condition remembers. A second look that finds the
/// same time does not meet the condition as it was made, and meets it
/// turned round.
pub proof fn lemma_update_first_looks<F>(not: bool, path: Seq<char>, modified: Stamp)
    ensures
        ({
            let fresh = WaitView::<F>::Update { not, path, last_update: None };
            let seen = Observation::Modified(Some(modified));
            &&& !fresh.verdict(seen)
            &&& fresh.after(seen) == (WaitView::<F>::Update { not, path, last_update: Some(modified) })
            &&& fresh.after(seen).verdict(seen) == not
            &&& fresh.after(seen).after(seen) == fresh.after(seen)
        }),
{
}

/// `Update` once it remembers a time: looking for a change, it is met by
/// every look that finds another time, and keeps the time it remembers;
/// turned round, a look that finds another time does not meet it and
/// replaces the time it remembers.
pub proof fn lemma_update_on_change<F>(not: bool, path: Seq<char>, last: Stamp, current: Stamp)
    requires
        last != current,
    ensures
        ({
            let wait = WaitView::<F>::Update { not, path, last_update: Some(last) };
            let seen = Observation::Modified(Some(current));
            &&& wait.verdict(seen) == !not
            &&& wait.after(seen) == (WaitView::<F>::Update {
                not,
                path,
                last_update: Some(if not {
                    current
                } else {
                    last
                }),
            })
        }),
{
}

/// `FileSize` over two looks, starting with nothing remembered: the first
/// look never meets it. As it was made, the second look meets it exactly
/// where the length has changed in between; turned round, exactly where the
/// length is the same.
pub proof fn lemma_file_size_two_looks<F>(not: bool, path: Seq<char>, first: u64, second: u64)
    ensures
        ({
            let fresh = WaitView::<F>::FileSize { not, path, size_bytes: None };
            let once = fresh.after(Observation::Length(Some(first)));
            &&& !fresh.verdict(Observation::Length(Some(first)))
            &&& once == (WaitView::<F>::FileSize { not, path, size_bytes: Some(first) })
            &&& once.verdict(Observation::Length(Some(second))) == ((first != second) != not)
        }),
{
}

/// What cannot be read is not waited for: `Update`, `UpdateSince` and
/// `FileSize` are met, turned round or not, by a look that could not read
/// the file, and remember what they did before.
pub proof fn lemma_unreadable_is_met<F>(wait: WaitView<F>, seen: Observation)
    requires
        wait.answered_by(seen),
        (wait is Update && seen->Modified_0 is None) || (wait is UpdateSince && (seen->modified is None
            || seen->now.spec_since(seen->modified->0) is None)) || (wait is FileSize
            && seen->Length_0 is None),
    ensures
        wait.verdict(seen),
        wait.after(seen) == wait,
{
}

} // verus!
