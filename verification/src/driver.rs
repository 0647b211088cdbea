//! The decisions of the driver that runs the lookups of a batch: it keeps at
//! most ten lookups running, gathers what they select in the order in which
//! they complete, and fails the batch at the first lookup that fails or finds
//! nothing. The caller starts the lookups and hands their results back.

use crate::entries::{SelectedPackage, SelectedPackageView};
use crate::resolve::{PackageAndVersion, PackageAndVersionView};
use vstd::prelude::*;

verus! {

/// The number of lookups that may run at once.
pub const MAX_CONCURRENT_LOOKUPS: usize = 10;

/// What one lookup reported.
#[derive(Debug, Clone)]
pub enum LookupEvent {
    /// The lookup itself failed, with the registry client's message.
    Failed(String),
    /// The lookup went through.
    Completed(PackageAndVersion),
}

pub enum LookupEventView {
    Failed(Seq<char>),
    Completed(PackageAndVersionView),
}

impl View for LookupEvent {
    type V = LookupEventView;

    open spec fn view(&self) -> LookupEventView {
        match self {
            LookupEvent::Failed(message) => LookupEventView::Failed(message@),
            LookupEvent::Completed(found) => LookupEventView::Completed(found@),
        }
    }
}

impl DeepView for LookupEvent {
    type V = LookupEventView;

    open spec fn deep_view(&self) -> LookupEventView {
        self@
    }
}

/// Why a batch of lookups failed.
#[derive(Debug, Clone)]
pub enum ResolveError {
    /// A lookup failed, with the registry client's message.
    LookupFailed(String),
    /// The registry holds no matching version of the named package.
    NotFound(String),
}

pub enum ResolveErrorView {
    LookupFailed(Seq<char>),
    NotFound(Seq<char>),
}

impl View for ResolveError {
    type V = ResolveErrorView;

    open spec fn view(&self) -> ResolveErrorView {
        match self {
            ResolveError::LookupFailed(message) => ResolveErrorView::LookupFailed(message@),
            ResolveError::NotFound(name) => ResolveErrorView::NotFound(name@),
        }
    }
}

impl DeepView for ResolveError {
    type V = ResolveErrorView;

    open spec fn deep_view(&self) -> ResolveErrorView {
        self@
    }
}

/// What a batch has come to: the packages selected so far, or its failure.
pub type Outcome = Result<Seq<SelectedPackageView>, ResolveErrorView>;

/// An outcome as it is handed out, as character sequences.
pub open spec fn outcome_view(r: Result<Vec<SelectedPackage>, ResolveError>) -> Outcome {
    match r {
        Ok(selected) => Ok(selected.deep_view()),
        Err(e) => Err(e@),
    }
}

/// The failure that an event is, if it is one.
pub open spec fn failure_of(event: LookupEventView) -> Option<ResolveErrorView> {
    match event {
        LookupEventView::Failed(message) => Some(ResolveErrorView::LookupFailed(message)),
        LookupEventView::Completed(PackageAndVersionView::NotFound(name)) => Some(
            ResolveErrorView::NotFound(name),
        ),
        LookupEventView::Completed(PackageAndVersionView::Selected(_)) => None,
    }
}

/// The outcome after one more event. A failed batch stays as it is; a failure
/// fails the batch; a selected package joins those selected before.
pub open spec fn absorb(outcome: Outcome, event: LookupEventView) -> Outcome {
    match outcome {
        Err(e) => Err(e),
        Ok(selected) => match event {
            LookupEventView::Completed(PackageAndVersionView::Selected(package)) => Ok(
                selected.push(package),
            ),
            _ => Err(failure_of(event)->Some_0),
        },
    }
}

/// The outcome of a batch whose lookups reported `events`, in that order.
pub open spec fn collected(events: Seq<LookupEventView>) -> Outcome
    decreases events.len(),
{
    if events.len() == 0 {
        Ok(Seq::empty())
    } else {
        absorb(collected(events.drop_last()), events.last())
    }
}

/// The next thing for the caller to do.
#[derive(Debug, Clone, Copy, PartialEq, Eq)]
pub enum DriverStep {
    /// Start the lookup of the requirement at this index.
    Start(usize),
    /// Wait for a running lookup and hand its event in.
    Wait,
    /// Nothing is left to do: take the outcome.
    Finished,
}

/// The state of a batch of lookups.
pub struct ResolutionDriver {
    total: usize,
    started: usize,
    in_flight: usize,
    selected: Vec<SelectedPackage>,
    failure: Option<ResolveError>,
}

impl ResolutionDriver {
    #[verifier::type_invariant]
    spec fn well_formed(self) -> bool {
        &&& self.started <= self.total
        &&& self.in_flight <= MAX_CONCURRENT_LOOKUPS
        &&& self.in_flight <= self.started
        &&& self.failure is None ==> self.selected.len() + self.in_flight == self.started
    }

    /// The number of requirements in the batch.
    pub closed spec fn total(self) -> nat {
        self.total as nat
    }

    /// The number of lookups started so far.
    pub closed spec fn started(self) -> nat {
        self.started as nat
    }

    /// The number of lookups started whose event has not come in.
    pub closed spec fn in_flight(self) -> nat {
        self.in_flight as nat
    }

    /// What the batch has come to so far.
    pub closed spec fn outcome(self) -> Outcome {
        match self.failure {
            Some(e) => Err(e@),
            None => Ok(self.selected.deep_view()),
        }
    }

    /// The number of lookups that are running. It never exceeds the limit,
    /// and while the batch has not failed every started lookup is running or
    /// has selected its package.
    pub fn running(&self) -> (n: usize)
        ensures
            n == self.in_flight(),
            n <= MAX_CONCURRENT_LOOKUPS,
            n <= self.started() <= self.total(),
            self.outcome() matches Ok(selected) ==> selected.len() + n == self.started(),
    {
        proof {
            use_type_invariant(self);
        }
        self.in_flight
    }

    /// A driver for a batch of `total` requirements, none started.
    pub fn new(total: usize) -> (r: Self)
        ensures
            r.total() == total,
            r.started() == 0,
            r.in_flight() == 0,
            r.outcome() == Ok::<Seq<SelectedPackageView>, ResolveErrorView>(Seq::empty()),
    {
        let r = ResolutionDriver {
            total,
            started: 0,
            in_flight: 0,
            selected: Vec::new(),
            failure: None,
        };
        proof {
            assert(r.selected.deep_view() =~= Seq::<SelectedPackageView>::empty());
        }
        r
    }

    /// Says what to do next, and gives the driver that has counted a lookup
    /// that it tells to start.
    ///
    /// A failed batch is finished. Otherwise the next requirement is started
    /// while fewer than the limit are running; with none left to start the
    /// caller waits for those running, and is finished when none runs.
    pub fn next_step(self) -> (r: (Self, DriverStep))
        ensures
            r.0.total() == self.total(),
            r.0.outcome() == self.outcome(),
            r.1 == (if self.outcome() is Err {
                DriverStep::Finished
            } else if self.started() < self.total() && self.in_flight() < MAX_CONCURRENT_LOOKUPS {
                DriverStep::Start(self.started() as usize)
            } else if self.in_flight() > 0 {
                DriverStep::Wait
            } else {
                DriverStep::Finished
            }),
            r.1 is Start ==> r.0.started() == self.started() + 1 && r.0.in_flight()
                == self.in_flight() + 1,
            !(r.1 is Start) ==> r.0.started() == self.started() && r.0.in_flight()
                == self.in_flight(),
            r.1 is Finished && self.outcome() is Ok ==> self.outcome()->Ok_0.len() == self.total(),
    {
        proof {
            use_type_invariant(&self);
        }
        if self.failure.is_some() {
            (self, DriverStep::Finished)
        } else if self.started < self.total && self.in_flight < MAX_CONCURRENT_LOOKUPS {
            let index = self.started;
            (
                ResolutionDriver {
                    total: self.total,
                    started: self.started + 1,
                    in_flight: self.in_flight + 1,
                    selected: self.selected,
                    failure: self.failure,
                },
                DriverStep::Start(index),
            )
        } else if self.in_flight > 0 {
            (self, DriverStep::Wait)
        } else {
            (self, DriverStep::Finished)
        }
    }

    /// The driver after the event of a running lookup has come in.
    ///
    /// An event that comes after the batch failed, or with no lookup running,
    /// changes nothing.
    pub fn on_event(self, event: LookupEvent) -> (next: Self)
        ensures
            next.total() == self.total(),
            next.started() == self.started(),
            self.outcome() is Err || self.in_flight() == 0 ==> next.outcome() == self.outcome()
                && next.in_flight() == self.in_flight(),
            self.outcome() is Ok && self.in_flight() > 0 ==> next.outcome() == absorb(
                self.outcome(),
                event@,
            ) && next.in_flight() == self.in_flight() - 1,
    {
        proof {
            use_type_invariant(&self);
        }
        if self.failure.is_some() || self.in_flight == 0 {
            return self;
        }
        let ghost before = self.selected.deep_view();
        let mut selected = self.selected;
        let failure = match event {
            LookupEvent::Failed(message) => Some(ResolveError::LookupFailed(message)),
            LookupEvent::Completed(PackageAndVersion::NotFound(name)) => Some(
                ResolveError::NotFound(name),
            ),
            LookupEvent::Completed(PackageAndVersion::Selected(package)) => {
                selected.push(package);
                proof {
                    assert(selected.deep_view() =~= before.push(package@));
                }
                None
            },
        };
        ResolutionDriver {
            total: self.total,
            started: self.started,
            in_flight: self.in_flight - 1,
            selected,
            failure,
        }
    }

    /// The outcome of the batch: the selected packages in the order in which
    /// their lookups completed, or the failure.
    pub fn finish(self) -> (r: Result<Vec<SelectedPackage>, ResolveError>)
        ensures
            outcome_view(r) == self.outcome(),
    {
        match self.failure {
            Some(e) => Err(e),
            None => Ok(self.selected),
        }
    }
}

/// The outcome of a batch whose lookups reported `events`, in that order: the
/// packages that they selected, or the first failure among them.
pub fn collect_selected(events: &Vec<LookupEvent>) -> (r: Result<Vec<SelectedPackage>, ResolveError>)
    ensures
        outcome_view(r) == collected(events.deep_view()),
{
    let ghost all = events.deep_view();
    let mut selected: Vec<SelectedPackage> = Vec::new();
    let mut done: usize = 0;
    proof {
        assert(all.take(0) =~= Seq::<LookupEventView>::empty());
        assert(selected.deep_view() =~= Seq::<SelectedPackageView>::empty());
    }
    while done < events.len()
        invariant
            all == events.deep_view(),
            0 <= done <= events.len(),
            all.len() == events.len(),
            collected(all.take(done as int)) == Ok::<Seq<SelectedPackageView>, ResolveErrorView>(
                selected.deep_view(),
            ),
        decreases events.len() - done,
    {
        let ghost before = selected.deep_view();
        proof {
            assert(events[done as int]@ == all[done as int]);
            assert(all.take(done + 1).drop_last() =~= all.take(done as int));
            assert(all.take(done + 1).last() == all[done as int]);
        }
        match &events[done] {
            LookupEvent::Failed(message) => {
                proof {
                    lemma_failure_is_final(all, done + 1);
                }
                return Err(ResolveError::LookupFailed(message.clone()));
            },
            LookupEvent::Completed(PackageAndVersion::NotFound(name)) => {
                proof {
                    lemma_failure_is_final(all, done + 1);
                }
                return Err(ResolveError::NotFound(name.clone()));
            },
            LookupEvent::Completed(PackageAndVersion::Selected(package)) => {
                selected.push(
                    SelectedPackage {
                        import_name: package.import_name.clone(),
                        package_name: package.package_name.clone(),
                        version_req: package.version_req.clone(),
                    },
                );
                proof {
                    assert(selected.deep_view() =~= before.push(package@));
                }
            },
        }
        done = done + 1;
    }
    proof {
        assert(all.take(done as int) =~= all);
    }
    Ok(selected)
}

/// A batch that has failed after its first `n` events keeps that failure
/// whatever follows.
pub proof fn lemma_failure_is_final(events: Seq<LookupEventView>, n: int)
    requires
        0 <= n <= events.len(),
        collected(events.take(n)) is Err,
    ensures
        collected(events) == collected(events.take(n)),
    decreases events.len() - n,
{
    if n == events.len() {
        assert(events.take(n) =~= events);
    } else {
        assert(events.take(n + 1).drop_last() =~= events.take(n));
        lemma_failure_is_final(events, n + 1);
    }
}

/// A batch fails exactly when one of its lookups fails or finds nothing, and
/// then with the first such failure; nothing of what the others selected is
/// in the outcome. A batch without a failure selects every package, in order.
pub proof fn lemma_first_failure_fails_the_batch(events: Seq<LookupEventView>)
    ensures
        collected(events) is Err <==> exists|i: int|
            0 <= i < events.len() && failure_of(#[trigger] events[i]) is Some,
        forall|i: int|
            0 <= i < events.len() && failure_of(#[trigger] events[i]) is Some && (forall|j: int|
                0 <= j < i ==> failure_of(#[trigger] events[j]) is None) ==> collected(events)
                == Err::<Seq<SelectedPackageView>, ResolveErrorView>(failure_of(events[i])->Some_0),
        collected(events) matches Ok(selected) ==> selected.len() == events.len() && forall|i: int|
            0 <= i < events.len() ==> #[trigger] events[i] == LookupEventView::Completed(
                PackageAndVersionView::Selected(selected[i]),
            ),
    decreases events.len(),
{
    if events.len() > 0 {
        let front = events.drop_last();
        let last = events.len() - 1;
        lemma_first_failure_fails_the_batch(front);
        assert forall|i: int| 0 <= i < front.len() implies #[trigger] front[i] == events[i] by {}
        assert(events.last() == events[last]);
        match collected(front) {
            Err(e) => {
                let i = choose|i: int|
                    0 <= i < front.len() && failure_of(#[trigger] front[i]) is Some;
                assert(failure_of(events[i]) is Some);
            },
            Ok(selected) => {
                assert forall|j: int| 0 <= j < front.len() implies failure_of(
                    #[trigger] events[j],
                ) is None by {
                    assert(front[j] == events[j]);
                }
                if failure_of(events[last]) is Some {
                    assert(collected(events) is Err);
                } else {
                    let after = collected(events)->Ok_0;
                    assert forall|i: int| 0 <= i < events.len() implies #[trigger] events[i]
                        == LookupEventView::Completed(
                        PackageAndVersionView::Selected(after[i]),
                    ) by {
                        if i < last {
                            assert(front[i] == events[i]);
                            assert(after[i] == selected[i]);
                        }
                    }
                }
            },
        }
        assert forall|i: int|
            0 <= i < events.len() && failure_of(#[trigger] events[i]) is Some && (forall|j: int|
                0 <= j < i ==> failure_of(#[trigger] events[j]) is None) implies collected(events)
            == Err::<Seq<SelectedPackageView>, ResolveErrorView>(failure_of(events[i])->Some_0) by {
            if i < front.len() {
                assert(front[i] == events[i]);
                assert forall|j: int| 0 <= j < i implies failure_of(#[trigger] front[j]) is None by {
                    assert(front[j] == events[j]);
                }
            } else {
                assert forall|j: int| 0 <= j < front.len() implies failure_of(
                    #[trigger] front[j],
                ) is None by {
                    assert(front[j] == events[j]);
                }
            }
        }
    }
}

} // verus!
