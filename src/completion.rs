use vstd::prelude::*;
use futures::channel::oneshot::Sender;

verus! {

/// futures' `oneshot::Sender`, carried through the slot as an opaque value.
#[verifier::external_type_specification]
#[verifier::external_body]
#[verifier::reject_recursive_types(T)]
pub struct ExSender<T>(Sender<T>);

/// The result of loading one resource.
#[derive(Debug)]
pub enum LoadOutcome<T, E> {
    /// The success hook fired; the resource is ready.
    Ready(T),
    /// The error hook fired with the host's error value.
    Failed(E),
}

/// Abstract state of a completion slot: whether the sender is still there,
/// and the outcomes released together with the sender so far.
pub struct SlotView<T, E> {
    pub pending: bool,
    pub handed: Seq<LoadOutcome<T, E>>,
}

/// A slot that has not fired.
pub open spec fn fresh_slot<T, E>() -> SlotView<T, E> {
    SlotView { pending: true, handed: Seq::empty() }
}

/// The slot after a callback fires with `o`: the first one to fire takes
/// the sender and releases it with `o`; later ones find the slot empty and
/// do nothing.
pub open spec fn fire<T, E>(s: SlotView<T, E>, o: LoadOutcome<T, E>) -> SlotView<T, E> {
    if s.pending {
        SlotView { pending: false, handed: s.handed.push(o) }
    } else {
        s
    }
}

/// The slot after the callbacks fire with `os`, in that order.
pub open spec fn fire_all<T, E>(s: SlotView<T, E>, os: Seq<LoadOutcome<T, E>>) -> SlotView<T, E>
    decreases os.len(),
{
    if os.len() == 0 {
        s
    } else {
        fire_all(fire(s, os[0]), os.drop_first())
    }
}

/// Take-once storage for the sender of a load's one-shot channel, shared by
/// the load's success and error callbacks.
#[verifier::reject_recursive_types(T)]
#[verifier::reject_recursive_types(E)]
pub struct PendingCompletion<T, E> {
    sender: Option<Sender<LoadOutcome<T, E>>>,
    handed: Ghost<Seq<LoadOutcome<T, E>>>,
}

impl<T, E> View for PendingCompletion<T, E> {
    type V = SlotView<T, E>;

    closed spec fn view(&self) -> SlotView<T, E> {
        SlotView { pending: self.sender is Some, handed: self.handed@ }
    }
}

impl<T, E> PendingCompletion<T, E> {
    /// A slot holding `sender`, not yet fired.
    pub fn new(sender: Sender<LoadOutcome<T, E>>) -> (r: PendingCompletion<T, E>)
        ensures
            r@ == fresh_slot::<T, E>(),
    {
        PendingCompletion { sender: Some(sender), handed: Ghost(Seq::empty()) }
    }

    /// Whether no callback has fired yet.
    pub fn is_pending(&self) -> (r: bool)
        ensures
            r == self@.pending,
    {
        self.sender.is_some()
    }

    /// Fires with `outcome`: the first call takes the sender out of the
    /// slot and returns it together with `outcome`, for the caller to send;
    /// every later call finds the slot empty and returns `None`.
    pub fn settle(&mut self, outcome: LoadOutcome<T, E>) -> (r: Option<(Sender<LoadOutcome<T, E>>, LoadOutcome<T, E>)>)
        ensures
            r is Some <==> old(self)@.pending,
            r matches Some((_, o)) ==> o == outcome,
            final(self)@ == fire(old(self)@, outcome),
    {
        match self.sender.take() {
            Some(tx) => {
                self.handed = Ghost(self.handed@.push(outcome));
                Some((tx, outcome))
            },
            None => None,
        }
    }

    /// The success hook: fires with `Ready(value)`.
    pub fn succeed(&mut self, value: T) -> (r: Option<(Sender<LoadOutcome<T, E>>, LoadOutcome<T, E>)>)
        ensures
            r is Some <==> old(self)@.pending,
            r matches Some((_, o)) ==> o == LoadOutcome::<T, E>::Ready(value),
            final(self)@ == fire(old(self)@, LoadOutcome::Ready(value)),
    {
        self.settle(LoadOutcome::Ready(value))
    }

    /// The error hook: fires with `Failed(error)`.
    pub fn fail(&mut self, error: E) -> (r: Option<(Sender<LoadOutcome<T, E>>, LoadOutcome<T, E>)>)
        ensures
            r is Some <==> old(self)@.pending,
            r matches Some((_, o)) ==> o == LoadOutcome::<T, E>::Failed(error),
            final(self)@ == fire(old(self)@, LoadOutcome::Failed(error)),
    {
        self.settle(LoadOutcome::Failed(error))
    }
}

/// Whichever callback fires first on a fresh slot decides the outcome: the
/// sender is released with exactly that outcome, once, and a second
/// callback (of either kind) is a no-op.
pub proof fn lemma_first_fire_wins<T, E>(first: LoadOutcome<T, E>, second: LoadOutcome<T, E>)
    ensures
        fire(fire(fresh_slot::<T, E>(), first), second).handed == seq![first],
        fire(fire(fresh_slot::<T, E>(), first), second) == fire(fresh_slot::<T, E>(), first),
        !fire(fresh_slot::<T, E>(), first).pending,
{
    assert(fire(fresh_slot::<T, E>(), first).handed =~= seq![first]);
}

/// However many callbacks fire, and in whatever order, a fresh slot releases
/// its sender exactly once, with the outcome of the first to fire.
pub proof fn lemma_exactly_once<T, E>(os: Seq<LoadOutcome<T, E>>)
    requires
        os.len() >= 1,
    ensures
        fire_all(fresh_slot::<T, E>(), os).handed == seq![os[0]],
        !fire_all(fresh_slot::<T, E>(), os).pending,
{
    let s1 = fire(fresh_slot::<T, E>(), os[0]);
    assert(s1.handed =~= seq![os[0]]);
    lemma_spent_slot_stays(s1, os.drop_first());
}

/// A slot that has fired ignores every later callback.
pub proof fn lemma_spent_slot_stays<T, E>(s: SlotView<T, E>, os: Seq<LoadOutcome<T, E>>)
    requires
        !s.pending,
    ensures
        fire_all(s, os) == s,
    decreases os.len(),
{
    if os.len() > 0 {
        lemma_spent_slot_stays(s, os.drop_first());
    }
}

/// When the error hook fires first with `err`, the sender is released with
/// `Failed(err)` and never with a `Ready` outcome.
pub proof fn lemma_error_first_fails<T, E>(err: E, later: Seq<LoadOutcome<T, E>>)
    ensures
        fire_all(fresh_slot::<T, E>(), seq![LoadOutcome::Failed(err)] + later).handed
            == seq![LoadOutcome::<T, E>::Failed(err)],
        forall|i: int|
            0 <= i < fire_all(fresh_slot::<T, E>(), seq![LoadOutcome::Failed(err)] + later).handed.len()
                ==> !(#[trigger] fire_all(fresh_slot::<T, E>(), seq![LoadOutcome::Failed(err)] + later).handed[i] is Ready),
{
    let os = seq![LoadOutcome::<T, E>::Failed(err)] + later;
    assert(os[0] == LoadOutcome::<T, E>::Failed(err));
    lemma_exactly_once(os);
}

} // verus!
