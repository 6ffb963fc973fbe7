use vstd::prelude::*;

verus! {

/// An update that has been accepted into the queue and not yet started.
#[derive(Debug, PartialEq, Eq)]
pub struct Enqueued<M> {
    pub update_id: u64,
    pub meta: M,
}

/// An update that the update actor has dequeued and is executing.
#[derive(Debug, PartialEq, Eq)]
pub struct Processing<M> {
    pub from: Enqueued<M>,
}

/// An update that ended in success.
#[derive(Debug, PartialEq, Eq)]
pub struct Processed<M, N> {
    pub success: N,
    pub from: Processing<M>,
}

/// An update that ended in failure.
#[derive(Debug, PartialEq, Eq)]
pub struct Failed<M, E> {
    pub error: E,
    pub from: Processing<M>,
}

/// Where an update stands: `Enqueued`, then `Processing`, then exactly one of
/// the terminal states `Processed` and `Failed`.
#[derive(Debug, PartialEq, Eq)]
pub enum UpdateStatus<M, N, E> {
    Enqueued(Enqueued<M>),
    Processing(Processing<M>),
    Processed(Processed<M, N>),
    Failed(Failed<M, E>),
}

impl<M: Clone> Clone for Enqueued<M> {
    fn clone(&self) -> (copy: Self)
        ensures
            copy.update_id == self.update_id,
            cloned::<M>(self.meta, copy.meta),
    {
        Enqueued { update_id: self.update_id, meta: self.meta.clone() }
    }
}

impl<M: Clone> Clone for Processing<M> {
    fn clone(&self) -> (copy: Self)
        ensures
            copy.from.update_id == self.from.update_id,
            cloned::<M>(self.from.meta, copy.from.meta),
    {
        Processing { from: self.from.clone() }
    }
}

impl<M: Clone, N: Clone> Clone for Processed<M, N> {
    fn clone(&self) -> (copy: Self)
        ensures
            cloned::<N>(self.success, copy.success),
            copy.from.from.update_id == self.from.from.update_id,
            cloned::<M>(self.from.from.meta, copy.from.from.meta),
    {
        Processed { success: self.success.clone(), from: self.from.clone() }
    }
}

impl<M: Clone, E: Clone> Clone for Failed<M, E> {
    fn clone(&self) -> (copy: Self)
        ensures
            cloned::<E>(self.error, copy.error),
            copy.from.from.update_id == self.from.from.update_id,
            cloned::<M>(self.from.from.meta, copy.from.from.meta),
    {
        Failed { error: self.error.clone(), from: self.from.clone() }
    }
}

impl<M: Clone, N: Clone, E: Clone> Clone for UpdateStatus<M, N, E> {
    fn clone(&self) -> (copy: Self)
        ensures
            copy.spec_id() == self.spec_id(),
            cloned::<M>(self.spec_meta(), copy.spec_meta()),
            match *self {
                UpdateStatus::Enqueued(_) => copy is Enqueued,
                UpdateStatus::Processing(_) => copy is Processing,
                UpdateStatus::Processed(p) => copy is Processed && cloned::<N>(
                    p.success,
                    copy->Processed_0.success,
                ),
                UpdateStatus::Failed(f) => copy is Failed && cloned::<E>(
                    f.error,
                    copy->Failed_0.error,
                ),
            },
    {
        match self {
            UpdateStatus::Enqueued(u) => UpdateStatus::Enqueued(u.clone()),
            UpdateStatus::Processing(u) => UpdateStatus::Processing(u.clone()),
            UpdateStatus::Processed(u) => UpdateStatus::Processed(u.clone()),
            UpdateStatus::Failed(u) => UpdateStatus::Failed(u.clone()),
        }
    }
}

impl<M> Enqueued<M> {
    /// A fresh update with the given metadata and id.
    pub fn new(meta: M, update_id: u64) -> (enqueued: Self)
        ensures
            enqueued == (Enqueued { update_id, meta }),
    {
        Enqueued { update_id, meta }
    }

    /// The update starts executing.
    pub fn processing(self) -> (processing: Processing<M>)
        ensures
            processing == (Processing { from: self }),
    {
        Processing { from: self }
    }

    pub fn id(&self) -> (id: u64)
        ensures
            id == self.update_id,
    {
        self.update_id
    }

    pub fn meta(&self) -> (meta: &M)
        ensures
            *meta == self.meta,
    {
        &self.meta
    }
}

impl<M> Processing<M> {
    /// The update ends in success with the given result.
    pub fn process<N>(self, success: N) -> (processed: Processed<M, N>)
        ensures
            processed == (Processed { success, from: self }),
    {
        Processed { success, from: self }
    }

    /// The update ends in failure with the given error.
    pub fn fail<E>(self, error: E) -> (failed: Failed<M, E>)
        ensures
            failed == (Failed { error, from: self }),
    {
        Failed { error, from: self }
    }

    pub fn id(&self) -> (id: u64)
        ensures
            id == self.from.update_id,
    {
        self.from.update_id
    }

    pub fn meta(&self) -> (meta: &M)
        ensures
            *meta == self.from.meta,
    {
        &self.from.meta
    }
}

impl<M, N> Processed<M, N> {
    pub fn id(&self) -> (id: u64)
        ensures
            id == self.from.from.update_id,
    {
        self.from.from.update_id
    }

    pub fn meta(&self) -> (meta: &M)
        ensures
            *meta == self.from.from.meta,
    {
        &self.from.from.meta
    }
}

impl<M, E> Failed<M, E> {
    pub fn id(&self) -> (id: u64)
        ensures
            id == self.from.from.update_id,
    {
        self.from.from.update_id
    }

    pub fn meta(&self) -> (meta: &M)
        ensures
            *meta == self.from.from.meta,
    {
        &self.from.from.meta
    }
}

impl<M, N, E> UpdateStatus<M, N, E> {
    /// The id that the update was given when it was accepted.
    pub open spec fn spec_id(&self) -> u64 {
        match self {
            UpdateStatus::Enqueued(u) => u.update_id,
            UpdateStatus::Processing(u) => u.from.update_id,
            UpdateStatus::Processed(u) => u.from.from.update_id,
            UpdateStatus::Failed(u) => u.from.from.update_id,
        }
    }

    /// The metadata that the update was submitted with.
    pub open spec fn spec_meta(&self) -> M {
        match self {
            UpdateStatus::Enqueued(u) => u.meta,
            UpdateStatus::Processing(u) => u.from.meta,
            UpdateStatus::Processed(u) => u.from.from.meta,
            UpdateStatus::Failed(u) => u.from.from.meta,
        }
    }

    /// A terminal status is `Processed` or `Failed`.
    pub open spec fn spec_is_terminal(&self) -> bool {
        self is Processed || self is Failed
    }

    /// The statuses that `self` may change into: `Enqueued` into
    /// `Processing`, `Processing` into `Processed` or `Failed`, each for the
    /// same update. A terminal status changes into nothing.
    pub open spec fn steps_to(&self, next: Self) -> bool {
        &&& next.spec_id() == self.spec_id()
        &&& next.spec_meta() == self.spec_meta()
        &&& match self {
            UpdateStatus::Enqueued(_) => next is Processing,
            UpdateStatus::Processing(_) => next is Processed || next is Failed,
            UpdateStatus::Processed(_) => false,
            UpdateStatus::Failed(_) => false,
        }
    }

    #[verifier::when_used_as_spec(spec_id)]
    pub fn id(&self) -> (id: u64)
        ensures
            id == self.spec_id(),
    {
        match self {
            UpdateStatus::Enqueued(u) => u.update_id,
            UpdateStatus::Processing(u) => u.from.update_id,
            UpdateStatus::Processed(u) => u.from.from.update_id,
            UpdateStatus::Failed(u) => u.from.from.update_id,
        }
    }

    pub fn meta(&self) -> (meta: &M)
        ensures
            *meta == self.spec_meta(),
    {
        match self {
            UpdateStatus::Enqueued(u) => &u.meta,
            UpdateStatus::Processing(u) => &u.from.meta,
            UpdateStatus::Processed(u) => &u.from.from.meta,
            UpdateStatus::Failed(u) => &u.from.from.meta,
        }
    }

    #[verifier::when_used_as_spec(spec_is_terminal)]
    pub fn is_terminal(&self) -> (terminal: bool)
        ensures
            terminal == self.spec_is_terminal(),
    {
        match self {
            UpdateStatus::Enqueued(_) => false,
            UpdateStatus::Processing(_) => false,
            UpdateStatus::Processed(_) => true,
            UpdateStatus::Failed(_) => true,
        }
    }

    /// The success record, if the update was processed.
    pub fn processed(&self) -> (processed: Option<&Processed<M, N>>)
        ensures
            match processed {
                Some(p) => *self == UpdateStatus::<M, N, E>::Processed(*p),
                None => !(self is Processed),
            },
    {
        match self {
            UpdateStatus::Processed(p) => Some(p),
            _ => None,
        }
    }

    /// The failure record, if the update failed.
    pub fn failed(&self) -> (failed: Option<&Failed<M, E>>)
        ensures
            match failed {
                Some(f) => *self == UpdateStatus::<M, N, E>::Failed(*f),
                None => !(self is Failed),
            },
    {
        match self {
            UpdateStatus::Failed(f) => Some(f),
            _ => None,
        }
    }
}

} // verus!
