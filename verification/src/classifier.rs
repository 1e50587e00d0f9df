//! Classifiers: they tell which errors of the wrapped service count as
//! failures of that service.
use std::marker::PhantomData;
use vstd::prelude::*;

verus! {

/// Decides whether an error of the wrapped service is a failure.
pub trait Classifier<E> {
    /// `failure` is a possible answer of `is_failure` for `error`.
    spec fn classifies(&self, error: &E, failure: bool) -> bool;

    /// Whether `error` counts as a failure.
    fn is_failure(&self, error: &E) -> (r: bool)
        ensures
            self.classifies(error, r),
    ;
}

/// Counts every error as a failure.
pub struct AlwaysFailure;

/// Counts no error as a failure.
pub struct NeverFailure;

/// Counts an error as a failure when a function of the caller says so.
pub struct MatchClassifier<E, F: Fn(&E) -> bool> {
    matcher: F,
    _phantom: PhantomData<E>,
}

impl<E, F: Fn(&E) -> bool> MatchClassifier<E, F> {
    #[verifier::type_invariant]
    spec fn matcher_total(self) -> bool {
        forall|e: &E| #[trigger] self.matcher.requires((e,))
    }

    /// The function that decides.
    pub closed spec fn matcher(&self) -> F {
        self.matcher
    }

    /// A classifier that asks `matcher`, which must accept every error.
    pub fn new(matcher: F) -> (c: Self)
        requires
            forall|e: &E| #[trigger] matcher.requires((e,)),
        ensures
            c.matcher() == matcher,
    {
        MatchClassifier { matcher, _phantom: PhantomData }
    }
}

impl<E> Classifier<E> for AlwaysFailure {
    open spec fn classifies(&self, error: &E, failure: bool) -> bool {
        failure
    }

    fn is_failure(&self, _error: &E) -> (r: bool) {
        true
    }
}

impl<E> Classifier<E> for NeverFailure {
    open spec fn classifies(&self, error: &E, failure: bool) -> bool {
        !failure
    }

    fn is_failure(&self, _error: &E) -> (r: bool) {
        false
    }
}

impl<E, F: Fn(&E) -> bool> Classifier<E> for MatchClassifier<E, F> {
    open spec fn classifies(&self, error: &E, failure: bool) -> bool {
        self.matcher().ensures((error,), failure)
    }

    fn is_failure(&self, error: &E) -> (r: bool) {
        proof {
            use_type_invariant(self);
        }
        (self.matcher)(error)
    }
}

/// A `MatchClassifier` answers what its function answers: `failure` is a
/// possible answer of `is_failure` for `error` exactly when it is a
/// possible result of the function on `error`.
pub proof fn match_classifier_answers<E, F: Fn(&E) -> bool>(
    c: &MatchClassifier<E, F>,
    error: &E,
    failure: bool,
)
    ensures
        c.classifies(error, failure) == c.matcher().ensures((error,), failure),
{
}

} // verus!
