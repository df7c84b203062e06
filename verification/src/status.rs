//! What can be said of a model.

use vstd::prelude::*;

verus! {

/// Whether a model is there and what is being done with it.
#[derive(Debug, Clone)]
pub enum ModelStatus {
    NotDownloaded,
    Downloading { current_file: String, current_bytes: u64, total_bytes: u64 },
    Initializing,
    Ready,
    Error(String),
}

/// What a [`ModelStatus`] holds.
pub enum StatusModel {
    NotDownloaded,
    Downloading { current_file: Seq<char>, current_bytes: u64, total_bytes: u64 },
    Initializing,
    Ready,
    Error(Seq<char>),
}

impl View for ModelStatus {
    type V = StatusModel;

    open spec fn view(&self) -> StatusModel {
        match *self {
            ModelStatus::NotDownloaded => StatusModel::NotDownloaded,
            ModelStatus::Downloading { current_file, current_bytes, total_bytes } => {
                StatusModel::Downloading {
                    current_file: current_file@,
                    current_bytes,
                    total_bytes,
                }
            },
            ModelStatus::Initializing => StatusModel::Initializing,
            ModelStatus::Ready => StatusModel::Ready,
            ModelStatus::Error(text) => StatusModel::Error(text@),
        }
    }
}

impl ModelStatus {
    /// Both are the same kind of status, whatever they say in detail.
    pub open spec fn same_kind(&self, other: &ModelStatus) -> bool {
        match *self {
            ModelStatus::NotDownloaded => *other is NotDownloaded,
            ModelStatus::Downloading { .. } => *other is Downloading,
            ModelStatus::Initializing => *other is Initializing,
            ModelStatus::Ready => *other is Ready,
            ModelStatus::Error(_) => *other is Error,
        }
    }

    /// Whether something is going on that will change the status.
    pub fn is_busy(&self) -> (busy: bool)
        ensures
            busy == (*self is Downloading || *self is Initializing),
    {
        match self {
            ModelStatus::Downloading { .. } | ModelStatus::Initializing => true,
            _ => false,
        }
    }
}

impl PartialEq for ModelStatus {
    fn eq(&self, other: &Self) -> (equal: bool) {
        match (self, other) {
            (ModelStatus::NotDownloaded, ModelStatus::NotDownloaded) => true,
            (ModelStatus::Downloading { .. }, ModelStatus::Downloading { .. }) => true,
            (ModelStatus::Initializing, ModelStatus::Initializing) => true,
            (ModelStatus::Ready, ModelStatus::Ready) => true,
            (ModelStatus::Error(_), ModelStatus::Error(_)) => true,
            _ => false,
        }
    }
}

impl vstd::std_specs::cmp::PartialEqSpecImpl for ModelStatus {
    open spec fn obeys_eq_spec() -> bool {
        true
    }

    open spec fn eq_spec(&self, other: &Self) -> bool {
        self.same_kind(other)
    }
}

impl Eq for ModelStatus {

}

/// Comparing statuses is an equivalence: what they say in detail never matters.
pub proof fn status_kinds_partition(a: ModelStatus, b: ModelStatus, c: ModelStatus)
    ensures
        a.same_kind(&a),
        a.same_kind(&b) ==> b.same_kind(&a),
        a.same_kind(&b) && b.same_kind(&c) ==> a.same_kind(&c),
{
}

/// Two statuses are of one kind exactly if they say the same of the model but
/// for the details.
pub proof fn kinds_are_told_apart(a: ModelStatus, b: ModelStatus)
    ensures
        a.same_kind(&b) <==> {
            &&& a@ is NotDownloaded <==> b@ is NotDownloaded
            &&& a@ is Downloading <==> b@ is Downloading
            &&& a@ is Initializing <==> b@ is Initializing
            &&& a@ is Ready <==> b@ is Ready
            &&& a@ is Error <==> b@ is Error
        },
{
}

}
