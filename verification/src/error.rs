//! The ways in which a fetch fails.

use vstd::prelude::*;

verus! {

/// Why a body could not be interpreted.
#[derive(Clone, Copy, Debug, PartialEq, Eq)]
pub enum DecodeFault {
    /// The body is not valid JSON.
    Syntax,
    /// A required field is absent.
    Missing,
    /// A value is not of the kind that the schema asks for, or a number does
    /// not fit the field.
    Mismatch,
    /// A text is not an absolute URL.
    BadUrl,
    /// A text is not a semantic version.
    BadVersion,
    /// A text names no release stream.
    UnknownStream,
}

/// One step on the way from the root of a document to a value in it.
#[derive(Clone, Debug, PartialEq, Eq)]
pub enum Step {
    /// Into the member of an object with this key.
    Key(String),
    /// Into the item of an array at this index.
    Index(usize),
}

/// The mathematical value of a [`Step`].
pub enum StepModel {
    Key(Seq<char>),
    Index(nat),
}

impl View for Step {
    type V = StepModel;

    open spec fn view(&self) -> StepModel {
        match self {
            Step::Key(k) => StepModel::Key(k@),
            Step::Index(i) => StepModel::Index(*i as nat),
        }
    }
}

/// A body that could not be interpreted: what is wrong, and where in the
/// document, as the steps that lead from the root to the offending value.
#[derive(Clone, Debug, PartialEq, Eq)]
pub struct DecodeError {
    pub fault: DecodeFault,
    pub path: Vec<Step>,
}

/// The mathematical value of a [`DecodeError`].
pub struct DecodeErrorModel {
    pub fault: DecodeFault,
    pub path: Seq<StepModel>,
}

impl View for DecodeError {
    type V = DecodeErrorModel;

    open spec fn view(&self) -> DecodeErrorModel {
        DecodeErrorModel {
            fault: self.fault,
            path: Seq::new(self.path@.len(), |i: int| self.path@[i]@),
        }
    }
}

/// The error for a fault at the root.
pub open spec fn fault_here(fault: DecodeFault) -> DecodeErrorModel {
    DecodeErrorModel { fault, path: Seq::empty() }
}

/// The error `e`, seen from one step further out.
pub open spec fn error_under(step: StepModel, e: DecodeErrorModel) -> DecodeErrorModel {
    DecodeErrorModel { fault: e.fault, path: seq![step] + e.path }
}

/// The result `r`, with its error, if it is one, seen from one step further
/// out.
pub open spec fn under<T>(step: StepModel, r: Result<T, DecodeErrorModel>) -> Result<
    T,
    DecodeErrorModel,
> {
    match r {
        Ok(v) => Ok(v),
        Err(e) => Err(error_under(step, e)),
    }
}

impl DecodeError {
    /// The error for a fault at the root.
    pub fn here(fault: DecodeFault) -> (r: DecodeError)
        ensures
            r@ == fault_here(fault),
    {
        let r = DecodeError { fault, path: Vec::new() };
        assert(r@.path =~= Seq::<StepModel>::empty());
        r
    }

    /// The same error, seen from one step further out.
    pub fn under(self, step: Step) -> (r: DecodeError)
        ensures
            r@ == error_under(step@, self@),
    {
        let ghost before = self@;
        let mut path = self.path;
        path.insert(0, step);
        let r = DecodeError { fault: self.fault, path };
        assert(r@.path =~= seq![step@] + before.path);
        r
    }
}

/// A request that got no answer to interpret.
#[derive(Clone, Debug, PartialEq, Eq)]
pub enum TransportError {
    /// The transport could not complete the request. The text is what the
    /// transport said of it.
    Unreachable(String),
    /// The server answered with a status outside of 200 to 299.
    Status(u16),
}

/// The mathematical value of a [`TransportError`].
pub enum TransportErrorModel {
    Unreachable(Seq<char>),
    Status(u16),
}

impl View for TransportError {
    type V = TransportErrorModel;

    open spec fn view(&self) -> TransportErrorModel {
        match self {
            TransportError::Unreachable(t) => TransportErrorModel::Unreachable(t@),
            TransportError::Status(s) => TransportErrorModel::Status(*s),
        }
    }
}

/// A fetch that failed: either no answer could be had, or the answer could not
/// be interpreted.
#[derive(Clone, Debug, PartialEq, Eq)]
pub enum FetchError {
    Transport(TransportError),
    Decode(DecodeError),
}

/// The mathematical value of a [`FetchError`].
pub enum FetchErrorModel {
    Transport(TransportErrorModel),
    Decode(DecodeErrorModel),
}

impl View for FetchError {
    type V = FetchErrorModel;

    open spec fn view(&self) -> FetchErrorModel {
        match self {
            FetchError::Transport(e) => FetchErrorModel::Transport(e@),
            FetchError::Decode(e) => FetchErrorModel::Decode(e@),
        }
    }
}

} // verus!
