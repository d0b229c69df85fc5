//! Why a certbot operation could not even be started. Kept as a typed value
//! so that callers map it to the right HTTP status (404 / 400 / 500) instead
//! of matching on prose.
use vstd::prelude::*;

use crate::text::copy_str;

verus! {

/// A failure while validating or preparing a certbot operation.
#[derive(Debug, Clone)]
pub enum CertbotPrepareError {
    /// The lineage or renewal config the request refers to does not exist.
    NotFound(String),
    /// The request itself is malformed (empty or wildcard domain, wrong
    /// authenticator for this flow, ...).
    Invalid(String),
    /// A server-side failure while preparing (reading a renewal config, a
    /// malformed config, ...).
    Io(String),
}

/// The model of a [`CertbotPrepareError`].
pub enum PrepareErrorView {
    NotFound(Seq<char>),
    Invalid(Seq<char>),
    Io(Seq<char>),
}

impl PrepareErrorView {
    /// The message the error carries, whatever its kind.
    pub open spec fn message(self) -> Seq<char> {
        match self {
            PrepareErrorView::NotFound(m) => m,
            PrepareErrorView::Invalid(m) => m,
            PrepareErrorView::Io(m) => m,
        }
    }

    /// The HTTP status the error is answered with.
    pub open spec fn status(self) -> u16 {
        match self {
            PrepareErrorView::NotFound(_) => 404,
            PrepareErrorView::Invalid(_) => 400,
            PrepareErrorView::Io(_) => 500,
        }
    }
}

impl View for CertbotPrepareError {
    type V = PrepareErrorView;

    open spec fn view(&self) -> PrepareErrorView {
        match self {
            CertbotPrepareError::NotFound(m) => PrepareErrorView::NotFound(m@),
            CertbotPrepareError::Invalid(m) => PrepareErrorView::Invalid(m@),
            CertbotPrepareError::Io(m) => PrepareErrorView::Io(m@),
        }
    }
}

impl CertbotPrepareError {
    /// The message, whatever the kind.
    pub fn message(&self) -> (r: &str)
        ensures
            r@ == self@.message(),
    {
        match self {
            CertbotPrepareError::NotFound(m) => m.as_str(),
            CertbotPrepareError::Invalid(m) => m.as_str(),
            CertbotPrepareError::Io(m) => m.as_str(),
        }
    }

    /// The text the error displays as: its message.
    pub fn to_string(&self) -> (r: String)
        ensures
            r@ == self@.message(),
    {
        copy_str(self.message())
    }

    /// The HTTP status the error maps to: a missing lineage is 404, a bad
    /// request 400 and a server-side failure 500.
    pub fn http_status(&self) -> (r: u16)
        ensures
            r == self@.status(),
    {
        match self {
            CertbotPrepareError::NotFound(_) => 404,
            CertbotPrepareError::Invalid(_) => 400,
            CertbotPrepareError::Io(_) => 500,
        }
    }

    /// A copy of the error.
    pub fn duplicate(&self) -> (r: CertbotPrepareError)
        ensures
            r@ == self@,
    {
        match self {
            CertbotPrepareError::NotFound(m) => CertbotPrepareError::NotFound(m.clone()),
            CertbotPrepareError::Invalid(m) => CertbotPrepareError::Invalid(m.clone()),
            CertbotPrepareError::Io(m) => CertbotPrepareError::Io(m.clone()),
        }
    }
}

} // verus!
