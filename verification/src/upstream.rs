//! What came of one call to an upstream service, and which failure it is.
//!
//! A call succeeds when the service answers with a status from 200 to 299
//! and a body that can be read. Everything else is a failure, and which one
//! depends on the path alone: a login that fails is `Auth`, a plant-details
//! call `Upstream`; on the weather path a UV document that cannot be read is
//! `Xml` and every other failure `Http`. No failure is retried here: the next
//! cycle is the retry.

use crate::goodwe::GoodWeSemsAPIError;
use crate::weather::WeatherAPIError;
use vstd::prelude::*;

verus! {

/// The outcome of one HTTP exchange, before its body is looked into.
#[derive(Clone, Copy, PartialEq, Eq, Structural, Debug)]
pub enum Exchange {
    /// No answer came: the service was not reached, or the answer broke off.
    Unreachable,
    /// An answer came, with this status; `readable` says whether its body
    /// is a well-formed document of the kind that was asked for.
    Answered { status: u16, readable: bool },
}

impl Exchange {
    /// An answer came and its status is one of success.
    pub open spec fn accepted(self) -> bool {
        self matches Exchange::Answered { status, .. } && 200 <= status <= 299
    }

    /// The call succeeded: it was accepted and its body can be read.
    pub open spec fn succeeded(self) -> bool {
        self matches Exchange::Answered { status, readable } && 200 <= status <= 299 && readable
    }

    /// Whether the service accepted the call, whatever its body.
    pub fn is_accepted(&self) -> (r: bool)
        ensures
            r == self.accepted(),
    {
        match self {
            Exchange::Answered { status, .. } => 200 <= *status && *status <= 299,
            Exchange::Unreachable => false,
        }
    }

    /// Whether the call succeeded.
    pub fn is_success(&self) -> (r: bool)
        ensures
            r == self.succeeded(),
    {
        match self {
            Exchange::Answered { status, readable } => 200 <= *status && *status <= 299 && *readable,
            Exchange::Unreachable => false,
        }
    }

    /// A login exchange: any failure is `Auth`.
    pub fn login_result(&self) -> (r: Result<(), GoodWeSemsAPIError>)
        ensures
            r == (if self.succeeded() {
                Ok::<(), GoodWeSemsAPIError>(())
            } else {
                Err::<(), GoodWeSemsAPIError>(GoodWeSemsAPIError::Auth)
            }),
    {
        if self.is_success() {
            Ok(())
        } else {
            Err(GoodWeSemsAPIError::Auth)
        }
    }

    /// A plant-details exchange: any failure is `Upstream`.
    pub fn plant_details_result(&self) -> (r: Result<(), GoodWeSemsAPIError>)
        ensures
            r == (if self.succeeded() {
                Ok::<(), GoodWeSemsAPIError>(())
            } else {
                Err::<(), GoodWeSemsAPIError>(GoodWeSemsAPIError::Upstream)
            }),
    {
        if self.is_success() {
            Ok(())
        } else {
            Err(GoodWeSemsAPIError::Upstream)
        }
    }

    /// The exchange that fetches the UV document: an accepted answer that
    /// cannot be read is `Xml`, every other failure `Http`.
    pub fn uv_document_result(&self) -> (r: Result<(), WeatherAPIError>)
        ensures
            r == (if self.succeeded() {
                Ok::<(), WeatherAPIError>(())
            } else if self.accepted() {
                Err::<(), WeatherAPIError>(WeatherAPIError::Xml)
            } else {
                Err::<(), WeatherAPIError>(WeatherAPIError::Http)
            }),
    {
        if self.is_success() {
            Ok(())
        } else if self.is_accepted() {
            Err(WeatherAPIError::Xml)
        } else {
            Err(WeatherAPIError::Http)
        }
    }

    /// The exchange that fetches an observation: any failure is `Http`.
    pub fn observation_result(&self) -> (r: Result<(), WeatherAPIError>)
        ensures
            r == (if self.succeeded() {
                Ok::<(), WeatherAPIError>(())
            } else {
                Err::<(), WeatherAPIError>(WeatherAPIError::Http)
            }),
    {
        if self.is_success() {
            Ok(())
        } else {
            Err(WeatherAPIError::Http)
        }
    }
}

} // verus!
