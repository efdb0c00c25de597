//! Typed request building for the DocuSign Connect-configuration and
//! billing-payments endpoints.
//!
//! Each operation builds a URL path from percent-encoded caller identifiers,
//! optionally a query string or a JSON body, and describes the single HTTP
//! exchange to perform; the surrounding application owns the transport.

use vstd::prelude::*;

mod connect_configurations;
mod json;
mod payments;
mod percent;
mod request;
mod types;
mod urls;

pub use connect_configurations::ConnectConfigurations;
pub use payments::Payments;
pub use percent::encode_path;
pub use request::{ClientError, HttpRequest, Method, interpret_status};
pub use types::{
    BillingPaymentItem, BillingPaymentRequest, BillingPaymentResponse, BillingPaymentsResponse,
    ConnectConfigResults, ConnectCustomConfiguration, IntegratedUserInfo, IntegratedUserInfoList,
};

verus! {

} // verus!
