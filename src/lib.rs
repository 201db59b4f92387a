//! A client library for a grocery-delivery service: tolerant decoders for the loosely
//! typed fields of its answers (amounts, booleans, dates and date-times, collections),
//! and the session state machine that follows a login.

pub mod boolean;
pub mod collection;
pub mod error;
pub mod language;
pub mod models;
pub mod money;
pub mod number;
pub mod session;
pub mod text;
pub mod timestamp;

pub use boolean::{bool_from_folded, deserialize_bool, BoolWire, FloatReading};
pub use collection::{array_or_object, ArrayOrObject};
pub use error::{DecodeError, Error, LufaError};
pub use language::{build_url, Language};
pub use models::{ApiResponse, LoginReqForm, PerOrderForm, PerUserForm};
pub use money::{deserialize_money, deserialize_money_optional, parse_str, MonetaryAmount, MoneyWire};
pub use number::{deserialize_percentage, deserialize_usize};
pub use session::{
    cookies_from_header, login_payload, session_payload, Cookie, LufaState, LufaStateInfo, Session, State};
pub use timestamp::{
    anchor, date, date_optional, deserialize_timestamp, naive_date_from_str, timestamp,
    timestamp_optional, CivilDate, CivilInstant, LocalDateTime, TimestampVisitor,
};
