//! The stored record of a link, in the fields of the storage schema.
use vstd::prelude::*;

use crate::discord::{DiscordUrl, ExpiryParameters, UrlView, WindowView};
use crate::instant::{instant_representable, valid_instant};

verus! {

/// The stored window: instants as Unix seconds and the signature bytes.
#[derive(Debug, Clone)]
pub struct Expiry {
    pub expiry_time_seconds: i64,
    pub is_seconds: i64,
    pub hm: Vec<u8>,
}

/// The stored form of a link.
#[derive(Debug, Clone)]
pub struct Stored {
    pub file_name: String,
    pub channel_id: u64,
    pub attachment_id: u64,
    pub expiry_info: Option<Expiry>,
}

/// Why a stored record does not stand for a link.
#[derive(Debug, Clone, Copy, PartialEq, Eq, Structural)]
pub enum ConversionError {
    ExpiryOutOfRange,
    IssuedOutOfRange,
}

impl View for Expiry {
    type V = WindowView;

    open spec fn view(&self) -> WindowView {
        WindowView { expiry: self.expiry_time_seconds, is: self.is_seconds, hm: self.hm@ }
    }
}

impl View for Stored {
    type V = UrlView;

    open spec fn view(&self) -> UrlView {
        UrlView {
            channel_id: self.channel_id,
            attachment_id: self.attachment_id,
            filename: self.file_name@,
            window: match self.expiry_info {
                Some(e) => Some(e@),
                None => None,
            },
        }
    }
}

/// The error that reading a stored window gives, if any.
pub open spec fn window_error(w: WindowView) -> Option<ConversionError> {
    if !valid_instant(w.expiry as int) {
        Some(ConversionError::ExpiryOutOfRange)
    } else if !valid_instant(w.is as int) {
        Some(ConversionError::IssuedOutOfRange)
    } else {
        None
    }
}

/// The error that reading a stored record gives, if any.
pub open spec fn record_error(v: UrlView) -> Option<ConversionError> {
    match v.window {
        Some(w) => window_error(w),
        None => None,
    }
}

impl From<ExpiryParameters> for Expiry {
    fn from(value: ExpiryParameters) -> (r: Self)
        ensures
            r@ == value@,
    {
        Expiry { expiry_time_seconds: value.expiry, is_seconds: value.is, hm: value.hm }
    }
}

impl vstd::std_specs::convert::FromSpecImpl<ExpiryParameters> for Expiry {
    open spec fn obeys_from_spec() -> bool {
        true
    }

    open spec fn from_spec(v: ExpiryParameters) -> Self {
        Expiry { expiry_time_seconds: v.expiry, is_seconds: v.is, hm: v.hm }
    }
}

impl From<DiscordUrl> for Stored {
    fn from(value: DiscordUrl) -> (r: Self)
        ensures
            r@ == value@,
    {
        let expiry_info = match value.expiry_params {
            Some(p) => Some(Expiry::from(p)),
            None => None,
        };
        Stored {
            file_name: value.filename,
            channel_id: value.channel_id,
            attachment_id: value.attachment_id,
            expiry_info,
        }
    }
}

impl vstd::std_specs::convert::FromSpecImpl<DiscordUrl> for Stored {
    open spec fn obeys_from_spec() -> bool {
        true
    }

    open spec fn from_spec(v: DiscordUrl) -> Self {
        Stored {
            file_name: v.filename,
            channel_id: v.channel_id,
            attachment_id: v.attachment_id,
            expiry_info: match v.expiry_params {
                Some(p) => Some(
                    Expiry { expiry_time_seconds: p.expiry, is_seconds: p.is, hm: p.hm },
                ),
                None => None,
            },
        }
    }
}

impl ExpiryParameters {
    /// The window of a stored record; an error where an instant lies outside
    /// the range of representable times.
    pub fn try_from(value: Expiry) -> (r: Result<ExpiryParameters, ConversionError>)
        ensures
            match r {
                Ok(p) => window_error(value@) is None && p@ == value@ && p@.wf(),
                Err(e) => window_error(value@) == Some(e),
            },
    {
        if !instant_representable(value.expiry_time_seconds) {
            return Err(ConversionError::ExpiryOutOfRange);
        }
        if !instant_representable(value.is_seconds) {
            return Err(ConversionError::IssuedOutOfRange);
        }
        Ok(ExpiryParameters { expiry: value.expiry_time_seconds, is: value.is_seconds, hm: value.hm })
    }
}

impl DiscordUrl {
    /// The link of a stored record; an error where a window instant lies
    /// outside the range of representable times.
    pub fn try_from(value: Stored) -> (r: Result<DiscordUrl, ConversionError>)
        ensures
            match r {
                Ok(u) => record_error(value@) is None && u@ == value@ && u@.wf(),
                Err(e) => record_error(value@) == Some(e),
            },
    {
        let expiry_params = match value.expiry_info {
            Some(e) => match ExpiryParameters::try_from(e) {
                Ok(p) => Some(p),
                Err(err) => return Err(err),
            },
            None => None,
        };
        Ok(DiscordUrl {
            channel_id: value.channel_id,
            attachment_id: value.attachment_id,
            filename: value.file_name,
            expiry_params,
        })
    }
}

} // verus!
