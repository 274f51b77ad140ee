use crate::error::ConvertError;
use vstd::prelude::*;

verus! {

/// Arc-seconds in one degree.
pub const ARCSEC_PER_DEGREE: usize = 3600;

/// Sampling density shared by every tile of a batch: 1 or 3 arc-seconds per
/// sample.
#[derive(Debug, Clone, Copy)]
pub struct Resolution {
    rate: u16,
}

/// The rates that a resolution may take.
pub open spec fn valid_rate(raw: u16) -> bool {
    raw == 1 || raw == 3
}

impl Resolution {
    #[verifier::type_invariant]
    spec fn rate_is_valid(self) -> bool {
        valid_rate(self.rate)
    }

    /// Arc-seconds per sample.
    pub closed spec fn arcsec(self) -> u16 {
        self.rate
    }

    /// The resolution of `raw` arc-seconds per sample.
    pub closed spec fn of_rate(raw: u16) -> Resolution {
        Resolution { rate: raw }
    }

    /// Samples per degree along each axis, `3600 / arcsec`.
    pub open spec fn spec_ippd(self) -> nat {
        (3600int / (self.arcsec() as int)) as nat
    }

    /// A valid rate gives the resolution of that rate, with `3600 / rate`
    /// samples per degree: 3600 at one arc-second, 1200 at three.
    pub proof fn lemma_ippd_of_rate(raw: u16)
        requires
            valid_rate(raw),
        ensures
            Resolution::of_rate(raw).arcsec() == raw,
            Resolution::of_rate(raw).spec_ippd() == 3600int / (raw as int),
            raw == 1 ==> Resolution::of_rate(raw).spec_ippd() == 3600,
            raw == 3 ==> Resolution::of_rate(raw).spec_ippd() == 1200,
    {
    }

    /// Accepts 1 and 3 arc-seconds per sample; any other rate is
    /// `InvalidResolution`.
    pub fn from_raw(raw: u16) -> (r: Result<Resolution, ConvertError>)
        ensures
            valid_rate(raw) <==> r is Ok,
            r matches Ok(res) ==> res.arcsec() == raw && res == Resolution::of_rate(raw),
            r matches Err(e) ==> e == (ConvertError::InvalidResolution { raw }),
    {
        if raw == 1 || raw == 3 {
            Ok(Resolution { rate: raw })
        } else {
            Err(ConvertError::InvalidResolution { raw })
        }
    }

    /// Arc-seconds per sample.
    pub fn rate(&self) -> (r: u16)
        ensures
            r == self.arcsec(),
            valid_rate(r),
    {
        proof {
            use_type_invariant(self);
        }
        self.rate
    }

    /// Samples per degree along each axis ("items per degree").
    pub fn ippd(&self) -> (n: usize)
        ensures
            n == self.spec_ippd(),
            n == 3600 || n == 1200,
            valid_rate(self.arcsec()),
            3600int % (self.arcsec() as int) == 0,
    {
        proof {
            use_type_invariant(self);
            assert(3600usize / 1usize == 3600 && 3600usize / 3usize == 1200);
        }
        ARCSEC_PER_DEGREE / (self.rate as usize)
    }
}

impl TryFrom<u16> for Resolution {
    type Error = ConvertError;

    fn try_from(value: u16) -> (r: Result<Resolution, ConvertError>) {
        Self::from_raw(value)
    }
}

impl vstd::std_specs::convert::TryFromSpecImpl<u16> for Resolution {
    open spec fn obeys_try_from_spec() -> bool {
        true
    }

    open spec fn try_from_spec(v: u16) -> Result<Resolution, ConvertError> {
        if valid_rate(v) {
            Ok(Resolution::of_rate(v))
        } else {
            Err(ConvertError::InvalidResolution { raw: v })
        }
    }
}

} // verus!
