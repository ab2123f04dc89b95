//! Bearer tokens that guard the daemon's listeners.
use vstd::prelude::*;
use vstd::string::*;

use crate::text;
use crate::text::decimal;

verus! {

/// The fewest bytes of a token.
pub const TOKEN_MIN_BYTES: usize = 32;

/// The most bytes of a token.
pub const TOKEN_MAX_BYTES: usize = 256;

/// The variable that holds the token of the status listener.
pub const STATUS_TOKEN_ENVIRONMENT: &'static str = "FREEMIXD_STATUS_TOKEN";

/// A secret that is compared without stopping at the first difference.
pub struct AccessToken {
    pub bytes: [u8; 256],
    pub length: usize,
}

/// Whether a byte is a visible ASCII character.
pub open spec fn is_graphic(byte: u8) -> bool {
    0x21 <= byte <= 0x7e
}

/// Whether bytes can be a token.
pub open spec fn is_token(bytes: Seq<u8>) -> bool {
    &&& TOKEN_MIN_BYTES <= bytes.len() <= TOKEN_MAX_BYTES
    &&& forall|i: int| 0 <= i < bytes.len() ==> is_graphic(#[trigger] bytes[i])
}

impl View for AccessToken {
    type V = Seq<u8>;

    open spec fn view(&self) -> Seq<u8> {
        self.bytes@.take(self.length as int)
    }
}

/// What stands before the token in a header.
pub open spec fn bearer() -> Seq<u8> {
    seq![66u8, 101, 97, 114, 101, 114, 32]
}

/// Whether a header presents a secret.
pub open spec fn presents(header: Option<&[u8]>, secret: Seq<u8>) -> bool {
    header matches Some(value) && value@ == bearer() + secret
}

/// The bytes `Bearer `, in order.
fn bearer_byte(i: usize) -> (byte: u8)
    requires
        i < 7,
    ensures
        byte == bearer()[i as int],
{
    if i == 0 {
        66
    } else if i == 1 {
        101
    } else if i == 2 {
        97
    } else if i == 3 {
        114
    } else if i == 4 {
        101
    } else if i == 5 {
        114
    } else {
        32
    }
}

/// Tells whether a header begins with `Bearer `.
fn has_bearer(value: &[u8]) -> (found: bool)
    ensures
        found == (value@.len() >= 7 && value@.take(7) == bearer()),
{
    if value.len() < 7 {
        return false;
    }
    let mut i: usize = 0;
    while i < 7
        invariant
            i <= 7,
            value@.len() >= 7,
            forall|k: int| 0 <= k < i ==> value@[k] == bearer()[k],
        decreases 7 - i,
    {
        if value[i] != bearer_byte(i) {
            assert(value@.take(7)[i as int] == value@[i as int]);
            return false;
        }
        i = i + 1;
    }
    assert(value@.take(7) =~= bearer());
    true
}

impl AccessToken {
    /// Whether the bytes after the secret are zero.
    pub open spec fn wf(self) -> bool {
        &&& is_token(self@)
        &&& self.length <= 256
        &&& forall|i: int| self.length <= i < 256 ==> #[trigger] self.bytes@[i] == 0
    }

    /// Takes bytes as a token, if they can be one.
    pub fn from_bytes(bytes: &[u8]) -> (token: Option<Self>)
        ensures
            match token {
                Some(token) => token.wf() && token@ == bytes@ && is_token(bytes@),
                None => !is_token(bytes@),
            },
    {
        if bytes.len() < TOKEN_MIN_BYTES || bytes.len() > TOKEN_MAX_BYTES {
            return None;
        }
        let mut kept: [u8; 256] = [0u8;256];
        let mut i: usize = 0;
        while i < bytes.len()
            invariant
                i <= bytes@.len() <= 256,
                TOKEN_MIN_BYTES <= bytes@.len(),
                forall|k: int| 0 <= k < i ==> is_graphic(#[trigger] bytes@[k]),
                forall|k: int| 0 <= k < i ==> kept@[k] == bytes@[k],
                forall|k: int| i <= k < 256 ==> kept@[k] == 0,
            decreases bytes@.len() - i,
        {
            if bytes[i] < 0x21 || bytes[i] > 0x7e {
                return None;
            }
            kept[i] = bytes[i];
            i = i + 1;
        }
        let token: AccessToken = AccessToken { bytes: kept, length: bytes.len() };
        assert(token@ =~= bytes@);
        Some(token)
    }

    /// Tells whether a header presents the token. The time it takes does not depend on where
    /// the two differ.
    pub fn matches(&self, authorization: Option<&[u8]>) -> (accepted: bool)
        requires
            self.wf(),
        ensures
            accepted == presents(authorization, self@),
    {
        let (value, from): (&[u8], usize) = match authorization {
            None => {
                return false;
            },
            Some(value) => if has_bearer(value) {
                (value, 7)
            } else {
                proof {
                    if presents(authorization, self@) {
                        assert(value@.take(7) =~= bearer());
                    }
                }
                return false;
            },
        };
        let presented: usize = value.len() - from;
        let mut difference: usize = self.length ^ presented;
        let (a, b): (usize, usize) = (self.length, presented);
        assert((a ^ b == 0) == (a == b)) by (bit_vector);
        let mut i: usize = 0;
        while i < 256
            invariant
                i <= 256,
                self.wf(),
                from == 7,
                presented == value@.len() - 7,
                value@.len() >= 7,
                (difference == 0) == (self.length == presented && forall|k: int|
                    0 <= k < i ==> #[trigger] self.bytes@[k] == padded(value@, k)),
            decreases 256 - i,
        {
            let actual: u8 = if i < presented {
                value[from + i]
            } else {
                0
            };
            assert(actual == padded(value@, i as int));
            let expected: u8 = self.bytes[i];
            let step: usize = (expected ^ actual) as usize;
            let before: usize = difference;
            assert((expected ^ actual == 0) == (expected == actual)) by (bit_vector);
            assert((before | step == 0) == (before == 0 && step == 0)) by (bit_vector);
            difference = before | step;
            assert((step == 0) == (self.bytes@[i as int] == padded(value@, i as int)));
            i = i + 1;
        }
        proof {
            let secret = self@;
            if difference == 0 {
                assert forall|k: int| 0 <= k < secret.len() implies secret[k] == value@[7 + k] by {
                    assert(self.bytes@[k] == padded(value@, k));
                }
                assert(value@ =~= value@.take(7) + secret);
            }
            if presents(authorization, secret) {
                assert(value@ == bearer() + secret);
                assert forall|k: int| 0 <= k < 256 implies #[trigger] self.bytes@[k] == padded(
                    value@,
                    k,
                ) by {
                    if k < secret.len() {
                        assert(value@[7 + k] == secret[k]);
                    }
                }
            }
        }
        difference == 0
    }
}

/// The byte of a header after `Bearer `, or zero past its end.
pub open spec fn padded(value: Seq<u8>, i: int) -> u8 {
    if 7 + i < value.len() {
        value[7 + i]
    } else {
        0
    }
}

/// A header presents only one token.
pub proof fn one_header_presents_one_token(header: Option<&[u8]>, a: Seq<u8>, b: Seq<u8>)
    requires
        presents(header, a),
        presents(header, b),
    ensures
        a == b,
{
    let value = header->Some_0@;
    assert(a =~= value.skip(7));
    assert(b =~= value.skip(7));
}

/// The token of the status listener.
pub struct StatusToken {
    pub secret: AccessToken,
}

/// What is said where the status listener has no token.
pub open spec fn missing_status_token() -> Seq<char> {
    STATUS_TOKEN_ENVIRONMENT@ + " is required when --status-listen is enabled"@
}

/// What is said where the token of the status listener cannot be one.
pub open spec fn invalid_status_token() -> Seq<char> {
    STATUS_TOKEN_ENVIRONMENT@ + " must be "@ + text::digits(TOKEN_MIN_BYTES as nat) + "..="@
        + text::digits(TOKEN_MAX_BYTES as nat) + " ASCII graphic bytes"@
}

impl StatusToken {
    /// Whether the token is in order.
    pub open spec fn wf(self) -> bool {
        self.secret.wf()
    }

    /// Takes the value of the environment variable as the token.
    pub fn from_environment(value: Option<&str>) -> (token: Result<Self, String>)
        ensures
            match token {
                Ok(token) => value is Some && token.wf() && token.secret@
                    == value->Some_0.spec_bytes(),
                Err(message) => match value {
                    None => message@ == missing_status_token(),
                    Some(value) => !is_token(value.spec_bytes()) && message@
                        == invalid_status_token(),
                },
            },
            value matches Some(value) && is_token(value.spec_bytes()) ==> token is Ok,
    {
        let value: &str = match value {
            None => {
                return Err(
                    String::from_str(STATUS_TOKEN_ENVIRONMENT).concat(
                        " is required when --status-listen is enabled",
                    ),
                );
            },
            Some(value) => value,
        };
        match AccessToken::from_bytes(value.as_bytes()) {
            Some(secret) => Ok(StatusToken { secret }),
            None => Err(
                String::from_str(STATUS_TOKEN_ENVIRONMENT).concat(" must be ").concat(
                    decimal(TOKEN_MIN_BYTES as u64).as_str(),
                ).concat("..=").concat(decimal(TOKEN_MAX_BYTES as u64).as_str()).concat(
                    " ASCII graphic bytes",
                ),
            ),
        }
    }

    /// Tells whether a header presents the token.
    pub fn matches(&self, authorization: Option<&[u8]>) -> (accepted: bool)
        requires
            self.wf(),
        ensures
            accepted == presents(authorization, self.secret@),
    {
        self.secret.matches(authorization)
    }
}

/// The token of the gateway for browsers.
pub struct WebToken {
    pub secret: AccessToken,
}

impl WebToken {
    /// Whether the token is in order.
    pub open spec fn wf(self) -> bool {
        self.secret.wf()
    }

    /// Takes the value of the environment variable as the token.
    pub fn from_environment(value: Option<&str>) -> (token: Result<Self, String>)
        ensures
            match token {
                Ok(token) => value is Some && token.wf() && token.secret@
                    == value->Some_0.spec_bytes(),
                Err(message) => match value {
                    None => message@
                        == "FREEMIXD_WEB_TOKEN is required when --web-listen is enabled"@,
                    Some(value) => !is_token(value.spec_bytes()) && message@
                        == "FREEMIXD_WEB_TOKEN must be 32..=256 ASCII graphic bytes"@,
                },
            },
            value matches Some(value) && is_token(value.spec_bytes()) ==> token is Ok,
    {
        let value: &str = match value {
            None => {
                return Err(
                    String::from_str(
                        "FREEMIXD_WEB_TOKEN is required when --web-listen is enabled",
                    ),
                );
            },
            Some(value) => value,
        };
        match AccessToken::from_bytes(value.as_bytes()) {
            Some(secret) => Ok(WebToken { secret }),
            None => Err(
                String::from_str("FREEMIXD_WEB_TOKEN must be 32..=256 ASCII graphic bytes"),
            ),
        }
    }

    /// Tells whether a header presents the token.
    pub fn matches(&self, authorization: Option<&[u8]>) -> (accepted: bool)
        requires
            self.wf(),
        ensures
            accepted == presents(authorization, self.secret@),
    {
        self.secret.matches(authorization)
    }
}

} // verus!
