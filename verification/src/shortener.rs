//! The reversible integer-to-short-code text encoder, supplied by the
//! hashids implementation of the `harsh` crate. The encoder is a
//! deterministic, stateless bijection for a fixed configuration; this
//! library always builds the default configuration.

use vstd::prelude::*;

verus! {

#[verifier::external_type_specification]
#[verifier::external_body]
pub struct ExHarsh(harsh::Harsh);

#[verifier::external_type_specification]
#[verifier::external_body]
pub struct ExHarshError(harsh::Error);

#[verifier::external_type_specification]
#[verifier::external_body]
pub struct ExBuildError(harsh::BuildError);

/// The short code that the default-configuration encoder gives `id`.
/// The encoding is a deterministic function of the value alone once the
/// configuration is fixed.
pub uninterp spec fn hashid_of(id: u64) -> Seq<char>;

/// What the default-configuration decoder makes of a text: the encoded
/// values, or nothing when the text is no valid code.
pub uninterp spec fn unhashid_of(s: Seq<char>) -> Option<Seq<u64>>;

/// The id a short code stands for: the first value the decoder finds,
/// or nothing when the text is no valid code or encodes no value.
pub open spec fn decoded_id(s: Seq<char>) -> Option<u64> {
    match unhashid_of(s) {
        Some(v) => if v.len() >= 1 {
            Some(v[0])
        } else {
            None
        },
        None => None,
    }
}

/// The encoder's failure kinds.
#[derive(Debug)]
pub enum ShortnerError {
    /// The encoder could not be configured.
    Initialization(harsh::BuildError),
    /// The text is not a valid short code.
    Decode(harsh::Error),
}

/// Relies on `harsh::HarshBuilder::build`: configures an encoder. The
/// default alphabet and separators pass every check the builder makes,
/// so building the default encoder never fails.
#[verifier::external_body]
fn build_default_harsh() -> (r: Result<harsh::Harsh, harsh::BuildError>)
    ensures
        r is Ok,
{
    harsh::HarshBuilder::new().build()
}

impl ShortnerError {
    /// A human-readable description, in place of `Display`.
    pub fn message(&self) -> (r: String)
        ensures
            self is Initialization ==> r@ == "Shortner initialization error"@,
            self is Decode ==> r@ == "Shorten Decode error"@,
    {
        match self {
            ShortnerError::Initialization(_) => "Shortner initialization error".to_owned(),
            ShortnerError::Decode(_) => "Shorten Decode error".to_owned(),
        }
    }
}

/// Relies on `harsh::Error::Hex`: the decode-failure cause reported
/// when a code holds no value at all or is too long to decode.
#[verifier::external_body]
fn invalid_code_error() -> harsh::Error {
    harsh::Error::Hex
}

/// The id-to-short-code converter, always holding the default encoder
/// configuration: `new` builds it with the default alphabet, separators
/// and length, and nothing ever replaces it.
pub struct HashIds {
    convertor: harsh::Harsh,
}

impl HashIds {
    /// Builds the converter with the default configuration. The salt is
    /// accepted for interface compatibility and not used.
    pub fn new(_salt: Option<String>) -> (r: Result<Self, ShortnerError>)
        ensures
            r is Ok,
    {
        match build_default_harsh() {
            Ok(convertor) => Ok(HashIds { convertor }),
            Err(e) => Err(ShortnerError::Initialization(e)),
        }
    }

    /// Relies on `harsh::Harsh::encode` with the default configuration
    /// (the only one `HashIds` ever holds): for one value the code is a
    /// function of the value alone, it is one lottery character plus one
    /// base-44 digit per power of 44 in the value (so at least two
    /// characters, and at most twelve while the value stays below
    /// 44 to the 11th), and decoding it gives the value back.
    #[verifier::external_body]
    fn raw_encode(&self, id: u64) -> (r: String)
        ensures
            r@ == hashid_of(id),
            r@.len() >= 2,
            id < 1196683881290399744 ==> r@.len() <= 12,
            unhashid_of(r@) == Some(seq![id]),
    {
        self.convertor.encode(&[id])
    }

    /// Relies on `harsh::Harsh::decode` with the default configuration:
    /// what it returns is a function of the text alone, and it errs
    /// exactly on texts that are no valid code. The decoder accumulates
    /// each segment's value with an unchecked addition that a crafted
    /// twelve-byte segment can overflow; a code of at most twelve bytes
    /// spends one byte on the lottery character, so its segments hold at
    /// most eleven base-44 digits and their values stay below the
    /// accumulator's range.
    #[verifier::external_body]
    fn raw_decode(&self, code: &str) -> (r: Result<Vec<u64>, harsh::Error>)
        requires
            code.len() <= 12,
        ensures
            match r {
                Ok(v) => unhashid_of(code@) == Some(v@),
                Err(_) => unhashid_of(code@) is None,
            },
    {
        self.convertor.decode(code)
    }

    /// The short code of `id`. Encoding cannot fail.
    pub fn encode(&self, id: u64) -> (r: Result<String, ShortnerError>)
        ensures
            r matches Ok(code) && code@ == hashid_of(id) && code@.len() >= 2 && unhashid_of(code@)
                == Some(seq![id]),
    {
        Ok(self.raw_encode(id))
    }

    /// The first id encoded in `code`. Fails with the decode kind when
    /// the text is no valid code, encodes no value, or is longer than
    /// twelve bytes — the longest code of any id below 44 to the 11th.
    /// Longer texts are refused without consulting the decoder, whose
    /// value accumulator a crafted long code could overflow.
    pub fn decode(&self, code: &str) -> (r: Result<u64, ShortnerError>)
        ensures
            match r {
                Ok(id) => code.len() <= 12 && decoded_id(code@) == Some(id),
                Err(e) => e is Decode && (decoded_id(code@) is None || code.len() > 12),
            },
    {
        if code.len() > 12 {
            return Err(ShortnerError::Decode(invalid_code_error()));
        }
        match self.raw_decode(code) {
            Ok(values) => {
                if values.len() >= 1 {
                    Ok(values[0])
                } else {
                    proof {
                        assert(unhashid_of(code@)->Some_0 =~= Seq::<u64>::empty());
                    }
                    Err(ShortnerError::Decode(invalid_code_error()))
                }
            },
            Err(e) => Err(ShortnerError::Decode(e)),
        }
    }
}

} // verus!
