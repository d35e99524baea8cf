use vstd::prelude::*;
use bigdecimal::{BigDecimal, ParseBigDecimalError};

verus! {

#[verifier::external_type_specification]
#[verifier::external_body]
pub struct ExBigDecimal(BigDecimal);

#[verifier::external_type_specification]
#[verifier::external_body]
pub struct ExParseBigDecimalError(ParseBigDecimalError);

/// Whether `BigDecimal`'s decimal parser accepts the text.
pub uninterp spec fn decimal_parses(text: Seq<char>) -> bool;

/// An amount in the arbitrary-precision storage type, together with the text
/// that it was read from. Its fields are private and only the parsing below
/// builds one, so `value` is always the decimal that `BigDecimal`'s parser
/// read from `source`.
pub struct Amount {
    source: String,
    value: BigDecimal,
}

impl Amount {
    /// The text that the amount was read from.
    pub closed spec fn source(self) -> Seq<char> {
        self.source@
    }

    /// The text that the amount was read from.
    pub fn source_text(&self) -> (r: &String)
        ensures
            r@ == self.source(),
    {
        &self.source
    }

    /// The decimal value.
    pub fn value(&self) -> &BigDecimal {
        &self.value
    }

    /// The decimal value, taken out.
    pub fn into_value(self) -> BigDecimal {
        self.value
    }
}

/// Relies on `<BigDecimal as FromStr>::from_str`: it succeeds exactly on the
/// texts that its decimal grammar accepts, depends on the text alone, and the
/// decimal that it returns is kept beside a copy of the text.
#[verifier::external_body]
fn decimal_from_text(text: &str) -> (r: Result<Amount, ParseBigDecimalError>)
    ensures
        r is Ok <==> decimal_parses(text@),
        r matches Ok(a) ==> a.source() == text@,
{
    <BigDecimal as std::str::FromStr>::from_str(text).map(
        |value| Amount { source: text.to_string(), value },
    )
}

/// Converts an amount written as decimal text into the arbitrary-precision
/// storage type; `None` when the text is not a decimal number (e.g. `NaN`).
pub fn parse_amount(text: &str) -> (r: Option<Amount>)
    ensures
        r is Some <==> decimal_parses(text@),
        r matches Some(a) ==> a.source() == text@,
{
    match decimal_from_text(text) {
        Ok(a) => Some(a),
        Err(_) => None,
    }
}

} // verus!
