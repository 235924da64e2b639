//! Coded error taxonomy. Each category reserves a disjoint numeric code
//! range; constructing an error with an explicit code checks membership in
//! its category's range and rejects the code otherwise.
use vstd::prelude::*;

use crate::numfmt::{
    all_dec_digits, is_dec_digit, is_digit_at, leading_digits, lemma_dec_round_trip,
    lemma_leading_digits_of_concat, lemma_leading_digits_subrange, parse_u64_dec, spec_dec,
    spec_dec_val, u64_to_dec,
};

verus! {

/// The base code of each error category; the category's reserved range is
/// the base plus the next hundred thousand values.
pub enum ErrCode {
    Business,
    Validate,
    Unauthorized,
    Hint,
    Timeout,
    Other,
}

impl ErrCode {
    /// The first code of the category's reserved range.
    pub open spec fn spec_base(self) -> usize {
        match self {
            ErrCode::Business => 50000000,
            ErrCode::Validate => 40000000,
            ErrCode::Unauthorized => 40100000,
            ErrCode::Hint => 45200000,
            ErrCode::Timeout => 40800000,
            ErrCode::Other => 60000000,
        }
    }

    /// The first code of the category's reserved range.
    pub fn base(&self) -> (r: usize)
        ensures
            r == self.spec_base(),
    {
        match self {
            ErrCode::Business => 50000000,
            ErrCode::Validate => 40000000,
            ErrCode::Unauthorized => 40100000,
            ErrCode::Hint => 45200000,
            ErrCode::Timeout => 40800000,
            ErrCode::Other => 60000000,
        }
    }
}

/// Whether a code lies in the business range.
pub open spec fn business_code_ok(c: usize) -> bool {
    50000000 <= c <= 50099999
}

/// Whether a code lies in the validation range.
pub open spec fn validate_code_ok(c: usize) -> bool {
    40000000 <= c <= 40099999
}

/// Whether a code lies in the unauthorized range.
pub open spec fn unauthorized_code_ok(c: usize) -> bool {
    40100000 <= c <= 40199999
}

/// Whether a code lies in the hint range.
pub open spec fn hint_code_ok(c: usize) -> bool {
    45200000 <= c <= 45299999
}

/// The closed set of error categories every component reports through.
/// The four coded categories carry a message and a code from their
/// reserved range; `Timeout` reports an exhausted retry budget; and
/// `Transport` wraps the message of an underlying driver error.
#[derive(Debug)]
pub enum ErrorKind {
    Business { msg: String, err_code: usize },
    Validate { msg: String, err_code: usize },
    Unauthorized { msg: String, err_code: usize },
    Hint { msg: String, err_code: usize },
    Timeout,
    Transport { msg: String },
}

/// A rejected construction: the code offered for a coded category lies
/// outside that category's reserved range.
#[derive(Debug)]
pub struct InvalidErrCode {
    pub err_code: usize,
}

impl ErrorKind {
    /// Whether the carried code, if any, lies in its category's range.
    pub open spec fn wf(self) -> bool {
        match self {
            ErrorKind::Business { err_code, .. } => business_code_ok(err_code),
            ErrorKind::Validate { err_code, .. } => validate_code_ok(err_code),
            ErrorKind::Unauthorized { err_code, .. } => unauthorized_code_ok(err_code),
            ErrorKind::Hint { err_code, .. } => hint_code_ok(err_code),
            ErrorKind::Timeout => true,
            ErrorKind::Transport { .. } => true,
        }
    }

    /// The carried code of a coded category.
    pub open spec fn spec_code(self) -> Option<usize> {
        match self {
            ErrorKind::Business { err_code, .. } => Some(err_code),
            ErrorKind::Validate { err_code, .. } => Some(err_code),
            ErrorKind::Unauthorized { err_code, .. } => Some(err_code),
            ErrorKind::Hint { err_code, .. } => Some(err_code),
            ErrorKind::Timeout => None,
            ErrorKind::Transport { .. } => None,
        }
    }

    /// The HTTP status an error of this category is reported under.
    pub open spec fn spec_status_code(self) -> u16 {
        match self {
            ErrorKind::Business { .. } => 500,
            ErrorKind::Validate { .. } => 400,
            ErrorKind::Unauthorized { .. } => 401,
            ErrorKind::Hint { .. } => 400,
            ErrorKind::Timeout => 408,
            ErrorKind::Transport { .. } => 500,
        }
    }

    /// The HTTP status an error of this category is reported under.
    pub fn status_code(&self) -> (r: u16)
        ensures
            r == self.spec_status_code(),
    {
        match self {
            ErrorKind::Business { .. } => 500,
            ErrorKind::Validate { .. } => 400,
            ErrorKind::Unauthorized { .. } => 401,
            ErrorKind::Hint { .. } => 400,
            ErrorKind::Timeout => 408,
            ErrorKind::Transport { .. } => 500,
        }
    }

    /// The rendering of the error: coded categories open with their code
    /// between brackets, then the category's label, then the message.
    pub open spec fn spec_display(self) -> Seq<char> {
        match self {
            ErrorKind::Business { msg, err_code } => "[ err_code: "@ + spec_dec(
                err_code as nat,
            ) + " ] business error: "@ + msg@,
            ErrorKind::Validate { msg, err_code } => "[ err_code: "@ + spec_dec(
                err_code as nat,
            ) + " ] validate error: "@ + msg@,
            ErrorKind::Unauthorized { msg, err_code } => "[ err_code: "@ + spec_dec(
                err_code as nat,
            ) + " ] unauthorized: "@ + msg@,
            ErrorKind::Hint { msg, err_code } => "[ err_code: "@ + spec_dec(err_code as nat)
                + " ] hint: "@ + msg@,
            ErrorKind::Timeout => "timeout"@,
            ErrorKind::Transport { msg } => msg@,
        }
    }

    /// Renders the error for logs and responses.
    pub fn display_string(&self) -> (r: String)
        ensures
            r@ == self.spec_display(),
    {
        match self {
            ErrorKind::Business { msg, err_code } => {
                let mut s = String::from_str("[ err_code: ");
                s.append(u64_to_dec(*err_code as u64).as_str());
                s.append(" ] business error: ");
                s.append(msg.as_str());
                s
            },
            ErrorKind::Validate { msg, err_code } => {
                let mut s = String::from_str("[ err_code: ");
                s.append(u64_to_dec(*err_code as u64).as_str());
                s.append(" ] validate error: ");
                s.append(msg.as_str());
                s
            },
            ErrorKind::Unauthorized { msg, err_code } => {
                let mut s = String::from_str("[ err_code: ");
                s.append(u64_to_dec(*err_code as u64).as_str());
                s.append(" ] unauthorized: ");
                s.append(msg.as_str());
                s
            },
            ErrorKind::Hint { msg, err_code } => {
                let mut s = String::from_str("[ err_code: ");
                s.append(u64_to_dec(*err_code as u64).as_str());
                s.append(" ] hint: ");
                s.append(msg.as_str());
                s
            },
            ErrorKind::Timeout => String::from_str("timeout"),
            ErrorKind::Transport { msg } => String::from_str(msg.as_str()),
        }
    }
}

/// Builds a business error; rejects a code outside the business range.
pub fn business_error(msg: String, err_code: usize) -> (r: Result<ErrorKind, InvalidErrCode>)
    ensures
        r is Ok <==> business_code_ok(err_code),
        r matches Ok(e) ==> e == (ErrorKind::Business { msg, err_code }) && e.wf(),
        r matches Err(i) ==> i.err_code == err_code,
{
    if 50000000 <= err_code && err_code <= 50099999 {
        Ok(ErrorKind::Business { msg, err_code })
    } else {
        Err(InvalidErrCode { err_code })
    }
}

/// Builds a business error under the category's base code.
pub fn business_error_default(msg: String) -> (r: ErrorKind)
    ensures
        r == (ErrorKind::Business { msg, err_code: ErrCode::Business.spec_base() }),
{
    ErrorKind::Business { msg, err_code: 50000000 }
}

/// Builds a validation error; rejects a code outside the validation range.
pub fn validate_error(msg: String, err_code: usize) -> (r: Result<ErrorKind, InvalidErrCode>)
    ensures
        r is Ok <==> validate_code_ok(err_code),
        r matches Ok(e) ==> e == (ErrorKind::Validate { msg, err_code }) && e.wf(),
        r matches Err(i) ==> i.err_code == err_code,
{
    if 40000000 <= err_code && err_code <= 40099999 {
        Ok(ErrorKind::Validate { msg, err_code })
    } else {
        Err(InvalidErrCode { err_code })
    }
}

/// Builds a validation error under the category's base code.
pub fn validate_error_default(msg: String) -> (r: ErrorKind)
    ensures
        r == (ErrorKind::Validate { msg, err_code: ErrCode::Validate.spec_base() }),
{
    ErrorKind::Validate { msg, err_code: 40000000 }
}

/// Builds an unauthorized error; rejects a code outside its range.
pub fn unauthorized(msg: String, err_code: usize) -> (r: Result<ErrorKind, InvalidErrCode>)
    ensures
        r is Ok <==> unauthorized_code_ok(err_code),
        r matches Ok(e) ==> e == (ErrorKind::Unauthorized { msg, err_code }) && e.wf(),
        r matches Err(i) ==> i.err_code == err_code,
{
    if 40100000 <= err_code && err_code <= 40199999 {
        Ok(ErrorKind::Unauthorized { msg, err_code })
    } else {
        Err(InvalidErrCode { err_code })
    }
}

/// Builds an unauthorized error under the category's base code.
pub fn unauthorized_default(msg: String) -> (r: ErrorKind)
    ensures
        r == (ErrorKind::Unauthorized { msg, err_code: ErrCode::Unauthorized.spec_base() }),
{
    ErrorKind::Unauthorized { msg, err_code: 40100000 }
}

/// Builds a hint; rejects a code outside the hint range.
pub fn hint(msg: String, err_code: usize) -> (r: Result<ErrorKind, InvalidErrCode>)
    ensures
        r is Ok <==> hint_code_ok(err_code),
        r matches Ok(e) ==> e == (ErrorKind::Hint { msg, err_code }) && e.wf(),
        r matches Err(i) ==> i.err_code == err_code,
{
    if 45200000 <= err_code && err_code <= 45299999 {
        Ok(ErrorKind::Hint { msg, err_code })
    } else {
        Err(InvalidErrCode { err_code })
    }
}

/// Builds a hint under the category's base code.
pub fn hint_default(msg: String) -> (r: ErrorKind)
    ensures
        r == (ErrorKind::Hint { msg, err_code: ErrCode::Hint.spec_base() }),
{
    ErrorKind::Hint { msg, err_code: 45200000 }
}

/// Wraps the rendering of an underlying driver error.
pub fn transport_error(msg: String) -> (r: ErrorKind)
    ensures
        r == (ErrorKind::Transport { msg }),
{
    ErrorKind::Transport { msg }
}

/// The categories' reserved ranges are pairwise disjoint: a code names at
/// most one category, so a rendered code identifies the category it came
/// from.
pub proof fn lemma_code_ranges_disjoint(c: usize)
    ensures
        business_code_ok(c) ==> !validate_code_ok(c) && !unauthorized_code_ok(c) && !hint_code_ok(
            c,
        ),
        validate_code_ok(c) ==> !business_code_ok(c) && !unauthorized_code_ok(c) && !hint_code_ok(
            c,
        ),
        unauthorized_code_ok(c) ==> !business_code_ok(c) && !validate_code_ok(c) && !hint_code_ok(
            c,
        ),
        hint_code_ok(c) ==> !business_code_ok(c) && !validate_code_ok(c) && !unauthorized_code_ok(
            c,
        ),
{
}

/// The code read back out of a rendered coded error: the digit run after
/// the opening bracket label, if the rendering starts with that label.
pub open spec fn spec_extract_err_code(s: Seq<char>) -> Option<nat> {
    let pfx = "[ err_code: "@;
    if s.len() >= 12 && s.take(12) == pfx && leading_digits(s.skip(12)).len() >= 1 {
        Some(spec_dec_val(leading_digits(s.skip(12))))
    } else {
        None
    }
}

/// Reads the numeric code back out of a rendered coded error.
pub fn extract_err_code(s: &str) -> (r: Option<u64>)
    ensures
        r is Some <==> (spec_extract_err_code(s@) matches Some(v) && v <= u64::MAX),
        r matches Some(v) ==> spec_extract_err_code(s@) == Some(v as nat),
{
    proof {
        reveal_strlit("[ err_code: ");
    }
    let pfx = "[ err_code: ";
    let len = s.unicode_len();
    if len < 12 {
        return None;
    }
    let mut i: usize = 0;
    while i < 12
        invariant
            0 <= i <= 12,
            len == s@.len(),
            12 <= len,
            pfx@ == "[ err_code: "@,
            pfx@.len() == 12,
            forall|k: int| 0 <= k < i ==> s@[k] == pfx@[k],
        decreases 12 - i,
    {
        if s.get_char(i) != pfx.get_char(i) {
            proof {
                assert(s@.take(12)[i as int] == s@[i as int]);
                assert(s@.take(12) != pfx@);
            }
            return None;
        }
        i = i + 1;
    }
    proof {
        assert(s@.take(12) =~= pfx@);
    }
    let mut j: usize = 12;
    while j < len && is_digit_at(s, j)
        invariant
            12 <= j <= len,
            len == s@.len(),
            forall|k: int| 12 <= k < j ==> is_dec_digit(#[trigger] s@[k]),
        decreases len - j,
    {
        j = j + 1;
    }
    if j == 12 {
        proof {
            if (s@.skip(12)).len() > 0 {
                assert(s@.skip(12)[0] == s@[12]);
            }
            assert(leading_digits(s@.skip(12)) =~= Seq::<char>::empty());
        }
        return None;
    }
    let digits = s.substring_char(12, j);
    let parsed = parse_u64_dec(digits);
    proof {
        lemma_leading_digits_subrange(s@, 12, j as int);
        assert(digits@ =~= s@.subrange(12, j as int));
    }
    parsed
}

/// A coded error renders its code back out: reading the rendering returns
/// exactly the code the error was constructed with.
pub proof fn lemma_display_round_trip(e: ErrorKind)
    requires
        e.spec_code() is Some,
    ensures
        spec_extract_err_code(e.spec_display()) == Some(e.spec_code().unwrap() as nat),
{
    let code = e.spec_code().unwrap();
    lemma_dec_round_trip(code as nat);
    match e {
        ErrorKind::Business { msg, err_code } => {
            reveal_strlit(" ] business error: ");
            lemma_extract_parts(spec_dec(code as nat), " ] business error: "@, msg@);
        },
        ErrorKind::Validate { msg, err_code } => {
            reveal_strlit(" ] validate error: ");
            lemma_extract_parts(spec_dec(code as nat), " ] validate error: "@, msg@);
        },
        ErrorKind::Unauthorized { msg, err_code } => {
            reveal_strlit(" ] unauthorized: ");
            lemma_extract_parts(spec_dec(code as nat), " ] unauthorized: "@, msg@);
        },
        ErrorKind::Hint { msg, err_code } => {
            reveal_strlit(" ] hint: ");
            lemma_extract_parts(spec_dec(code as nat), " ] hint: "@, msg@);
        },
        ErrorKind::Timeout => {},
        ErrorKind::Transport { .. } => {},
    }
}

/// Extraction undoes rendering on any string shaped like a coded
/// rendering: label, digits, then a part that opens with a non-digit.
proof fn lemma_extract_parts(dec: Seq<char>, mid: Seq<char>, msg: Seq<char>)
    requires
        dec.len() >= 1,
        all_dec_digits(dec),
        mid.len() >= 1,
        !is_dec_digit(mid[0]),
    ensures
        spec_extract_err_code("[ err_code: "@ + dec + mid + msg) == Some(spec_dec_val(dec)),
{
    reveal_strlit("[ err_code: ");
    let pfx = "[ err_code: "@;
    let s = pfx + dec + mid + msg;
    assert(pfx.len() == 12);
    assert(s.take(12) =~= pfx);
    assert(s.skip(12) =~= dec + (mid + msg));
    assert((mid + msg)[0] == mid[0]);
    lemma_leading_digits_of_concat(dec, mid + msg);
}

} // verus!
