//! Response envelopes and pagination parameters shared by service handlers.
use vstd::prelude::*;

verus! {

/// A bare message payload.
pub struct MsgResponse {
    pub msg: String,
}

/// A message payload carrying the numeric code of the error it reports.
pub struct MsgResponseWithErrCode {
    pub msg: String,
    pub err_code: usize,
}

/// A response envelope: any combination of a data payload, a total row
/// count, a message and an error code.
pub struct Response<D, M> {
    pub data: Option<D>,
    pub total: Option<usize>,
    pub msg: Option<M>,
    pub err_code: Option<usize>,
}

impl<D, M> Response<D, M> {
    /// Builds an envelope from its four optional parts, unchanged.
    pub fn new(
        data: Option<D>,
        total: Option<usize>,
        msg: Option<M>,
        err_code: Option<usize>,
    ) -> (r: Response<D, M>)
        ensures
            r.data == data,
            r.total == total,
            r.msg == msg,
            r.err_code == err_code,
    {
        Response { data, total, msg, err_code }
    }
}

/// An envelope holding only a message.
pub fn msg<D, M>(m: M) -> (r: Response<D, M>)
    ensures
        r.data is None,
        r.total is None,
        r.msg == Some(m),
        r.err_code is None,
{
    Response::new(None, None, Some(m), None)
}

/// An envelope holding a message and the numeric code of the error it
/// reports.
pub fn msg_with_code<D, M>(m: M, err_code: usize) -> (r: Response<D, M>)
    ensures
        r.data is None,
        r.total is None,
        r.msg == Some(m),
        r.err_code == Some(err_code),
{
    Response::new(None, None, Some(m), Some(err_code))
}

/// An envelope holding only a data payload.
pub fn data<D, M>(d: D) -> (r: Response<D, M>)
    ensures
        r.data == Some(d),
        r.total is None,
        r.msg is None,
        r.err_code is None,
{
    Response::new(Some(d), None, None, None)
}

/// An envelope holding a data payload and the total row count it was
/// paged out of.
pub fn data_with_pagination<D, M>(d: D, total: usize) -> (r: Response<D, M>)
    ensures
        r.data == Some(d),
        r.total == Some(total),
        r.msg is None,
        r.err_code is None,
{
    Response::new(Some(d), Some(total), None, None)
}

/// Pagination parameters: a one-based page index and a page size.
pub struct Pagination {
    pub index: i64,
    pub size: i64,
}

impl Pagination {
    /// The number of rows that precede the requested page.
    pub open spec fn spec_skip(self) -> int {
        (if self.index == i64::MIN { 0int } else { self.index - 1 }) * self.size
    }

    /// Rows to skip: one-based page index times page size.
    pub fn skip(&self) -> (r: i64)
        requires
            i64::MIN <= self.spec_skip() <= i64::MAX,
        ensures
            r == self.spec_skip(),
    {
        let base: i64 = if self.index == i64::MIN { 0 } else { self.index - 1 };
        base * self.size
    }

    /// Rows to take: the page size, clamped below at zero.
    pub fn take(&self) -> (r: i64)
        ensures
            r == if self.size >= 0 { self.size as int } else { 0int },
    {
        if self.size >= 0 {
            self.size
        } else {
            0
        }
    }
}

} // verus!
