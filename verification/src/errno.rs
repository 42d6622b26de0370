//! The error numbers that the socket calls return.
use vstd::prelude::*;

verus! {

/// Error numbers returned by the socket calls.
#[allow(non_camel_case_types)]
#[derive(Debug, Clone, Copy, PartialEq, Eq, Structural)]
pub enum SystemError {
    EBADF,
    EINVAL,
    ENOTCONN,
    EDESTADDRREQ,
    EAGAIN_OR_EWOULDBLOCK,
    ENOBUFS,
    EAFNOSUPPORT,
    ENOPROTOOPT,
    ENOSYS,
}

} // verus!
