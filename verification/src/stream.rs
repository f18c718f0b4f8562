//! What closing a stream reports.

use vstd::prelude::*;

verus! {

/// The outcome that closing a stream reports, given what shutting the socket
/// down returned and whether that was the error of a socket that is not
/// connected: a stream that is disconnected already counts as closed.
pub open spec fn settled<E>(shutdown: Result<(), E>, not_connected: bool) -> Result<(), E> {
    match shutdown {
        Ok(_) => Ok(()),
        Err(e) => if not_connected {
            Ok(())
        } else {
            Err(e)
        },
    }
}

/// Settles the outcome of closing a stream, so that closing is idempotent.
pub fn settle_close<E>(shutdown: Result<(), E>, not_connected: bool) -> (r: Result<(), E>)
    ensures
        r == settled(shutdown, not_connected),
{
    match shutdown {
        Ok(_) => Ok(()),
        Err(e) => if not_connected {
            Ok(())
        } else {
            Err(e)
        },
    }
}

} // verus!
