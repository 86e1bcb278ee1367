//! What an error chain says about the peer.

use vstd::prelude::*;

verus! {

/// The kinds of I/O error the daemon tells apart.
#[derive(Clone, Copy, Debug, PartialEq, Eq, Structural)]
pub enum IoKind {
    BrokenPipe,
    ConnectionReset,
    UnexpectedEof,
    Other,
}

/// One link of an error's chain of causes: its message and, where it is
/// an I/O error, the kind.
#[derive(Clone, Debug, PartialEq, Eq)]
pub struct Cause {
    pub io: Option<IoKind>,
    pub message: String,
}

/// Index of the first I/O error among the first `n` causes, if any.
pub open spec fn first_io(chain: Seq<Cause>, n: int) -> Option<int>
    decreases n,
{
    if n <= 0 {
        None
    } else {
        match first_io(chain, n - 1) {
            Some(i) => Some(i),
            None => if chain[n - 1].io is Some {
                Some(n - 1)
            } else {
                None
            },
        }
    }
}

/// The message to report for a chain: that of its first I/O error, else
/// that of the error itself; nothing for an empty chain.
pub open spec fn root_message(chain: Seq<Cause>) -> Seq<char> {
    match first_io(chain, chain.len() as int) {
        Some(i) => chain[i].message@,
        None => if chain.len() > 0 {
            chain[0].message@
        } else {
            Seq::empty()
        },
    }
}

/// Whether an I/O error of this kind means that the peer went away.
pub open spec fn is_disconnect(kind: IoKind) -> bool {
    kind == IoKind::BrokenPipe || kind == IoKind::ConnectionReset || kind == IoKind::UnexpectedEof
}

/// Whether some cause is a broken pipe.
pub fn is_broken_pipe(chain: &Vec<Cause>) -> (r: bool)
    ensures
        r == exists|i: int| 0 <= i < chain.len() && (#[trigger] chain[i]).io == Some(IoKind::BrokenPipe),
{
    let mut i: usize = 0;
    while i < chain.len()
        invariant
            i <= chain.len(),
            forall|j: int| 0 <= j < i ==> (#[trigger] chain[j]).io != Some(IoKind::BrokenPipe),
        decreases chain.len() - i,
    {
        match chain[i].io {
            Some(IoKind::BrokenPipe) => {
                return true;
            },
            _ => {},
        }
        i += 1;
    }
    false
}

/// Whether some cause is an I/O error that means the client went away: a
/// broken pipe, a reset connection, or an unexpected end of input.
pub fn is_client_disconnect(chain: &Vec<Cause>) -> (r: bool)
    ensures
        r == exists|i: int|
            0 <= i < chain.len() && (#[trigger] chain[i]).io is Some && is_disconnect(
                chain[i].io.unwrap(),
            ),
{
    let mut i: usize = 0;
    while i < chain.len()
        invariant
            i <= chain.len(),
            forall|j: int|
                0 <= j < i ==> !((#[trigger] chain[j]).io is Some && is_disconnect(
                    chain[j].io.unwrap(),
                )),
        decreases chain.len() - i,
    {
        match chain[i].io {
            Some(IoKind::BrokenPipe) | Some(IoKind::ConnectionReset) | Some(IoKind::UnexpectedEof) => {
                return true;
            },
            _ => {},
        }
        i += 1;
    }
    false
}

/// The message of the first I/O error of the chain, or of the error itself
/// where there is none.
pub fn root_io_msg(chain: &Vec<Cause>) -> (msg: String)
    ensures
        msg@ == root_message(chain@),
{
    let mut i: usize = 0;
    while i < chain.len()
        invariant
            i <= chain.len(),
            first_io(chain@, i as int) is None,
        decreases chain.len() - i,
    {
        if chain[i].io.is_some() {
            proof {
                lemma_first_io_stays(chain@, i + 1, chain.len() as int);
            }
            return chain[i].message.clone();
        }
        i += 1;
    }
    if chain.len() > 0 {
        chain[0].message.clone()
    } else {
        String::new()
    }
}

proof fn lemma_first_io_stays(chain: Seq<Cause>, n: int, m: int)
    requires
        0 <= n <= m,
        first_io(chain, n) is Some,
    ensures
        first_io(chain, m) == first_io(chain, n),
    decreases m - n,
{
    if n < m {
        lemma_first_io_stays(chain, n, m - 1);
    }
}

/// Whether a failed write to a client is passed over: the client has gone
/// away before it read its answer.
pub fn write_error_is_benign(kind: IoKind) -> (r: bool)
    ensures
        r == (kind == IoKind::BrokenPipe || kind == IoKind::ConnectionReset),
{
    match kind {
        IoKind::BrokenPipe | IoKind::ConnectionReset => true,
        _ => false,
    }
}

} // verus!
