//! One socket's exchanges with the kernel: the numbering of requests and
//! the reading of what comes back, one datagram at a time. The socket itself
//! is the caller's; this module decides what a datagram means.

use vstd::prelude::*;
use crate::consts::{NLMSG_DONE, NLMSG_ERROR, PID_KERNEL};
use crate::error::NetlinkError;
use crate::message::{demux, frames, Frame, NetlinkMessage, NetlinkMessageHeader};
use crate::request::{NetlinkRequest, RequestView};
use crate::wire::{i32_of_le, read_i32};

verus! {

/// Why the reading of a datagram fails.
pub enum Failure {
    /// A frame is cut short, or a terminal frame lacks its error code.
    Malformed,
    /// The datagram came from this port, which is not the kernel's.
    Peer(u32),
    /// A frame carries another sequence number than the request.
    Sequence { expected: u32, found: u32 },
    /// The kernel refused the request with this error number; the rest of
    /// the error frame follows.
    Kernel { errno: i32, tail: Seq<u8> },
}

/// What a datagram means for the exchange.
pub enum Outcome {
    /// The terminal frame has not come yet; these bodies are gathered.
    More(Seq<Seq<u8>>),
    /// The terminal frame has come with the code zero; these bodies are the
    /// reply.
    Done(Seq<Seq<u8>>),
    /// The exchange has failed.
    Fail(Failure),
}

/// The error number that a terminal frame's code stands for: its negation.
pub open spec fn errno_of(code: i32) -> i32 {
    if code == i32::MIN {
        i32::MAX
    } else {
        (-code) as i32
    }
}

/// What the frames from index `i` on mean for an exchange with sequence
/// number `seq` on the local port `pid` that has gathered `acc`. A frame with
/// another sequence number fails the exchange; a frame for another port is
/// passed over; an error or done frame ends the exchange, with success where
/// its code is zero; the body of any other frame is gathered.
pub open spec fn classify(frames: Seq<Frame>, seq: u32, pid: u32, acc: Seq<Seq<u8>>, i: int) -> Outcome
    decreases frames.len() - i,
{
    if i < 0 || i >= frames.len() {
        Outcome::More(acc)
    } else {
        let f = frames[i];
        if f.header.nlmsg_seq != seq {
            Outcome::Fail(Failure::Sequence { expected: seq, found: f.header.nlmsg_seq })
        } else if f.header.nlmsg_pid != pid {
            classify(frames, seq, pid, acc, i + 1)
        } else if f.header.nlmsg_type == NLMSG_ERROR || f.header.nlmsg_type == NLMSG_DONE {
            if f.data.len() < 4 {
                Outcome::Fail(Failure::Malformed)
            } else if i32_of_le(f.data.subrange(0, 4)) == 0 {
                Outcome::Done(acc)
            } else {
                Outcome::Fail(
                    Failure::Kernel {
                        errno: errno_of(i32_of_le(f.data.subrange(0, 4))),
                        tail: f.data.skip(4),
                    },
                )
            }
        } else {
            classify(frames, seq, pid, acc.push(f.data), i + 1)
        }
    }
}

/// What the datagram `buf` from the port `peer` means for an exchange with
/// sequence number `seq` on the local port `pid` that has gathered `acc`.
/// Only the kernel, port zero, is listened to.
pub open spec fn outcome(buf: Seq<u8>, peer: u32, seq: u32, pid: u32, acc: Seq<Seq<u8>>) -> Outcome {
    if peer != PID_KERNEL {
        Outcome::Fail(Failure::Peer(peer))
    } else {
        match demux(buf) {
            Some(frames) => classify(frames, seq, pid, acc, 0),
            None => Outcome::Fail(Failure::Malformed),
        }
    }
}

/// Whether the error `e` reports the failure `f`. Of the text of a kernel
/// error nothing is said: it is the operating system's.
pub open spec fn reports(e: NetlinkError, f: Failure) -> bool {
    match f {
        Failure::Malformed => e == NetlinkError::MalformedMessage,
        Failure::Peer(port) => e == (NetlinkError::UnexpectedPeer { port }),
        Failure::Sequence { expected, found } => e == (NetlinkError::SequenceMismatch {
            expected,
            found,
        }),
        Failure::Kernel { errno, tail } => e is KernelError && e->KernelError_errno == errno
            && e->KernelError_tail@ == tail,
    }
}

/// The bytes of a list of bodies.
pub open spec fn bodies(v: Seq<Vec<u8>>) -> Seq<Seq<u8>> {
    Seq::new(v.len(), |i: int| v[i]@)
}

/// `std::io::Error::from_raw_os_error` and its rendering as text: what the
/// operating system calls the error with this number. The text depends on
/// the system, so nothing is claimed of it.
#[verifier::external_body]
fn os_error_text(errno: i32) -> (text: String) {
    format!("{}", std::io::Error::from_raw_os_error(errno))
}

/// The numbering of the requests that go out on one socket.
#[derive(Debug, PartialEq, Eq)]
pub struct SocketHandle {
    pub seq: u32,
}

/// One request's exchange: what identifies its replies, and the bodies that
/// have come.
#[derive(Debug, PartialEq, Eq)]
pub struct Exchange {
    pub seq: u32,
    pub pid: u32,
    pub payloads: Vec<Vec<u8>>,
    pub done: bool,
}

impl SocketHandle {
    /// The state of a socket on which nothing was sent yet.
    pub fn new() -> (r: Self)
        ensures
            r.seq == 0,
    {
        SocketHandle { seq: 0 }
    }

    /// Starts an exchange: gives the request the next sequence number,
    /// writes it, and returns the bytes to send with the state that reads
    /// the replies on the local port `pid`. The counter moves on whatever
    /// becomes of the exchange.
    pub fn begin(&mut self, req: &mut NetlinkRequest, pid: u32) -> (r: (Vec<u8>, Exchange))
        requires
            old(self).seq < u32::MAX,
            old(req).wf(),
        ensures
            final(self).seq == old(self).seq + 1,
            r.0@ == numbered(old(req)@, final(self).seq).emit(),
            r.0@.len() == old(req)@.total_len(),
            final(req)@ == (RequestView {
                header: numbered(old(req)@, final(self).seq).sent_header(),
                ..old(req)@
            }),
            final(req).wf(),
            r.1.seq == final(self).seq,
            r.1.pid == pid,
            r.1.payloads@.len() == 0,
            !r.1.done,
    {
        self.seq = self.seq + 1;
        req.header.nlmsg_seq = self.seq;
        let buf = req.serialize();
        (buf, Exchange { seq: self.seq, pid, payloads: Vec::new(), done: false })
    }
}

/// The request with the sequence number `seq` in its header.
pub open spec fn numbered(req: RequestView, seq: u32) -> RequestView {
    RequestView { header: NetlinkMessageHeader { nlmsg_seq: seq, ..req.header }, ..req }
}

impl Exchange {
    /// Reads one datagram that came from the port `peer`. `Ok(true)` says
    /// that the exchange is complete, `Ok(false)` that more is to come.
    pub fn receive(&mut self, buf: &[u8], peer: u32) -> (r: Result<bool, NetlinkError>)
        ensures
            final(self).seq == old(self).seq,
            final(self).pid == old(self).pid,
            match outcome(buf@, peer, old(self).seq, old(self).pid, bodies(old(self).payloads@)) {
                Outcome::More(acc) => r == Ok::<bool, NetlinkError>(false) && bodies(
                    final(self).payloads@,
                ) == acc && final(self).done == old(self).done,
                Outcome::Done(acc) => r == Ok::<bool, NetlinkError>(true) && bodies(
                    final(self).payloads@,
                ) == acc && final(self).done,
                Outcome::Fail(f) => r is Err && reports(r->Err_0, f)
                    && final(self).done == old(self).done,
            },
            old(self).payloads@.len() <= final(self).payloads@.len(),
            bodies(final(self).payloads@).take(old(self).payloads@.len() as int) == bodies(
                old(self).payloads@,
            ),
    {
        assert(bodies(self.payloads@).take(self.payloads@.len() as int) =~= bodies(
            self.payloads@,
        ));
        if peer != PID_KERNEL {
            return Err(NetlinkError::UnexpectedPeer { port: peer });
        }
        let msgs = match NetlinkMessage::from(buf) {
            Ok(msgs) => msgs,
            Err(e) => { return Err(e); },
        };
        let ghost all = frames(msgs@);
        let ghost start = bodies(self.payloads@);
        let mut i: usize = 0;
        while i < msgs.len()
            invariant
                0 <= i <= msgs@.len(),
                all == frames(msgs@),
                demux(buf@) == Some(all),
                peer == PID_KERNEL,
                start == bodies(old(self).payloads@),
                self.seq == old(self).seq,
                self.pid == old(self).pid,
                self.done == old(self).done,
                start.len() <= self.payloads@.len(),
                bodies(self.payloads@).take(start.len() as int) == start,
                classify(all, self.seq, self.pid, start, 0) == classify(
                    all,
                    self.seq,
                    self.pid,
                    bodies(self.payloads@),
                    i as int,
                ),
            decreases msgs@.len() - i,
        {
            let m = &msgs[i];
            assert(all[i as int] == m@);
            if m.header.nlmsg_seq != self.seq {
                return Err(
                    NetlinkError::SequenceMismatch {
                        expected: self.seq,
                        found: m.header.nlmsg_seq,
                    },
                );
            }
            if m.header.nlmsg_pid == self.pid {
                if m.header.nlmsg_type == NLMSG_ERROR || m.header.nlmsg_type == NLMSG_DONE {
                    if m.data.len() < 4 {
                        return Err(NetlinkError::MalformedMessage);
                    }
                    let code = read_i32(m.data.as_slice(), 0);
                    if code == 0 {
                        self.done = true;
                        return Ok(true);
                    }
                    let errno: i32 = if code == i32::MIN {
                        i32::MAX
                    } else {
                        -code
                    };
                    let tail = vstd::slice::slice_to_vec(
                        vstd::slice::slice_subrange(m.data.as_slice(), 4, m.data.len()),
                    );
                    assert(tail@ =~= m.data@.skip(4));
                    return Err(
                        NetlinkError::KernelError { errno, message: os_error_text(errno), tail },
                    );
                }
                let ghost before = bodies(self.payloads@);
                self.payloads.push(vstd::slice::slice_to_vec(m.data.as_slice()));
                assert(bodies(self.payloads@) =~= before.push(m.data@));
                assert(bodies(self.payloads@).take(start.len() as int) =~= before.take(
                    start.len() as int,
                ));
            }
            i += 1;
        }
        Ok(false)
    }

    /// The bodies that the exchange has gathered.
    pub fn finish(self) -> (r: Vec<Vec<u8>>)
        ensures
            r == self.payloads,
    {
        self.payloads
    }
}

} // verus!
