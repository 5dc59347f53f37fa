//! The download session: the one piece of state a run keeps, and the
//! orchestrator's decisions over it. The caller performs the outside work —
//! opening connections, sending requests, draining responses, writing the
//! sink — and feeds each outcome back in; every decision about what happens
//! next is made and verified here.

use vstd::prelude::*;

use crate::FetchError;
use crate::digest::digest_hex;
use crate::digest::hex_of;
use crate::digest::sha256_of;

verus! {

/// The orchestrator's place in a run.
#[derive(Clone, Copy, Debug, PartialEq, Eq, Structural)]
pub enum Phase {
    Discovering,
    Fetching,
    Reporting,
    Done,
    Failed,
}

/// What the caller is asked to do next.
#[derive(Clone, Copy, Debug, PartialEq, Eq, Structural)]
pub enum Action {
    /// Issue the unranged discovery request and feed back the declared size.
    Discover,
    /// Issue a ranged chunk request starting at `offset` and feed back the
    /// split-out body.
    Fetch { offset: usize },
    /// Compare sizes, then finalize and present the digest.
    Report,
    /// The run is over, successfully or not.
    Stop,
}

/// The state a run keeps: the declared total, the offset confirmed so far,
/// the bytes collected in order, and the phase. `chunks` records, in ghost
/// form, each accepted chunk body in acceptance order.
pub struct Session {
    pub total_size: usize,
    pub position: usize,
    pub data: Vec<u8>,
    pub chunks: Ghost<Seq<Seq<u8>>>,
    pub phase: Phase,
    pub failure: Option<FetchError>,
}

impl Session {
    /// The session invariant: the collected bytes are the concatenation of
    /// the accepted chunk bodies, none of them empty, and their count is the
    /// offset.
    pub open spec fn wf(self) -> bool {
        &&& self.data@.len() == self.position
        &&& self.data@ == self.chunks@.flatten()
        &&& (forall|i: int| 0 <= i < self.chunks@.len() ==> (#[trigger] self.chunks@[i]).len() > 0)
        &&& (self.phase is Failed <==> self.failure is Some)
        &&& (self.phase is Discovering ==> self.position == 0 && self.chunks@.len() == 0)
    }

    /// A fresh session, about to discover the total size.
    pub fn new() -> (s: Session)
        ensures
            s.wf(),
            s.phase is Discovering,
            s.total_size == 0,
            s.position == 0,
            s.data@ == Seq::<u8>::empty(),
            s.chunks@ == Seq::<Seq<u8>>::empty(),
    {
        Session {
            total_size: 0,
            position: 0,
            data: Vec::new(),
            chunks: Ghost(Seq::empty()),
            phase: Phase::Discovering,
            failure: None,
        }
    }

    /// Feeds the outcome of size discovery in. Success fixes the total, once
    /// and for all, and starts the fetch loop; failure ends the run.
    pub fn on_discovery(&mut self, outcome: Result<usize, FetchError>)
        requires
            old(self).wf(),
            old(self).phase is Discovering,
        ensures
            final(self).wf(),
            final(self).position == old(self).position,
            final(self).data@ == old(self).data@,
            final(self).chunks@ == old(self).chunks@,
            match outcome {
                Ok(n) => final(self).phase is Fetching && final(self).total_size == n,
                Err(e) => final(self).phase is Failed && final(self).failure == Some(e),
            },
    {
        match outcome {
            Ok(n) => {
                self.total_size = n;
                self.phase = Phase::Fetching;
            },
            Err(e) => {
                self.failure = Some(e);
                self.phase = Phase::Failed;
            },
        }
    }

    /// The next step of the run. While fetching, the next chunk request
    /// always starts at the current offset, and the loop ends exactly when
    /// the offset has reached the declared total.
    pub fn next_action(&self) -> (a: Action)
        requires
            self.wf(),
        ensures
            self.phase is Discovering ==> a == Action::Discover,
            self.phase is Fetching && self.position < self.total_size ==> a == (Action::Fetch {
                offset: self.position,
            }),
            self.phase is Fetching && self.position >= self.total_size ==> a == Action::Report,
            self.phase is Reporting ==> a == Action::Report,
            self.phase is Done || self.phase is Failed ==> a == Action::Stop,
    {
        match self.phase {
            Phase::Discovering => Action::Discover,
            Phase::Fetching => {
                if self.position < self.total_size {
                    Action::Fetch { offset: self.position }
                } else {
                    Action::Report
                }
            },
            Phase::Reporting => Action::Report,
            Phase::Done => Action::Stop,
            Phase::Failed => Action::Stop,
        }
    }

    /// Feeds the body of one chunk fetch in. An empty body is the
    /// recoverable condition: nothing changes, so the next fetch retries the
    /// same offset. A non-empty body is appended to the collected bytes and
    /// the offset advances by exactly its length.
    pub fn on_chunk(&mut self, body: Vec<u8>)
        requires
            old(self).wf(),
            old(self).phase is Fetching,
            old(self).position + body@.len() <= usize::MAX,
        ensures
            final(self).wf(),
            final(self).phase is Fetching,
            final(self).total_size == old(self).total_size,
            body@.len() == 0 ==> final(self).position == old(self).position
                && final(self).data@ == old(self).data@
                && final(self).chunks@ == old(self).chunks@,
            body@.len() > 0 ==> final(self).position == old(self).position + body@.len()
                && final(self).data@ == old(self).data@ + body@
                && final(self).chunks@ == old(self).chunks@.push(body@),
    {
        let ghost bseq = body@;
        let blen = body.len();
        if blen == 0 {
            return;
        }
        proof {
            self.chunks@.lemma_flatten_push(bseq);
        }
        let ghost old_chunks = self.chunks@;
        let mut b = body;
        self.data.append(&mut b);
        self.position = self.position + blen;
        self.chunks = Ghost(old_chunks.push(bseq));
        proof {
            assert(self.chunks@ == old_chunks.push(bseq));
            assert forall|i: int| 0 <= i < self.chunks@.len() implies (
            #[trigger] self.chunks@[i]).len() > 0 by {
                if i < old_chunks.len() {
                    assert(self.chunks@[i] == old_chunks[i]);
                }
            }
        }
    }

    /// Moves from the fetch loop to reporting. The loop asks for this once
    /// the offset has reached the declared total; a caller that stops the
    /// loop short of it may report too — the shortfall then surfaces as a
    /// size mismatch, not a failure.
    pub fn begin_report(&mut self)
        requires
            old(self).wf(),
            old(self).phase is Fetching,
        ensures
            final(self).wf(),
            final(self).phase is Reporting,
            final(self).total_size == old(self).total_size,
            final(self).position == old(self).position,
            final(self).data@ == old(self).data@,
            final(self).chunks@ == old(self).chunks@,
    {
        self.phase = Phase::Reporting;
    }

    /// Whether the collected bytes differ in count from the declared total.
    /// A mismatch is reported as a warning; the run still completes.
    pub fn size_mismatch(&self) -> (m: bool)
        requires
            self.wf(),
            self.phase is Reporting,
        ensures
            m == (self.position != self.total_size),
    {
        self.position != self.total_size
    }

    /// Ends the run: the digest over all collected bytes, in the exact order
    /// they were accepted, as lowercase hexadecimal text.
    pub fn finish(&mut self) -> (digest: String)
        requires
            old(self).wf(),
            old(self).phase is Reporting,
        ensures
            final(self).wf(),
            final(self).phase is Done,
            final(self).total_size == old(self).total_size,
            final(self).position == old(self).position,
            final(self).data@ == old(self).data@,
            final(self).chunks@ == old(self).chunks@,
            digest@ == hex_of(sha256_of(old(self).data@)),
    {
        let d = digest_hex(&self.data);
        self.phase = Phase::Done;
        d
    }
}

/// Ordering and assembly: at any point of a run, the collected bytes are
/// exactly the concatenation, in acceptance order, of the non-empty chunk
/// bodies accepted so far, and their count equals the session's offset.
pub proof fn lemma_assembly(s: Session)
    requires
        s.wf(),
    ensures
        s.data@ == s.chunks@.flatten(),
        s.data@.len() == s.position,
        forall|i: int| 0 <= i < s.chunks@.len() ==> (#[trigger] s.chunks@[i]).len() > 0,
{
}

/// Zero-length boundary: a session that discovered a total of zero is done
/// fetching at once — the loop body never runs — and the digest it will
/// report is the digest of the empty byte sequence.
pub proof fn lemma_zero_total(s: Session)
    requires
        s.wf(),
        s.phase is Fetching,
        s.total_size == 0,
        s.position == 0,
    ensures
        s.position >= s.total_size,
        s.data@ == Seq::<u8>::empty(),
        hex_of(sha256_of(s.data@)) == hex_of(sha256_of(Seq::<u8>::empty())),
{
    assert(s.data@ =~= Seq::<u8>::empty());
}

} // verus!
