//! What is kept of a body that passes through: its digest and its beginning.
use crate::digest::{
    absorb, absorbed, base64_text, digest_of, encode_base64, encode_hex, hex_text, new_hasher,
    sha256,
};
use crate::text::opt_text;
use sha2::Sha256;
use vstd::prelude::*;

verus! {

/// A body that passes through: the digest of all of it so far and its first bytes.
#[derive(Debug)]
pub struct BodyAccumulator {
    pub max_bytes: usize,
    pub hasher: Sha256,
    pub retained_bytes: Vec<u8>,
    pub truncated: bool,
    pub saw_bytes: bool,
}

/// What is logged of a body.
#[derive(Debug, Clone)]
pub struct BodySummary {
    pub sha256: Option<String>,
    pub preview_base64: Option<String>,
    pub truncated: Option<bool>,
}

/// The beginning of a body that is kept.
pub open spec fn kept(body: Seq<u8>, max_bytes: nat) -> Seq<u8> {
    if body.len() <= max_bytes {
        body
    } else {
        body.take(max_bytes as int)
    }
}

/// What a `BodySummary` says.
pub ghost struct SummaryView {
    pub sha256: Option<Seq<char>>,
    pub preview_base64: Option<Seq<char>>,
    pub truncated: Option<bool>,
}

impl View for BodySummary {
    type V = SummaryView;

    open spec fn view(&self) -> SummaryView {
        SummaryView {
            sha256: opt_text(self.sha256),
            preview_base64: opt_text(self.preview_base64),
            truncated: self.truncated,
        }
    }
}

/// What is logged of a body of which at most `max_bytes` are kept: the digest of all of it, where
/// there is any; what is kept, where there is any; and whether it is longer than what is kept.
pub open spec fn body_summary(body: Seq<u8>, max_bytes: nat) -> SummaryView {
    SummaryView {
        sha256: if body.len() > 0 {
            Some(hex_text(sha256(body)))
        } else {
            None
        },
        preview_base64: if kept(body, max_bytes).len() > 0 {
            Some(base64_text(kept(body, max_bytes)))
        } else {
            None
        },
        truncated: Some(body.len() > max_bytes),
    }
}

impl BodyAccumulator {
    /// All the bytes that passed through.
    pub open spec fn seen(self) -> Seq<u8> {
        absorbed(self.hasher)
    }

    /// Whether what is kept is the beginning of what passed through.
    pub open spec fn wf(self) -> bool {
        &&& self.retained_bytes@ == kept(self.seen(), self.max_bytes as nat)
        &&& self.truncated == (self.seen().len() > self.max_bytes)
        &&& self.saw_bytes == (self.seen().len() > 0)
    }

    /// A body of which nothing has passed through.
    pub fn new(max_bytes: usize) -> (body: BodyAccumulator)
        ensures
            body.wf(),
            body.seen() == Seq::<u8>::empty(),
            body.max_bytes == max_bytes,
    {
        BodyAccumulator {
            max_bytes,
            hasher: new_hasher(),
            retained_bytes: Vec::new(),
            truncated: false,
            saw_bytes: false,
        }
    }

    /// Takes note of bytes that pass through.
    pub fn observe(&mut self, chunk: &[u8])
        requires
            old(self).wf(),
        ensures
            final(self).wf(),
            final(self).seen() == old(self).seen() + chunk@,
            final(self).max_bytes == old(self).max_bytes,
    {
        if chunk.len() == 0 {
            assert(self.seen() + chunk@ =~= self.seen());
            return;
        }
        let ghost before = self.seen();
        let ghost kept_before = self.retained_bytes@;
        self.saw_bytes = true;
        absorb(&mut self.hasher, chunk);
        if self.retained_bytes.len() < self.max_bytes {
            let remaining: usize = self.max_bytes - self.retained_bytes.len();
            let take: usize = if remaining < chunk.len() {
                remaining
            } else {
                chunk.len()
            };
            let mut i: usize = 0;
            while i < take
                invariant
                    i <= take <= chunk.len(),
                    self.retained_bytes@ == kept_before + chunk@.take(i as int),
                    absorbed(self.hasher) == before + chunk@,
                    self.saw_bytes,
                    self.max_bytes == old(self).max_bytes,
                    self.truncated == old(self).truncated,
                decreases take - i,
            {
                self.retained_bytes.push(chunk[i]);
                i += 1;
            }
            assert(self.retained_bytes@ =~= kept(before + chunk@, self.max_bytes as nat));
            if take < chunk.len() {
                self.truncated = true;
            }
        } else {
            self.truncated = true;
            assert(kept_before =~= kept(before + chunk@, self.max_bytes as nat));
        }
    }

    /// What is to be logged of the body.
    pub fn finish(&self) -> (summary: BodySummary)
        requires
            self.wf(),
        ensures
            summary@ == body_summary(self.seen(), self.max_bytes as nat),
    {
        let sha256 = if self.saw_bytes {
            Some(encode_hex(digest_of(&self.hasher).as_slice()))
        } else {
            None
        };
        let preview_base64 = if self.retained_bytes.len() > 0 {
            Some(encode_base64(self.retained_bytes.as_slice()))
        } else {
            None
        };
        BodySummary { sha256, preview_base64, truncated: Some(self.truncated) }
    }
}

/// How a body is cut into chunks makes no difference to what is logged of it: what counts is all
/// that passed through, here in two steps and in one.
pub proof fn chunking_makes_no_difference(
    first: Seq<u8>,
    second: Seq<u8>,
    third: Seq<u8>,
    max_bytes: nat,
)
    ensures
        body_summary((first + second) + third, max_bytes) == body_summary(
            first + (second + third),
            max_bytes,
        ),
{
    assert((first + second) + third =~= first + (second + third));
}

/// A body is always digested whole and kept up to the cap, and truncation is recorded exactly
/// where it exceeds the cap.
pub proof fn bodies_are_kept_up_to_the_cap(body: Seq<u8>, max_bytes: nat)
    ensures
        kept(body, max_bytes).len() <= max_bytes,
        kept(body, max_bytes).is_prefix_of(body),
        body_summary(body, max_bytes).truncated == Some(kept(body, max_bytes) != body),
        body.len() > 0 ==> body_summary(body, max_bytes).sha256 == Some(hex_text(sha256(body))),
{
}

/// Of a body nothing is logged but its digest, its beginning and whether it is longer: the digest is
/// that of all of it, the beginning is its first bytes up to the cap, and an empty body has neither.
pub proof fn logs_of_bodies_say_what_they_are(body: Seq<u8>, max_bytes: nat)
    ensures
        ({
            let log = body_summary(body, max_bytes);
            &&& body.len() == 0 ==> log.sha256 is None && log.preview_base64 is None
            &&& body.len() > 0 ==> log.sha256 == Some(hex_text(sha256(body)))
            &&& 0 < body.len() <= max_bytes ==> log.preview_base64 == Some(base64_text(body))
            &&& body.len() > max_bytes > 0 ==> log.preview_base64 == Some(
                base64_text(body.take(max_bytes as int)),
            )
            &&& max_bytes == 0 ==> log.preview_base64 is None
            &&& log.truncated == Some(body.len() > max_bytes)
        }),
{
}

} // verus!
