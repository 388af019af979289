//! The byte conversion that the transfer type applies to file data on the
//! data connection. In ASCII mode every line feed that does not already
//! follow a carriage return becomes `CR LF`; in binary mode bytes pass
//! unchanged. Data is converted chunk by chunk, as it arrives.

use vstd::prelude::*;
use crate::frame::{CR, LF};

verus! {

/// The transfer type of a session.
#[derive(Clone, Copy, Debug, PartialEq, Eq, Structural)]
pub enum TransferType {
    Ascii,
    Binary,
}

/// Byte `i` of `s` is a line feed with no carriage return before it.
pub open spec fn bare_lf(s: Seq<u8>, i: int) -> bool {
    s[i] == LF && (i == 0 || s[i - 1] != CR)
}

/// What byte `i` of `s` becomes in ASCII mode.
pub open spec fn ascii_piece(s: Seq<u8>, i: int) -> Seq<u8> {
    if bare_lf(s, i) {
        seq![CR, LF]
    } else {
        seq![s[i]]
    }
}

/// `s` with every bare line feed made `CR LF`.
pub open spec fn to_crlf(s: Seq<u8>) -> Seq<u8>
    decreases s.len(),
{
    if s.len() == 0 {
        Seq::empty()
    } else {
        to_crlf(s.drop_last()) + ascii_piece(s, s.len() - 1)
    }
}

/// What a whole stream `s` becomes under transfer type `t`.
pub open spec fn encoded(t: TransferType, s: Seq<u8>) -> Seq<u8> {
    match t {
        TransferType::Ascii => to_crlf(s),
        TransferType::Binary => s,
    }
}

/// Converts one stream, chunk by chunk.
pub struct Transcoder {
    transfer_type: TransferType,
    last_cr: bool,
    seen: Ghost<Seq<u8>>,
}

impl Transcoder {
    pub closed spec fn transfer_type(&self) -> TransferType {
        self.transfer_type
    }

    /// The bytes converted so far.
    pub closed spec fn seen(&self) -> Seq<u8> {
        self.seen@
    }

    pub closed spec fn wf(&self) -> bool {
        self.last_cr == (self.seen@.len() > 0 && self.seen@.last() == CR)
    }

    pub fn new(transfer_type: TransferType) -> (r: Transcoder)
        ensures
            r.wf(),
            r.transfer_type() == transfer_type,
            r.seen() == Seq::<u8>::empty(),
    {
        Transcoder { transfer_type, last_cr: false, seen: Ghost(Seq::empty()) }
    }

    /// Converts the next chunk of the stream. What all the calls return,
    /// in order, is the conversion of all the chunks together.
    pub fn encode(&mut self, chunk: &[u8]) -> (r: Vec<u8>)
        requires
            old(self).wf(),
        ensures
            final(self).wf(),
            final(self).transfer_type() == old(self).transfer_type(),
            final(self).seen() == old(self).seen() + chunk@,
            encoded(old(self).transfer_type(), old(self).seen()) + r@ == encoded(
                old(self).transfer_type(),
                final(self).seen(),
            ),
    {
        let ghost start = self.seen@;
        let mut out: Vec<u8> = Vec::new();
        let mut i: usize = 0;
        while i < chunk.len()
            invariant
                0 <= i <= chunk@.len(),
                self.transfer_type == old(self).transfer_type,
                start == old(self).seen@,
                self.seen@ == start + chunk@.take(i as int),
                self.last_cr == (self.seen@.len() > 0 && self.seen@.last() == CR),
                encoded(self.transfer_type, start) + out@ == encoded(
                    self.transfer_type,
                    self.seen@,
                ),
            decreases chunk@.len() - i,
        {
            let b = chunk[i];
            let ghost prev = self.seen@;
            let ghost next = prev.push(b);
            proof {
                assert(next.drop_last() =~= prev);
                assert(start + chunk@.take(i + 1) =~= next);
            }
            match self.transfer_type {
                TransferType::Ascii => {
                    if b == LF && !self.last_cr {
                        out.push(CR);
                        out.push(LF);
                    } else {
                        out.push(b);
                    }
                    assert(ascii_piece(next, next.len() - 1) == if b == LF && !self.last_cr {
                        seq![CR, LF]
                    } else {
                        seq![b]
                    });
                },
                TransferType::Binary => {
                    out.push(b);
                },
            }
            self.last_cr = b == CR;
            self.seen = Ghost(next);
            i = i + 1;
            proof {
                assert(encoded(self.transfer_type, start) + out@ =~= encoded(
                    self.transfer_type,
                    self.seen@,
                ));
            }
        }
        assert(chunk@.take(i as int) =~= chunk@);
        out
    }
}

/// No line feed of `s` is bare.
pub open spec fn no_bare_lf(s: Seq<u8>) -> bool {
    forall|i: int| 0 <= i < s.len() ==> !#[trigger] bare_lf(s, i)
}

/// Text whose line feeds all follow a carriage return passes unchanged.
pub proof fn lemma_crlf_fixed(s: Seq<u8>)
    requires
        no_bare_lf(s),
    ensures
        to_crlf(s) == s,
    decreases s.len(),
{
    if s.len() > 0 {
        let d = s.drop_last();
        assert forall|i: int| 0 <= i < d.len() implies !#[trigger] bare_lf(d, i) by {
            assert(!bare_lf(s, i));
        }
        lemma_crlf_fixed(d);
        assert(!bare_lf(s, s.len() - 1));
        assert(s =~= d + seq![s.last()]);
    }
}

/// The conversion leaves no bare line feed, and ends in the byte that the
/// input ends in.
pub proof fn lemma_crlf_no_bare(s: Seq<u8>)
    ensures
        no_bare_lf(to_crlf(s)),
        s.len() > 0 ==> to_crlf(s).len() > 0 && to_crlf(s).last() == s.last(),
    decreases s.len(),
{
    if s.len() > 0 {
        let d = s.drop_last();
        lemma_crlf_no_bare(d);
        let td = to_crlf(d);
        let p = ascii_piece(s, s.len() - 1);
        let t = to_crlf(s);
        assert(t == td + p);
        assert forall|i: int| 0 <= i < t.len() implies !#[trigger] bare_lf(t, i) by {
            if i < td.len() {
                assert(t[i] == td[i]);
                if i > 0 {
                    assert(t[i - 1] == td[i - 1]);
                }
                assert(!bare_lf(td, i));
            } else if bare_lf(s, s.len() - 1) {
                if i == td.len() {
                    assert(t[i] == CR);
                } else {
                    assert(t[i - 1] == CR);
                }
            } else if s.last() == LF {
                assert(s.len() > 1 && s[s.len() - 2] == CR);
                assert(d.last() == CR);
                assert(t[i - 1] == td.last());
            }
        }
    }
}

/// Binary mode is the identity: uploading and then downloading a file in
/// binary mode gives back the same bytes.
pub proof fn lemma_binary_round_trip(s: Seq<u8>)
    ensures
        encoded(TransferType::Binary, encoded(TransferType::Binary, s)) == s,
{
}

/// ASCII mode is stable under repetition: converting what was already
/// converted changes nothing, so each further upload or download of a file
/// stored in ASCII mode gives back the same bytes.
pub proof fn lemma_ascii_round_trip(s: Seq<u8>)
    ensures
        encoded(TransferType::Ascii, encoded(TransferType::Ascii, s)) == encoded(
            TransferType::Ascii,
            s,
        ),
{
    lemma_crlf_no_bare(s);
    lemma_crlf_fixed(to_crlf(s));
}

} // verus!
