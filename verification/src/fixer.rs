//! In-place rewrite of line terminators.
//!
//! [`Fixer::fix_content`] turns one file's content into the content with
//! every terminator replaced by the byte sequence of a chosen convention,
//! all other bytes copied unchanged and in order. The caller writes the
//! result back over the file, truncating it first, so the file's final
//! length equals exactly the length of the produced buffer.

use vstd::prelude::*;
use crate::stats::{LineSep, CR_BYTE, LF_BYTE, sep_at_head, head_step};

verus! {

/// The byte sequence that a convention writes for each terminator.
pub open spec fn sep_bytes(sep: LineSep) -> Seq<u8> {
    match sep {
        LineSep::Lf => seq![LF_BYTE],
        LineSep::CrLf => seq![CR_BYTE, LF_BYTE],
        LineSep::Cr => seq![CR_BYTE],
    }
}

/// `s` with every terminator found by the classification rule replaced by
/// `to`, and every other byte kept unchanged and in order.
pub open spec fn spec_normalize(s: Seq<u8>, to: Seq<u8>) -> Seq<u8>
    decreases s.len(),
{
    if s.len() == 0 {
        Seq::empty()
    } else if sep_at_head(s) is Some {
        to + spec_normalize(s.skip(head_step(s)), to)
    } else {
        seq![s[0]] + spec_normalize(s.skip(1), to)
    }
}

/// Rewrites file content to one target line-terminator convention.
#[derive(Debug)]
pub struct Fixer {
    pub file_name: String,
    pub to: Vec<u8>,
}

impl Fixer {
    /// A fixer for the named file that writes `to`'s byte sequence for
    /// every terminator.
    pub fn new(file_name: String, to: LineSep) -> (r: Fixer)
        ensures
            r.file_name@ == file_name@,
            r.to@ == sep_bytes(to),
    {
        let to = match to {
            LineSep::Lf => vec![LF_BYTE],
            LineSep::CrLf => vec![CR_BYTE, LF_BYTE],
            LineSep::Cr => vec![CR_BYTE],
        };
        Fixer { file_name, to }
    }

    /// Appends one target terminator to the output buffer, keeping
    /// `write_head` equal to the buffer's length.
    pub fn normalize_ending(&self, write_buf: &mut Vec<u8>, write_head: &mut usize)
        requires
            *old(write_head) == old(write_buf)@.len(),
        ensures
            final(write_buf)@ == old(write_buf)@ + self.to@,
            *final(write_head) == final(write_buf)@.len(),
    {
        let mut k: usize = 0;
        while k < self.to.len()
            invariant
                0 <= k <= self.to@.len(),
                write_buf@ == old(write_buf)@ + self.to@.subrange(0, k as int),
            decreases self.to@.len() - k,
        {
            write_buf.push(self.to[k]);
            proof {
                assert(old(write_buf)@ + self.to@.subrange(0, k + 1) =~= (old(write_buf)@
                    + self.to@.subrange(0, k as int)).push(self.to@[k as int]));
            }
            k = k + 1;
        }
        proof {
            assert(self.to@.subrange(0, self.to@.len() as int) =~= self.to@);
        }
        *write_head = write_buf.len();
    }

    /// The pure rewrite: the returned buffer is exactly `content` with
    /// every terminator replaced by this fixer's target sequence and every
    /// other byte unchanged and in order.
    pub fn fix_content(&self, content: &[u8]) -> (r: Vec<u8>)
        ensures
            r@ == spec_normalize(content@, self.to@),
    {
        broadcast use vstd::seq_lib::lemma_seq_skip_index, vstd::seq_lib::lemma_seq_skip_of_skip;

        let len = content.len();
        let mut write_buf: Vec<u8> = Vec::new();
        let mut write_head: usize = 0;
        let mut read_head: usize = 0;
        proof {
            assert(content@.skip(0) =~= content@);
            assert(write_buf@ + spec_normalize(content@, self.to@) =~= spec_normalize(
                content@,
                self.to@,
            ));
        }
        while read_head < len
            invariant
                len == content@.len(),
                0 <= read_head <= len,
                write_head == write_buf@.len(),
                spec_normalize(content@, self.to@) == write_buf@ + spec_normalize(
                    content@.skip(read_head as int),
                    self.to@,
                ),
            decreases len - read_head,
        {
            let ghost u = content@.skip(read_head as int);
            let ghost prev = write_buf@;
            let byte = content[read_head];
            if byte == CR_BYTE {
                self.normalize_ending(&mut write_buf, &mut write_head);
                let lf_index = read_head + 1;
                if lf_index < len && content[lf_index] == LF_BYTE {
                    proof {
                        assert(sep_at_head(u) == Some(LineSep::CrLf));
                        assert(u.skip(2) =~= content@.skip(read_head + 2));
                        assert(prev + (self.to@ + spec_normalize(u.skip(2), self.to@)) =~= (prev
                            + self.to@) + spec_normalize(u.skip(2), self.to@));
                    }
                    read_head = lf_index + 1;
                } else {
                    proof {
                        assert(sep_at_head(u) == Some(LineSep::Cr));
                        assert(u.skip(1) =~= content@.skip(read_head + 1));
                        assert(prev + (self.to@ + spec_normalize(u.skip(1), self.to@)) =~= (prev
                            + self.to@) + spec_normalize(u.skip(1), self.to@));
                    }
                    read_head = read_head + 1;
                }
            } else if byte == LF_BYTE {
                self.normalize_ending(&mut write_buf, &mut write_head);
                proof {
                    assert(sep_at_head(u) == Some(LineSep::Lf));
                    assert(u.skip(1) =~= content@.skip(read_head + 1));
                    assert(prev + (self.to@ + spec_normalize(u.skip(1), self.to@)) =~= (prev
                        + self.to@) + spec_normalize(u.skip(1), self.to@));
                }
                read_head = read_head + 1;
            } else {
                write_buf.push(byte);
                write_head = write_buf.len();
                proof {
                    assert(sep_at_head(u) is None);
                    assert(u.skip(1) =~= content@.skip(read_head + 1));
                    assert(prev + (seq![byte] + spec_normalize(u.skip(1), self.to@)) =~= prev.push(
                        byte,
                    ) + spec_normalize(u.skip(1), self.to@));
                }
                read_head = read_head + 1;
            }
        }
        proof {
            assert(content@.skip(len as int) =~= Seq::<u8>::empty());
            assert(write_buf@ + Seq::<u8>::empty() =~= write_buf@);
        }
        write_buf
    }
}

/// The first byte of normalized content is the target's first byte or a
/// byte that is neither `\r` nor `\n`.
proof fn lemma_normalize_head(s: Seq<u8>, to: Seq<u8>)
    requires
        to.len() > 0,
    ensures
        spec_normalize(s, to).len() == 0 || spec_normalize(s, to)[0] == to[0] || (spec_normalize(
            s,
            to,
        )[0] != CR_BYTE && spec_normalize(s, to)[0] != LF_BYTE),
{
    if s.len() > 0 {
        if sep_at_head(s) is Some {
            assert(spec_normalize(s, to)[0] == to[0]);
        } else {
            assert(spec_normalize(s, to)[0] == s[0]);
        }
    }
}

/// Normalizing content that begins with the target separator, followed by
/// content that does not begin with `\n`, consumes exactly that separator.
proof fn lemma_normalize_prepend_sep(t: Seq<u8>, sep: LineSep)
    requires
        sep is Cr ==> (t.len() == 0 || t[0] != LF_BYTE),
    ensures
        spec_normalize(sep_bytes(sep) + t, sep_bytes(sep)) == sep_bytes(sep) + spec_normalize(
            t,
            sep_bytes(sep),
        ),
{
    let to = sep_bytes(sep);
    let u = to + t;
    match sep {
        LineSep::Lf => {
            assert(u[0] == LF_BYTE);
            assert(sep_at_head(u) == Some(LineSep::Lf));
            assert(u.skip(1) =~= t);
        },
        LineSep::CrLf => {
            assert(u[0] == CR_BYTE && u[1] == LF_BYTE);
            assert(sep_at_head(u) == Some(LineSep::CrLf));
            assert(u.skip(2) =~= t);
        },
        LineSep::Cr => {
            assert(u[0] == CR_BYTE);
            assert(u.len() >= 2 ==> u[1] == t[0]);
            assert(sep_at_head(u) == Some(LineSep::Cr));
            assert(u.skip(1) =~= t);
        },
    }
}

/// Normalizing content that begins with a non-terminator byte keeps that
/// byte and goes on behind it.
proof fn lemma_normalize_prepend_byte(b: u8, t: Seq<u8>, to: Seq<u8>)
    requires
        b != CR_BYTE,
        b != LF_BYTE,
    ensures
        spec_normalize(seq![b] + t, to) == seq![b] + spec_normalize(t, to),
{
    let u = seq![b] + t;
    assert(u[0] == b);
    assert(sep_at_head(u) is None);
    assert(u.skip(1) =~= t);
}

/// Rewriting to a target convention is idempotent: normalizing already
/// normalized content changes nothing, so a second rewrite to the same
/// target produces byte-identical output.
pub proof fn lemma_normalize_idempotent(s: Seq<u8>, target: LineSep)
    ensures
        spec_normalize(spec_normalize(s, sep_bytes(target)), sep_bytes(target)) == spec_normalize(
            s,
            sep_bytes(target),
        ),
    decreases s.len(),
{
    let to = sep_bytes(target);
    if s.len() == 0 {
    } else if sep_at_head(s) is Some {
        let rest = s.skip(head_step(s));
        lemma_normalize_idempotent(rest, target);
        lemma_normalize_head(rest, to);
        lemma_normalize_prepend_sep(spec_normalize(rest, to), target);
    } else {
        let rest = s.skip(1);
        lemma_normalize_idempotent(rest, target);
        lemma_normalize_prepend_byte(s[0], spec_normalize(rest, to), to);
    }
}

} // verus!
